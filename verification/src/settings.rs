//! Which settings the renderer may see and change. Auth material and the other internal rows
//! of the settings table never leave the library's side: the renderer can neither read nor
//! overwrite them.

use vstd::prelude::*;

use crate::text::str_eq;

verus! {

/// A settings key that holds auth material or internal state: the session cookie, the selected
/// identity, the `DATASYNC_ID`, the account, the visitor id, a pending account selection, and
/// the persisted PoToken session token.
pub open spec fn internal_setting_key(k: Seq<char>) -> bool {
    ||| k == "session_cookie"@
    ||| k == "selected_identity_json"@
    ||| k == "data_sync_id"@
    ||| k == "account_json"@
    ||| k == "visitor_data"@
    ||| k == "account_selection_pending"@
    ||| k == "potoken_session"@
}

/// A key the renderer may read and write: any but the internal ones.
pub open spec fn ui_setting_key(k: Seq<char>) -> bool {
    !internal_setting_key(k)
}

/// Whether the renderer may read and write the setting `key`.
pub fn is_ui_setting(key: &str) -> (r: bool)
    ensures
        r == ui_setting_key(key@),
{
    !(str_eq(key, "session_cookie") || str_eq(key, "selected_identity_json") || str_eq(
        key,
        "data_sync_id",
    ) || str_eq(key, "account_json") || str_eq(key, "visitor_data") || str_eq(
        key,
        "account_selection_pending",
    ) || str_eq(key, "potoken_session"))
}

/// The rows of `rows` whose key is a UI setting, in order.
pub open spec fn ui_rows(rows: Seq<(String, String)>) -> Seq<(String, String)>
    decreases rows.len(),
{
    if rows.len() == 0 {
        Seq::empty()
    } else {
        let rest = ui_rows(rows.drop_last());
        if ui_setting_key(rows.last().0@) {
            rest.push(rows.last())
        } else {
            rest
        }
    }
}

/// The settings as the renderer gets them: exactly the rows whose key is a UI setting, in
/// their order.
pub fn renderer_settings(rows: Vec<(String, String)>) -> (r: Vec<(String, String)>)
    ensures
        r@ == ui_rows(rows@),
{
    let mut out: Vec<(String, String)> = Vec::new();
    let mut i: usize = 0;
    while i < rows.len()
        invariant
            0 <= i <= rows@.len(),
            out@ == ui_rows(rows@.take(i as int)),
        decreases rows.len() - i,
    {
        assert(rows@.take(i + 1).drop_last() =~= rows@.take(i as int));
        let key = rows[i].0.clone();
        let value = rows[i].1.clone();
        if is_ui_setting(key.as_str()) {
            out.push((key, value));
        }
        i += 1;
    }
    assert(rows@.take(rows@.len() as int) =~= rows@);
    out
}

} // verus!
