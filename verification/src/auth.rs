//! Signing in with a pasted Cookie header: which pastes are taken, and when the account menu's
//! answer counts as a sign-in.

use vstd::prelude::*;

use crate::models::json::Json;
use crate::models::metadata::AccountInfo;
use crate::text::{chars_of, slice_to_vec, str_eq, string_of, trim, trim_bounds};
use crate::transport::{cookie_sapisid, spec_cookie_sapisid};

verus! {

/// Why a pasted cookie is refused before it is tried.
pub const NO_SAPISID: &'static str = "That cookie has no SAPISID — copy the full Cookie header from a logged-in music.youtube.com tab.";

/// Why a cookie that was tried is refused: the account menu named no account.
pub const NOT_AUTHENTICATED: &'static str = "That cookie didn't authenticate — copy a fresh Cookie header from a logged-in music.youtube.com tab (its session cookies rotate, so grab a current one) and try again.";

/// A pasted Cookie header as it is tried: trimmed, and only with a SAPISID in it.
pub fn pasted_cookie(cookie: &str) -> (r: Result<String, &'static str>)
    ensures
        match r {
            Ok(c) => c@ == trim(cookie@) && spec_cookie_sapisid(trim(cookie@)) is Some,
            Err(m) => spec_cookie_sapisid(trim(cookie@)) is None && m@ == NO_SAPISID@,
        },
{
    let v = chars_of(cookie);
    let (a, b) = trim_bounds(v.as_slice(), 0, v.len());
    assert(v@.subrange(0, v@.len() as int) == v@);
    let t = string_of(slice_to_vec(v.as_slice(), a, b).as_slice());
    match cookie_sapisid(t.as_str()) {
        Some(_) => Ok(t),
        None => Err(NO_SAPISID),
    }
}

/// The account menu's answer to a tried cookie: it authenticated exactly when the answer names
/// the account; otherwise the cookie is refused (and the caller takes it back off the session).
pub fn sign_in_verdict(info: &AccountInfo) -> (r: Result<(), &'static str>)
    ensures
        match r {
            Ok(()) => info.name is Some,
            Err(m) => info.name is None && m@ == NOT_AUTHENTICATED@,
        },
{
    match &info.name {
        Some(_) => Ok(()),
        None => Err(NOT_AUTHENTICATED),
    }
}

/// The settings a sign-out deletes: the session cookie, the acting account's id, the account
/// shown, and which saved account is active. The session goes back to a guest one
/// (`Session::sign_out`).
pub open spec fn sign_out_keys_view() -> Seq<Seq<char>> {
    seq!["session_cookie"@, "data_sync_id"@, "account_json"@, "active_account"@]
}

/// The settings a sign-out deletes, in that order.
pub fn sign_out_keys() -> (r: Vec<&'static str>)
    ensures
        r@.len() == sign_out_keys_view().len(),
        forall|i: int| 0 <= i < r@.len() ==> #[trigger] r@[i]@ == sign_out_keys_view()[i],
{
    let r = vec!["session_cookie", "data_sync_id", "account_json", "active_account"];
    r
}

/// The `signedIn` key of the account objects the UI gets.
pub open spec fn signed_in_key() -> Seq<char> {
    "signedIn"@
}

/// An object's entries without those under key `k`, in order.
pub open spec fn without_key(es: Seq<(String, Json)>, k: Seq<char>) -> Seq<(String, Json)>
    decreases es.len(),
{
    if es.len() == 0 {
        seq![]
    } else {
        let rest = without_key(es.drop_last(), k);
        if es.last().0@ == k {
            rest
        } else {
            rest.push(es.last())
        }
    }
}

/// The entries of the stored account kept in the snapshot: those of an object, but its
/// `signedIn`; nothing from anything else.
pub open spec fn snapshot_entries(stored: Option<Json>) -> Seq<(String, Json)> {
    match stored {
        Some(Json::Object(es)) => without_key(es@, signed_in_key()),
        _ => seq![],
    }
}

/// `r` is the object of `entries` followed by `signedIn: signed_in`.
pub open spec fn with_signed_in(r: Json, entries: Seq<(String, Json)>, signed_in: bool) -> bool {
    r matches Json::Object(es) && es@.len() == entries.len() + 1 && es@.take(entries.len() as int)
        == entries && es@.last().0@ == signed_in_key() && es@.last().1 == Json::Bool(signed_in)
}

/// The key `signedIn`.
fn signed_in_string() -> (r: String)
    ensures
        r@ == signed_in_key(),
{
    string_of(chars_of("signedIn").as_slice())
}

/// The current account as the UI gets it: the last stored account's display fields (an object;
/// anything else reads as the empty object), with `signedIn` saying whether the live session
/// holds a cookie.
pub fn account_snapshot(stored: Option<Json>, signed_in: bool) -> (r: Json)
    ensures
        with_signed_in(r, snapshot_entries(stored), signed_in),
{
    let mut out: Vec<(String, Json)> = Vec::new();
    match stored {
        Some(Json::Object(es)) => {
            let ghost all = es@;
            let mut rest = es;
            assert(all.len() == rest.len());
            let mut k: usize = 0;
            while rest.len() > 0
                invariant
                    k <= all.len() <= usize::MAX,
                    k + rest@.len() == all.len(),
                    rest@ == all.skip(k as int),
                    out@ == without_key(all.take(k as int), signed_in_key()),
                decreases rest.len(),
            {
                let e = rest.remove(0);
                assert(all.take(k + 1).drop_last() =~= all.take(k as int));
                assert(all.take(k + 1).last() == e);
                if !str_eq(e.0.as_str(), "signedIn") {
                    out.push(e);
                }
                k += 1;
                assert(rest@ =~= all.skip(k as int));
            }
            assert(all.take(k as int) =~= all);
        },
        _ => {},
    }
    let ghost before = out@;
    out.push((signed_in_string(), Json::Bool(signed_in)));
    assert(out@.take(before.len() as int) =~= before);
    Json::Object(out)
}

/// The `auth-changed` report after a sign-in or sign-out: `{"signedIn": signed_in}`.
pub fn auth_changed(signed_in: bool) -> (r: Json)
    ensures
        with_signed_in(r, seq![], signed_in),
{
    account_snapshot(None, signed_in)
}

} // verus!
