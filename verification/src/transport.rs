//! InnerTube session state: the cookie jar, its `SAPISID`, and the merge of rotated
//! `Set-Cookie` pairs into it.

use vstd::prelude::*;
use vstd::string::StrSliceExecFns;

use vstd::utf8::encode_utf8;

use crate::clients::YouTubeClient;
use crate::models::json::{deref_opt, item_at, items_of, str_of, Json};
use crate::models::context::{Context, Locale};
use crate::clock::{nanos_of, secs_of, since_epoch};
use crate::codec::{
    decimal, encode, hex_encode, hex_of, push_decimal, sha1, sha1_digest, url_encode, utf8_bytes,
};
use crate::text::{
    opt_str_view, opt_view, strings_view,
    chars_of, contains_char, extend_chars, find_char, has_char, pos_of, push_text, range_eq,
    range_eq_str, slice_to_vec, str_eq, string_of,
    lemma_split_nonempty, split_bounds, split_on, split_once, trim, trim_bounds,
};

verus! {

/// Session state, set once at startup / login.
#[derive(Debug, Clone)]
pub struct Session {
    pub locale: Locale,
    pub visitor_data: Option<String>,
    pub data_sync_id: Option<String>,
    /// Full cookie string. Present means authenticated requests are possible.
    pub cookie: Option<String>,
}

/// The value of one `key=value` cookie segment when its key is `SAPISID` or
/// `__Secure-3PAPISID`.
pub open spec fn segment_sapisid(seg: Seq<char>) -> Option<Seq<char>> {
    match split_once(seg, '=') {
        None => None,
        Some((k, v)) => if trim(k) == "SAPISID"@ || trim(k) == "__Secure-3PAPISID"@ {
            Some(trim(v))
        } else {
            None
        },
    }
}

/// The first segment that carries a SAPISID value.
pub open spec fn first_sapisid(segs: Seq<Seq<char>>) -> Option<Seq<char>>
    decreases segs.len(),
{
    if segs.len() == 0 {
        None
    } else {
        match segment_sapisid(segs[0]) {
            Some(v) => Some(v),
            None => first_sapisid(segs.drop_first()),
        }
    }
}

/// The `SAPISID` (or `__Secure-3PAPISID`) value of a Cookie header.
pub open spec fn spec_cookie_sapisid(cookie: Seq<char>) -> Option<Seq<char>> {
    first_sapisid(split_on(cookie, ';'))
}

proof fn lemma_first_sapisid_skip(done: Seq<Seq<char>>, rest: Seq<Seq<char>>)
    requires
        forall|j: int| 0 <= j < done.len() ==> segment_sapisid(#[trigger] done[j]) is None,
    ensures
        first_sapisid(done + rest) == first_sapisid(rest),
    decreases done.len(),
{
    if done.len() > 0 {
        assert((done + rest).drop_first() == done.drop_first() + rest);
        assert(segment_sapisid(done[0]) is None);
        lemma_first_sapisid_skip(done.drop_first(), rest);
    } else {
        assert(done + rest == rest);
    }
}

/// Split step of `split_on` at an occurrence found by `find_char`.
pub proof fn lemma_split_step(s: Seq<char>, st: int, e: int, c: char)
    requires
        0 <= st <= e < s.len(),
        pos_of(s.subrange(st, s.len() as int), c) == e - st,
    ensures
        split_on(s.skip(st), c) == seq![s.subrange(st, e)] + split_on(s.skip(e + 1), c),
{
    assert(s.subrange(st, s.len() as int) == s.skip(st));
    assert(s.skip(st).take(e - st) == s.subrange(st, e));
    assert(s.skip(st).skip(e - st + 1) == s.skip(e + 1));
}

/// Last step of `split_on`: no separator left.
pub proof fn lemma_split_last(s: Seq<char>, st: int, c: char)
    requires
        0 <= st <= s.len(),
        pos_of(s.subrange(st, s.len() as int), c) == -1,
    ensures
        split_on(s.skip(st), c) == seq![s.subrange(st, s.len() as int)],
{
    assert(s.subrange(st, s.len() as int) == s.skip(st));
}

/// The SAPISID of `v[lo..hi]` taken as one cookie segment, as char bounds of the trimmed value.
fn segment_sapisid_bounds(v: &[char], lo: usize, hi: usize) -> (r: Option<(usize, usize)>)
    requires
        lo <= hi <= v@.len(),
    ensures
        match r {
            Some((a, b)) => lo <= a <= b <= hi && segment_sapisid(v@.subrange(lo as int, hi as int))
                == Some(v@.subrange(a as int, b as int)),
            None => segment_sapisid(v@.subrange(lo as int, hi as int)) is None,
        },
{
    let seg = Ghost(v@.subrange(lo as int, hi as int));
    match find_char(v, '=', lo, hi) {
        None => None,
        Some(e) => {
            assert(seg@.take(e - lo) == v@.subrange(lo as int, e as int));
            assert(seg@.skip(e - lo + 1) == v@.subrange(e + 1, hi as int));
            let (ka, kb) = trim_bounds(v, lo, e);
            if range_eq_str(v, ka, kb, "SAPISID") || range_eq_str(v, ka, kb, "__Secure-3PAPISID") {
                let (a, b) = trim_bounds(v, e + 1, hi);
                Some((a, b))
            } else {
                None
            }
        },
    }
}

/// Extract the `SAPISID` (or its modern `__Secure-3PAPISID` alias) value from a Cookie header
/// string: the trimmed value of the first `;`-separated segment whose trimmed key is one of the
/// two names.
pub fn cookie_sapisid(cookie: &str) -> (r: Option<&str>)
    ensures
        match r {
            Some(s) => spec_cookie_sapisid(cookie@) == Some(s@),
            None => spec_cookie_sapisid(cookie@) is None,
        },
{
    let v = chars_of(cookie);
    let n = v.len();
    let mut st: usize = 0;
    let ghost mut done: Seq<Seq<char>> = seq![];
    assert(v@.skip(0) == v@);
    assert(done + split_on(v@, ';') == split_on(v@, ';'));
    loop
        invariant
            v@ == cookie@,
            n == v@.len(),
            st <= n,
            split_on(v@, ';') == done + split_on(v@.skip(st as int), ';'),
            forall|j: int| 0 <= j < done.len() ==> segment_sapisid(#[trigger] done[j]) is None,
        decreases n - st,
    {
        let end = find_char(v.as_slice(), ';', st, n);
        let hi = match end {
            Some(e) => e,
            None => n,
        };
        proof {
            match end {
                Some(e) => lemma_split_step(v@, st as int, e as int, ';'),
                None => lemma_split_last(v@, st as int, ';'),
            }
        }
        match segment_sapisid_bounds(v.as_slice(), st, hi) {
            Some((a, b)) => {
                proof {
                    lemma_first_sapisid_skip(done, split_on(v@.skip(st as int), ';'));
                }
                return Some(cookie.substring_char(a, b));
            },
            None => {},
        }
        match end {
            Some(e) => {
                proof {
                    let seg = v@.subrange(st as int, e as int);
                    assert(done + split_on(v@.skip(st as int), ';') == (done + seq![seg])
                        + split_on(v@.skip(e + 1), ';'));
                    done = done + seq![seg];
                }
                st = e + 1;
            },
            None => {
                proof {
                    let seg = v@.subrange(st as int, n as int);
                    lemma_first_sapisid_skip(done, split_on(v@.skip(st as int), ';'));
                    assert(seq![seg].drop_first() == Seq::<Seq<char>>::empty());
                    assert(seq![seg][0] == seg);
                    assert(first_sapisid(Seq::<Seq<char>>::empty()) is None);
                    assert(first_sapisid(seq![seg]) is None);
                }
                return None;
            },
        }
    }
}

impl Session {
    /// A signed-out session with no visitor id, in the default locale.
    pub fn new() -> (r: Session)
        ensures
            r.visitor_data is None,
            r.data_sync_id is None,
            r.cookie is None,
            r.locale.hl@.len() == 0 && r.locale.gl@.len() == 0,
    {
        Session {
            locale: Locale { hl: String::new(), gl: String::new() },
            visitor_data: None,
            data_sync_id: None,
            cookie: None,
        }
    }

    /// The request context for a client. The acting account (`onBehalfOfUser`) goes only with
    /// a cookie: without a credential it turns a request that works anonymously into a 401.
    pub fn context_for(&self, client: &YouTubeClient) -> (r: Context)
        ensures
            opt_view(r.user.on_behalf_of_user) == if self.cookie is Some {
                opt_view(self.data_sync_id)
            } else {
                None
            },
            opt_view(r.client.visitor_data) == opt_view(self.visitor_data),
            r.client.client_name == client.client_name,
            r.client.hl == self.locale.hl && r.client.gl == self.locale.gl,
    {
        let vd: Option<&str> = match &self.visitor_data {
            Some(v) => Some(v.as_str()),
            None => None,
        };
        let dsid: Option<&str> = match (&self.cookie, &self.data_sync_id) {
            (Some(_), Some(d)) => Some(d.as_str()),
            _ => None,
        };
        client.to_context(&self.locale, vd, dsid)
    }

    /// A one-off authenticated context for validating a candidate account id, leaving the
    /// committed one alone.
    pub fn context_for_identity(&self, client: &YouTubeClient, data_sync_id: &str) -> (r: Context)
        ensures
            opt_view(r.user.on_behalf_of_user) == if self.cookie is Some {
                Some(data_sync_id@)
            } else {
                None
            },
            opt_view(r.client.visitor_data) == opt_view(self.visitor_data),
    {
        let vd: Option<&str> = match &self.visitor_data {
            Some(v) => Some(v.as_str()),
            None => None,
        };
        let dsid: Option<&str> = match &self.cookie {
            Some(_) => Some(data_sync_id),
            None => None,
        };
        client.to_context(&self.locale, vd, dsid)
    }

    /// Sign out: back to a guest session, with no cookie and no acting account; the visitor id
    /// and the locale stay.
    pub fn sign_out(&mut self)
        ensures
            final(self).cookie is None,
            final(self).data_sync_id is None,
            final(self).visitor_data == old(self).visitor_data,
            final(self).locale == old(self).locale,
    {
        self.cookie = None;
        self.data_sync_id = None;
    }

    /// The `SAPISID` value out of the cookie string, if present.
    pub fn sapisid(&self) -> (r: Option<String>)
        ensures
            r matches Some(s) ==> self.cookie matches Some(c) && spec_cookie_sapisid(c@) == Some(
                s@,
            ),
            r is None ==> (self.cookie matches Some(c) ==> spec_cookie_sapisid(c@) is None),
    {
        match &self.cookie {
            None => None,
            Some(c) => match cookie_sapisid(c.as_str()) {
                Some(s) => Some(s.to_owned()),
                None => None,
            },
        }
    }
}

} // verus!

verus! {

/// Why a transport call failed.
#[derive(Debug, Clone)]
pub enum Error {
    /// The HTTP request failed.
    Http(String),
    /// The response was not the JSON expected.
    Json(String),
    VisitorDataNotFound,
    /// A signed-in browse came back signed out: the cookie went stale.
    SessionExpired,
    AlreadyInPlaylist,
    CoverRefused,
    Other(String),
}

/// The message shown for an error.
pub open spec fn error_text(e: Error) -> Seq<char> {
    match e {
        Error::Http(m) => "http: "@ + m@,
        Error::Json(m) => "json: "@ + m@,
        Error::VisitorDataNotFound => "visitorData not found in sw.js_data"@,
        Error::SessionExpired => "Your YouTube Music session expired — open the account menu and sign in again."@,
        Error::AlreadyInPlaylist => "This track is already in the playlist."@,
        Error::CoverRefused => "YouTube Music only allows custom playlist art on accounts with a verified phone number."@,
        Error::Other(m) => m@,
    }
}

impl Error {
    /// The message shown for the error.
    pub fn message(&self) -> (r: String)
        ensures
            r@ == error_text(*self),
    {
        let mut out: Vec<char> = Vec::new();
        match self {
            Error::Http(m) => {
                push_text(&mut out, "http: ");
                push_text(&mut out, m.as_str());
            },
            Error::Json(m) => {
                push_text(&mut out, "json: ");
                push_text(&mut out, m.as_str());
            },
            Error::VisitorDataNotFound => push_text(&mut out, "visitorData not found in sw.js_data"),
            Error::SessionExpired => push_text(
                &mut out,
                "Your YouTube Music session expired — open the account menu and sign in again.",
            ),
            Error::AlreadyInPlaylist => push_text(&mut out, "This track is already in the playlist."),
            Error::CoverRefused => push_text(
                &mut out,
                "YouTube Music only allows custom playlist art on accounts with a verified phone number.",
            ),
            Error::Other(m) => push_text(&mut out, m.as_str()),
        }
        string_of(out.as_slice())
    }
}

/// Where the JSON of a `sw.js_data` body starts: its first `[` (the junk guard before it is
/// dropped).
pub open spec fn json_start_of(body: Seq<char>) -> Option<Seq<char>> {
    let p = pos_of(body, '[');
    if p < 0 {
        None
    } else {
        Some(body.skip(p))
    }
}

/// The JSON part of a `sw.js_data` body; `VisitorDataNotFound` without one.
pub fn visitor_json(body: &str) -> (r: Result<&str, Error>)
    ensures
        match r {
            Ok(t) => json_start_of(body@) == Some(t@),
            Err(e) => json_start_of(body@) is None && e is VisitorDataNotFound,
        },
{
    let v = chars_of(body);
    match find_char(v.as_slice(), '[', 0, v.len()) {
        Some(i) => {
            assert(v@.subrange(0, v@.len() as int) == v@);
            Ok(body.substring_char(i, v.len()))
        },
        None => {
            assert(v@.subrange(0, v@.len() as int) == v@);
            Err(Error::VisitorDataNotFound)
        },
    }
}

/// The first string among `s` that starts with `Cgt` or `Cgs`.
pub open spec fn first_visitor_id(s: Seq<Json>) -> Option<Seq<char>>
    decreases s.len(),
{
    if s.len() == 0 {
        None
    } else {
        match str_of(Some(s[0])) {
            Some(t) => if crate::text::starts_with(t, "Cgt"@) || crate::text::starts_with(t, "Cgs"@) {
                Some(t)
            } else {
                first_visitor_id(s.drop_first())
            },
            None => first_visitor_id(s.drop_first()),
        }
    }
}

/// The visitorData of a parsed `sw.js_data` body: among the strings at `[0][2]`, the first
/// that starts with `Cgt` or `Cgs`.
pub open spec fn visitor_data_of(v: Json) -> Option<Seq<char>> {
    match item_at(v, 0) {
        Some(first) => match items_of(item_at(first, 2)) {
            Some(a) => first_visitor_id(a),
            None => None,
        },
        None => None,
    }
}

/// The visitorData of a parsed `sw.js_data` body; `VisitorDataNotFound` without one.
pub fn visitor_data_from(value: &Json) -> (r: Result<String, Error>)
    ensures
        match r {
            Ok(t) => visitor_data_of(*value) == Some(t@),
            Err(e) => visitor_data_of(*value) is None && e is VisitorDataNotFound,
        },
{
    let arr = match value.at(0) {
        Some(first) => match first.at(2) {
            Some(x) => match x.as_array() {
                Some(a) => a,
                None => return Err(Error::VisitorDataNotFound),
            },
            None => return Err(Error::VisitorDataNotFound),
        },
        None => return Err(Error::VisitorDataNotFound),
    };
    let mut i: usize = 0;
    assert(arr@.skip(0) == arr@);
    while i < arr.len()
        invariant
            0 <= i <= arr@.len(),
            visitor_data_of(*value) == first_visitor_id(arr@.skip(i as int)),
        decreases arr.len() - i,
    {
        assert(arr@.skip(i as int).drop_first() == arr@.skip(i + 1));
        assert(arr@.skip(i as int)[0] == arr@[i as int]);
        match arr[i].as_str() {
            Some(t) => {
                if crate::models::browse::starts_with_text(t, "Cgt")
                    || crate::models::browse::starts_with_text(t, "Cgs") {
                    return Ok(t.to_owned());
                }
            },
            None => {},
        }
        i += 1;
    }
    Err(Error::VisitorDataNotFound)
}

/// A cookie as `(name, value)`.
pub type Pair = (Seq<char>, Seq<char>);

/// One jar segment `k=v`: the segment trimmed, split at its first `=`, both sides trimmed.
pub open spec fn jar_pair(seg: Seq<char>) -> Option<Pair> {
    match split_once(trim(seg), '=') {
        Some((k, v)) => Some((trim(k), trim(v))),
        None => None,
    }
}

/// The pairs of a list of jar segments, segments without `=` dropped.
pub open spec fn jar_pairs(segs: Seq<Seq<char>>) -> Seq<Pair>
    decreases segs.len(),
{
    if segs.len() == 0 {
        seq![]
    } else {
        let rest = jar_pairs(segs.drop_last());
        match jar_pair(segs.last()) {
            Some(p) => rest.push(p),
            None => rest,
        }
    }
}

/// The cookies of a Cookie header, in order.
pub open spec fn jar_entries(jar: Seq<char>) -> Seq<Pair> {
    jar_pairs(split_on(jar, ';'))
}

pub open spec fn render_pair(p: Pair) -> Seq<char> {
    p.0 + seq!['='] + p.1
}

/// Cookies rendered as a Cookie header: `k=v` joined by `"; "`.
pub open spec fn render_jar(e: Seq<Pair>) -> Seq<char>
    decreases e.len(),
{
    if e.len() == 0 {
        seq![]
    } else if e.len() == 1 {
        render_pair(e[0])
    } else {
        render_jar(e.drop_last()) + seq![';', ' '] + render_pair(e.last())
    }
}

pub open spec fn ascii_lower(c: char) -> char {
    if 'A' <= c && c <= 'Z' {
        ((c as u32) + 32) as char
    } else {
        c
    }
}

/// `str::eq_ignore_ascii_case`.
pub open spec fn eq_ignore_ascii_case(a: Seq<char>, b: Seq<char>) -> bool {
    a.len() == b.len() && forall|i: int| 0 <= i < a.len() ==> ascii_lower(a[i]) == ascii_lower(b[i])
}

/// A `Set-Cookie` attribute `Max-Age=0` (name case-insensitive, both sides trimmed).
pub open spec fn is_delete_attr(attr: Seq<char>) -> bool {
    match split_once(trim(attr), '=') {
        Some((k, v)) => eq_ignore_ascii_case(trim(k), "max-age"@) && trim(v) == "0"@,
        None => false,
    }
}

/// The cookie a `Set-Cookie` sets, from its first `;` segment: trimmed and split at `=`, the
/// name trimmed (empty names and names with a space are refused), the value as is.
pub open spec fn head_name_value(head: Seq<char>) -> Option<Pair> {
    match split_once(trim(head), '=') {
        None => None,
        Some((n0, value)) => {
            let name = trim(n0);
            if name.len() == 0 || contains_char(name, ' ') {
                None
            } else {
                Some((name, value))
            }
        },
    }
}

/// A `Set-Cookie` value as `(name, value, deleted)`; `deleted` when a segment after the first is
/// `Max-Age=0`.
pub open spec fn set_cookie_pair(raw: Seq<char>) -> Option<(Seq<char>, Seq<char>, bool)> {
    let parts = split_on(raw, ';');
    match head_name_value(parts[0]) {
        None => None,
        Some((name, value)) => Some(
            (name, value, exists|j: int| 1 <= j < parts.len() && is_delete_attr(#[trigger] parts[j])),
        ),
    }
}

/// The cookies whose name is not `name`.
pub open spec fn remove_named(e: Seq<Pair>, name: Seq<char>) -> Seq<Pair>
    decreases e.len(),
{
    if e.len() == 0 {
        seq![]
    } else {
        let rest = remove_named(e.drop_last(), name);
        if e.last().0 == name {
            rest
        } else {
            rest.push(e.last())
        }
    }
}

/// Index of the first cookie named `name`, or -1.
pub open spec fn first_named(e: Seq<Pair>, name: Seq<char>) -> int
    decreases e.len(),
{
    if e.len() == 0 {
        -1
    } else {
        let r = first_named(e.drop_last(), name);
        if r >= 0 {
            r
        } else if e.last().0 == name {
            e.len() - 1
        } else {
            -1
        }
    }
}

/// One `Set-Cookie` applied to the jar's cookies: delete every cookie of that name, or replace the
/// value of the first one, or append a new cookie. The flag says whether the jar changed.
pub open spec fn apply_set_cookie(e: Seq<Pair>, name: Seq<char>, value: Seq<char>, deleted: bool) -> (
    Seq<Pair>,
    bool,
) {
    if deleted {
        let f = remove_named(e, name);
        (f, f.len() != e.len())
    } else {
        let i = first_named(e, name);
        if i >= 0 {
            (e.update(i, (name, value)), e[i].1 != value)
        } else {
            (e.push((name, value)), true)
        }
    }
}

/// Merge one `Set-Cookie` into `(jar, changed)`; the jar is re-rendered from its parsed cookies.
pub open spec fn merge_step(state: (Seq<char>, bool), raw: Seq<char>) -> (Seq<char>, bool) {
    match set_cookie_pair(raw) {
        None => state,
        Some((n, v, d)) => {
            let r = apply_set_cookie(jar_entries(state.0), n, v, d);
            (render_jar(r.0), state.1 || r.1)
        },
    }
}

/// All `Set-Cookie` values merged in order, starting from an unchanged jar.
pub open spec fn merge_all(jar: Seq<char>, raws: Seq<Seq<char>>) -> (Seq<char>, bool)
    decreases raws.len(),
{
    if raws.len() == 0 {
        (jar, false)
    } else {
        merge_step(merge_all(jar, raws.drop_last()), raws.last())
    }
}

/// The session cookie after a response's `Set-Cookie` values are merged: only into an existing
/// jar, only when the jar's SAPISID is still the one the request was sent with, and only when a
/// cookie actually changed.
pub open spec fn merged_cookie(
    cookie: Option<Seq<char>>,
    raws: Seq<Seq<char>>,
    dispatched: Option<Seq<char>>,
) -> Option<Seq<char>> {
    match cookie {
        None => None,
        Some(jar) => if spec_cookie_sapisid(jar) != dispatched {
            Some(jar)
        } else {
            let r = merge_all(jar, raws);
            if r.1 {
                Some(r.0)
            } else {
                Some(jar)
            }
        },
    }
}

/// The merge gate: `Set-Cookie` values never create a session (no jar stays no jar), are never
/// merged into a jar whose identity is no longer the one the request was sent with, and a
/// response that changes no cookie leaves the jar text exactly as it was.
pub proof fn law_merge_gate(jar: Option<Seq<char>>, raws: Seq<Seq<char>>, dispatched: Option<Seq<char>>)
    ensures
        jar is None ==> merged_cookie(jar, raws, dispatched) is None,
        jar matches Some(j) && spec_cookie_sapisid(j) != dispatched ==> merged_cookie(
            jar,
            raws,
            dispatched,
        ) == jar,
        jar matches Some(j) && !merge_all(j, raws).1 ==> merged_cookie(jar, raws, dispatched)
            == jar,
{
}

proof fn lemma_remove_named(e: Seq<Pair>, name: Seq<char>)
    ensures
        forall|j: int|
            0 <= j < remove_named(e, name).len() ==> (#[trigger] remove_named(e, name)[j]).0 != name,
        remove_named(e, name).len() <= e.len(),
        (forall|j: int| 0 <= j < e.len() ==> (#[trigger] e[j]).0 != name) ==> remove_named(e, name)
            == e,
    decreases e.len(),
{
    if e.len() > 0 {
        let d = e.drop_last();
        lemma_remove_named(d, name);
        if forall|j: int| 0 <= j < e.len() ==> (#[trigger] e[j]).0 != name {
            assert forall|j: int| 0 <= j < d.len() implies (#[trigger] d[j]).0 != name by {
                assert(d[j] == e[j]);
            }
            assert(e.last() == e[e.len() - 1]);
            assert(d.push(e.last()) == e);
        }
    }
}

proof fn lemma_first_named_range(e: Seq<Pair>, name: Seq<char>)
    ensures
        -1 <= first_named(e, name) < e.len(),
        first_named(e, name) >= 0 ==> e[first_named(e, name)].0 == name,
        first_named(e, name) < 0 ==> forall|j: int| 0 <= j < e.len() ==> (#[trigger] e[j]).0 != name,
    decreases e.len(),
{
    if e.len() > 0 {
        let d = e.drop_last();
        lemma_first_named_range(d, name);
        if first_named(d, name) >= 0 {
            assert(e[first_named(d, name)] == d[first_named(d, name)]);
        }
        if first_named(e, name) < 0 {
            assert forall|j: int| 0 <= j < e.len() implies (#[trigger] e[j]).0 != name by {
                if j < d.len() {
                    assert(e[j] == d[j]);
                }
            }
        }
    }
}

/// What one `Set-Cookie` does to the jar's cookies: `Max-Age=0` leaves no cookie of that name
/// (and the others in order); otherwise the cookie of that name carries the new value, an
/// existing one in place (the number of cookies unchanged), a new one at the end.
pub proof fn law_set_cookie_effect(e: Seq<Pair>, name: Seq<char>, value: Seq<char>)
    ensures
        forall|j: int|
            0 <= j < apply_set_cookie(e, name, value, true).0.len() ==> (#[trigger] apply_set_cookie(
                e,
                name,
                value,
                true,
            ).0[j]).0 != name,
        apply_set_cookie(e, name, value, true).0 == remove_named(e, name),
        ({
            let f = apply_set_cookie(e, name, value, false).0;
            let i = first_named(e, name);
            if i >= 0 {
                f.len() == e.len() && f[i] == (name, value) && forall|j: int|
                    0 <= j < e.len() && j != i ==> #[trigger] f[j] == e[j]
            } else {
                f == e.push((name, value))
            }
        }),
{
    lemma_remove_named(e, name);
    lemma_first_named_range(e, name);
}

pub open spec fn pairs_view(e: Seq<(Vec<char>, Vec<char>)>) -> Seq<Pair> {
    e.map_values(|p: (Vec<char>, Vec<char>)| (p.0@, p.1@))
}

/// Parse one jar segment `v[lo..hi]`.
fn parse_jar_pair(v: &[char], lo: usize, hi: usize) -> (r: Option<(Vec<char>, Vec<char>)>)
    requires
        lo <= hi <= v@.len(),
    ensures
        match r {
            Some(p) => jar_pair(v@.subrange(lo as int, hi as int)) == Some((p.0@, p.1@)),
            None => jar_pair(v@.subrange(lo as int, hi as int)) is None,
        },
{
    let (a, b) = trim_bounds(v, lo, hi);
    let t = Ghost(v@.subrange(a as int, b as int));
    match find_char(v, '=', a, b) {
        None => None,
        Some(e) => {
            assert(t@.take(e - a) == v@.subrange(a as int, e as int));
            assert(t@.skip(e - a + 1) == v@.subrange(e + 1, b as int));
            let (ka, kb) = trim_bounds(v, a, e);
            let (va, vb) = trim_bounds(v, e + 1, b);
            Some((slice_to_vec(v, ka, kb), slice_to_vec(v, va, vb)))
        },
    }
}

/// The cookies of a jar.
fn parse_jar(v: &[char]) -> (r: Vec<(Vec<char>, Vec<char>)>)
    ensures
        pairs_view(r@) == jar_entries(v@),
{
    let b = split_bounds(v, ';');
    let ghost segs = split_on(v@, ';');
    let mut r: Vec<(Vec<char>, Vec<char>)> = Vec::new();
    let mut i: usize = 0;
    while i < b.len()
        invariant
            b@.len() == segs.len(),
            segs == split_on(v@, ';'),
            forall|k: int|
                0 <= k < b@.len() ==> #[trigger] b@[k].0 <= b@[k].1 <= v@.len() && v@.subrange(
                    b@[k].0 as int,
                    b@[k].1 as int,
                ) == segs[k],
            0 <= i <= b@.len(),
            pairs_view(r@) == jar_pairs(segs.take(i as int)),
        decreases b.len() - i,
    {
        let (lo, hi) = b[i];
        assert(b@[i as int].0 <= b@[i as int].1 <= v@.len());
        assert(segs.take(i + 1).drop_last() == segs.take(i as int));
        assert(segs.take(i + 1).last() == segs[i as int]);
        match parse_jar_pair(v, lo, hi) {
            Some(p) => {
                r.push(p);
                assert(pairs_view(r@) == jar_pairs(segs.take(i as int)).push((p.0@, p.1@)));
            },
            None => {},
        }
        i += 1;
    }
    assert(segs.take(b@.len() as int) == segs);
    r
}

/// Render cookies as a Cookie header.
fn render(e: &Vec<(Vec<char>, Vec<char>)>) -> (r: Vec<char>)
    ensures
        r@ == render_jar(pairs_view(e@)),
{
    let mut r: Vec<char> = Vec::new();
    let mut i: usize = 0;
    while i < e.len()
        invariant
            0 <= i <= e@.len(),
            r@ == render_jar(pairs_view(e@).take(i as int)),
        decreases e.len() - i,
    {
        let ghost pv = pairs_view(e@);
        assert(pv.take(i + 1).drop_last() == pv.take(i as int));
        assert(pv.take(i + 1).last() == pv[i as int]);
        if i > 0 {
            r.push(';');
            r.push(' ');
        }
        extend_chars(&mut r, e[i].0.as_slice());
        r.push('=');
        extend_chars(&mut r, e[i].1.as_slice());
        proof {
            if i == 0 {
                assert(pv.take(1)[0] == pv[0]);
            }
        }
        i += 1;
    }
    assert(pairs_view(e@).take(e@.len() as int) == pairs_view(e@));
    r
}

/// Whether any segment after the first is `Max-Age=0`.
fn any_delete_attr(raw: &[char], parts: &Vec<(usize, usize)>) -> (r: bool)
    requires
        parts@.len() == split_on(raw@, ';').len(),
        forall|k: int|
            0 <= k < parts@.len() ==> #[trigger] parts@[k].0 <= parts@[k].1 <= raw@.len()
                && raw@.subrange(parts@[k].0 as int, parts@[k].1 as int) == split_on(raw@, ';')[k],
    ensures
        r == exists|k: int| 1 <= k < parts@.len() && is_delete_attr(#[trigger] split_on(raw@, ';')[k]),
{
    let ghost ps = split_on(raw@, ';');
    let mut j: usize = 1;
    while j < parts.len()
        invariant
            parts@.len() == ps.len(),
            ps == split_on(raw@, ';'),
            forall|k: int|
                0 <= k < parts@.len() ==> #[trigger] parts@[k].0 <= parts@[k].1 <= raw@.len()
                    && raw@.subrange(parts@[k].0 as int, parts@[k].1 as int) == ps[k],
            1 <= j || parts@.len() == 0,
            forall|k: int| 1 <= k < j ==> !is_delete_attr(#[trigger] ps[k]),
        decreases parts.len() - j,
    {
        let (pa, pb) = parts[j];
        assert(parts@[j as int].0 <= parts@[j as int].1 <= raw@.len());
        if is_delete_range(raw, pa, pb) {
            return true;
        }
        j += 1;
    }
    false
}

/// The cookie named by the head segment `v[lo..hi]` of a `Set-Cookie`.
fn parse_head(raw: &[char], lo: usize, hi: usize) -> (r: Option<(Vec<char>, Vec<char>)>)
    requires
        lo <= hi <= raw@.len(),
    ensures
        match r {
            Some(p) => head_name_value(raw@.subrange(lo as int, hi as int)) == Some((p.0@, p.1@)),
            None => head_name_value(raw@.subrange(lo as int, hi as int)) is None,
        },
{
    let (a, b) = trim_bounds(raw, lo, hi);
    let t = Ghost(raw@.subrange(a as int, b as int));
    match find_char(raw, '=', a, b) {
        None => None,
        Some(e) => {
            assert(t@.take(e - a) == raw@.subrange(a as int, e as int));
            assert(t@.skip(e - a + 1) == raw@.subrange(e + 1, b as int));
            let (na, nb) = trim_bounds(raw, a, e);
            if na == nb || has_char(raw, na, nb, ' ') {
                return None;
            }
            Some((slice_to_vec(raw, na, nb), slice_to_vec(raw, e + 1, b)))
        },
    }
}

/// Parse a `Set-Cookie` value.
#[verifier::rlimit(60)]
fn parse_set_cookie(raw: &[char]) -> (r: Option<(Vec<char>, Vec<char>, bool)>)
    ensures
        match r {
            Some(t) => set_cookie_pair(raw@) == Some((t.0@, t.1@, t.2)),
            None => set_cookie_pair(raw@) is None,
        },
{
    let parts = split_bounds(raw, ';');
    proof {
        lemma_split_nonempty(raw@, ';');
    }
    let (lo, hi) = parts[0];
    assert(raw@.subrange(lo as int, hi as int) == split_on(raw@, ';')[0]);
    match parse_head(raw, lo, hi) {
        None => None,
        Some((name, value)) => {
            let deleted = any_delete_attr(raw, &parts);
            Some((name, value, deleted))
        },
    }
}

/// ASCII-case-insensitive comparison of `v[lo..hi]` with `p`.
fn range_eq_ignore_ascii_case(v: &[char], lo: usize, hi: usize, p: &str) -> (r: bool)
    requires
        lo <= hi <= v@.len(),
    ensures
        r == eq_ignore_ascii_case(v@.subrange(lo as int, hi as int), p@),
{
    let pv = chars_of(p);
    if hi - lo != pv.len() {
        return false;
    }
    let mut i: usize = 0;
    while i < pv.len()
        invariant
            pv@ == p@,
            hi - lo == pv@.len(),
            lo <= hi <= v@.len(),
            0 <= i <= pv@.len(),
            forall|j: int| 0 <= j < i ==> ascii_lower(v@[lo + j]) == ascii_lower(pv@[j]),
        decreases pv.len() - i,
    {
        if lower(v[lo + i]) != lower(pv[i]) {
            assert(v@.subrange(lo as int, hi as int)[i as int] == v@[lo + i]);
            return false;
        }
        i += 1;
    }
    assert forall|j: int| 0 <= j < hi - lo implies ascii_lower(
        v@.subrange(lo as int, hi as int)[j],
    ) == ascii_lower(p@[j]) by {
        assert(v@.subrange(lo as int, hi as int)[j] == v@[lo + j]);
    }
    true
}

fn lower(c: char) -> (r: char)
    ensures
        r == ascii_lower(c),
{
    if 'A' <= c && c <= 'Z' {
        ((c as u8) + 32) as char
    } else {
        c
    }
}

/// Whether the attribute `v[lo..hi]` is `Max-Age=0`.
fn is_delete_range(v: &[char], lo: usize, hi: usize) -> (r: bool)
    requires
        lo <= hi <= v@.len(),
    ensures
        r == is_delete_attr(v@.subrange(lo as int, hi as int)),
{
    let (a, b) = trim_bounds(v, lo, hi);
    let t = Ghost(v@.subrange(a as int, b as int));
    match find_char(v, '=', a, b) {
        None => false,
        Some(e) => {
            assert(t@.take(e - a) == v@.subrange(a as int, e as int));
            assert(t@.skip(e - a + 1) == v@.subrange(e + 1, b as int));
            let (ka, kb) = trim_bounds(v, a, e);
            let (va, vb) = trim_bounds(v, e + 1, b);
            range_eq_ignore_ascii_case(v, ka, kb, "max-age") && range_eq_str(v, va, vb, "0")
        },
    }
}

} // verus!

verus! {

/// Whether two character vectors are equal.
fn chars_eq(a: &Vec<char>, b: &Vec<char>) -> (r: bool)
    ensures
        r == (a@ == b@),
{
    let r = range_eq(a.as_slice(), 0, a.len(), b.as_slice());
    assert(a@.subrange(0, a@.len() as int) == a@);
    r
}

fn remove_named_vec(e: &Vec<(Vec<char>, Vec<char>)>, name: &Vec<char>) -> (r: Vec<(Vec<char>, Vec<char>)>)
    ensures
        pairs_view(r@) == remove_named(pairs_view(e@), name@),
{
    let ghost pv = pairs_view(e@);
    let mut r: Vec<(Vec<char>, Vec<char>)> = Vec::new();
    let mut i: usize = 0;
    while i < e.len()
        invariant
            pv == pairs_view(e@),
            0 <= i <= e@.len(),
            pairs_view(r@) == remove_named(pv.take(i as int), name@),
        decreases e.len() - i,
    {
        assert(pv.take(i + 1).drop_last() == pv.take(i as int));
        assert(pv.take(i + 1).last() == pv[i as int]);
        if !chars_eq(&e[i].0, name) {
            r.push((e[i].0.clone(), e[i].1.clone()));
            assert(pairs_view(r@) == remove_named(pv.take(i as int), name@).push(pv[i as int]));
        }
        i += 1;
    }
    assert(pv.take(e@.len() as int) == pv);
    r
}

fn first_named_vec(e: &Vec<(Vec<char>, Vec<char>)>, name: &Vec<char>) -> (r: Option<usize>)
    ensures
        match r {
            Some(i) => first_named(pairs_view(e@), name@) == i && i < e@.len(),
            None => first_named(pairs_view(e@), name@) == -1,
        },
{
    let ghost pv = pairs_view(e@);
    let mut i: usize = 0;
    while i < e.len()
        invariant
            pv == pairs_view(e@),
            0 <= i <= e@.len(),
            first_named(pv.take(i as int), name@) == -1,
        decreases e.len() - i,
    {
        assert(pv.take(i + 1).drop_last() == pv.take(i as int));
        assert(pv.take(i + 1).last() == pv[i as int]);
        if chars_eq(&e[i].0, name) {
            proof {
                lemma_first_named_prefix(pv, name@, i as int);
            }
            return Some(i);
        }
        i += 1;
    }
    assert(pv.take(e@.len() as int) == pv);
    None
}

/// `first_named` of a sequence agrees with that of any prefix that already holds the name.
proof fn lemma_first_named_prefix(e: Seq<Pair>, name: Seq<char>, i: int)
    requires
        0 <= i < e.len(),
        first_named(e.take(i + 1), name) == i,
    ensures
        first_named(e, name) == i,
    decreases e.len(),
{
    if e.len() > i + 1 {
        assert(e.drop_last().take(i + 1) == e.take(i + 1));
        lemma_first_named_prefix(e.drop_last(), name, i);
    } else {
        assert(e.take(i + 1) == e);
    }
}

fn apply_vec(e: Vec<(Vec<char>, Vec<char>)>, name: Vec<char>, value: Vec<char>, deleted: bool) -> (r: (
    Vec<(Vec<char>, Vec<char>)>,
    bool,
))
    ensures
        (pairs_view(r.0@), r.1) == apply_set_cookie(pairs_view(e@), name@, value@, deleted),
{
    if deleted {
        let f = remove_named_vec(&e, &name);
        let changed = f.len() != e.len();
        (f, changed)
    } else {
        match first_named_vec(&e, &name) {
            Some(i) => {
                let changed = !chars_eq(&e[i].1, &value);
                let mut e2 = e;
                let ghost before = pairs_view(e2@);
                e2.set(i, (name, value));
                assert(pairs_view(e2@) == before.update(i as int, (name@, value@)));
                (e2, changed)
            },
            None => {
                let mut e2 = e;
                let ghost before = pairs_view(e2@);
                e2.push((name, value));
                assert(pairs_view(e2@) == before.push((name@, value@)));
                (e2, true)
            },
        }
    }
}

impl Session {
    /// Apply `Set-Cookie` values to the session jar (name → value, `Max-Age=0` deletes). They come
    /// from authenticated responses only, so every pair belongs to the session that made the
    /// request: `dispatched_sapisid` is that session's identity at dispatch, and when the jar was
    /// switched (account switch, sign-out) while the request was in flight, nothing is merged.
    pub fn merge_set_cookies(&mut self, set_cookies: &[String], dispatched_sapisid: Option<&str>)
        ensures
            opt_view(final(self).cookie) == merged_cookie(
                opt_view(old(self).cookie),
                strings_view(set_cookies@),
                opt_str_view(dispatched_sapisid),
            ),
            final(self).visitor_data == old(self).visitor_data,
            final(self).data_sync_id == old(self).data_sync_id,
            final(self).locale == old(self).locale,
    {
        let jar = match &self.cookie {
            None => return ,
            Some(c) => c.clone(),
        };
        let same = match (self.sapisid(), dispatched_sapisid) {
            (None, None) => true,
            (Some(a), Some(b)) => str_eq(a.as_str(), b),
            _ => false,
        };
        if !same {
            return ;
        }
        let ghost raws = strings_view(set_cookies@);
        let mut cur = chars_of(jar.as_str());
        let mut changed = false;
        let mut i: usize = 0;
        assert(raws.take(0) == Seq::<Seq<char>>::empty());
        while i < set_cookies.len()
            invariant
                raws == strings_view(set_cookies@),
                0 <= i <= set_cookies@.len(),
                (cur@, changed) == merge_all(jar@, raws.take(i as int)),
            decreases set_cookies.len() - i,
        {
            assert(raws.take(i + 1).drop_last() == raws.take(i as int));
            assert(raws.take(i + 1).last() == set_cookies@[i as int]@);
            let raw = chars_of(set_cookies[i].as_str());
            match parse_set_cookie(raw.as_slice()) {
                None => {},
                Some((n, v, d)) => {
                    let e = parse_jar(cur.as_slice());
                    let (e2, c) = apply_vec(e, n, v, d);
                    cur = render(&e2);
                    changed = changed || c;
                },
            }
            i += 1;
        }
        assert(raws.take(set_cookies@.len() as int) == raws);
        if changed {
            self.cookie = Some(string_of(cur.as_slice()));
        }
    }
}

} // verus!

verus! {

/// `&` when a URL already carries a query, `?` otherwise.
pub open spec fn query_sep(base: Seq<char>) -> char {
    if contains_char(base, '?') {
        '&'
    } else {
        '?'
    }
}

/// The playback-tracking URL: the base URL (which carries YouTube's own query), then
/// `c=<client>&cpn=<cpn>&ver=2`, then `&list=<id>&referrer=<id>` inside a playlist; every value
/// percent-encoded.
pub open spec fn playback_url(
    base: Seq<char>,
    client_name: Seq<char>,
    cpn: Seq<char>,
    playlist_id: Option<Seq<char>>,
) -> Seq<char> {
    let head = base.push(query_sep(base)) + "c="@ + url_encode(client_name) + "&cpn="@ + url_encode(
        cpn,
    ) + "&ver=2"@;
    match playlist_id {
        Some(l) => head + "&list="@ + url_encode(l) + "&referrer="@ + url_encode(l),
        None => head,
    }
}

/// Build the playback-tracking GET URL that registers a play in watch history.
pub fn build_playback_url(
    base_url: &str,
    client_name: &str,
    cpn: &str,
    playlist_id: Option<&str>,
) -> (r: String)
    ensures
        r@ == playback_url(base_url@, client_name@, cpn@, opt_str_view(playlist_id)),
{
    let mut out = chars_of(base_url);
    let sep = if has_char(out.as_slice(), 0, out.len(), '?') {
        '&'
    } else {
        '?'
    };
    assert(out@.subrange(0, out@.len() as int) == base_url@);
    out.push(sep);
    push_text(&mut out, "c=");
    let c = encode(client_name);
    push_text(&mut out, c.as_str());
    push_text(&mut out, "&cpn=");
    let n = encode(cpn);
    push_text(&mut out, n.as_str());
    push_text(&mut out, "&ver=2");
    match playlist_id {
        Some(list) => {
            let enc = encode(list);
            push_text(&mut out, "&list=");
            push_text(&mut out, enc.as_str());
            push_text(&mut out, "&referrer=");
            push_text(&mut out, enc.as_str());
        },
        None => {},
    }
    string_of(out.as_slice())
}

/// The InnerTube API root.
pub const BASE_URL: &'static str = "https://music.youtube.com/youtubei/v1/";

/// The origin the web client speaks for.
pub const ORIGIN: &'static str = "https://music.youtube.com";

pub const REFERER: &'static str = "https://music.youtube.com/";

/// Where anonymous visitor data is bootstrapped from.
pub const SW_JS_DATA_URL: &'static str = "https://music.youtube.com/sw.js_data";

/// The CPN alphabet: 64 URL-safe characters, six bits each.
pub const CPN_CHARS: &'static str = "ABCDEFGHIJKLMNOPQRSTUVWXYZabcdefghijklmnopqrstuvwxyz0123456789-_";

/// The character a 6-bit value picks from the CPN alphabet
/// `A-Z a-z 0-9 - _` (64 URL-safe characters).
pub open spec fn cpn_char(d: u64) -> char {
    if d < 26 {
        ((0x41 + d) as u8) as char
    } else if d < 52 {
        ((0x61 + d - 26) as u8) as char
    } else if d < 62 {
        ((0x30 + d - 52) as u8) as char
    } else if d == 62 {
        '-'
    } else {
        '_'
    }
}

/// Whether a character belongs to the CPN alphabet.
pub open spec fn is_cpn_char(c: char) -> bool {
    ('A' <= c <= 'Z') || ('a' <= c <= 'z') || ('0' <= c <= '9') || c == '-' || c == '_'
}

/// One xorshift-64 step (13, 7, 17).
pub open spec fn xorshift(s: u64) -> u64 {
    let a = s ^ (s << 13u64);
    let b = a ^ (a >> 7u64);
    b ^ (b << 17u64)
}

/// The low six bits of the first sixteen xorshift states of a difference vanish only when the
/// difference does: the sixteen samples determine the state.
proof fn lemma_samples_determine(d: u64, d1: u64, d2: u64, d3: u64, d4: u64, d5: u64, d6: u64, d7: u64, d8: u64, d9: u64, d10: u64, d11: u64, d12: u64, d13: u64, d14: u64, d15: u64, d16: u64)
    by (bit_vector)
    requires
        d1 == ((d ^ (d << 13u64)) ^ ((d ^ (d << 13u64)) >> 7u64)) ^ (((d ^ (d << 13u64)) ^ ((d ^ (d << 13u64)) >> 7u64)) << 17u64),
        d2 == ((d1 ^ (d1 << 13u64)) ^ ((d1 ^ (d1 << 13u64)) >> 7u64)) ^ (((d1 ^ (d1 << 13u64)) ^ ((d1 ^ (d1 << 13u64)) >> 7u64)) << 17u64),
        d3 == ((d2 ^ (d2 << 13u64)) ^ ((d2 ^ (d2 << 13u64)) >> 7u64)) ^ (((d2 ^ (d2 << 13u64)) ^ ((d2 ^ (d2 << 13u64)) >> 7u64)) << 17u64),
        d4 == ((d3 ^ (d3 << 13u64)) ^ ((d3 ^ (d3 << 13u64)) >> 7u64)) ^ (((d3 ^ (d3 << 13u64)) ^ ((d3 ^ (d3 << 13u64)) >> 7u64)) << 17u64),
        d5 == ((d4 ^ (d4 << 13u64)) ^ ((d4 ^ (d4 << 13u64)) >> 7u64)) ^ (((d4 ^ (d4 << 13u64)) ^ ((d4 ^ (d4 << 13u64)) >> 7u64)) << 17u64),
        d6 == ((d5 ^ (d5 << 13u64)) ^ ((d5 ^ (d5 << 13u64)) >> 7u64)) ^ (((d5 ^ (d5 << 13u64)) ^ ((d5 ^ (d5 << 13u64)) >> 7u64)) << 17u64),
        d7 == ((d6 ^ (d6 << 13u64)) ^ ((d6 ^ (d6 << 13u64)) >> 7u64)) ^ (((d6 ^ (d6 << 13u64)) ^ ((d6 ^ (d6 << 13u64)) >> 7u64)) << 17u64),
        d8 == ((d7 ^ (d7 << 13u64)) ^ ((d7 ^ (d7 << 13u64)) >> 7u64)) ^ (((d7 ^ (d7 << 13u64)) ^ ((d7 ^ (d7 << 13u64)) >> 7u64)) << 17u64),
        d9 == ((d8 ^ (d8 << 13u64)) ^ ((d8 ^ (d8 << 13u64)) >> 7u64)) ^ (((d8 ^ (d8 << 13u64)) ^ ((d8 ^ (d8 << 13u64)) >> 7u64)) << 17u64),
        d10 == ((d9 ^ (d9 << 13u64)) ^ ((d9 ^ (d9 << 13u64)) >> 7u64)) ^ (((d9 ^ (d9 << 13u64)) ^ ((d9 ^ (d9 << 13u64)) >> 7u64)) << 17u64),
        d11 == ((d10 ^ (d10 << 13u64)) ^ ((d10 ^ (d10 << 13u64)) >> 7u64)) ^ (((d10 ^ (d10 << 13u64)) ^ ((d10 ^ (d10 << 13u64)) >> 7u64)) << 17u64),
        d12 == ((d11 ^ (d11 << 13u64)) ^ ((d11 ^ (d11 << 13u64)) >> 7u64)) ^ (((d11 ^ (d11 << 13u64)) ^ ((d11 ^ (d11 << 13u64)) >> 7u64)) << 17u64),
        d13 == ((d12 ^ (d12 << 13u64)) ^ ((d12 ^ (d12 << 13u64)) >> 7u64)) ^ (((d12 ^ (d12 << 13u64)) ^ ((d12 ^ (d12 << 13u64)) >> 7u64)) << 17u64),
        d14 == ((d13 ^ (d13 << 13u64)) ^ ((d13 ^ (d13 << 13u64)) >> 7u64)) ^ (((d13 ^ (d13 << 13u64)) ^ ((d13 ^ (d13 << 13u64)) >> 7u64)) << 17u64),
        d15 == ((d14 ^ (d14 << 13u64)) ^ ((d14 ^ (d14 << 13u64)) >> 7u64)) ^ (((d14 ^ (d14 << 13u64)) ^ ((d14 ^ (d14 << 13u64)) >> 7u64)) << 17u64),
        d16 == ((d15 ^ (d15 << 13u64)) ^ ((d15 ^ (d15 << 13u64)) >> 7u64)) ^ (((d15 ^ (d15 << 13u64)) ^ ((d15 ^ (d15 << 13u64)) >> 7u64)) << 17u64),
        d1 & 63u64 == 0u64,
        d2 & 63u64 == 0u64,
        d3 & 63u64 == 0u64,
        d4 & 63u64 == 0u64,
        d5 & 63u64 == 0u64,
        d6 & 63u64 == 0u64,
        d7 & 63u64 == 0u64,
        d8 & 63u64 == 0u64,
        d9 & 63u64 == 0u64,
        d10 & 63u64 == 0u64,
        d11 & 63u64 == 0u64,
        d12 & 63u64 == 0u64,
        d13 & 63u64 == 0u64,
        d14 & 63u64 == 0u64,
        d15 & 63u64 == 0u64,
        d16 & 63u64 == 0u64,
    ensures
        d == 0u64,
{
}

/// xorshift is linear over XOR.
proof fn lemma_xorshift_xor(a: u64, b: u64)
    ensures
        xorshift(a) ^ xorshift(b) == xorshift(a ^ b),
{
    assert((a ^ (a << 13u64)) ^ (b ^ (b << 13u64)) == (a ^ b) ^ ((a ^ b) << 13u64)) by (bit_vector);
    let x = a ^ (a << 13u64);
    let y = b ^ (b << 13u64);
    assert((x ^ (x >> 7u64)) ^ (y ^ (y >> 7u64)) == (x ^ y) ^ ((x ^ y) >> 7u64)) by (bit_vector);
    let u = x ^ (x >> 7u64);
    let v = y ^ (y >> 7u64);
    assert((u ^ (u << 17u64)) ^ (v ^ (v << 17u64)) == (u ^ v) ^ ((u ^ v) << 17u64)) by (bit_vector);
}

/// So are the generator's states.
proof fn lemma_state_xor(a: u64, b: u64, k: nat)
    ensures
        cpn_state(a, k) ^ cpn_state(b, k) == cpn_state(a ^ b, k),
    decreases k,
{
    if k > 0 {
        lemma_state_xor(a, b, (k - 1) as nat);
        lemma_xorshift_xor(cpn_state(a, (k - 1) as nat), cpn_state(b, (k - 1) as nat));
    }
}

/// Distinct six-bit values give distinct characters.
proof fn lemma_cpn_char_injective(x: u64, y: u64)
    requires
        x < 64,
        y < 64,
        cpn_char(x) == cpn_char(y),
    ensures
        x == y,
{
}

/// Equal nonces have equal samples: the difference of their states has no low six bits.
proof fn lemma_sample_vanishes(a: u64, b: u64, i: nat)
    requires
        cpn_text(a) == cpn_text(b),
        1 <= i <= 16,
    ensures
        cpn_state(a ^ b, i) & 63u64 == 0u64,
{
    let sa = cpn_state(a, i);
    let sb = cpn_state(b, i);
    let j: int = i - 1;
    assert(((j + 1) as nat) == i);
    assert(cpn_text(a)[j] == cpn_char(sa & 63));
    assert(cpn_text(b)[j] == cpn_char(sb & 63));
    assert(cpn_text(a)[j] == cpn_text(b)[j]);
    assert((sa & 63u64) < 64u64) by (bit_vector);
    assert((sb & 63u64) < 64u64) by (bit_vector);
    lemma_cpn_char_injective(sa & 63u64, sb & 63u64);
    lemma_state_xor(a, b, i);
    assert((sa & 63u64) == (sb & 63u64) ==> ((sa ^ sb) & 63u64) == 0u64) by (bit_vector);
}

/// Nonces read at one clock reading with different salts differ, but for the one pair of salts
/// whose states are 0 and `0xDEAD_BEEF`, the state a zero state is replaced by.
pub proof fn law_distinct_salts_distinct_nonces(nanos: u64, s1: u64, s2: u64)
    requires
        s1 != s2,
        !(cpn_raw(nanos, s1) == 0 && cpn_raw(nanos, s2) == 0xDEAD_BEEF),
        !(cpn_raw(nanos, s2) == 0 && cpn_raw(nanos, s1) == 0xDEAD_BEEF),
    ensures
        cpn_text(cpn_seed(nanos, s1)) != cpn_text(cpn_seed(nanos, s2)),
{
    lemma_raw_injective(nanos, s1, s2);
    law_distinct_states_distinct_nonces(cpn_seed(nanos, s1), cpn_seed(nanos, s2));
}

/// Two generator states give the same nonce only when they are the same state: the sixteen
/// six-bit samples determine the state.
pub proof fn law_distinct_states_distinct_nonces(a: u64, b: u64)
    ensures
        cpn_text(a) == cpn_text(b) ==> a == b,
{
    if cpn_text(a) == cpn_text(b) {
        let d = a ^ b;
        let d1 = cpn_state(d, 1nat);
        lemma_sample_vanishes(a, b, 1nat);
        let d2 = cpn_state(d, 2nat);
        lemma_sample_vanishes(a, b, 2nat);
        let d3 = cpn_state(d, 3nat);
        lemma_sample_vanishes(a, b, 3nat);
        let d4 = cpn_state(d, 4nat);
        lemma_sample_vanishes(a, b, 4nat);
        let d5 = cpn_state(d, 5nat);
        lemma_sample_vanishes(a, b, 5nat);
        let d6 = cpn_state(d, 6nat);
        lemma_sample_vanishes(a, b, 6nat);
        let d7 = cpn_state(d, 7nat);
        lemma_sample_vanishes(a, b, 7nat);
        let d8 = cpn_state(d, 8nat);
        lemma_sample_vanishes(a, b, 8nat);
        let d9 = cpn_state(d, 9nat);
        lemma_sample_vanishes(a, b, 9nat);
        let d10 = cpn_state(d, 10nat);
        lemma_sample_vanishes(a, b, 10nat);
        let d11 = cpn_state(d, 11nat);
        lemma_sample_vanishes(a, b, 11nat);
        let d12 = cpn_state(d, 12nat);
        lemma_sample_vanishes(a, b, 12nat);
        let d13 = cpn_state(d, 13nat);
        lemma_sample_vanishes(a, b, 13nat);
        let d14 = cpn_state(d, 14nat);
        lemma_sample_vanishes(a, b, 14nat);
        let d15 = cpn_state(d, 15nat);
        lemma_sample_vanishes(a, b, 15nat);
        let d16 = cpn_state(d, 16nat);
        lemma_sample_vanishes(a, b, 16nat);
        reveal_with_fuel(cpn_state, 2);
        assert(cpn_state(d, 0nat) == d);
        assert(d1 == xorshift(d));
        assert(d2 == xorshift(d1));
        assert(d3 == xorshift(d2));
        assert(d4 == xorshift(d3));
        assert(d5 == xorshift(d4));
        assert(d6 == xorshift(d5));
        assert(d7 == xorshift(d6));
        assert(d8 == xorshift(d7));
        assert(d9 == xorshift(d8));
        assert(d10 == xorshift(d9));
        assert(d11 == xorshift(d10));
        assert(d12 == xorshift(d11));
        assert(d13 == xorshift(d12));
        assert(d14 == xorshift(d13));
        assert(d15 == xorshift(d14));
        assert(d16 == xorshift(d15));
        lemma_samples_determine(d, d1, d2, d3, d4, d5, d6, d7, d8, d9, d10, d11, d12, d13, d14, d15, d16);
        assert(a ^ b == 0u64 ==> a == b) by (bit_vector);
    }
}

/// The generator's state from the clock and a salt, before a zero state is replaced.
pub open spec fn cpn_raw(nanos: u64, salt: u64) -> u64 {
    (nanos ^ salt.wrapping_mul(0x9E37_79B9_7F4A_7C15)).wrapping_add(0x1234_567)
}

/// The salt's multiplier is odd, so its inverse modulo 2^64 reads the salt back.
proof fn lemma_bump_reads_back(x: u64)
    ensures
        (x.wrapping_mul(0x9E37_79B9_7F4A_7C15) as int) * 0xF1DE_83E1_9937_733D
            % 0x1_0000_0000_0000_0000 == x,
{
    let m: int = 0x1_0000_0000_0000_0000;
    let k: int = 0x9E37_79B9_7F4A_7C15;
    let ki: int = 0xF1DE_83E1_9937_733D;
    let q: int = 10771413168148108919;
    let xi: int = x as int;
    assert(k * ki == 1 + q * m);
    let a: int = (xi * k) % m;
    assert(x.wrapping_mul(0x9E37_79B9_7F4A_7C15) as int == a);
    vstd::arithmetic::div_mod::lemma_mul_mod_noop_left(xi * k, ki, m);
    assert(xi * k * ki == m * (xi * q) + xi) by (nonlinear_arith)
        requires
            k * ki == 1 + q * m,
    ;
    vstd::arithmetic::div_mod::lemma_mod_multiples_vanish(xi * q, xi, m);
    vstd::arithmetic::div_mod::lemma_small_mod(x as nat, m as nat);
}

/// Different salts give different states before the zero replacement, at one clock reading.
proof fn lemma_raw_injective(nanos: u64, s1: u64, s2: u64)
    requires
        s1 != s2,
    ensures
        cpn_raw(nanos, s1) != cpn_raw(nanos, s2),
{
    let b1 = s1.wrapping_mul(0x9E37_79B9_7F4A_7C15);
    let b2 = s2.wrapping_mul(0x9E37_79B9_7F4A_7C15);
    lemma_bump_reads_back(s1);
    lemma_bump_reads_back(s2);
    assert(b1 != b2);
    assert(b1 != b2 ==> (nanos ^ b1) != (nanos ^ b2)) by (bit_vector);
}

/// The generator's start state from the clock and a salt; never zero.
pub open spec fn cpn_seed(nanos: u64, salt: u64) -> u64 {
    let st = cpn_raw(nanos, salt);
    if st == 0 {
        0xDEAD_BEEF
    } else {
        st
    }
}

/// The state after `k` xorshift steps.
pub open spec fn cpn_state(seed: u64, k: nat) -> u64
    decreases k,
{
    if k == 0 {
        seed
    } else {
        xorshift(cpn_state(seed, (k - 1) as nat))
    }
}

/// The 16 characters of a CPN: character `i` is picked by the low 6 bits of the state after
/// `i + 1` steps.
pub open spec fn cpn_text(seed: u64) -> Seq<char> {
    Seq::new(16, |i: int| cpn_char(cpn_state(seed, (i + 1) as nat) & 63))
}

fn cpn_digit(d: u64) -> (c: char)
    requires
        d < 64,
    ensures
        c == cpn_char(d),
        is_cpn_char(c),
{
    if d < 26 {
        ((0x41 + d) as u8) as char
    } else if d < 52 {
        ((0x61 + d - 26) as u8) as char
    } else if d < 62 {
        ((0x30 + d - 52) as u8) as char
    } else if d == 62 {
        '-'
    } else {
        '_'
    }
}

/// The Content Playback Nonce that a clock reading in nanoseconds and a salt give: 16
/// characters of the URL-safe alphabet.
pub fn cpn_from(nanos: u64, salt: u64) -> (r: String)
    ensures
        r@ == cpn_text(cpn_seed(nanos, salt)),
        r@.len() == 16,
        forall|i: int| 0 <= i < 16 ==> is_cpn_char(#[trigger] r@[i]),
{
    let bump = salt.wrapping_mul(0x9E37_79B9_7F4A_7C15);
    let mut state = (nanos ^ bump).wrapping_add(0x1234_567);
    if state == 0 {
        state = 0xDEAD_BEEF;
    }
    let ghost seed = state;
    assert(seed == cpn_seed(nanos, salt));
    let mut out: Vec<char> = Vec::new();
    let mut k: usize = 0;
    while k < 16
        invariant
            k <= 16,
            seed == cpn_seed(nanos, salt),
            state == cpn_state(seed, k as nat),
            out@.len() == k,
            forall|i: int|
                0 <= i < k ==> out@[i] == cpn_char(cpn_state(seed, (i + 1) as nat) & 63),
            forall|i: int| 0 <= i < k ==> is_cpn_char(#[trigger] out@[i]),
        decreases 16 - k,
    {
        let a = state ^ (state << 13u64);
        let b = a ^ (a >> 7u64);
        state = b ^ (b << 17u64);
        assert(state == cpn_state(seed, (k + 1) as nat));
        let d = state & 63;
        assert(d < 64) by (bit_vector)
            requires
                d == state & 63,
        ;
        out.push(cpn_digit(d));
        k += 1;
    }
    assert(out@ == cpn_text(seed));
    string_of(out.as_slice())
}

/// The counter after one nonce: one more, wrapping.
pub open spec fn next_count(n: u64) -> u64 {
    if n == u64::MAX {
        0
    } else {
        (n + 1) as u64
    }
}

/// The counter that salts each nonce of a run, held by the caller for the life of the process:
/// each nonce takes the current count, which then moves on by one.
#[derive(Debug)]
pub struct CpnCounter {
    pub next: u64,
}

impl CpnCounter {
    /// A counter at 0, as at the start of a run.
    pub fn new() -> (r: CpnCounter)
        ensures
            r.next == 0,
    {
        CpnCounter { next: 0 }
    }
}

/// A fresh 16-character Content Playback Nonce for one playback, from the wall clock and the
/// run's counter: only unique per playback, not unpredictable. The count used is the counter's
/// value, which moves on by one.
pub fn generate_cpn(counter: &mut CpnCounter) -> (r: String)
    ensures
        exists|nanos: u64| r@ == cpn_text(cpn_seed(nanos, old(counter).next)),
        final(counter).next == next_count(old(counter).next),
        r@.len() == 16,
        forall|i: int| 0 <= i < 16 ==> is_cpn_char(#[trigger] r@[i]),
{
    let nanos = nanos_of(since_epoch());
    let salt = counter.next;
    counter.next = counter.next.wrapping_add(1);
    cpn_from(nanos, salt)
}

/// Two nonces taken one after the other from a run's counter at one clock reading differ, but
/// for the one count whose state is 0 while the next one's is `0xDEAD_BEEF`, or the reverse.
pub proof fn law_successive_nonces_differ(nanos: u64, n: u64)
    requires
        !(cpn_raw(nanos, n) == 0 && cpn_raw(nanos, next_count(n)) == 0xDEAD_BEEF),
        !(cpn_raw(nanos, next_count(n)) == 0 && cpn_raw(nanos, n) == 0xDEAD_BEEF),
    ensures
        cpn_text(cpn_seed(nanos, n)) != cpn_text(cpn_seed(nanos, next_count(n))),
{
    law_distinct_salts_distinct_nonces(nanos, n, next_count(n));
}

/// The `Authorization` header value at a given epoch second:
/// `SAPISIDHASH <epoch>_<hex sha1 of "<epoch> <sapisid> <origin>">`.
pub open spec fn sapisid_hash_text(epoch: u64, sapisid: Seq<char>, origin: Seq<char>) -> Seq<char> {
    "SAPISIDHASH "@ + decimal(epoch as nat) + "_"@ + sapisid_hash_hex(epoch, sapisid, origin)
}

/// The hex part of the `SAPISIDHASH` value: the SHA-1 of `<epoch> <sapisid> <origin>`.
pub open spec fn sapisid_hash_hex(epoch: u64, sapisid: Seq<char>, origin: Seq<char>) -> Seq<char> {
    hex_of(sha1(encode_utf8(decimal(epoch as nat) + " "@ + sapisid + " "@ + origin)))
}

/// The lower-case hex SHA-1 of a text's UTF-8 bytes.
pub fn sha1_hex(input: &str) -> (r: Vec<char>)
    ensures
        r@ == hex_of(sha1(encode_utf8(input@))),
        r@.len() == 40,
{
    let digest = sha1_digest(utf8_bytes(input));
    hex_encode(digest.as_slice())
}

/// `SAPISIDHASH` header value for a given epoch second.
pub fn sapisid_hash_at(epoch: u64, sapisid: &str, origin: &str) -> (r: String)
    ensures
        r@ == sapisid_hash_text(epoch, sapisid@, origin@),
        sapisid_hash_hex(epoch, sapisid@, origin@).len() == 40,
{
    let mut msg: Vec<char> = Vec::new();
    push_decimal(&mut msg, epoch);
    push_text(&mut msg, " ");
    push_text(&mut msg, sapisid);
    push_text(&mut msg, " ");
    push_text(&mut msg, origin);
    let text = string_of(msg.as_slice());
    let hex = sha1_hex(text.as_str());
    let mut out: Vec<char> = Vec::new();
    push_text(&mut out, "SAPISIDHASH ");
    push_decimal(&mut out, epoch);
    push_text(&mut out, "_");
    extend_chars(&mut out, hex.as_slice());
    string_of(out.as_slice())
}

/// `Authorization: SAPISIDHASH <epoch>_<sha1(epoch SAPISID origin)>` for the current second.
pub fn sapisid_hash(sapisid: &str, origin: &str) -> (r: String)
    ensures
        exists|epoch: u64|
            r@ == sapisid_hash_text(epoch, sapisid@, origin@) && sapisid_hash_hex(
                epoch,
                sapisid@,
                origin@,
            ).len() == 40,
{
    let epoch = secs_of(since_epoch());
    sapisid_hash_at(epoch, sapisid, origin)
}

} // verus!

verus! {

/// A request header as `(name, value)`.
pub type Header = (Seq<char>, Seq<char>);

/// The views of header pairs.
pub open spec fn headers_view(h: Seq<(String, String)>) -> Seq<Header> {
    h.map_values(|p: (String, String)| (p.0@, p.1@))
}

/// Whether a request carries the session's login: asked for, and the client supports it.
pub open spec fn login_applies(client: YouTubeClient, set_login: bool) -> bool {
    set_login && client.login_supported
}

/// The headers every request carries for a client.
pub open spec fn base_headers(client: YouTubeClient) -> Seq<Header> {
    seq![
        ("content-type"@, "application/json"@),
        ("accept"@, "application/json"@),
        ("accept-language"@, "en-US,en;q=0.9"@),
        ("x-goog-api-format-version"@, "1"@),
        ("x-youtube-client-name"@, client.client_id@),
        ("x-youtube-client-version"@, client.client_version@),
        ("x-origin"@, ORIGIN@),
        ("referer"@, REFERER@),
        ("user-agent"@, client.user_agent@),
    ]
}

/// The headers of a request from a session at second `epoch`: the client's, the visitor id when
/// there is one, and, when the login applies and there is a cookie, the cookie and (with a
/// SAPISID in it) its `SAPISIDHASH` authorization.
pub open spec fn request_headers_of(s: Session, client: YouTubeClient, set_login: bool, epoch: u64) -> Seq<Header> {
    let visitor: Seq<Header> = match s.visitor_data {
        Some(vd) => seq![("x-goog-visitor-id"@, vd@)],
        None => seq![],
    };
    let login: Seq<Header> = if login_applies(client, set_login) {
        match s.cookie {
            Some(c) => seq![("cookie"@, c@)] + match spec_cookie_sapisid(c@) {
                Some(sap) => seq![("authorization"@, sapisid_hash_text(epoch, sap, ORIGIN@))],
                None => seq![],
            },
            None => seq![],
        }
    } else {
        seq![]
    };
    base_headers(client) + visitor + login
}

/// The identity a request is dispatched under: the SAPISID of the session's cookie when the
/// login applies, else none. It gates the merge of the response's `Set-Cookie` values.
pub open spec fn dispatched_of(s: Session, client: YouTubeClient, set_login: bool) -> Option<Seq<char>> {
    if login_applies(client, set_login) {
        match s.cookie {
            Some(c) => spec_cookie_sapisid(c@),
            None => None,
        }
    } else {
        None
    }
}

fn push_header(h: &mut Vec<(String, String)>, name: &str, value: &str)
    ensures
        headers_view(final(h)@) == headers_view(old(h)@).push((name@, value@)),
{
    let ghost before = h@;
    h.push((name.to_owned(), value.to_owned()));
    assert(headers_view(h@) =~= headers_view(before).push((name@, value@)));
}

impl Session {
    /// The headers of a request at second `epoch` and the identity it is dispatched under, both
    /// read from this one session, so that the cookie sent and the merge gate describe the same
    /// jar.
    pub fn request_headers_at(&self, client: &YouTubeClient, set_login: bool, epoch: u64) -> (r: (
        Vec<(String, String)>,
        Option<String>,
    ))
        ensures
            headers_view(r.0@) == request_headers_of(*self, *client, set_login, epoch),
            opt_view(r.1) == dispatched_of(*self, *client, set_login),
    {
        let mut h: Vec<(String, String)> = Vec::new();
        assert(headers_view(h@) =~= Seq::<Header>::empty());
        push_header(&mut h, "content-type", "application/json");
        push_header(&mut h, "accept", "application/json");
        push_header(&mut h, "accept-language", "en-US,en;q=0.9");
        push_header(&mut h, "x-goog-api-format-version", "1");
        push_header(&mut h, "x-youtube-client-name", client.client_id.as_str());
        push_header(&mut h, "x-youtube-client-version", client.client_version.as_str());
        push_header(&mut h, "x-origin", ORIGIN);
        push_header(&mut h, "referer", REFERER);
        push_header(&mut h, "user-agent", client.user_agent.as_str());
        let ghost base = headers_view(h@);
        assert(base =~= base_headers(*client));
        match &self.visitor_data {
            Some(vd) => push_header(&mut h, "x-goog-visitor-id", vd.as_str()),
            None => {},
        }
        let ghost with_visitor = headers_view(h@);
        let sapisid = self.sapisid();
        let applies = set_login && client.login_supported;
        if applies {
            match &self.cookie {
                Some(cookie) => {
                    push_header(&mut h, "cookie", cookie.as_str());
                    match &sapisid {
                        Some(sap) => {
                            let auth = sapisid_hash_at(epoch, sap.as_str(), ORIGIN);
                            push_header(&mut h, "authorization", auth.as_str());
                        },
                        None => {},
                    }
                },
                None => {},
            }
        }
        assert(headers_view(h@) =~= request_headers_of(*self, *client, set_login, epoch));
        let dispatched = if applies {
            sapisid
        } else {
            None
        };
        (h, dispatched)
    }

    /// The headers of a request now and the identity it is dispatched under.
    pub fn request_headers(&self, client: &YouTubeClient, set_login: bool) -> (r: (
        Vec<(String, String)>,
        Option<String>,
    ))
        ensures
            exists|epoch: u64| headers_view(r.0@) == request_headers_of(*self, *client, set_login, epoch),
            opt_view(r.1) == dispatched_of(*self, *client, set_login),
    {
        let epoch = secs_of(since_epoch());
        self.request_headers_at(client, set_login, epoch)
    }
}

/// The dispatch snapshot is consistent: a request carries a cookie exactly when it is
/// dispatched under an identity or carries a cookie without a SAPISID, and the identity it is
/// dispatched under is always the SAPISID of the very cookie it carries; an anonymous request
/// carries neither.
pub proof fn law_dispatch_snapshot(s: Session, client: YouTubeClient, set_login: bool, epoch: u64)
    ensures
        ({
            let h = request_headers_of(s, client, set_login, epoch);
            let d = dispatched_of(s, client, set_login);
            &&& !login_applies(client, set_login) ==> d is None && !(exists|i: int|
                0 <= i < h.len() && (#[trigger] h[i]).0 == "cookie"@)
            &&& login_applies(client, set_login) && s.cookie is Some ==> exists|i: int|
                0 <= i < h.len() && (#[trigger] h[i]) == ("cookie"@, s.cookie->0@) && d
                == spec_cookie_sapisid(s.cookie->0@)
        }),
{
    let h = request_headers_of(s, client, set_login, epoch);
    reveal_strlit("cookie");
    reveal_strlit("content-type");
    reveal_strlit("accept");
    reveal_strlit("accept-language");
    reveal_strlit("x-goog-api-format-version");
    reveal_strlit("x-youtube-client-name");
    reveal_strlit("x-youtube-client-version");
    reveal_strlit("x-origin");
    reveal_strlit("referer");
    reveal_strlit("user-agent");
    reveal_strlit("x-goog-visitor-id");
    let vis: Seq<Header> = match s.visitor_data {
        Some(vd) => seq![("x-goog-visitor-id"@, vd@)],
        None => seq![],
    };
    let base = base_headers(client);
    if !login_applies(client, set_login) {
        assert("accept"@ != "cookie"@) by {
            assert("accept"@[0] != "cookie"@[0]);
        }
        assert(h == base + vis + Seq::<Header>::empty());
        assert(base[0].0 != "cookie"@) by {
            assert("content-type"@[2] != "cookie"@[2]);
        }
        assert(base[1].0 != "cookie"@);
        assert(base[2].0 != "cookie"@) by {
            assert("accept-language"@[0] != "cookie"@[0]);
        }
        assert(base[3].0 != "cookie"@);
        assert(base[4].0 != "cookie"@);
        assert(base[5].0 != "cookie"@);
        assert(base[6].0 != "cookie"@);
        assert(base[7].0 != "cookie"@);
        assert(base[8].0 != "cookie"@);
        assert forall|i: int| 0 <= i < h.len() implies (#[trigger] h[i]).0 != "cookie"@ by {
            if i < base.len() {
                assert(h[i] == base[i]);
                assert(i == 0 || i == 1 || i == 2 || i == 3 || i == 4 || i == 5 || i == 6 || i == 7
                    || i == 8);
            } else {
                assert(h[i] == vis[i - base.len()]);
                assert("x-goog-visitor-id"@[0] != "cookie"@[0]);
            }
        }
    } else if s.cookie is Some {
        let n = (base + vis).len() as int;
        assert(h[n] == ("cookie"@, s.cookie->0@));
    }
}

} // verus!

verus! {

/// How many times a call is tried on transient network errors.
pub const MAX_ATTEMPTS: u32 = 3;

/// The wait before the first retry; it doubles before each next one.
pub const FIRST_RETRY_DELAY_MS: u64 = 500;

/// What a failed call does next.
#[derive(Debug, Clone, Copy, PartialEq, Eq, Structural)]
pub enum AfterFailure {
    /// Try again after waiting this long.
    Retry { delay_ms: u64 },
    /// Signed in and refused (401 or 403): the stored cookie went stale.
    SessionExpired,
    /// Report the error as it is.
    GiveUp,
}

/// What follows a failed attempt (see `after_failure`).
pub open spec fn failure_step(attempt: u32, transient: bool, status: Option<u16>, logged_in: bool) -> AfterFailure {
    if attempt < MAX_ATTEMPTS && transient {
        AfterFailure::Retry {
            delay_ms: if attempt == 1 {
                FIRST_RETRY_DELAY_MS
            } else {
                (2 * FIRST_RETRY_DELAY_MS) as u64
            },
        }
    } else if logged_in && (status == Some(401u16) || status == Some(403u16)) {
        AfterFailure::SessionExpired
    } else {
        AfterFailure::GiveUp
    }
}

/// A call is tried at most three times, waiting 500 ms and then 1 s in between (1.5 s in all):
/// from the third failed attempt on, nothing is retried.
pub proof fn law_at_most_three_attempts(attempt: u32, transient: bool, status: Option<u16>, logged_in: bool)
    requires
        attempt >= 1,
    ensures
        attempt >= MAX_ATTEMPTS ==> !(failure_step(attempt, transient, status, logged_in) is Retry),
        failure_step(1, true, status, logged_in) == (AfterFailure::Retry { delay_ms: 500 }),
        failure_step(2, true, status, logged_in) == (AfterFailure::Retry { delay_ms: 1000 }),
{
}

/// What a call does after attempt `attempt` (counted from 1) failed: a transient error
/// (timeout, connection, request) is retried while attempts remain, after 500 ms, then 1 s; a
/// signed-in call the server refused with 401 or 403 is a stale session; anything else gives up.
pub fn after_failure(attempt: u32, transient: bool, status: Option<u16>, logged_in: bool) -> (r:
    AfterFailure)
    requires
        attempt >= 1,
    ensures
        r == failure_step(attempt, transient, status, logged_in),
{
    if attempt < MAX_ATTEMPTS && transient {
        let mut delay = FIRST_RETRY_DELAY_MS;
        let mut k: u32 = 1;
        while k < attempt
            invariant
                1 <= k <= attempt < MAX_ATTEMPTS,
                delay == if k == 1 {
                    FIRST_RETRY_DELAY_MS
                } else {
                    (2 * FIRST_RETRY_DELAY_MS) as u64
                },
            decreases attempt - k,
        {
            delay = delay * 2;
            k += 1;
        }
        return AfterFailure::Retry { delay_ms: delay };
    }
    match status {
        Some(code) => if logged_in && (code == 401 || code == 403) {
            AfterFailure::SessionExpired
        } else {
            AfterFailure::GiveUp
        },
        None => AfterFailure::GiveUp,
    }
}

} // verus!
