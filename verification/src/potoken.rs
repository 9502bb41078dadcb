//! PoToken bookkeeping: the cached session token, the minter's lifetime, and reading which
//! integrity-token class a BotGuard runtime landed in from the length of a minted pot.
//!
//! BotGuard itself runs outside the library; it is handed identifiers and gives back pots.

use vstd::prelude::*;
use vstd::utf8::encode_utf8;

use crate::codec::{base64url_decode, base64url_nopad_decode, decode, url_decode, utf8_bytes};
use crate::text::{chars_of, str_eq, string_of, slice_to_vec};

verus! {

/// Bytes the minter wraps around `identifier + integrity token`.
pub const POT_OVERHEAD: usize = 14;

/// Largest integrity token whose pots googlevideo accepts; the observed classes are 61-62
/// (accepted) and 65-66 (rejected) bytes.
pub const ACCEPTED_MAX_IT: usize = 63;

/// How many bootstraps to spend looking for the accepted class.
pub const MAX_BOOTSTRAPS: usize = 8;

/// Identifier the class check mints against: plain ASCII, so its byte length is its length.
pub const CLASS_PROBE: &'static str = "limusicprobe";

/// Safety margin before the integrity token's lifetime ends, in seconds.
pub const EXPIRY_MARGIN_SECS: u64 = 600;

/// A cached session token (minted from visitorData, about 12 hours of life), kept across runs:
/// its expiry is wall-clock Unix seconds.
#[derive(Debug, Clone)]
pub struct SessionToken {
    pub session_id: String,
    pub token: String,
    pub expires_at: i64,
}

/// A cached token is usable for `session_id` at `now`: minted for that very session, and not yet
/// expired (expiry is exclusive).
pub open spec fn token_usable(t: SessionToken, session_id: Seq<char>, now: int) -> bool {
    t.session_id@ == session_id && now < t.expires_at
}

impl SessionToken {
    /// Usable for `session_id` at `now`: minted for that very session, and not yet expired
    /// (expiry is exclusive).
    pub fn valid_for(&self, session_id: &str, now: i64) -> (r: bool)
        ensures
            r == token_usable(*self, session_id@, now as int),
    {
        str_eq(self.session_id.as_str(), session_id) && now < self.expires_at
    }
}

/// The cached token's text, when there is one valid for `session_id` at `now`.
pub fn cached_session_token(cached: &Option<SessionToken>, session_id: &str, now: i64) -> (r:
    Option<String>)
    ensures
        match cached {
            Some(t) if token_usable(*t, session_id@, now as int) => r == Some(t.token),
            _ => r is None,
        },
{
    match cached {
        Some(t) => {
            if t.valid_for(session_id, now) {
                Some(t.token.clone())
            } else {
                None
            }
        },
        None => None,
    }
}

/// How long a minted session is good for: its lifetime less the safety margin, never negative.
pub open spec fn good_for_secs(lifetime_secs: u64) -> u64 {
    if lifetime_secs > EXPIRY_MARGIN_SECS {
        (lifetime_secs - EXPIRY_MARGIN_SECS) as u64
    } else {
        0
    }
}

/// The session token a fresh bootstrap yields at `now`: it expires after its lifetime less the
/// safety margin.
pub fn new_session_token(session_id: &str, token: String, lifetime_secs: u64, now: i64) -> (r:
    SessionToken)
    requires
        good_for_secs(lifetime_secs) <= i64::MAX,
        now + good_for_secs(lifetime_secs) <= i64::MAX,
    ensures
        r.session_id@ == session_id@,
        r.token == token,
        r.expires_at == now + good_for_secs(lifetime_secs),
{
    let good_for = lifetime_secs.saturating_sub(EXPIRY_MARGIN_SECS);
    SessionToken {
        session_id: session_id.to_owned(),
        token,
        expires_at: now + (good_for as i64),
    }
}

/// A token minted at `now` whose lifetime outlasts the safety margin is served from the cache for
/// its own session from `now` until its expiry, then no more; it is never served for another
/// session.
pub proof fn law_fresh_token_served_until_expiry(
    session_id: Seq<char>,
    other: Seq<char>,
    t: SessionToken,
    lifetime_secs: u64,
    now: int,
    later: int,
)
    requires
        lifetime_secs > EXPIRY_MARGIN_SECS,
        t.session_id@ == session_id,
        t.expires_at == now + good_for_secs(lifetime_secs),
    ensures
        now <= later < t.expires_at ==> token_usable(t, session_id, later),
        later >= t.expires_at ==> !token_usable(t, session_id, later),
        other != session_id ==> !token_usable(t, other, later),
        token_usable(t, session_id, now),
{
}

/// The text without its trailing `=` characters.
pub open spec fn trim_end_eq(s: Seq<char>) -> Seq<char>
    decreases s.len(),
{
    if s.len() > 0 && s.last() == '=' {
        trim_end_eq(s.drop_last())
    } else {
        s
    }
}

/// `str::trim_end_matches('=')`.
pub fn trim_end_padding(s: &str) -> (r: String)
    ensures
        r@ == trim_end_eq(s@),
{
    let v = chars_of(s);
    let mut n = v.len();
    assert(v@.take(n as int) == v@);
    while n > 0 && v[n - 1] == '='
        invariant
            n <= v@.len(),
            trim_end_eq(s@) == trim_end_eq(v@.take(n as int)),
            v@ == s@,
        decreases n,
    {
        assert(v@.take(n as int).drop_last() == v@.take(n - 1));
        n -= 1;
    }
    let out = slice_to_vec(v.as_slice(), 0, n);
    assert(v@.subrange(0, n as int) == v@.take(n as int));
    string_of(out.as_slice())
}

/// The byte length that counts for an identifier: that of its percent-decoded form, or of the
/// identifier itself when it does not decode.
pub open spec fn ident_len(ident: Seq<char>) -> int {
    match url_decode(ident) {
        Some(d) => encode_utf8(d).len() as int,
        None => encode_utf8(ident).len() as int,
    }
}

/// The size of the `/GenerateIT` integrity token inside a pot minted for `ident`: the pot's
/// decoded length less the identifier and the wrapper. `None` when the pot (padding stripped) is
/// not URL-safe base64, or is shorter than identifier and wrapper.
pub open spec fn integrity_len_of(pot: Seq<char>, ident: Seq<char>) -> Option<int> {
    match base64url_decode(trim_end_eq(pot)) {
        Some(bytes) => if bytes.len() >= ident_len(ident) + POT_OVERHEAD {
            Some(bytes.len() - ident_len(ident) - POT_OVERHEAD)
        } else {
            None
        },
        None => None,
    }
}

/// Recover the integrity token's size from a minted pot, which tells which class the runtime
/// landed in.
pub fn integrity_token_len(pot: &str, ident: &str) -> (r: Option<usize>)
    ensures
        match r {
            Some(n) => integrity_len_of(pot@, ident@) == Some(n as int),
            None => integrity_len_of(pot@, ident@) is None,
        },
{
    let trimmed = trim_end_padding(pot);
    let bytes = match base64url_nopad_decode(trimmed.as_str()) {
        Some(b) => b,
        None => return None,
    };
    let id_len: usize = match decode(ident) {
        Some(d) => utf8_bytes(d.as_str()).len(),
        None => utf8_bytes(ident).len(),
    };
    let bl = bytes.len();
    if id_len > bl {
        return None;
    }
    (bl - id_len).checked_sub(POT_OVERHEAD)
}

/// Whether a runtime whose probe pot carried an integrity token of this size is in the class
/// googlevideo honours.
pub open spec fn in_accepted_class(it: Option<usize>) -> bool {
    it matches Some(n) && n <= ACCEPTED_MAX_IT
}

/// What a bootstrap attempt decides once its probe pot is measured.
#[derive(Debug, Clone, Copy, PartialEq, Eq, Structural)]
pub enum BootstrapStep {
    /// This runtime is in the accepted class: keep it.
    Accept,
    /// Drop it and bootstrap again.
    Retry,
    /// Out of attempts: keep this last runtime anyway.
    KeepLast,
}

/// The decision after bootstrap attempt `attempt` (counting from 1) measured `it`.
pub fn bootstrap_step(attempt: usize, it: Option<usize>) -> (r: BootstrapStep)
    requires
        1 <= attempt <= MAX_BOOTSTRAPS,
    ensures
        in_accepted_class(it) ==> r == BootstrapStep::Accept,
        !in_accepted_class(it) && attempt < MAX_BOOTSTRAPS ==> r == BootstrapStep::Retry,
        !in_accepted_class(it) && attempt == MAX_BOOTSTRAPS ==> r == BootstrapStep::KeepLast,
{
    match it {
        Some(n) => if n <= ACCEPTED_MAX_IT {
            return BootstrapStep::Accept;
        },
        None => {},
    }
    if attempt < MAX_BOOTSTRAPS {
        BootstrapStep::Retry
    } else {
        BootstrapStep::KeepLast
    }
}

/// A live minter's bookkeeping: the session it serves, when it expires and when it was last
/// used (milliseconds of a monotonic clock).
#[derive(Debug, Clone)]
pub struct MinterInfo {
    pub session_id: String,
    pub expires_at_ms: u64,
    pub last_used_ms: u64,
}

impl MinterInfo {
    /// The minter for a session bootstrapped at `now_ms` with the given lifetime.
    pub fn started(session_id: &str, lifetime_secs: u64, now_ms: u64) -> (r: MinterInfo)
        ensures
            r.session_id@ == session_id@,
            r.expires_at_ms == now_ms + good_for_secs(lifetime_secs) * 1000 || (r.expires_at_ms
                == u64::MAX && now_ms + good_for_secs(lifetime_secs) * 1000 > u64::MAX),
            r.last_used_ms == now_ms,
    {
        let good_for = lifetime_secs.saturating_sub(EXPIRY_MARGIN_SECS);
        let ms: u64 = match good_for.checked_mul(1000) {
            Some(m) => m,
            None => u64::MAX,
        };
        MinterInfo {
            session_id: session_id.to_owned(),
            expires_at_ms: now_ms.saturating_add(ms),
            last_used_ms: now_ms,
        }
    }

    /// Usable for `session_id` at `now_ms`: same session, not expired.
    pub fn valid_for(&self, session_id: &str, now_ms: u64) -> (r: bool)
        ensures
            r == (self.session_id@ == session_id@ && now_ms < self.expires_at_ms),
    {
        str_eq(self.session_id.as_str(), session_id) && now_ms < self.expires_at_ms
    }

    /// Idle for at least `idle_ms` at `now_ms`, so the runtime may be torn down.
    pub fn idle_for(&self, idle_ms: u64, now_ms: u64) -> (r: bool)
        ensures
            r == (now_ms >= self.last_used_ms && now_ms - self.last_used_ms >= idle_ms),
    {
        now_ms >= self.last_used_ms && now_ms - self.last_used_ms >= idle_ms
    }
}

} // verus!
