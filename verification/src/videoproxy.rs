//! The loopback proxy the player view's music video is fetched through: URLs of the shape
//! `http://127.0.0.1:<port>/<token>/<videoId>`, a random per-launch token keeping other local
//! processes out, and the routing of a request to the stream URL resolved for that video.
//!
//! The socket and the byte streaming live outside the library.

use vstd::prelude::*;
use vstd::string::StrSliceExecFns;

use crate::clock::random_u64;
use crate::codec::{decimal, hex_digit, hex_lower, push_decimal};
use crate::text::{chars_of, find_char, pos_of, push_text, range_eq_str, split_once, string_of};

verus! {

/// Where the proxy listens: its loopback port and this launch's token.
#[derive(Debug, Clone)]
pub struct Endpoint {
    pub port: u16,
    pub token: String,
}

/// Hex digit `i` (from the most significant) of a 64-bit value.
pub open spec fn nibble(x: u64, i: int) -> u8 {
    ((x >> ((60 - 4 * i) as u64)) & 15) as u8
}

/// A 64-bit value as 16 lower-case hex digits, zero-padded (`{:016x}`).
pub open spec fn hex16(x: u64) -> Seq<char> {
    Seq::new(16, |i: int| hex_lower(nibble(x, i)))
}

fn push_hex16(out: &mut Vec<char>, x: u64)
    ensures
        final(out)@ == old(out)@ + hex16(x),
{
    let ghost start = out@;
    let mut k: u64 = 0;
    while k < 16
        invariant
            k <= 16,
            out@.len() == start.len() + k,
            out@.take(start.len() as int) == start,
            forall|i: int| 0 <= i < k ==> out@[start.len() + i] == hex_lower(nibble(x, i)),
        decreases 16 - k,
    {
        let shift: u64 = 60 - 4 * k;
        let d: u8 = ((x >> shift) & 15) as u8;
        assert(((x >> shift) & 15) < 16) by (bit_vector);
        assert(d == nibble(x, k as int));
        out.push(hex_digit(d));
        k += 1;
    }
    assert(out@ =~= start + hex16(x));
}

/// The per-launch token: two 64-bit values as 32 lower-case hex digits.
pub open spec fn token_text(a: u64, b: u64) -> Seq<char> {
    hex16(a) + hex16(b)
}

/// The token for two random values.
pub fn token_from(a: u64, b: u64) -> (r: String)
    ensures
        r@ == token_text(a, b),
        r@.len() == 32,
{
    let mut out: Vec<char> = Vec::new();
    push_hex16(&mut out, a);
    push_hex16(&mut out, b);
    string_of(out.as_slice())
}

/// A fresh random token for this launch.
pub fn new_token() -> (r: String)
    ensures
        exists|a: u64, b: u64| r@ == token_text(a, b),
        r@.len() == 32,
{
    let a = random_u64();
    let b = random_u64();
    token_from(a, b)
}

/// The URL the UI puts in `<video src>`.
pub open spec fn video_url_text(port: u16, token: Seq<char>, video_id: Seq<char>) -> Seq<char> {
    "http://127.0.0.1:"@ + decimal(port as nat) + "/"@ + token + "/"@ + video_id
}

/// The URL the UI puts in `<video src>`, or `None` when the proxy never came up.
pub fn url_for(endpoint: Option<&Endpoint>, video_id: &str) -> (r: Option<String>)
    ensures
        match endpoint {
            Some(e) => r matches Some(u) && u@ == video_url_text(e.port, e.token@, video_id@),
            None => r is None,
        },
{
    let e = match endpoint {
        Some(e) => e,
        None => return None,
    };
    let mut out: Vec<char> = Vec::new();
    push_text(&mut out, "http://127.0.0.1:");
    push_decimal(&mut out, e.port as u64);
    push_text(&mut out, "/");
    push_text(&mut out, e.token.as_str());
    push_text(&mut out, "/");
    push_text(&mut out, video_id);
    Some(string_of(out.as_slice()))
}

/// The text without its leading `/` characters.
pub open spec fn strip_slashes(s: Seq<char>) -> Seq<char>
    decreases s.len(),
{
    if s.len() > 0 && s[0] == '/' {
        strip_slashes(s.drop_first())
    } else {
        s
    }
}

/// `/<token>/<videoId>` to the video id, when the token is this launch's and the id is not
/// empty.
pub open spec fn video_id_of(path: Seq<char>, token: Seq<char>) -> Option<Seq<char>> {
    match split_once(strip_slashes(path), '/') {
        Some((t, id)) => if t == token && id.len() > 0 {
            Some(id)
        } else {
            None
        },
        None => None,
    }
}

/// The video id a proxy path asks for, once the token matches.
pub fn video_id_from<'a>(path: &'a str, token: &str) -> (r: Option<&'a str>)
    ensures
        match r {
            Some(id) => video_id_of(path@, token@) == Some(id@),
            None => video_id_of(path@, token@) is None,
        },
{
    let v = chars_of(path);
    let n = v.len();
    let mut a: usize = 0;
    assert(v@.subrange(0, n as int) == v@);
    while a < n && v[a] == '/'
        invariant
            v@ == path@,
            n == v@.len(),
            a <= n,
            strip_slashes(path@) == strip_slashes(v@.subrange(a as int, n as int)),
        decreases n - a,
    {
        assert(v@.subrange(a as int, n as int).drop_first() == v@.subrange(a + 1, n as int));
        a += 1;
    }
    let ghost rest = v@.subrange(a as int, n as int);
    assert(strip_slashes(rest) == rest);
    let e = match find_char(v.as_slice(), '/', a, n) {
        Some(e) => e,
        None => return None,
    };
    assert(rest.take(e - a) == v@.subrange(a as int, e as int));
    assert(rest.skip(e - a + 1) == v@.subrange(e + 1, n as int));
    if range_eq_str(v.as_slice(), a, e, token) && e + 1 < n {
        Some(path.substring_char(e + 1, n))
    } else {
        None
    }
}

/// What a served URL asks for: the URL `url_for` hands out is the proxy's address followed by
/// `/<token>/<videoId>`, and that path routes back to exactly its video id under the launch's
/// token (one with no `/`, as the generated ones), and to nothing under any other token.
pub proof fn law_proxy_url_routes_back(port: u16, token: Seq<char>, other: Seq<char>, video_id: Seq<char>)
    requires
        token.len() > 0,
        !token.contains('/'),
        video_id.len() > 0,
    ensures
        video_url_text(port, token, video_id) == "http://127.0.0.1:"@ + decimal(port as nat) + (
        "/"@ + token + "/"@ + video_id),
        video_id_of("/"@ + token + "/"@ + video_id, token) == Some(video_id),
        other != token ==> video_id_of("/"@ + token + "/"@ + video_id, other) is None,
{
    let path = "/"@ + token + "/"@ + video_id;
    reveal_strlit("/");
    let tail = token + "/"@ + video_id;
    assert(path.drop_first() =~= tail);
    assert(tail[0] == token[0]);
    assert(tail[0] != '/') by {
        assert(!token.contains('/'));
        if token[0] == '/' {
            assert(token.contains('/'));
        }
    }
    assert(strip_slashes(path) == strip_slashes(tail));
    assert(strip_slashes(tail) == tail);
    crate::text::lemma_pos_of_unique(tail, '/', token.len() as int);
    assert(tail.take(token.len() as int) =~= token);
    assert(tail.skip(token.len() as int + 1) =~= video_id);
    assert(video_url_text(port, token, video_id) =~= "http://127.0.0.1:"@ + decimal(port as nat) + path);
}

/// How the proxy answers a request it cannot serve.
#[derive(Debug, Clone, Copy, PartialEq, Eq, Structural)]
pub enum Refusal {
    /// Neither GET nor HEAD: 405.
    MethodNotAllowed,
    /// The proxy never came up: 500.
    NoEndpoint,
    /// Wrong token, no id, or nothing resolved for that id: 404.
    NotFound,
}

impl Refusal {
    /// The HTTP status of the refusal.
    pub fn status(self) -> (r: u16)
        ensures
            r == match self {
                Refusal::MethodNotAllowed => 405u16,
                Refusal::NoEndpoint => 500u16,
                Refusal::NotFound => 404u16,
            },
    {
        match self {
            Refusal::MethodNotAllowed => 405,
            Refusal::NoEndpoint => 500,
            Refusal::NotFound => 404,
        }
    }
}

/// Route a request: only GET and HEAD, only with the launch's token, only for a video id.
pub fn route<'a>(method: &str, token: Option<&str>, path: &'a str) -> (r: Result<&'a str, Refusal>)
    ensures
        !(method@ == "GET"@ || method@ == "HEAD"@) ==> r == Err::<&str, Refusal>(
            Refusal::MethodNotAllowed,
        ),
        (method@ == "GET"@ || method@ == "HEAD"@) ==> match token {
            None => r == Err::<&str, Refusal>(Refusal::NoEndpoint),
            Some(t) => match video_id_of(path@, t@) {
                Some(id) => r matches Ok(x) && x@ == id,
                None => r == Err::<&str, Refusal>(Refusal::NotFound),
            },
        },
{
    if !(crate::text::str_eq(method, "GET") || crate::text::str_eq(method, "HEAD")) {
        return Err(Refusal::MethodNotAllowed);
    }
    let t = match token {
        Some(t) => t,
        None => return Err(Refusal::NoEndpoint),
    };
    match video_id_from(path, t) {
        Some(id) => Ok(id),
        None => Err(Refusal::NotFound),
    }
}

/// The status the proxy answers with once upstream replied: upstream's own on success (200 or
/// 206), 502 otherwise.
pub fn upstream_status(status: u16) -> (r: u16)
    ensures
        r == if 200 <= status <= 299 {
            status
        } else {
            502
        },
{
    if 200 <= status && status <= 299 {
        status
    } else {
        502
    }
}

} // verus!
