//! Finding, inside a fetched `player.js`, the signature timestamp and the names of the
//! signature-decipher and `n`-transform functions, and making the script export them.
//!
//! The cipher webview runs YouTube's own `player.js`, so only the entry functions' names are
//! needed. Name finding by pattern is best-effort (a wrong hit heals through a rejected stream);
//! the config table is the reliable path.

use vstd::prelude::*;

use crate::codec::parse_i32;
use crate::text::{
    chars_of, extend_chars, occurs_at, opt_str_view, opt_view, push_text, rfind_seq, last_occurrence,
    slice_to_vec, string_of,
};

verus! {

/// The marker that closes player.js's IIFE: where the exports go.
pub const IIFE_TAIL: &'static str = "})(_yt_player);";

/// What the `regex` crate yields as capture group 1 of the first match of `pattern` in `text`:
/// `None` when the pattern does not compile, nothing matches, or the group takes no part.
pub uninterp spec fn regex_group1(pattern: Seq<char>, text: Seq<char>) -> Option<Seq<char>>;

/// `Regex::new(pattern)`, then `captures(text)` and its group 1, as an owned string. The result
/// is named, not stated.
#[verifier::external_body]
pub(crate) fn capture_group1(pattern: &str, text: &str) -> (r: Option<String>)
    ensures
        opt_view(r) == regex_group1(pattern@, text@),
{
    match regex::Regex::new(pattern) {
        Ok(re) => match re.captures(text) {
            Some(c) => match c.get(1) {
                Some(m) => Some(m.as_str().to_owned()),
                None => None,
            },
            None => None,
        },
        Err(_) => None,
    }
}

/// The signature timestamp: `signatureTimestamp` or `sts`, an optional quote, `:` or `=`, and
/// at least four digits.
pub const STS_PATTERN: &'static str = r#"(?:signatureTimestamp|sts)"?\s*[:=]\s*(\d{4,})"#;

pub const SIG_PATTERN_ASSIGN: &'static str = r#"\b([a-zA-Z0-9$_]{2,})=function\([a-zA-Z0-9$_]\)\{\s*[a-zA-Z0-9$_]=[a-zA-Z0-9$_]\.split\(""\)"#;

pub const SIG_PATTERN_VAR: &'static str = r#"\b([a-zA-Z0-9$_]{2,})=function\([a-zA-Z0-9$_]\)\{var [a-zA-Z0-9$_]=[a-zA-Z0-9$_]\.split\(""\)"#;

pub const SIG_PATTERN_CALL: &'static str = r#"(?:["']signature["']|\bsig)\s*[,:=]\s*([a-zA-Z0-9$_]{2,})\("#;

pub const N_PATTERN_SET: &'static str = r#"[a-zA-Z0-9$_]=([a-zA-Z0-9$_]{2,})(?:\[\d+\])?\([a-zA-Z0-9$_]\)[;,][a-zA-Z0-9$_.]{0,20}\.set\("n""#;

pub const N_PATTERN_GET: &'static str = r#"\.get\("n"\)\)&&\([a-zA-Z0-9$_]=([a-zA-Z0-9$_]{2,})[\(\[]"#;

pub const N_PATTERN_SPLIT: &'static str = r#"\b([a-zA-Z0-9$_]{2,})=function\([a-zA-Z0-9$_]\)\{var [a-zA-Z0-9$_]=[a-zA-Z0-9$_]\.split\(""\),[a-zA-Z0-9$_]=\[\]"#;

/// The signature timestamp a script declares: the digits the timestamp pattern captures, read
/// as an `i32`.
pub open spec fn sts_of(js: Seq<char>) -> Option<i32> {
    match regex_group1(STS_PATTERN@, js) {
        Some(d) => crate::codec::parse_i32_spec(d),
        None => None,
    }
}

/// Extract the `signatureTimestamp` that must accompany the `/player` request.
pub fn extract_sts(player_js: &str) -> (r: Option<i32>)
    ensures
        r == sts_of(player_js@),
{
    match capture_group1(STS_PATTERN, player_js) {
        Some(d) => parse_i32(d.as_str()),
        None => None,
    }
}

/// The first group 1 that the patterns, tried in order, capture in `js`.
pub open spec fn first_group(patterns: Seq<&str>, js: Seq<char>) -> Option<Seq<char>>
    decreases patterns.len(),
{
    if patterns.len() == 0 {
        None
    } else {
        match regex_group1(patterns[0]@, js) {
            Some(g) => Some(g),
            None => first_group(patterns.drop_first(), js),
        }
    }
}

/// The signature-function patterns, in the order they are tried.
pub open spec fn sig_patterns() -> Seq<&'static str> {
    seq![SIG_PATTERN_ASSIGN, SIG_PATTERN_VAR, SIG_PATTERN_CALL]
}

/// The `n`-function patterns, in the order they are tried.
pub open spec fn n_patterns() -> Seq<&'static str> {
    seq![N_PATTERN_SET, N_PATTERN_GET, N_PATTERN_SPLIT]
}

fn first_capture(js: &str, patterns: &[&str]) -> (r: Option<String>)
    ensures
        opt_view(r) == first_group(patterns@, js@),
{
    let mut i: usize = 0;
    assert(patterns@.skip(0) == patterns@);
    while i < patterns.len()
        invariant
            0 <= i <= patterns@.len(),
            first_group(patterns@, js@) == first_group(patterns@.skip(i as int), js@),
        decreases patterns.len() - i,
    {
        let ghost rest = patterns@.skip(i as int);
        assert(rest[0] == patterns@[i as int]);
        assert(rest.drop_first() == patterns@.skip(i + 1));
        match capture_group1(patterns[i], js) {
            Some(g) => {
                return Some(g);
            },
            None => {},
        }
        i += 1;
    }
    assert(patterns@.skip(i as int).len() == 0);
    None
}

/// Best-effort name of the signature-decipher function: the first capture of the signature
/// patterns.
pub fn find_sig_fn(player_js: &str) -> (r: Option<String>)
    ensures
        opt_view(r) == first_group(sig_patterns(), player_js@),
{
    let patterns: [&str; 3] = [SIG_PATTERN_ASSIGN, SIG_PATTERN_VAR, SIG_PATTERN_CALL];
    assert(patterns@ == sig_patterns());
    first_capture(player_js, &patterns)
}

/// Best-effort name of the `n`-transform function: the first capture of the `n` patterns.
/// Often unresolvable on obfuscated players, when the webview search takes over.
pub fn find_n_fn(player_js: &str) -> (r: Option<String>)
    ensures
        opt_view(r) == first_group(n_patterns(), player_js@),
{
    let patterns: [&str; 3] = [N_PATTERN_SET, N_PATTERN_GET, N_PATTERN_SPLIT];
    assert(patterns@ == n_patterns());
    first_capture(player_js, &patterns)
}

/// The export statements put before the IIFE tail: `_cipherSigFunc` and `_nTransformFunc` on
/// `window` for the names that are known, then the tail itself.
pub open spec fn exports_text(sig_fn: Option<Seq<char>>, n_fn: Option<Seq<char>>) -> Seq<char> {
    let sig = match sig_fn {
        Some(s) => "try{window._cipherSigFunc=function(s){return "@ + s + "(s);};}catch(e){}"@,
        None => seq![],
    };
    let n = match n_fn {
        Some(f) => "try{window._nTransformFunc=function(n){return "@ + f + "(n);};}catch(e){}"@,
        None => seq![],
    };
    ";"@ + sig + n + IIFE_TAIL@
}

/// The self-exporting script: the exports replace the last IIFE tail (so they run inside the
/// player closure), or follow the script on a line of their own when it has no such tail.
pub open spec fn injected_script(js: Seq<char>, sig_fn: Option<Seq<char>>, n_fn: Option<Seq<char>>) -> Seq<char> {
    let ex = exports_text(sig_fn, n_fn);
    let at = last_occurrence(js, IIFE_TAIL@);
    if at >= 0 {
        js.take(at) + ex + js.skip(at + IIFE_TAIL@.len())
    } else {
        js + "\n"@ + ex
    }
}

/// Turn `player.js` into a self-exporting script that exposes the sig/n entry functions on
/// `window`. A `None` name is left for the harness's discovery to fill in.
pub fn build_injection(player_js: &str, sig_fn: Option<&str>, n_fn: Option<&str>) -> (r: String)
    ensures
        r@ == injected_script(player_js@, opt_str_view(sig_fn), opt_str_view(n_fn)),
{
    let ex = exports(sig_fn, n_fn);
    let js = chars_of(player_js);
    let tail = chars_of(IIFE_TAIL);
    match rfind_seq(js.as_slice(), tail.as_slice()) {
        Some(idx) => {
            let n = js.len();
            assert(idx + tail@.len() <= n);
            let mut out = slice_to_vec(js.as_slice(), 0, idx);
            extend_chars(&mut out, ex.as_slice());
            let rest = slice_to_vec(js.as_slice(), idx + tail.len(), n);
            extend_chars(&mut out, rest.as_slice());
            assert(js@.subrange(0, idx as int) == js@.take(idx as int));
            assert(js@.subrange(idx + tail@.len(), js@.len() as int) == js@.skip(idx + tail@.len()));
            string_of(out.as_slice())
        },
        None => {
            let mut out = js;
            push_text(&mut out, "\n");
            extend_chars(&mut out, ex.as_slice());
            string_of(out.as_slice())
        },
    }
}

fn exports(sig_fn: Option<&str>, n_fn: Option<&str>) -> (ex: Vec<char>)
    ensures
        ex@ == exports_text(opt_str_view(sig_fn), opt_str_view(n_fn)),
{
    let mut ex: Vec<char> = Vec::new();
    push_text(&mut ex, ";");
    match sig_fn {
        Some(s) => {
            push_text(&mut ex, "try{window._cipherSigFunc=function(s){return ");
            push_text(&mut ex, s);
            push_text(&mut ex, "(s);};}catch(e){}");
        },
        None => {},
    }
    match n_fn {
        Some(f) => {
            push_text(&mut ex, "try{window._nTransformFunc=function(n){return ");
            push_text(&mut ex, f);
            push_text(&mut ex, "(n);};}catch(e){}");
        },
        None => {},
    }
    push_text(&mut ex, IIFE_TAIL);
    ex
}

} // verus!
