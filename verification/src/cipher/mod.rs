//! The signature and `n`-transform steps the stream resolver relies on. The webview that runs
//! YouTube's own `player.js` is driven from outside; what it is asked and what is done with its
//! answers is decided here.

pub mod config;
pub mod extractor;

use vstd::prelude::*;

use crate::codec::{decode, encode, json_string, json_string_literal, url_decode, url_encode};
use crate::text::{
    chars_of, contains_char, find_char, has_char, opt_view, push_text, range_eq_str, replace_first,
    replace_first_text, slice_to_vec, split_bounds, split_on, split_once, str_eq, string_of,
};
use config::PlayerConfig;
use extractor::{
    capture_group1, extract_sts, find_n_fn, find_sig_fn, first_group, n_patterns, regex_group1,
    sig_patterns, sts_of,
};

verus! {

/// The three fields of a `signatureCipher` query read so far: `s`, `sp`, `url`.
pub type CipherFields = (Option<Seq<char>>, Option<Seq<char>>, Option<Seq<char>>);

/// One `k=v` pair of a `signatureCipher` query applied to the fields read so far: a pair
/// without `=`, or whose value does not percent-decode, spoils the whole query; a later `s`,
/// `sp` or `url` replaces an earlier one; other keys are ignored.
pub open spec fn cipher_step(acc: Option<CipherFields>, pair: Seq<char>) -> Option<CipherFields> {
    match acc {
        None => None,
        Some((s, sp, url)) => match split_once(pair, '=') {
            None => None,
            Some((k, v)) => match url_decode(v) {
                None => None,
                Some(d) => if k == "s"@ {
                    Some((Some(d), sp, url))
                } else if k == "sp"@ {
                    Some((s, Some(d), url))
                } else if k == "url"@ {
                    Some((s, sp, Some(d)))
                } else {
                    Some((s, sp, url))
                },
            },
        },
    }
}

/// The fields of a list of pairs, read in order.
pub open spec fn cipher_fields(pairs: Seq<Seq<char>>) -> Option<CipherFields>
    decreases pairs.len(),
{
    if pairs.len() == 0 {
        Some((None, None, None))
    } else {
        cipher_step(cipher_fields(pairs.drop_last()), pairs.last())
    }
}

/// `(s, sp, url)` of a `signatureCipher` query, values percent-decoded and `sp` defaulting to
/// `signature`; `None` when `s` or `url` is missing or a pair is malformed.
pub open spec fn parsed_cipher(cipher: Seq<char>) -> Option<(Seq<char>, Seq<char>, Seq<char>)> {
    match cipher_fields(split_on(cipher, '&')) {
        Some((Some(s), sp, Some(url))) => Some(
            (
                s,
                match sp {
                    Some(p) => p,
                    None => "signature"@,
                },
                url,
            ),
        ),
        _ => None,
    }
}

/// Parse a `signatureCipher` query string into `(s, sp, base_url)`.
#[verifier::rlimit(60)]
pub fn parse_cipher(cipher: &str) -> (r: Option<(String, String, String)>)
    ensures
        match r {
            Some((s, sp, url)) => parsed_cipher(cipher@) == Some((s@, sp@, url@)),
            None => parsed_cipher(cipher@) is None,
        },
{
    let v = chars_of(cipher);
    let parts = split_bounds(v.as_slice(), '&');
    let ghost pairs = split_on(v@, '&');
    let mut s: Option<String> = None;
    let mut sp: Option<String> = None;
    let mut url: Option<String> = None;
    let mut i: usize = 0;
    assert(pairs.take(0) =~= Seq::<Seq<char>>::empty());
    while i < parts.len()
        invariant
            pairs == split_on(v@, '&'),
            v@ == cipher@,
            parts@.len() == pairs.len(),
            forall|j: int|
                0 <= j < parts@.len() ==> #[trigger] parts@[j].0 <= parts@[j].1 <= v@.len()
                    && v@.subrange(parts@[j].0 as int, parts@[j].1 as int) == pairs[j],
            0 <= i <= parts@.len(),
            cipher_fields(pairs.take(i as int)) == Some((opt_view(s), opt_view(sp), opt_view(url))),
        decreases parts.len() - i,
    {
        let (lo, hi) = parts[i];
        let ghost pair = v@.subrange(lo as int, hi as int);
        assert(pairs.take(i + 1).drop_last() == pairs.take(i as int));
        assert(pairs.take(i + 1).last() == pair);
        let rp = read_pair(v.as_slice(), lo, hi);
        proof {
            match &rp {
                Some((kind, d)) => lemma_step(
                    opt_view(s),
                    opt_view(sp),
                    opt_view(url),
                    pair,
                    *kind,
                    d@,
                ),
                None => {},
            }
        }
        match rp {
            None => {
                proof {
                    lemma_cipher_spoiled(pairs, i as int + 1);
                }
                return None;
            },
            Some((0, d)) => {
                s = Some(d);
            },
            Some((1, d)) => {
                sp = Some(d);
            },
            Some((2, d)) => {
                url = Some(d);
            },
            Some(_) => {},
        }
        i += 1;
    }
    assert(pairs.take(parts@.len() as int) == pairs);
    match (s, url) {
        (Some(s), Some(url)) => {
            let sp = match sp {
                Some(p) => p,
                None => String::from_str("signature"),
            };
            Some((s, sp, url))
        },
        _ => None,
    }
}

/// The key of one `k=v` pair (0 for `s`, 1 for `sp`, 2 for `url`, 3 for any other) and its
/// decoded value.
fn read_pair(v: &[char], lo: usize, hi: usize) -> (r: Option<(u8, String)>)
    requires
        lo <= hi <= v@.len(),
    ensures
        ({
            let pair = v@.subrange(lo as int, hi as int);
            match r {
                None => split_once(pair, '=') is None || (split_once(pair, '=') matches Some(
                    (k, x),
                ) && url_decode(x) is None),
                Some((kind, d)) => split_once(pair, '=') matches Some((k, x)) && url_decode(x)
                    == Some(d@) && kind <= 3 && (kind == 0 <==> k == "s"@) && (kind == 1 <==> k
                    == "sp"@) && (kind == 2 <==> k == "url"@),
            }
        }),
{
    let ghost pair = v@.subrange(lo as int, hi as int);
    let e = match find_char(v, '=', lo, hi) {
        Some(e) => e,
        None => return None,
    };
    assert(pair.take(e - lo) == v@.subrange(lo as int, e as int));
    assert(pair.skip(e - lo + 1) == v@.subrange(e + 1, hi as int));
    let raw = slice_to_vec(v, e + 1, hi);
    let raw_s = string_of(raw.as_slice());
    let d = match decode(raw_s.as_str()) {
        Some(d) => d,
        None => return None,
    };
    proof {
        reveal_strlit("s");
        reveal_strlit("sp");
        reveal_strlit("url");
    }
    let kind: u8 = if range_eq_str(v, lo, e, "s") {
        0
    } else if range_eq_str(v, lo, e, "sp") {
        1
    } else if range_eq_str(v, lo, e, "url") {
        2
    } else {
        3
    };
    Some((kind, d))
}

proof fn lemma_step(
    s: Option<Seq<char>>,
    sp: Option<Seq<char>>,
    url: Option<Seq<char>>,
    pair: Seq<char>,
    kind: u8,
    d: Seq<char>,
)
    requires
        split_once(pair, '=') matches Some((k, x)) && url_decode(x) == Some(d) && kind <= 3 && (kind
            == 0 <==> k == "s"@) && (kind == 1 <==> k == "sp"@) && (kind == 2 <==> k == "url"@),
    ensures
        cipher_step(Some((s, sp, url)), pair) == if kind == 0 {
            Some((Some(d), sp, url))
        } else if kind == 1 {
            Some((s, Some(d), url))
        } else if kind == 2 {
            Some((s, sp, Some(d)))
        } else {
            Some((s, sp, url))
        },
{
}

proof fn lemma_cipher_spoiled(pairs: Seq<Seq<char>>, k: int)
    requires
        0 < k <= pairs.len(),
        cipher_fields(pairs.take(k)) is None,
    ensures
        cipher_fields(pairs) is None,
    decreases pairs.len() - k,
{
    if k < pairs.len() {
        assert(pairs.take(k + 1).drop_last() == pairs.take(k));
        lemma_cipher_spoiled(pairs, k + 1);
    } else {
        assert(pairs.take(k) == pairs);
    }
}

/// A JS string literal for a value, escaped the way JSON escapes it.
pub fn js_string(s: &str) -> (r: String)
    ensures
        r@ == json_string_literal(s@),
{
    json_string(s)
}

/// The script that asks the exported signature function for the signature of `s`.
pub open spec fn sig_call_text(s: Seq<char>) -> Seq<char> {
    "(function(){try{return String(window._cipherSigFunc("@ + json_string_literal(s)
        + "));}catch(e){return null;}})()"@
}

/// The script that asks the exported `n` function for the transform of `n`.
pub open spec fn n_call_text(n: Seq<char>) -> Seq<char> {
    "(function(){try{return String(window._nTransformFunc("@ + json_string_literal(n)
        + "));}catch(e){return null;}})()"@
}

/// The script that deciphers the scrambled signature `s`.
pub fn sig_call_script(s: &str) -> (r: String)
    ensures
        r@ == sig_call_text(s@),
{
    let mut out: Vec<char> = Vec::new();
    push_text(&mut out, "(function(){try{return String(window._cipherSigFunc(");
    let lit = js_string(s);
    push_text(&mut out, lit.as_str());
    push_text(&mut out, "));}catch(e){return null;}})()");
    string_of(out.as_slice())
}

/// The script that transforms the `n` value `n`.
pub fn n_call_script(n: &str) -> (r: String)
    ensures
        r@ == n_call_text(n@),
{
    let mut out: Vec<char> = Vec::new();
    push_text(&mut out, "(function(){try{return String(window._nTransformFunc(");
    let lit = js_string(n);
    push_text(&mut out, lit.as_str());
    push_text(&mut out, "));}catch(e){return null;}})()");
    string_of(out.as_slice())
}

/// The signed stream URL: the base URL, `&` or `?`, then `<sp>=<percent-encoded signature>`.
pub open spec fn signed_url_text(base: Seq<char>, sp: Seq<char>, sig: Seq<char>) -> Seq<char> {
    base.push(if contains_char(base, '?') {
        '&'
    } else {
        '?'
    }) + sp + "="@ + url_encode(sig)
}

/// The stream URL a deciphered signature signs, or `None` when the webview gave back no string
/// or an empty one.
pub fn signed_url(base: &str, sp: &str, sig_reply: Option<String>) -> (r: Option<String>)
    ensures
        match sig_reply {
            Some(sig) if sig@.len() > 0 => r matches Some(u) && u@ == signed_url_text(
                base@,
                sp@,
                sig@,
            ),
            _ => r is None,
        },
{
    let sig = match sig_reply {
        Some(sig) => sig,
        None => return None,
    };
    if sig.as_str().unicode_len() == 0 {
        return None;
    }
    let mut out = chars_of(base);
    let sep = if has_char(out.as_slice(), 0, out.len(), '?') {
        '&'
    } else {
        '?'
    };
    assert(out@.subrange(0, out@.len() as int) == base@);
    out.push(sep);
    push_text(&mut out, sp);
    push_text(&mut out, "=");
    let enc = encode(sig.as_str());
    push_text(&mut out, enc.as_str());
    Some(string_of(out.as_slice()))
}

/// The pattern of the `n` query parameter's raw value.
pub const N_PARAM_PATTERN: &'static str = r"[?&]n=([^&]+)";

/// The raw `n` value of a stream URL and its percent-decoded form.
pub open spec fn n_param_of(url: Seq<char>) -> Option<(Seq<char>, Seq<char>)> {
    match regex_group1(N_PARAM_PATTERN@, url) {
        Some(enc) => match url_decode(enc) {
            Some(d) => Some((enc, d)),
            None => None,
        },
        None => None,
    }
}

/// The `n` parameter of a stream URL, raw and decoded.
pub fn n_param(url: &str) -> (r: Option<(String, String)>)
    ensures
        match r {
            Some((enc, dec)) => n_param_of(url@) == Some((enc@, dec@)),
            None => n_param_of(url@) is None,
        },
{
    match capture_group1(N_PARAM_PATTERN, url) {
        Some(enc) => match decode(enc.as_str()) {
            Some(d) => Some((enc, d)),
            None => None,
        },
        None => None,
    }
}

/// The URL with its `n` parameter replaced by the transformed value: the first `n=<raw>`
/// becomes `n=<percent-encoded new value>`.
pub open spec fn n_replaced_text(url: Seq<char>, enc: Seq<char>, new_n: Seq<char>) -> Seq<char> {
    replace_first(url, "n="@ + enc, "n="@ + url_encode(new_n))
}

/// Apply the webview's `n` transform to a URL: only a non-empty value that differs from the
/// decoded input counts; otherwise `None`, and the caller keeps the URL as it was.
pub fn apply_n_transform(url: &str, enc: &str, decoded: &str, reply: Option<String>) -> (r: Option<
    String,
>)
    ensures
        match reply {
            Some(n) if n@.len() > 0 && n@ != decoded@ => r matches Some(u) && u@
                == n_replaced_text(url@, enc@, n@),
            _ => r is None,
        },
{
    let n = match reply {
        Some(n) => n,
        None => return None,
    };
    if n.as_str().unicode_len() == 0 || str_eq(n.as_str(), decoded) {
        return None;
    }
    let mut from: Vec<char> = Vec::new();
    push_text(&mut from, "n=");
    push_text(&mut from, enc);
    let mut to: Vec<char> = Vec::new();
    push_text(&mut to, "n=");
    let e = encode(n.as_str());
    push_text(&mut to, e.as_str());
    let from_s = string_of(from.as_slice());
    let to_s = string_of(to.as_slice());
    Some(replace_first_text(url, from_s.as_str(), to_s.as_str()))
}

/// What the cipher webview is built with: the signature timestamp and the two function names.
#[derive(Debug, Clone)]
pub struct CipherPlan {
    pub sts: Option<i32>,
    pub sig_fn: Option<String>,
    pub n_fn: Option<String>,
}

/// A config value when the config has one, else the script's own.
pub open spec fn prefer<T>(from_config: Option<T>, fallback: Option<T>) -> Option<T> {
    match from_config {
        Some(v) => Some(v),
        None => fallback,
    }
}

/// Resolve the signature timestamp and function names for a player: the config table wins
/// field by field, pattern search over the script fills the gaps.
pub fn plan_for(cfg: Option<PlayerConfig>, player_js: &str) -> (r: CipherPlan)
    ensures
        r.sts == prefer(
            match cfg {
                Some(c) => c.sts,
                None => None,
            },
            sts_of(player_js@),
        ),
        opt_view(r.sig_fn) == prefer(
            match cfg {
                Some(c) => opt_view(c.sig_fn),
                None => None,
            },
            first_group(sig_patterns(), player_js@),
        ),
        opt_view(r.n_fn) == prefer(
            match cfg {
                Some(c) => opt_view(c.n_fn),
                None => None,
            },
            first_group(n_patterns(), player_js@),
        ),
{
    let (c_sts, c_sig, c_n) = match cfg {
        Some(c) => (c.sts, c.sig_fn, c.n_fn),
        None => (None, None, None),
    };
    let sts = match c_sts {
        Some(v) => Some(v),
        None => extract_sts(player_js),
    };
    let sig_fn = match c_sig {
        Some(v) => Some(v),
        None => find_sig_fn(player_js),
    };
    let n_fn = match c_n {
        Some(v) => Some(v),
        None => find_n_fn(player_js),
    };
    CipherPlan { sts, sig_fn, n_fn }
}

/// Whether the cipher webview must be (re)built: there is none, it is gone, or the config
/// table changed since it was built.
pub fn needs_rebuild(has_bridge: bool, bridge_alive: bool, built_epoch: u64, epoch: u64) -> (r:
    bool)
    ensures
        r == !(has_bridge && bridge_alive && built_epoch == epoch),
{
    !(has_bridge && built_epoch == epoch && bridge_alive)
}

} // verus!
