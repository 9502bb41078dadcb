//! Encodings the protocol uses: percent-encoding (`urlencoding`), SHA-1 (`sha1`), lower-case hex,
//! decimal numbers, URL-safe base64 (`base64`) and JSON string literals (`serde_json`).

use base64::Engine;
use sha1::Digest;
use vstd::prelude::*;
use vstd::string::StringSliceAdditionalSpecFns;
use vstd::utf8::encode_utf8;

verus! {

/// Bytes `urlencoding` leaves as they are: ASCII alphanumerics and `-`, `.`, `_`, `~`.
pub open spec fn is_unreserved(b: u8) -> bool {
    (0x30 <= b && b <= 0x39) || (0x41 <= b && b <= 0x5A) || (0x61 <= b && b <= 0x7A) || b == 0x2D
        || b == 0x2E || b == 0x5F || b == 0x7E
}

/// Upper-case hex digit of `d < 16`.
pub open spec fn hex_upper(d: u8) -> char {
    if d < 10 {
        ((0x30 + d) as u8) as char
    } else {
        ((0x41 - 10 + d) as u8) as char
    }
}

/// Lower-case hex digit of `d < 16`.
pub open spec fn hex_lower(d: u8) -> char {
    if d < 10 {
        ((0x30 + d) as u8) as char
    } else {
        ((0x61 - 10 + d) as u8) as char
    }
}

/// Percent-encoding of bytes: unreserved bytes as themselves, every other byte as `%XX`.
pub open spec fn percent_encode_bytes(b: Seq<u8>) -> Seq<char>
    decreases b.len(),
{
    if b.len() == 0 {
        seq![]
    } else {
        let last = b.last();
        percent_encode_bytes(b.drop_last()) + if is_unreserved(last) {
            seq![last as char]
        } else {
            seq!['%', hex_upper(last >> 4), hex_upper(last & 15)]
        }
    }
}

/// `urlencoding::encode`: the UTF-8 bytes of the text, percent-encoded.
pub open spec fn url_encode(s: Seq<char>) -> Seq<char> {
    percent_encode_bytes(encode_utf8(s))
}

/// `urlencoding::encode`: percent-encodes every byte of the UTF-8 text except ASCII
/// alphanumerics and `-`, `_`, `.`, `~`, with upper-case hex digits.
#[verifier::external_body]
pub(crate) fn encode(s: &str) -> (r: String)
    ensures
        r@ == url_encode(s@),
{
    urlencoding::encode(s).into_owned()
}

/// The value of a hex digit byte, either case.
pub open spec fn hex_value(b: u8) -> Option<u8> {
    if 0x30 <= b <= 0x39 {
        Some((b - 0x30) as u8)
    } else if 0x41 <= b <= 0x46 {
        Some((b - 0x41 + 10) as u8)
    } else if 0x61 <= b <= 0x66 {
        Some((b - 0x61 + 10) as u8)
    } else {
        None
    }
}

/// Percent-decoding of bytes as `urlencoding::decode_binary` does it: `%` and two hex digits
/// become that byte; a `%` whose first following byte is no hex digit stays, and so do a `%`
/// and a first hex digit whose second is none; a `%` with fewer than two bytes after it stays
/// with them; every other byte stays. `+` is not touched.
pub open spec fn percent_decode_bytes(b: Seq<u8>) -> Seq<u8>
    decreases b.len(),
{
    if b.len() == 0 {
        seq![]
    } else if b[0] == 0x25u8 {
        if b.len() < 3 {
            b
        } else {
            match (hex_value(b[1]), hex_value(b[2])) {
                (Some(h), Some(l)) => seq![(h * 16 + l) as u8] + percent_decode_bytes(b.skip(3)),
                (Some(_), None) => seq![0x25u8, b[1]] + percent_decode_bytes(b.skip(2)),
                _ => seq![0x25u8] + percent_decode_bytes(b.skip(1)),
            }
        }
    } else {
        seq![b[0]] + percent_decode_bytes(b.skip(1))
    }
}

/// What `urlencoding::decode` returns for a text: its UTF-8 bytes percent-decoded, read back as
/// UTF-8; `None` where they are not UTF-8.
pub open spec fn url_decode(s: Seq<char>) -> Option<Seq<char>> {
    let bytes = percent_decode_bytes(encode_utf8(s));
    if vstd::utf8::valid_utf8(bytes) {
        Some(vstd::utf8::decode_utf8(bytes))
    } else {
        None
    }
}

/// `urlencoding::decode`: `%XX` escapes turned back into bytes, the result read as UTF-8
/// (`String::from_utf8`), as `url_decode` states it.
#[verifier::external_body]
pub(crate) fn decode(s: &str) -> (r: Option<String>)
    ensures
        match r {
            Some(d) => url_decode(s@) == Some(d@),
            None => url_decode(s@) is None,
        },
{
    match urlencoding::decode(s) {
        Ok(d) => Some(d.into_owned()),
        Err(_) => None,
    }
}

/// The SHA-1 digest of a byte string.
pub uninterp spec fn sha1(data: Seq<u8>) -> Seq<u8>;

/// `<sha1::Sha1 as Digest>::digest`: the SHA-1 digest, 20 bytes.
#[verifier::external_body]
pub(crate) fn sha1_digest(data: &[u8]) -> (r: Vec<u8>)
    ensures
        r@ == sha1(data@),
        r@.len() == 20,
{
    sha1::Sha1::digest(data).to_vec()
}

/// Lower-case hex of bytes, two digits per byte (`hex::encode`).
pub open spec fn hex_of(b: Seq<u8>) -> Seq<char>
    decreases b.len(),
{
    if b.len() == 0 {
        seq![]
    } else {
        hex_of(b.drop_last()) + seq![hex_lower(b.last() >> 4), hex_lower(b.last() & 15)]
    }
}

pub(crate) fn hex_digit(d: u8) -> (c: char)
    requires
        d < 16,
    ensures
        c == hex_lower(d),
{
    if d < 10 {
        (0x30 + d) as char
    } else {
        (0x61 - 10 + d) as char
    }
}

/// Lower-case hex encoding of bytes, as `hex::encode` writes it.
pub fn hex_encode(b: &[u8]) -> (r: Vec<char>)
    ensures
        r@ == hex_of(b@),
        r@.len() == 2 * b@.len(),
{
    let mut r: Vec<char> = Vec::new();
    let mut i: usize = 0;
    while i < b.len()
        invariant
            0 <= i <= b@.len(),
            r@ == hex_of(b@.take(i as int)),
            r@.len() == 2 * i,
        decreases b.len() - i,
    {
        assert(b@.take(i + 1).drop_last() == b@.take(i as int));
        assert(b@.take(i + 1).last() == b@[i as int]);
        let x = b[i];
        assert(x >> 4 < 16 && x & 15 < 16) by (bit_vector);
        r.push(hex_digit(x >> 4));
        r.push(hex_digit(x & 15));
        i += 1;
    }
    assert(b@.take(b@.len() as int) == b@);
    r
}

pub open spec fn digit_char(d: nat) -> char {
    ((0x30 + d) as u8) as char
}

/// Decimal digits of a natural number, no leading zeros.
pub open spec fn decimal(n: nat) -> Seq<char>
    decreases n,
{
    if n < 10 {
        seq![digit_char(n)]
    } else {
        decimal(n / 10).push(digit_char(n % 10))
    }
}

/// Append the decimal digits of `n`.
pub fn push_decimal(out: &mut Vec<char>, n: u64)
    ensures
        final(out)@ == old(out)@ + decimal(n as nat),
    decreases n,
{
    if n >= 10 {
        push_decimal(out, n / 10);
    }
    let d = (n % 10) as u8;
    out.push((0x30 + d) as char);
}

/// Decimal digits of a signed number, `-` first when negative.
pub open spec fn decimal_i64(n: int) -> Seq<char> {
    if n < 0 {
        seq!['-'] + decimal((-n) as nat)
    } else {
        decimal(n as nat)
    }
}

/// Append the decimal digits of a signed number.
pub fn push_decimal_i64(out: &mut Vec<char>, n: i64)
    ensures
        final(out)@ == old(out)@ + decimal_i64(n as int),
{
    if n < 0 {
        out.push('-');
        let m: u64 = if n == i64::MIN {
            9223372036854775808u64
        } else {
            (-n) as u64
        };
        push_decimal(out, m);
    } else {
        push_decimal(out, n as u64);
    }
}

/// What `base64`'s URL-safe, unpadded engine decodes a text to; `None` when it refuses it.
pub uninterp spec fn base64url_decode(s: Seq<char>) -> Option<Seq<u8>>;

/// `base64::engine::general_purpose::URL_SAFE_NO_PAD.decode`. The result is named, not stated.
#[verifier::external_body]
pub(crate) fn base64url_nopad_decode(s: &str) -> (r: Option<Vec<u8>>)
    ensures
        match r {
            Some(b) => base64url_decode(s@) == Some(b@),
            None => base64url_decode(s@) is None,
        },
{
    base64::engine::general_purpose::URL_SAFE_NO_PAD.decode(s).ok()
}

/// How `serde_json` writes one character inside a string literal: `"` and `\` escaped with a
/// backslash; backspace, tab, line feed, form feed and carriage return as `\b \t \n \f \r`;
/// every other control character below U+0020 as `\u00` and two lower-case hex digits; any
/// other character as itself.
pub open spec fn json_escape(c: char) -> Seq<char> {
    if c == '"' {
        seq!['\\', '"']
    } else if c == '\\' {
        seq!['\\', '\\']
    } else if c == '\u{8}' {
        seq!['\\', 'b']
    } else if c == '\t' {
        seq!['\\', 't']
    } else if c == '\n' {
        seq!['\\', 'n']
    } else if c == '\u{c}' {
        seq!['\\', 'f']
    } else if c == '\r' {
        seq!['\\', 'r']
    } else if (c as u32) < 0x20 {
        seq!['\\', 'u', '0', '0', hex_lower(((c as u32) / 16) as u8), hex_lower(((c as u32) % 16) as u8)]
    } else {
        seq![c]
    }
}

/// The escaped characters of a text.
pub open spec fn json_escaped(s: Seq<char>) -> Seq<char>
    decreases s.len(),
{
    if s.len() == 0 {
        seq![]
    } else {
        json_escaped(s.drop_last()) + json_escape(s.last())
    }
}

/// The JSON string literal `serde_json` writes for a text: the escaped text between quotes.
pub open spec fn json_string_literal(s: Seq<char>) -> Seq<char> {
    seq!['"'] + json_escaped(s) + seq!['"']
}

/// `serde_json::to_string` of a `&str`: the text as a quoted JSON string literal, escaped as
/// `json_escape` says (the escape table of `serde_json`'s string serializer). The error case
/// gives the empty literal `""`; a string never reaches it.
#[verifier::external_body]
pub(crate) fn json_string(s: &str) -> (r: String)
    ensures
        r@ == json_string_literal(s@),
{
    match serde_json::to_string(s) {
        Ok(j) => j,
        Err(_) => String::from("\"\""),
    }
}

/// The UTF-8 bytes of a text.
pub fn utf8_bytes(s: &str) -> (r: &[u8])
    ensures
        r@ == encode_utf8(s@),
{
    s.as_bytes()
}

} // verus!

verus! {

/// Whether `c` is an ASCII digit.
pub open spec fn is_digit(c: char) -> bool {
    '0' <= c <= '9'
}

/// The value of a string of ASCII digits, read in base ten.
pub open spec fn digits_value(d: Seq<char>) -> nat
    decreases d.len(),
{
    if d.len() == 0 {
        0
    } else {
        digits_value(d.drop_last()) * 10 + ((d.last() as int - '0' as int) as nat)
    }
}

/// One or more ASCII digits.
pub open spec fn all_digits(d: Seq<char>) -> bool {
    d.len() > 0 && forall|i: int| 0 <= i < d.len() ==> is_digit(#[trigger] d[i])
}

/// The integer a text denotes the way Rust's `FromStr` for integers reads it: an optional `+`
/// or `-`, then one or more ASCII digits, nothing else.
pub open spec fn int_text_value(s: Seq<char>) -> Option<int> {
    if s.len() > 0 && (s[0] == '+' || s[0] == '-') {
        if all_digits(s.drop_first()) {
            Some(
                if s[0] == '-' {
                    -(digits_value(s.drop_first()) as int)
                } else {
                    digits_value(s.drop_first()) as int
                },
            )
        } else {
            None
        }
    } else if all_digits(s) {
        Some(digits_value(s) as int)
    } else {
        None
    }
}

/// `<i64 as FromStr>::from_str`: `None` unless the text is an integer within `i64`.
pub open spec fn parse_i64_spec(s: Seq<char>) -> Option<i64> {
    match int_text_value(s) {
        Some(v) => if i64::MIN <= v <= i64::MAX {
            Some(v as i64)
        } else {
            None
        },
        None => None,
    }
}

/// `<i32 as FromStr>::from_str`: `None` unless the text is an integer within `i32`.
pub open spec fn parse_i32_spec(s: Seq<char>) -> Option<i32> {
    match int_text_value(s) {
        Some(v) => if i32::MIN <= v <= i32::MAX {
            Some(v as i32)
        } else {
            None
        },
        None => None,
    }
}

proof fn lemma_digits_prefix(d: Seq<char>, k: int)
    requires
        0 <= k <= d.len(),
    ensures
        digits_value(d.take(k)) <= digits_value(d),
    decreases d.len() - k,
{
    if k < d.len() {
        lemma_digits_prefix(d, k + 1);
        assert(d.take(k + 1).drop_last() == d.take(k));
    } else {
        assert(d.take(k) == d);
    }
}

/// The value of the digit run `v[lo..hi]`, when it is all digits and at most `u64::MAX`.
fn digits_u64(v: &[char], lo: usize, hi: usize) -> (r: Option<u64>)
    requires
        lo <= hi <= v@.len(),
    ensures
        match r {
            Some(x) => all_digits(v@.subrange(lo as int, hi as int)) && x == digits_value(
                v@.subrange(lo as int, hi as int),
            ),
            None => !all_digits(v@.subrange(lo as int, hi as int)) || digits_value(
                v@.subrange(lo as int, hi as int),
            ) > u64::MAX,
        },
{
    let ghost d = v@.subrange(lo as int, hi as int);
    if lo == hi {
        return None;
    }
    let mut acc: u64 = 0;
    let mut i: usize = lo;
    while i < hi
        invariant
            lo <= i <= hi <= v@.len(),
            d == v@.subrange(lo as int, hi as int),
            forall|j: int| 0 <= j < i - lo ==> is_digit(#[trigger] d[j]),
            acc == digits_value(d.take(i - lo)),
        decreases hi - i,
    {
        let c = v[i];
        assert(d.take(i - lo + 1).drop_last() == d.take(i - lo));
        assert(d.take(i - lo + 1).last() == c);
        if !('0' <= c && c <= '9') {
            assert(!is_digit(d[i - lo]));
            return None;
        }
        let dv: u64 = ((c as u32) - 48) as u64;
        match acc.checked_mul(10) {
            None => {
                proof {
                    lemma_digits_prefix(d, i - lo + 1);
                }
                return None;
            },
            Some(m) => match m.checked_add(dv) {
                None => {
                    proof {
                        lemma_digits_prefix(d, i - lo + 1);
                    }
                    return None;
                },
                Some(a) => {
                    acc = a;
                },
            },
        }
        i += 1;
    }
    assert(d.take(hi - lo) == d);
    Some(acc)
}

proof fn lemma_digit_char(k: nat)
    requires
        k < 10,
    ensures
        digit_char(k) as int == 48 + k,
        is_digit(digit_char(k)),
{
    assert(((0x30 + k) as u8) as int == 0x30 + k);
}

/// The decimal digits of `n` are digits, and read back as `n`.
pub proof fn lemma_decimal_reads_back(n: nat)
    ensures
        all_digits(decimal(n)),
        digits_value(decimal(n)) == n,
        int_text_value(decimal(n)) == Some(n as int),
    decreases n,
{
    lemma_digit_char(n % 10);
    if n < 10 {
        assert(decimal(n).drop_last() == Seq::<char>::empty());
        assert(digits_value(Seq::<char>::empty()) == 0);
    }
    if n >= 10 {
        lemma_decimal_reads_back(n / 10);
        let d = decimal(n);
        assert(d.drop_last() == decimal(n / 10));
        assert forall|i: int| 0 <= i < d.len() implies is_digit(#[trigger] d[i]) by {
            if i < d.len() - 1 {
                assert(d[i] == decimal(n / 10)[i]);
            }
        }
    }
    assert(is_digit(decimal(n)[0]));
    assert(!(decimal(n)[0] == '+' || decimal(n)[0] == '-'));
}

/// The integer value of a text, with its magnitude, when it has the shape `FromStr` accepts.
fn parse_int_parts(s: &str) -> (r: Option<(bool, u64)>)
    ensures
        match r {
            Some((neg, m)) => int_text_value(s@) == Some(if neg {
                -(m as int)
            } else {
                m as int
            }),
            None => int_text_value(s@) is None || (int_text_value(s@) matches Some(v) && (v
                > u64::MAX || v < -(u64::MAX as int))),
        },
{
    let v = crate::text::chars_of(s);
    let n = v.len();
    if n > 0 && (v[0] == '+' || v[0] == '-') {
        assert(v@.subrange(1, n as int) == s@.drop_first());
        match digits_u64(v.as_slice(), 1, n) {
            Some(m) => Some((v[0] == '-', m)),
            None => None,
        }
    } else {
        assert(v@.subrange(0, n as int) == s@);
        match digits_u64(v.as_slice(), 0, n) {
            Some(m) => Some((false, m)),
            None => None,
        }
    }
}

/// `s.parse::<i64>()`.
pub fn parse_i64(s: &str) -> (r: Option<i64>)
    ensures
        r == parse_i64_spec(s@),
{
    match parse_int_parts(s) {
        None => None,
        Some((neg, m)) => {
            if neg {
                if m <= 9223372036854775808u64 {
                    let w: i128 = -(m as i128);
                    Some(w as i64)
                } else {
                    None
                }
            } else if m <= 9223372036854775807u64 {
                Some(m as i64)
            } else {
                None
            }
        },
    }
}

/// `s.parse::<i32>()`.
pub fn parse_i32(s: &str) -> (r: Option<i32>)
    ensures
        r == parse_i32_spec(s@),
{
    match parse_int_parts(s) {
        None => None,
        Some((neg, m)) => {
            if neg {
                if m <= 2147483648u64 {
                    let w: i64 = -(m as i64);
                    Some(w as i32)
                } else {
                    None
                }
            } else if m <= 2147483647u64 {
                Some(m as i32)
            } else {
                None
            }
        },
    }
}

} // verus!
