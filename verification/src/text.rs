//! Character-level string helpers shared by the rest of the library: the mathematical meaning of
//! `split`, `split_once`, `trim` and friends over `Seq<char>`, and executable versions on
//! `Vec<char>` proved against them.

use vstd::prelude::*;

verus! {

/// Unicode `White_Space`, the set `char::is_whitespace` and `str::trim` use.
pub open spec fn is_ws(c: char) -> bool {
    ||| c == '\t' || c == '\n' || c == '\u{0B}' || c == '\u{0C}' || c == '\r' || c == ' '
    ||| c == '\u{85}' || c == '\u{A0}' || c == '\u{1680}'
    ||| ('\u{2000}' <= c && c <= '\u{200A}')
    ||| c == '\u{2028}' || c == '\u{2029}' || c == '\u{202F}' || c == '\u{205F}' || c == '\u{3000}'
}

pub fn is_whitespace(c: char) -> (r: bool)
    ensures
        r == is_ws(c),
{
    c == '\t' || c == '\n' || c == '\u{0B}' || c == '\u{0C}' || c == '\r' || c == ' ' || c
        == '\u{85}' || c == '\u{A0}' || c == '\u{1680}' || ('\u{2000}' <= c && c <= '\u{200A}')
        || c == '\u{2028}' || c == '\u{2029}' || c == '\u{202F}' || c == '\u{205F}' || c
        == '\u{3000}'
}

/// Index of the first `c` in `s`, or -1.
pub open spec fn pos_of(s: Seq<char>, c: char) -> int
    decreases s.len(),
{
    if s.len() == 0 {
        -1
    } else if s[0] == c {
        0
    } else {
        let p = pos_of(s.drop_first(), c);
        if p < 0 {
            -1
        } else {
            p + 1
        }
    }
}

pub proof fn lemma_pos_of(s: Seq<char>, c: char)
    ensures
        -1 <= pos_of(s, c) < s.len(),
        pos_of(s, c) >= 0 ==> s[pos_of(s, c)] == c,
        forall|j: int| 0 <= j < s.len() && (pos_of(s, c) < 0 || j < pos_of(s, c)) ==> s[j] != c,
    decreases s.len(),
{
    if s.len() > 0 && s[0] != c {
        lemma_pos_of(s.drop_first(), c);
        assert forall|j: int| 0 <= j < s.len() && (pos_of(s, c) < 0 || j < pos_of(s, c)) implies s[j]
            != c by {
            if j > 0 {
                assert(s[j] == s.drop_first()[j - 1]);
            }
        }
    }
}

/// The unique characterisation of `pos_of`: the first occurrence, or -1 when there is none.
pub proof fn lemma_pos_of_unique(s: Seq<char>, c: char, p: int)
    requires
        -1 <= p < s.len(),
        p >= 0 ==> s[p] == c,
        forall|j: int| 0 <= j < s.len() && (p < 0 || j < p) ==> s[j] != c,
    ensures
        pos_of(s, c) == p,
{
    lemma_pos_of(s, c);
}

/// `str::split(c)`: the pieces between occurrences of `c` (always at least one piece).
pub open spec fn split_on(s: Seq<char>, c: char) -> Seq<Seq<char>>
    decreases s.len(),
{
    let p = pos_of(s, c);
    if p < 0 {
        seq![s]
    } else {
        proof {
            lemma_pos_of(s, c);
        }
        seq![s.take(p)] + split_on(s.skip(p + 1), c)
    }
}

pub proof fn lemma_split_nonempty(s: Seq<char>, c: char)
    ensures
        split_on(s, c).len() >= 1,
{
}

/// `str::split_once(c)`.
pub open spec fn split_once(s: Seq<char>, c: char) -> Option<(Seq<char>, Seq<char>)> {
    let p = pos_of(s, c);
    if p < 0 {
        None
    } else {
        Some((s.take(p), s.skip(p + 1)))
    }
}

/// Leading white space removed.
pub open spec fn trim_start(s: Seq<char>) -> Seq<char>
    decreases s.len(),
{
    if s.len() > 0 && is_ws(s[0]) {
        trim_start(s.drop_first())
    } else {
        s
    }
}

/// Trailing white space removed.
pub open spec fn trim_end(s: Seq<char>) -> Seq<char>
    decreases s.len(),
{
    if s.len() > 0 && is_ws(s.last()) {
        trim_end(s.drop_last())
    } else {
        s
    }
}

/// `str::trim`.
pub open spec fn trim(s: Seq<char>) -> Seq<char> {
    trim_end(trim_start(s))
}

pub open spec fn starts_with(s: Seq<char>, p: Seq<char>) -> bool {
    p.len() <= s.len() && s.take(p.len() as int) == p
}

pub open spec fn ends_with(s: Seq<char>, p: Seq<char>) -> bool {
    p.len() <= s.len() && s.skip(s.len() - p.len()) == p
}

pub open spec fn contains_char(s: Seq<char>, c: char) -> bool {
    exists|i: int| 0 <= i < s.len() && s[i] == c
}

/// The text an optional `String` holds.
pub open spec fn opt_view(o: Option<String>) -> Option<Seq<char>> {
    match o {
        Some(s) => Some(s@),
        None => None,
    }
}

/// The text an optional `&str` holds.
pub open spec fn opt_str_view(o: Option<&str>) -> Option<Seq<char>> {
    match o {
        Some(s) => Some(s@),
        None => None,
    }
}

/// The texts of a list of strings.
pub open spec fn strings_view(v: Seq<String>) -> Seq<Seq<char>> {
    v.map_values(|s: String| s@)
}

/// The characters of a string, in order.
pub fn chars_of(s: &str) -> (v: Vec<char>)
    ensures
        v@ == s@,
{
    let mut v: Vec<char> = Vec::new();
    for c in it: s.chars()
        invariant
            v@ == it.seq().take(it.index() as int),
    {
        v.push(c);
    }
    v
}

/// `String` from characters (`String::from_iter`).
#[verifier::external_body]
pub(crate) fn string_of(v: &[char]) -> (s: String)
    ensures
        s@ == v@,
{
    String::from_iter(v.iter())
}

/// `String::push_str`.
#[verifier::external_body]
pub(crate) fn push_str(s: &mut String, t: &str)
    ensures
        final(s)@ == old(s)@ + t@,
{
    s.push_str(t)
}

/// `<str as PartialEq>::eq`.
#[verifier::external_body]
pub(crate) fn str_eq(a: &str, b: &str) -> (r: bool)
    ensures
        r == (a@ == b@),
{
    a == b
}

/// Copy of `v[lo..hi]`.
pub fn slice_to_vec(v: &[char], lo: usize, hi: usize) -> (r: Vec<char>)
    requires
        lo <= hi <= v@.len(),
    ensures
        r@ == v@.subrange(lo as int, hi as int),
{
    let mut r: Vec<char> = Vec::new();
    let mut i: usize = lo;
    while i < hi
        invariant
            lo <= i <= hi <= v@.len(),
            r@ == v@.subrange(lo as int, i as int),
        decreases hi - i,
    {
        r.push(v[i]);
        i += 1;
    }
    r
}

/// Append a slice of characters.
pub fn extend_chars(r: &mut Vec<char>, v: &[char])
    ensures
        final(r)@ == old(r)@ + v@,
{
    let mut i: usize = 0;
    while i < v.len()
        invariant
            0 <= i <= v@.len(),
            r@ == old(r)@ + v@.take(i as int),
        decreases v.len() - i,
    {
        r.push(v[i]);
        i += 1;
        assert(v@.take(i as int) == v@.take((i - 1) as int).push(v@[i - 1]));
    }
    assert(v@.take(v@.len() as int) == v@);
}

/// Append the characters of a text.
pub fn push_text(r: &mut Vec<char>, t: &str)
    ensures
        final(r)@ == old(r)@ + t@,
{
    let v = chars_of(t);
    extend_chars(r, v.as_slice());
}

/// Whether `p` occurs in `s` at position `i`.
pub open spec fn occurs_at(s: Seq<char>, p: Seq<char>, i: int) -> bool {
    0 <= i && i + p.len() <= s.len() && s.subrange(i, i + p.len()) == p
}

/// Whether `p` occurs in `s` (`str::contains` with a string pattern).
pub open spec fn contains_seq(s: Seq<char>, p: Seq<char>) -> bool {
    exists|i: int| occurs_at(s, p, i)
}

/// First position `>= from` where `p` occurs in `v`.
pub fn find_seq(v: &[char], p: &[char], from: usize) -> (r: Option<usize>)
    requires
        from <= v@.len(),
    ensures
        match r {
            Some(i) => from <= i && occurs_at(v@, p@, i as int) && forall|j: int|
                from <= j < i ==> !occurs_at(v@, p@, j),
            None => forall|j: int| from <= j ==> !occurs_at(v@, p@, j),
        },
{
    let mut i: usize = from;
    while i <= v.len() && p.len() <= v.len() - i
        invariant
            from <= i,
            forall|j: int| from <= j < i ==> !occurs_at(v@, p@, j),
        decreases v.len() - i + 1,
    {
        if range_eq(v, i, i + p.len(), p) {
            return Some(i);
        }
        if p.len() == 0 {
            assert(v@.subrange(i as int, i as int) =~= p@);
        }
        i += 1;
    }
    None
}

/// Start of the first occurrence of `p` in `s`, or -1 when there is none.
pub open spec fn first_occurrence(s: Seq<char>, p: Seq<char>) -> int {
    if exists|i: int| occurs_at(s, p, i) {
        choose|i: int| occurs_at(s, p, i) && forall|j: int| j < i ==> !occurs_at(s, p, j)
    } else {
        -1
    }
}

/// `str::replacen(from, to, 1)`: the first occurrence of `from` replaced by `to`.
pub open spec fn replace_first(s: Seq<char>, from: Seq<char>, to: Seq<char>) -> Seq<char> {
    let i = first_occurrence(s, from);
    if i >= 0 {
        s.take(i) + to + s.skip(i + from.len())
    } else {
        s
    }
}

/// `str::replacen(from, to, 1)`.
pub fn replace_first_text(s: &str, from: &str, to: &str) -> (r: String)
    ensures
        r@ == replace_first(s@, from@, to@),
{
    let v = chars_of(s);
    let p = chars_of(from);
    let n = v.len();
    match find_seq(v.as_slice(), p.as_slice(), 0) {
        Some(i) => {
            proof {
                let k = choose|k: int|
                    occurs_at(v@, p@, k) && forall|j: int| j < k ==> !occurs_at(v@, p@, j);
                assert(k == i);
            }
            let mut out = slice_to_vec(v.as_slice(), 0, i);
            push_text(&mut out, to);
            let rest = slice_to_vec(v.as_slice(), i + p.len(), n);
            extend_chars(&mut out, rest.as_slice());
            assert(v@.subrange(0, i as int) == v@.take(i as int));
            assert(v@.subrange(i + p@.len(), n as int) == v@.skip(i + p@.len()));
            string_of(out.as_slice())
        },
        None => {
            assert(forall|j: int| !occurs_at(v@, p@, j));
            string_of(v.as_slice())
        },
    }
}

/// Start of the last occurrence of `p` in `s`, or -1 when there is none.
pub open spec fn last_occurrence(s: Seq<char>, p: Seq<char>) -> int {
    if exists|i: int| occurs_at(s, p, i) {
        choose|i: int| occurs_at(s, p, i) && forall|j: int| j > i ==> !occurs_at(s, p, j)
    } else {
        -1
    }
}

/// `str::rfind` with a string pattern, over characters.
pub fn rfind_seq(v: &[char], p: &[char]) -> (r: Option<usize>)
    ensures
        match r {
            Some(i) => occurs_at(v@, p@, i as int) && last_occurrence(v@, p@) == i,
            None => last_occurrence(v@, p@) == -1 && forall|j: int| !occurs_at(v@, p@, j),
        },
{
    if p.len() > v.len() {
        assert forall|j: int| !occurs_at(v@, p@, j) by {}
        return None;
    }
    let mut i: usize = v.len() - p.len();
    loop
        invariant
            p@.len() <= v@.len() <= usize::MAX,
            i <= v@.len() - p@.len(),
            forall|j: int| j > i ==> !occurs_at(v@, p@, j),
        decreases i,
    {
        if range_eq(v, i, i + p.len(), p) {
            assert(occurs_at(v@, p@, i as int));
            let ghost k = choose|k: int|
                occurs_at(v@, p@, k) && forall|j: int| j > k ==> !occurs_at(v@, p@, j);
            assert(k == i);
            return Some(i);
        }
        if i == 0 {
            assert forall|j: int| !occurs_at(v@, p@, j) by {}
            return None;
        }
        i -= 1;
    }
}

/// `str::contains` with a string pattern.
pub fn contains_text(s: &str, p: &str) -> (r: bool)
    ensures
        r == contains_seq(s@, p@),
{
    let v = chars_of(s);
    let pv = chars_of(p);
    match find_seq(v.as_slice(), pv.as_slice(), 0) {
        Some(_) => true,
        None => false,
    }
}

/// Whether `v[lo..hi]` equals `p`.
pub fn range_eq(v: &[char], lo: usize, hi: usize, p: &[char]) -> (r: bool)
    requires
        lo <= hi <= v@.len(),
    ensures
        r == (v@.subrange(lo as int, hi as int) == p@),
{
    if hi - lo != p.len() {
        return false;
    }
    let mut i: usize = 0;
    while i < p.len()
        invariant
            hi - lo == p@.len(),
            lo <= hi <= v@.len(),
            0 <= i <= p@.len(),
            forall|j: int| 0 <= j < i ==> v@[lo + j] == p@[j],
        decreases p.len() - i,
    {
        if v[lo + i] != p[i] {
            assert(v@.subrange(lo as int, hi as int)[i as int] != p@[i as int]);
            return false;
        }
        i += 1;
    }
    assert(v@.subrange(lo as int, hi as int) =~= p@);
    true
}

/// Whether `v[lo..hi]` equals the characters of `p`.
pub fn range_eq_str(v: &[char], lo: usize, hi: usize, p: &str) -> (r: bool)
    requires
        lo <= hi <= v@.len(),
    ensures
        r == (v@.subrange(lo as int, hi as int) == p@),
{
    let pv = chars_of(p);
    range_eq(v, lo, hi, pv.as_slice())
}

/// First index `>= from` (and `< hi`) holding `c`, as `pos_of` of that window.
pub fn find_char(v: &[char], c: char, from: usize, hi: usize) -> (r: Option<usize>)
    requires
        from <= hi <= v@.len(),
    ensures
        match r {
            Some(i) => from <= i < hi && pos_of(v@.subrange(from as int, hi as int), c) == i
                - from,
            None => pos_of(v@.subrange(from as int, hi as int), c) == -1,
        },
{
    let mut i: usize = from;
    while i < hi
        invariant
            from <= i <= hi <= v@.len(),
            forall|j: int| from <= j < i ==> v@[j] != c,
        decreases hi - i,
    {
        if v[i] == c {
            proof {
                lemma_pos_of_unique(v@.subrange(from as int, hi as int), c, i - from);
            }
            return Some(i);
        }
        i += 1;
    }
    proof {
        lemma_pos_of_unique(v@.subrange(from as int, hi as int), c, -1);
    }
    None
}

pub proof fn lemma_trim_start_ws(s: Seq<char>)
    ensures
        trim_start(s).len() > 0 ==> !is_ws(trim_start(s)[0]),
        exists|k: int| 0 <= k <= s.len() && trim_start(s) == s.skip(k),
    decreases s.len(),
{
    if s.len() > 0 && is_ws(s[0]) {
        lemma_trim_start_ws(s.drop_first());
        let k = choose|k: int| 0 <= k <= s.drop_first().len() && trim_start(s.drop_first()) == s.drop_first().skip(k);
        assert(s.drop_first().skip(k) == s.skip(k + 1));
    } else {
        assert(s.skip(0) == s);
    }
}

/// Bounds of `trim(v[lo..hi])` inside `v`.
pub fn trim_bounds(v: &[char], lo: usize, hi: usize) -> (r: (usize, usize))
    requires
        lo <= hi <= v@.len(),
    ensures
        lo <= r.0 <= r.1 <= hi,
        v@.subrange(r.0 as int, r.1 as int) == trim(v@.subrange(lo as int, hi as int)),
{
    let mut a: usize = lo;
    while a < hi && is_whitespace(v[a])
        invariant
            lo <= a <= hi <= v@.len(),
            trim_start(v@.subrange(lo as int, hi as int)) == trim_start(
                v@.subrange(a as int, hi as int),
            ),
        decreases hi - a,
    {
        assert(v@.subrange(a as int, hi as int).drop_first() == v@.subrange(a + 1, hi as int));
        a += 1;
    }
    assert(trim_start(v@.subrange(a as int, hi as int)) == v@.subrange(a as int, hi as int));
    let mut b: usize = hi;
    while b > a && is_whitespace(v[b - 1])
        invariant
            lo <= a <= b <= hi <= v@.len(),
            trim(v@.subrange(lo as int, hi as int)) == trim_end(v@.subrange(a as int, b as int)),
        decreases b - a,
    {
        assert(v@.subrange(a as int, b as int).drop_last() == v@.subrange(a as int, b - 1));
        b -= 1;
    }
    (a, b)
}

/// Whether `v[lo..hi]` contains `c`.
pub fn has_char(v: &[char], lo: usize, hi: usize, c: char) -> (r: bool)
    requires
        lo <= hi <= v@.len(),
    ensures
        r == contains_char(v@.subrange(lo as int, hi as int), c),
{
    let mut i: usize = lo;
    while i < hi
        invariant
            lo <= i <= hi <= v@.len(),
            forall|j: int| lo <= j < i ==> v@[j] != c,
        decreases hi - i,
    {
        if v[i] == c {
            assert(v@.subrange(lo as int, hi as int)[i - lo] == c);
            return true;
        }
        i += 1;
    }
    assert forall|j: int| 0 <= j < hi - lo implies v@.subrange(lo as int, hi as int)[j] != c by {
        assert(v@.subrange(lo as int, hi as int)[j] == v@[lo + j]);
    }
    false
}

} // verus!

verus! {

pub proof fn lemma_split_step_abs(s: Seq<char>, st: int, e: int, c: char)
    requires
        0 <= st <= e < s.len(),
        pos_of(s.subrange(st, s.len() as int), c) == e - st,
    ensures
        split_on(s.skip(st), c) == seq![s.subrange(st, e)] + split_on(s.skip(e + 1), c),
{
    assert(s.subrange(st, s.len() as int) == s.skip(st));
    assert(s.skip(st).take(e - st) == s.subrange(st, e));
    assert(s.skip(st).skip(e - st + 1) == s.skip(e + 1));
}

pub proof fn lemma_split_last_abs(s: Seq<char>, st: int, c: char)
    requires
        0 <= st <= s.len(),
        pos_of(s.subrange(st, s.len() as int), c) == -1,
    ensures
        split_on(s.skip(st), c) == seq![s.subrange(st, s.len() as int)],
{
    assert(s.subrange(st, s.len() as int) == s.skip(st));
}

/// Char bounds of the pieces of `v` split on `c`, in order.
pub fn split_bounds(v: &[char], c: char) -> (r: Vec<(usize, usize)>)
    ensures
        r@.len() == split_on(v@, c).len(),
        forall|i: int|
            0 <= i < r@.len() ==> #[trigger] r@[i].0 <= r@[i].1 <= v@.len() && v@.subrange(
                r@[i].0 as int,
                r@[i].1 as int,
            ) == split_on(v@, c)[i],
{
    let n = v.len();
    let mut r: Vec<(usize, usize)> = Vec::new();
    let mut st: usize = 0;
    let ghost mut done: Seq<Seq<char>> = seq![];
    assert(v@.skip(0) == v@);
    assert(done + split_on(v@, c) == split_on(v@, c));
    loop
        invariant
            n == v@.len(),
            st <= n,
            split_on(v@, c) == done + split_on(v@.skip(st as int), c),
            r@.len() == done.len(),
            forall|i: int|
                0 <= i < r@.len() ==> #[trigger] r@[i].0 <= r@[i].1 <= v@.len() && v@.subrange(
                    r@[i].0 as int,
                    r@[i].1 as int,
                ) == done[i],
        decreases n - st,
    {
        match find_char(v, c, st, n) {
            Some(e) => {
                proof {
                    lemma_split_step_abs(v@, st as int, e as int, c);
                    let seg = v@.subrange(st as int, e as int);
                    assert(done + split_on(v@.skip(st as int), c) == (done + seq![seg]) + split_on(
                        v@.skip(e + 1),
                        c,
                    ));
                    done = done + seq![seg];
                }
                r.push((st, e));
                st = e + 1;
            },
            None => {
                let ghost old_done = done;
                proof {
                    lemma_split_last_abs(v@, st as int, c);
                    done = done + seq![v@.subrange(st as int, n as int)];
                }
                let ghost old_r = r@;
                r.push((st, n));
                assert(split_on(v@, c) == done);
                assert forall|i: int| 0 <= i < r@.len() implies #[trigger] r@[i].0 <= r@[i].1
                    <= v@.len() && v@.subrange(r@[i].0 as int, r@[i].1 as int) == done[i] by {
                    if i < old_done.len() {
                        assert(done[i] == old_done[i]);
                        assert(r@[i] == old_r[i]);
                    }
                }
                return r;
            },
        }
    }
}

} // verus!
