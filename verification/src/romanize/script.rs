//! Which script a character belongs to, and which script a song is mostly written in.

use vstd::prelude::*;

use crate::text::{chars_of, opt_str_view};

verus! {

/// How a character is romanized.
#[derive(Debug, Clone, Copy, PartialEq, Eq, Structural)]
pub enum Class {
    /// Latin, digits, spaces, anything left as it is.
    Keep,
    /// Kana and Han: Japanese or Chinese depending on the song.
    Cjk,
    Hangul,
    /// Scripts `any_ascii` transliterates well.
    Alphabet,
    /// CJK and full-width punctuation.
    Punct,
}

pub open spec fn in_range(c: char, lo: u32, hi: u32) -> bool {
    lo <= (c as u32) <= hi
}

/// The class of a character, by code point.
pub open spec fn class_of(c: char) -> Class {
    if in_range(c, 0x3040, 0x30FA) || in_range(c, 0x30FC, 0x30FF) || in_range(c, 0x31F0, 0x31FF)
        || in_range(c, 0x3005, 0x3006) || in_range(c, 0x3400, 0x4DBF) || in_range(
        c,
        0x4E00,
        0x9FFF,
    ) || in_range(c, 0xF900, 0xFAFF) {
        Class::Cjk
    } else if in_range(c, 0xAC00, 0xD7A3) {
        Class::Hangul
    } else if in_range(c, 0x0370, 0x03FF) || in_range(c, 0x1F00, 0x1FFF) || in_range(
        c,
        0x0400,
        0x052F,
    ) || in_range(c, 0x0530, 0x058F) || in_range(c, 0x10A0, 0x10FF) {
        Class::Alphabet
    } else if in_range(c, 0x3000, 0x303F) || (c as u32) == 0x30FB || in_range(c, 0xFF00, 0xFFEF) {
        Class::Punct
    } else {
        Class::Keep
    }
}

/// The class of a character.
pub fn class(c: char) -> (r: Class)
    ensures
        r == class_of(c),
{
    let u = c as u32;
    if (0x3040 <= u && u <= 0x30FA) || (0x30FC <= u && u <= 0x30FF) || (0x31F0 <= u && u
        <= 0x31FF) || (0x3005 <= u && u <= 0x3006) || (0x3400 <= u && u <= 0x4DBF) || (0x4E00
        <= u && u <= 0x9FFF) || (0xF900 <= u && u <= 0xFAFF) {
        Class::Cjk
    } else if 0xAC00 <= u && u <= 0xD7A3 {
        Class::Hangul
    } else if (0x0370 <= u && u <= 0x03FF) || (0x1F00 <= u && u <= 0x1FFF) || (0x0400 <= u && u
        <= 0x052F) || (0x0530 <= u && u <= 0x058F) || (0x10A0 <= u && u <= 0x10FF) {
        Class::Alphabet
    } else if (0x3000 <= u && u <= 0x303F) || u == 0x30FB || (0xFF00 <= u && u <= 0xFFEF) {
        Class::Punct
    } else {
        Class::Keep
    }
}

/// Kana (including the phonetic extensions).
pub open spec fn is_kana(c: char) -> bool {
    in_range(c, 0x3040, 0x30FF) || in_range(c, 0x31F0, 0x31FF)
}

/// Han ideographs.
pub open spec fn is_han(c: char) -> bool {
    in_range(c, 0x3400, 0x4DBF) || in_range(c, 0x4E00, 0x9FFF) || in_range(c, 0xF900, 0xFAFF)
}

/// Hangul syllables.
pub open spec fn is_hangul(c: char) -> bool {
    in_range(c, 0xAC00, 0xD7A3)
}

/// The alphabet a character belongs to: 0 Greek, 1 Cyrillic, 2 Armenian, 3 Georgian, -1 none.
pub open spec fn alphabet_of(c: char) -> int {
    if in_range(c, 0x0370, 0x03FF) || in_range(c, 0x1F00, 0x1FFF) {
        0
    } else if in_range(c, 0x0400, 0x052F) {
        1
    } else if in_range(c, 0x0530, 0x058F) {
        2
    } else if in_range(c, 0x10A0, 0x10FF) {
        3
    } else {
        -1
    }
}

/// The script key the UI stores its toggle under, for an alphabet index.
pub open spec fn alphabet_key(k: int) -> Seq<char> {
    if k == 0 {
        "grek"@
    } else if k == 1 {
        "cyrl"@
    } else if k == 2 {
        "armn"@
    } else {
        "geor"@
    }
}

/// Number of kana characters.
pub open spec fn count_kana(s: Seq<char>) -> nat
    decreases s.len(),
{
    if s.len() == 0 {
        0
    } else {
        count_kana(s.drop_last()) + if is_kana(s.last()) {
            1nat
        } else {
            0nat
        }
    }
}

/// Number of Han characters.
pub open spec fn count_han(s: Seq<char>) -> nat
    decreases s.len(),
{
    if s.len() == 0 {
        0
    } else {
        count_han(s.drop_last()) + if is_han(s.last()) {
            1nat
        } else {
            0nat
        }
    }
}

/// Number of Hangul syllables.
pub open spec fn count_hangul(s: Seq<char>) -> nat
    decreases s.len(),
{
    if s.len() == 0 {
        0
    } else {
        count_hangul(s.drop_last()) + if is_hangul(s.last()) {
            1nat
        } else {
            0nat
        }
    }
}

/// Position of alphabet `k` in a tally, or -1.
pub open spec fn tally_pos(t: Seq<(int, nat)>, k: int) -> int
    decreases t.len(),
{
    if t.len() == 0 {
        -1
    } else if t.last().0 == k {
        t.len() - 1
    } else {
        tally_pos(t.drop_last(), k)
    }
}

/// The alphabets of a text with their character counts, in order of first appearance.
pub open spec fn alphabet_tally(s: Seq<char>) -> Seq<(int, nat)>
    decreases s.len(),
{
    if s.len() == 0 {
        seq![]
    } else {
        let t = alphabet_tally(s.drop_last());
        let c = s.last();
        if is_kana(c) || is_han(c) || is_hangul(c) || alphabet_of(c) < 0 {
            t
        } else {
            let k = alphabet_of(c);
            let p = tally_pos(t, k);
            if p >= 0 {
                t.update(p, (k, t[p].1 + 1))
            } else {
                t.push((k, 1nat))
            }
        }
    }
}

/// The candidates in order: CJK (Japanese when kana is at least a tenth of the Han count,
/// counting kana and Han together; Chinese otherwise, counting Han), Korean, then the alphabets.
pub open spec fn script_candidates(s: Seq<char>) -> Seq<(Seq<char>, nat)> {
    let kana = count_kana(s);
    let han = count_han(s);
    let hangul = count_hangul(s);
    let japanese = kana > 0 && kana * 10 >= han;
    let cjk = if japanese {
        ("ja"@, kana + han)
    } else {
        ("zh"@, han)
    };
    seq![cjk, ("ko"@, hangul)] + keyed(alphabet_tally(s))
}

/// A tally with its alphabets named by their keys.
pub open spec fn keyed(t: Seq<(int, nat)>) -> Seq<(Seq<char>, nat)> {
    t.map_values(|e: (int, nat)| (alphabet_key(e.0), e.1))
}

/// The last of the candidates with the largest positive count.
pub open spec fn best_candidate(c: Seq<(Seq<char>, nat)>) -> Option<(Seq<char>, nat)>
    decreases c.len(),
{
    if c.len() == 0 {
        None
    } else {
        let b = best_candidate(c.drop_last());
        let e = c.last();
        let bc = match b {
            Some(x) => x.1,
            None => 0nat,
        };
        if e.1 > 0 && (b is None || e.1 >= bc) {
            Some(e)
        } else {
            b
        }
    }
}

/// The script a text is mostly written in, by the key the UI stores its toggle under: `ja`,
/// `zh`, `ko`, `grek`, `cyrl`, `armn` or `geor`. `None` when nothing in it is romanized.
pub open spec fn dominant_script_of(s: Seq<char>) -> Option<Seq<char>> {
    match best_candidate(script_candidates(s)) {
        Some((k, _)) => Some(k),
        None => None,
    }
}

/// A character some script candidate counts: kana, Han, Hangul, or a letter of a transliterated
/// alphabet.
pub open spec fn counted(c: char) -> bool {
    is_kana(c) || is_han(c) || is_hangul(c) || alphabet_of(c) >= 0
}

proof fn lemma_counts_zero(s: Seq<char>)
    ensures
        count_kana(s) == 0 <==> forall|i: int| 0 <= i < s.len() ==> !is_kana(#[trigger] s[i]),
        count_han(s) == 0 <==> forall|i: int| 0 <= i < s.len() ==> !is_han(#[trigger] s[i]),
        count_hangul(s) == 0 <==> forall|i: int| 0 <= i < s.len() ==> !is_hangul(#[trigger] s[i]),
    decreases s.len(),
{
    if s.len() > 0 {
        let d = s.drop_last();
        let n = s.len() - 1;
        lemma_counts_zero(d);
        assert(s.last() == s[n]);
        if count_kana(s) == 0 {
            assert forall|i: int| 0 <= i < s.len() implies !is_kana(#[trigger] s[i]) by {
                if i < n {
                    assert(s[i] == d[i]);
                }
            }
        }
        if forall|i: int| 0 <= i < s.len() ==> !is_kana(#[trigger] s[i]) {
            assert forall|i: int| 0 <= i < d.len() implies !is_kana(#[trigger] d[i]) by {
                assert(s[i] == d[i]);
            }
        }
        if count_han(s) == 0 {
            assert forall|i: int| 0 <= i < s.len() implies !is_han(#[trigger] s[i]) by {
                if i < n {
                    assert(s[i] == d[i]);
                }
            }
        }
        if forall|i: int| 0 <= i < s.len() ==> !is_han(#[trigger] s[i]) {
            assert forall|i: int| 0 <= i < d.len() implies !is_han(#[trigger] d[i]) by {
                assert(s[i] == d[i]);
            }
        }
        if count_hangul(s) == 0 {
            assert forall|i: int| 0 <= i < s.len() implies !is_hangul(#[trigger] s[i]) by {
                if i < n {
                    assert(s[i] == d[i]);
                }
            }
        }
        if forall|i: int| 0 <= i < s.len() ==> !is_hangul(#[trigger] s[i]) {
            assert forall|i: int| 0 <= i < d.len() implies !is_hangul(#[trigger] d[i]) by {
                assert(s[i] == d[i]);
            }
        }
    }
}

/// Not counted by any alphabet.
pub open spec fn no_alphabet(c: char) -> bool {
    is_kana(c) || is_han(c) || is_hangul(c) || alphabet_of(c) < 0
}

proof fn lemma_tally_shape(s: Seq<char>)
    ensures
        forall|j: int| 0 <= j < alphabet_tally(s).len() ==> (#[trigger] alphabet_tally(s)[j]).1 > 0,
        alphabet_tally(s).len() == 0 <==> forall|i: int|
            0 <= i < s.len() ==> no_alphabet(#[trigger] s[i]),
    decreases s.len(),
{
    if s.len() > 0 {
        let d = s.drop_last();
        let n = s.len() - 1;
        lemma_tally_shape(d);
        let t = alphabet_tally(d);
        let c = s.last();
        assert(c == s[n]);
        if !no_alphabet(c) {
            lemma_tally_pos_range(t, alphabet_of(c));
            assert(alphabet_tally(s).len() > 0);
        } else {
            assert(alphabet_tally(s) == t);
            if t.len() == 0 {
                assert forall|i: int| 0 <= i < s.len() implies no_alphabet(#[trigger] s[i]) by {
                    if i < n {
                        assert(s[i] == d[i]);
                    }
                }
            }
        }
        if forall|i: int| 0 <= i < s.len() ==> no_alphabet(#[trigger] s[i]) {
            assert forall|i: int| 0 <= i < d.len() implies no_alphabet(#[trigger] d[i]) by {
                assert(s[i] == d[i]);
            }
        }
    }
}

proof fn lemma_best_none(c: Seq<(Seq<char>, nat)>)
    ensures
        best_candidate(c) is None <==> forall|j: int| 0 <= j < c.len() ==> (#[trigger] c[j]).1 == 0,
    decreases c.len(),
{
    if c.len() > 0 {
        let d = c.drop_last();
        let n = c.len() - 1;
        lemma_best_none(d);
        assert(c.last() == c[n]);
        if best_candidate(c) is None {
            assert forall|j: int| 0 <= j < c.len() implies (#[trigger] c[j]).1 == 0 by {
                if j < n {
                    assert(c[j] == d[j]);
                }
            }
        }
        if forall|j: int| 0 <= j < c.len() ==> (#[trigger] c[j]).1 == 0 {
            assert forall|j: int| 0 <= j < d.len() implies (#[trigger] d[j]).1 == 0 by {
                assert(c[j] == d[j]);
            }
        }
    }
}

/// A song has a dominant script exactly when some character in it is romanized: kana, Han,
/// Hangul, or a letter of a transliterated alphabet. Latin-only text (or text of scripts left
/// as they are) has none.
pub proof fn law_script_iff_romanized_char(s: Seq<char>)
    ensures
        dominant_script_of(s) is Some <==> exists|i: int| 0 <= i < s.len() && counted(#[trigger] s[i]),
{
    lemma_counts_zero(s);
    lemma_tally_shape(s);
    let c = script_candidates(s);
    lemma_best_none(c);
    let t = alphabet_tally(s);
    let kt = keyed(t);
    assert(c == seq![c[0], c[1]] + kt);
    assert forall|j: int| 0 <= j < kt.len() implies (#[trigger] kt[j]).1 > 0 by {
        assert(kt[j].1 == t[j].1);
    }
    if exists|i: int| 0 <= i < s.len() && counted(#[trigger] s[i]) {
        let i = choose|i: int| 0 <= i < s.len() && counted(#[trigger] s[i]);
        if is_kana(s[i]) || is_han(s[i]) {
            assert(c[0].1 > 0);
        } else if is_hangul(s[i]) {
            assert(c[1].1 > 0);
        } else {
            assert(t.len() > 0);
            assert(c[2] == kt[0]);
            assert(c[2].1 > 0);
        }
    } else {
        assert(count_kana(s) == 0 && count_han(s) == 0 && count_hangul(s) == 0);
        assert(t.len() == 0);
        assert(c.len() == 2);
        assert forall|j: int| 0 <= j < c.len() implies (#[trigger] c[j]).1 == 0 by {}
    }
}

fn alphabet_index(c: char) -> (r: i8)
    ensures
        r == alphabet_of(c),
{
    let u = c as u32;
    if (0x0370 <= u && u <= 0x03FF) || (0x1F00 <= u && u <= 0x1FFF) {
        0
    } else if 0x0400 <= u && u <= 0x052F {
        1
    } else if 0x0530 <= u && u <= 0x058F {
        2
    } else if 0x10A0 <= u && u <= 0x10FF {
        3
    } else {
        -1
    }
}

fn alphabet_name(k: i8) -> (r: &'static str)
    requires
        0 <= k <= 3,
    ensures
        r@ == alphabet_key(k as int),
{
    if k == 0 {
        "grek"
    } else if k == 1 {
        "cyrl"
    } else if k == 2 {
        "armn"
    } else {
        "geor"
    }
}

pub open spec fn tally_view(t: Seq<(i8, usize)>) -> Seq<(int, nat)> {
    t.map_values(|e: (i8, usize)| (e.0 as int, e.1 as nat))
}

/// The tally with one more character of alphabet `k`.
pub open spec fn tally_bumped(t: Seq<(int, nat)>, k: int) -> Seq<(int, nat)> {
    let p = tally_pos(t, k);
    if p >= 0 {
        t.update(p, (k, t[p].1 + 1))
    } else {
        t.push((k, 1nat))
    }
}

proof fn lemma_tally_pos_range(t: Seq<(int, nat)>, k: int)
    ensures
        -1 <= tally_pos(t, k) < t.len(),
        tally_pos(t, k) >= 0 ==> t[tally_pos(t, k)].0 == k,
    decreases t.len(),
{
    if t.len() > 0 && t.last().0 != k {
        lemma_tally_pos_range(t.drop_last(), k);
    }
}

fn bump(other: &mut Vec<(i8, usize)>, k: i8)
    requires
        0 <= k <= 3,
        forall|j: int| 0 <= j < old(other)@.len() ==> (#[trigger] old(other)@[j]).1 < usize::MAX,
    ensures
        tally_view(final(other)@) == tally_bumped(tally_view(old(other)@), k as int),
        final(other)@.len() >= old(other)@.len(),
        forall|j: int|
            0 <= j < final(other)@.len() ==> (#[trigger] final(other)@[j]).0 == k || (j
                < old(other)@.len() && final(other)@[j] == old(other)@[j]),
        forall|j: int|
            0 <= j < final(other)@.len() ==> (#[trigger] final(other)@[j]).1 <= (if j
                < old(other)@.len() {
                old(other)@[j].1 + 1
            } else {
                1
            }),
{
    let ghost t = tally_view(other@);
    let mut j: usize = other.len();
    assert(other@.take(j as int) == other@);
    while j > 0
        invariant
            j <= other@.len(),
            t == tally_view(other@),
            other@ == old(other)@,
            forall|x: int| 0 <= x < old(other)@.len() ==> (#[trigger] old(other)@[x]).1 < usize::MAX,
            tally_pos(t, k as int) == tally_pos(tally_view(other@.take(j as int)), k as int),
        decreases j,
    {
        assert(other@.take(j as int).drop_last() == other@.take(j - 1));
        assert(tally_view(other@.take(j as int)).drop_last() =~= tally_view(other@.take(j - 1)));
        assert(tally_view(other@.take(j as int)).last() == t[j - 1]);
        if other[j - 1].0 == k {
            let n = other[j - 1].1;
            other.set(j - 1, (k, n + 1));
            assert(tally_view(other@) =~= t.update(j - 1, (k as int, t[j - 1].1 + 1)));
            return;
        }
        j -= 1;
    }
    assert(tally_view(other@.take(0)) =~= Seq::<(int, nat)>::empty());
    other.push((k, 1));
    assert(tally_view(other@) =~= t.push((k as int, 1nat)));
}

/// The script the song is mostly written in (see `dominant_script_of`).
pub fn dominant_script(text: &str) -> (r: Option<&'static str>)
    ensures
        opt_str_view(r) == dominant_script_of(text@),
{
    let cs = chars_of(text);
    let mut kana: usize = 0;
    let mut han: usize = 0;
    let mut hangul: usize = 0;
    let mut other: Vec<(i8, usize)> = Vec::new();
    let mut i: usize = 0;
    assert(tally_view(other@) =~= Seq::<(int, nat)>::empty());
    while i < cs.len()
        invariant
            0 <= i <= cs@.len(),
            cs@ == text@,
            kana == count_kana(cs@.take(i as int)),
            han == count_han(cs@.take(i as int)),
            hangul == count_hangul(cs@.take(i as int)),
            kana + han + hangul <= i,
            tally_view(other@) == alphabet_tally(cs@.take(i as int)),
            forall|j: int|
                0 <= j < other@.len() ==> 0 <= (#[trigger] other@[j]).0 <= 3 && other@[j].1 <= i,
        decreases cs.len() - i,
    {
        let c = cs[i];
        let ghost pre = cs@.take(i as int);
        assert(cs@.take(i + 1).drop_last() == pre);
        assert(cs@.take(i + 1).last() == c);
        let u = c as u32;
        if (0x3040 <= u && u <= 0x30FF) || (0x31F0 <= u && u <= 0x31FF) {
            kana += 1;
        } else if (0x3400 <= u && u <= 0x4DBF) || (0x4E00 <= u && u <= 0x9FFF) || (0xF900 <= u && u
            <= 0xFAFF) {
            han += 1;
        } else if 0xAC00 <= u && u <= 0xD7A3 {
            hangul += 1;
        } else {
            let k = alphabet_index(c);
            if k >= 0 {
                bump(&mut other, k);
            }
        }
        i += 1;
    }
    assert(cs@.take(cs@.len() as int) == cs@);
    let japanese = kana > 0 && (kana as u128) * 10 >= han as u128;
    let mut cands: Vec<(&'static str, usize)> = Vec::new();
    if japanese {
        cands.push(("ja", kana + han));
    } else {
        cands.push(("zh", han));
    }
    cands.push(("ko", hangul));
    let ghost init2 = cands@;
    proof {
        let kn = count_kana(text@);
        let hn = count_han(text@);
        let cjk = if kn > 0 && kn * 10 >= hn {
            ("ja"@, kn + hn)
        } else {
            ("zh"@, hn)
        };
        assert(cands_view(init2) =~= seq![cjk, ("ko"@, count_hangul(text@))]);
        assert(init2.take(2) == init2);
    }
    let mut j: usize = 0;
    assert(keyed(tally_view(other@.take(0))) =~= Seq::<(Seq<char>, nat)>::empty());
    assert(cands_view(cands@) =~= cands_view(cands@.take(2)));
    while j < other.len()
        invariant
            0 <= j <= other@.len(),
            forall|x: int| 0 <= x < other@.len() ==> 0 <= (#[trigger] other@[x]).0 <= 3,
            cands@.len() == 2 + j,
            cands@.take(2) == init2,
            cands_view(cands@) == cands_view(cands@.take(2)) + keyed(tally_view(other@.take(j as int))),
        decreases other.len() - j,
    {
        let (k, n) = other[j];
        let ghost before = cands@;
        let name = alphabet_name(k);
        cands.push((name, n));
        assert(cands_view(cands@) =~= cands_view(before).push((alphabet_key(k as int), n as nat)));
        assert(other@.take(j + 1) == other@.take(j as int).push(other@[j as int]));
        assert(cands@.take(2) == before.take(2));
        assert(tally_view(other@.take(j + 1)) =~= tally_view(other@.take(j as int)).push(
            (k as int, n as nat),
        ));
        assert(keyed(tally_view(other@.take(j + 1))) =~= keyed(tally_view(other@.take(j as int))).push(
            (alphabet_key(k as int), n as nat),
        ));
        assert(cands_view(cands@) =~= cands_view(cands@.take(2)) + keyed(tally_view(
            other@.take(j + 1),
        )));
        j += 1;
    }
    assert(other@.take(other@.len() as int) == other@);
    assert(cands_view(cands@) =~= script_candidates(text@));
    let mut best: Option<(&'static str, usize)> = None;
    let mut x: usize = 0;
    assert(cands_view(cands@).take(0) =~= Seq::<(Seq<char>, nat)>::empty());
    while x < cands.len()
        invariant
            0 <= x <= cands@.len(),
            best_view(best) == best_candidate(cands_view(cands@).take(x as int)),
        decreases cands.len() - x,
    {
        let (k, n) = cands[x];
        assert(cands_view(cands@).take(x + 1).drop_last() =~= cands_view(cands@).take(x as int));
        assert(cands_view(cands@).take(x + 1).last() == (k@, n as nat));
        let take = n > 0 && match best {
            None => true,
            Some((_, m)) => n >= m,
        };
        if take {
            best = Some((k, n));
        }
        x += 1;
    }
    assert(cands_view(cands@).take(cands@.len() as int) == cands_view(cands@));
    match best {
        Some((k, _)) => Some(k),
        None => None,
    }
}

pub open spec fn cands_view(c: Seq<(&'static str, usize)>) -> Seq<(Seq<char>, nat)> {
    c.map_values(|e: (&'static str, usize)| (e.0@, e.1 as nat))
}

pub open spec fn best_view(b: Option<(&'static str, usize)>) -> Option<(Seq<char>, nat)> {
    match b {
        Some((k, n)) => Some((k@, n as nat)),
        None => None,
    }
}

} // verus!
