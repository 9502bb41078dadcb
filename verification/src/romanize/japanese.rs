//! Japanese from a morphological analysis (IPADIC tokens, produced outside the library): the
//! particles は/へ/を read "wa"/"e"/"o", 一人/二人 read "hitori"/"futari", and words break the way
//! Apple writes them (an inflection stays on its stem, the copula and particles stand alone).

use vstd::prelude::*;

use crate::text::{opt_view, push_text, str_eq, string_of, strings_view};

verus! {

/// One token of a morphological analysis: its surface text and its IPADIC detail fields.
#[derive(Debug, Clone)]
pub struct Token {
    pub surface: String,
    pub details: Vec<String>,
}

/// A token's fields the romanizer reads. Absent fields are empty; an absent reading is the
/// surface itself (kana reads as itself; an unknown kanji stays).
#[derive(Debug, Clone)]
pub struct Morph {
    pub surface: String,
    pub pos: String,
    pub sub: String,
    pub base: String,
    pub reading: String,
}

/// The texts of a morph, as the reading rules see them.
pub struct MorphView {
    pub surface: Seq<char>,
    pub pos: Seq<char>,
    pub sub: Seq<char>,
    pub base: Seq<char>,
    pub reading: Seq<char>,
}

pub open spec fn morph_view(m: Morph) -> MorphView {
    MorphView { surface: m.surface@, pos: m.pos@, sub: m.sub@, base: m.base@, reading: m.reading@ }
}

pub open spec fn morph_views(ms: Seq<Morph>) -> Seq<MorphView> {
    ms.map_values(|m: Morph| morph_view(m))
}

/// The morph of a token: part of speech (field 0), its subclass (field 1), base form (field 6)
/// and reading (field 7); absent fields empty, an absent reading the surface itself.
pub open spec fn token_morph(t: Token) -> MorphView {
    MorphView {
        surface: t.surface@,
        pos: or_else(field_of(t.details@, 0), ""@),
        sub: or_else(field_of(t.details@, 1), ""@),
        base: or_else(field_of(t.details@, 6), ""@),
        reading: or_else(field_of(t.details@, 7), t.surface@),
    }
}

pub open spec fn token_morphs(ts: Seq<Token>) -> Seq<MorphView> {
    ts.map_values(|t: Token| token_morph(t))
}

/// Detail field `i`, unless missing or `*`.
pub open spec fn field_of(d: Seq<String>, i: int) -> Option<Seq<char>> {
    if 0 <= i < d.len() && d[i]@ != "*"@ {
        Some(d[i]@)
    } else {
        None
    }
}

pub open spec fn or_else(o: Option<Seq<char>>, d: Seq<char>) -> Seq<char> {
    match o {
        Some(x) => x,
        None => d,
    }
}


fn field(d: &Vec<String>, i: usize) -> (r: Option<String>)
    ensures
        opt_view(r) == field_of(d@, i as int),
{
    if i < d.len() && !str_eq(d[i].as_str(), "*") {
        Some(d[i].clone())
    } else {
        None
    }
}

fn field_or(d: &Vec<String>, i: usize, dflt: &str) -> (r: String)
    ensures
        r@ == or_else(field_of(d@, i as int), dflt@),
{
    match field(d, i) {
        Some(x) => x,
        None => dflt.to_owned(),
    }
}

/// The morph of a token.
pub fn morph_of(t: &Token) -> (m: Morph)
    ensures
        morph_view(m) == token_morph(*t),
{
    Morph {
        surface: t.surface.clone(),
        pos: field_or(&t.details, 0, ""),
        sub: field_or(&t.details, 1, ""),
        base: field_or(&t.details, 6, ""),
        reading: field_or(&t.details, 7, t.surface.as_str()),
    }
}

/// `ms[k]` is 一 or 二 counting a following 人.
pub open spec fn counts_person(ms: Seq<MorphView>, k: int) -> bool {
    &&& 0 <= k && k + 1 < ms.len()
    &&& ms[k + 1].surface == "人"@
    &&& ms[k].sub == "数"@
    &&& (ms[k].surface == "一"@ || ms[k].surface == "二"@)
}

/// The reading of morph `k` once 一人 and 二人 are read as one word: the number takes the fused
/// reading, the counter none.
pub open spec fn fused_reading(ms: Seq<MorphView>, k: int) -> Seq<char> {
    if counts_person(ms, k) {
        if ms[k].surface == "一"@ {
            "ヒトリ"@
        } else {
            "フタリ"@
        }
    } else if counts_person(ms, k - 1) {
        seq![]
    } else {
        ms[k].reading
    }
}

/// The copula だ/です.
pub open spec fn is_copula(m: MorphView) -> bool {
    m.pos == "助動詞"@ && (m.base == "だ"@ || m.base == "です"@)
}

/// Whether a morph joins the word before it: an auxiliary (a copula only after a copula), the
/// conjunctive て/で, the auxiliaries てる/でる/とく/ちゃう/じゃう, and suffixes.
pub open spec fn glues(m: MorphView, prev_copula: bool) -> bool {
    (m.pos == "助動詞"@ && (!is_copula(m) || prev_copula)) || (m.sub == "接続助詞"@ && (m.surface
        == "て"@ || m.surface == "で"@)) || (m.sub == "非自立"@ && (m.base == "てる"@ || m.base
        == "でる"@ || m.base == "とく"@ || m.base == "ちゃう"@ || m.base == "じゃう"@)) || m.sub
        == "接尾"@
}

/// The reading written for a morph: the particles は/へ/を as pronounced.
pub open spec fn spoken(m: MorphView, reading: Seq<char>) -> Seq<char> {
    if m.pos == "助詞"@ && m.surface == "は"@ {
        "ワ"@
    } else if m.pos == "助詞"@ && m.surface == "へ"@ {
        "エ"@
    } else if m.pos == "助詞"@ && m.surface == "を"@ {
        "オ"@
    } else {
        reading
    }
}

/// The words (in kana) of the first `n` morphs, and whether the last one read was a copula.
pub open spec fn words_of(ms: Seq<MorphView>, n: int) -> (Seq<Seq<char>>, bool)
    decreases n,
{
    if n <= 0 {
        (seq![], false)
    } else {
        let (w, prev) = words_of(ms, n - 1);
        let m = ms[n - 1];
        let r = fused_reading(ms, n - 1);
        if r.len() == 0 {
            (w, prev)
        } else {
            let s = spoken(m, r);
            let w2 = if glues(m, prev) && w.len() > 0 {
                w.update(w.len() - 1, w.last() + s)
            } else {
                w.push(s)
            };
            (w2, is_copula(m))
        }
    }
}

/// Words joined by single spaces.
pub open spec fn join_spaced(ws: Seq<Seq<char>>) -> Seq<char>
    decreases ws.len(),
{
    if ws.len() == 0 {
        seq![]
    } else if ws.len() == 1 {
        ws[0]
    } else {
        join_spaced(ws.drop_last()) + seq![' '] + ws.last()
    }
}

/// What `wana_kana` converts a kana text to.
pub uninterp spec fn romaji_of(kana: Seq<char>) -> Seq<char>;

/// `ConvertJapanese::to_romaji` of `wana_kana`: Hepburn romaji of a kana text, a trailing っ
/// doubling the next consonant. The result is named, not stated.
#[verifier::external_body]
pub(crate) fn to_romaji(kana: &str) -> (r: String)
    ensures
        r@ == romaji_of(kana@),
{
    wana_kana::ConvertJapanese::to_romaji(kana)
}

/// The romanization of a Japanese run from its morphs: each word converted to romaji as a
/// whole, words separated by spaces.
pub open spec fn japanese_text(ms: Seq<MorphView>) -> Seq<char> {
    join_spaced(romaji_all(words_of(ms, ms.len() as int).0))
}

/// Each word converted to romaji.
pub open spec fn romaji_all(ws: Seq<Seq<char>>) -> Seq<Seq<char>> {
    ws.map_values(|w: Seq<char>| romaji_of(w))
}

fn eq_lit(s: &String, lit: &str) -> (r: bool)
    ensures
        r == (s@ == lit@),
{
    str_eq(s.as_str(), lit)
}

/// The readings after fusing 一人 and 二人, one per morph.
fn fused_readings(ms: &Vec<Morph>) -> (r: Vec<String>)
    ensures
        r@.len() == ms@.len(),
        forall|k: int| 0 <= k < ms@.len() ==> (#[trigger] r@[k])@ == fused_reading(
            morph_views(ms@),
            k,
        ),
{
    let ghost mv = morph_views(ms@);
    let n = ms.len();
    let mut rs: Vec<String> = Vec::new();
    let mut k: usize = 0;
    while k < n
        invariant
            n == ms@.len(),
            0 <= k <= n,
            rs@.len() == k,
            forall|j: int| 0 <= j < k ==> (#[trigger] rs@[j])@ == ms@[j].reading@,
        decreases n - k,
    {
        rs.push(ms[k].reading.clone());
        k += 1;
    }
    let mut i: usize = 1;
    while i < n
        invariant
            n == ms@.len(),
            1 <= i,
            i <= n || n == 0,
            rs@.len() == n,
            mv == morph_views(ms@),
            forall|j: int|
                0 <= j < n && j < i - 1 ==> (#[trigger] rs@[j])@ == fused_reading(mv, j),
            forall|j: int|
                0 <= j < n && j == i - 1 ==> (#[trigger] rs@[j])@ == if counts_person(mv, j - 1) {
                    seq![]
                } else {
                    ms@[j].reading@
                },
            forall|j: int| i <= j < n ==> (#[trigger] rs@[j])@ == ms@[j].reading@,
        decreases n - i,
    {
        if eq_lit(&ms[i].surface, "人") && eq_lit(&ms[i - 1].sub, "数") {
            if eq_lit(&ms[i - 1].surface, "一") {
                rs.set(i - 1, "ヒトリ".to_owned());
                rs.set(i, String::new());
            } else if eq_lit(&ms[i - 1].surface, "二") {
                rs.set(i - 1, "フタリ".to_owned());
                rs.set(i, String::new());
            }
        }
        i += 1;
    }
    proof {
        assert forall|j: int| 0 <= j < n implies (#[trigger] rs@[j])@ == fused_reading(mv, j) by {
            if j == n - 1 {
                assert(!counts_person(mv, j));
            }
        }
    }
    rs
}

/// The words (in kana) of a Japanese run.
fn words(ms: &Vec<Morph>) -> (r: Vec<String>)
    ensures
        strings_view(r@) == words_of(morph_views(ms@), ms@.len() as int).0,
{
    let ghost mv = morph_views(ms@);
    let rs = fused_readings(ms);
    let mut ws: Vec<String> = Vec::new();
    let mut prev_copula = false;
    let mut k: usize = 0;
    while k < ms.len()
        invariant
            rs@.len() == ms@.len(),
            mv == morph_views(ms@),
            forall|j: int| 0 <= j < ms@.len() ==> (#[trigger] rs@[j])@ == fused_reading(mv, j),
            0 <= k <= ms@.len(),
            (strings_view(ws@), prev_copula) == words_of(mv, k as int),
        decreases ms.len() - k,
    {
        let m = &ms[k];
        let r = &rs[k];
        assert(mv[k as int] == morph_view(*m));
        if r.as_str().unicode_len() > 0 {
            let is_particle = eq_lit(&m.pos, "助詞");
            let s: String = if is_particle && eq_lit(&m.surface, "は") {
                "ワ".to_owned()
            } else if is_particle && eq_lit(&m.surface, "へ") {
                "エ".to_owned()
            } else if is_particle && eq_lit(&m.surface, "を") {
                "オ".to_owned()
            } else {
                r.clone()
            };
            let aux = eq_lit(&m.pos, "助動詞");
            let copula = aux && (eq_lit(&m.base, "だ") || eq_lit(&m.base, "です"));
            let glue = (aux && (!copula || prev_copula)) || (eq_lit(&m.sub, "接続助詞") && (eq_lit(
                &m.surface,
                "て",
            ) || eq_lit(&m.surface, "で"))) || (eq_lit(&m.sub, "非自立") && (eq_lit(&m.base, "てる")
                || eq_lit(&m.base, "でる") || eq_lit(&m.base, "とく") || eq_lit(&m.base, "ちゃう")
                || eq_lit(&m.base, "じゃう"))) || eq_lit(&m.sub, "接尾");
            let ghost before = ws@;
            if glue && ws.len() > 0 {
                let last = ws.len() - 1;
                let mut w = ws[last].clone();
                push_text_string(&mut w, s.as_str());
                ws.set(last, w);
                assert(strings_view(ws@) =~= strings_view(before).update(
                    last as int,
                    strings_view(before).last() + s@,
                ));
            } else {
                ws.push(s);
                assert(strings_view(ws@) =~= strings_view(before).push(s@));
            }
            prev_copula = copula;
        }
        k += 1;
    }
    ws
}

fn push_text_string(w: &mut String, s: &str)
    ensures
        final(w)@ == old(w)@ + s@,
{
    crate::text::push_str(w, s);
}

/// The romanization of a Japanese run from its tokens.
pub fn japanese_run(tokens: &Vec<Token>) -> (r: String)
    ensures
        r@ == japanese_text(token_morphs(tokens@)),
{
    let mut ms: Vec<Morph> = Vec::new();
    let mut k: usize = 0;
    while k < tokens.len()
        invariant
            0 <= k <= tokens@.len(),
            ms@.len() == k,
            forall|j: int| 0 <= j < k ==> morph_view(#[trigger] ms@[j]) == token_morph(tokens@[j]),
        decreases tokens.len() - k,
    {
        ms.push(morph_of(&tokens[k]));
        k += 1;
    }
    assert(morph_views(ms@) =~= token_morphs(tokens@));
    let ws = words(&ms);
    let mut out: Vec<char> = Vec::new();
    let mut i: usize = 0;
    let ghost wv = strings_view(ws@);
    let ghost rv = romaji_all(wv);
    while i < ws.len()
        invariant
            wv == strings_view(ws@),
            rv == romaji_all(wv),
            0 <= i <= ws@.len(),
            out@ == join_spaced(rv.take(i as int)),
        decreases ws.len() - i,
    {
        let r = to_romaji(ws[i].as_str());
        assert(rv.take(i + 1).drop_last() == rv.take(i as int));
        assert(rv.take(i + 1).last() == r@);
        if i > 0 {
            out.push(' ');
            push_text(&mut out, r.as_str());
        } else {
            push_text(&mut out, r.as_str());
            assert(rv.take(1) == seq![r@]);
        }
        i += 1;
    }
    assert(rv.take(ws@.len() as int) == rv);
    assert(japanese_text(token_morphs(tokens@)) == out@);
    string_of(out.as_slice())
}

} // verus!
