//! One line of lyrics romanized: the line cut into runs of one class, each run read by the
//! engine for its script, a space put in where a script change joins two words.

use pinyin::ToPinyin;
use vstd::prelude::*;

use crate::romanize::japanese::{japanese_run, japanese_text, join_spaced, token_morphs, Token};
use crate::romanize::korean::{is_syllable, korean, korean_text};
use crate::romanize::script::{class, class_of, Class};
use crate::text::{chars_of, opt_view, push_text, slice_to_vec, str_eq, string_of};

verus! {

/// What `any_ascii` transliterates a text to.
pub uninterp spec fn any_ascii_of(s: Seq<char>) -> Seq<char>;

/// `any_ascii::any_ascii`: ASCII characters kept, every other character replaced by the
/// crate's table entry for it. The result is named, not stated.
#[verifier::external_body]
pub(crate) fn to_ascii(s: &str) -> (r: String)
    ensures
        r@ == any_ascii_of(s@),
{
    any_ascii::any_ascii(s)
}

/// The Hanyu Pinyin (with tone marks) the `pinyin` crate has for a character, if any.
pub uninterp spec fn pinyin_of(c: char) -> Option<Seq<char>>;

/// `ToPinyin::to_pinyin` on a `char`, then `Pinyin::with_tone`. The result is named, not
/// stated.
#[verifier::external_body]
pub(crate) fn pinyin(c: char) -> (r: Option<String>)
    ensures
        opt_view(r) == pinyin_of(c),
{
    match c.to_pinyin() {
        Some(p) => Some(p.with_tone().to_owned()),
        None => None,
    }
}

/// Whether `char::is_alphanumeric` holds of a character (alphabetic or numeric, by Unicode).
pub uninterp spec fn alphanumeric(c: char) -> bool;

/// `char::is_alphanumeric`. The result is named, not stated.
#[verifier::external_body]
pub(crate) fn is_alphanumeric(c: char) -> (r: bool)
    ensures
        r == alphanumeric(c),
{
    c.is_alphanumeric()
}

/// A Han character's syllable: its Pinyin, or the character itself when it has none.
pub open spec fn syllable_of(c: char) -> Seq<char> {
    match pinyin_of(c) {
        Some(p) => p,
        None => seq![c],
    }
}

pub open spec fn syllables(run: Seq<char>) -> Seq<Seq<char>> {
    run.map_values(|c: char| syllable_of(c))
}

/// Chinese: one syllable per character (its most common reading), separated by spaces.
pub open spec fn chinese_text(run: Seq<char>) -> Seq<char> {
    join_spaced(syllables(run))
}

/// A Chinese run in Pinyin.
pub fn chinese(run: &str) -> (r: String)
    ensures
        r@ == chinese_text(run@),
{
    let cs = chars_of(run);
    let ghost sy = syllables(cs@);
    let mut out: Vec<char> = Vec::new();
    let mut i: usize = 0;
    while i < cs.len()
        invariant
            cs@ == run@,
            sy == syllables(cs@),
            0 <= i <= cs@.len(),
            out@ == join_spaced(sy.take(i as int)),
        decreases cs.len() - i,
    {
        let c = cs[i];
        let mut piece: Vec<char> = Vec::new();
        match pinyin(c) {
            Some(p) => push_text(&mut piece, p.as_str()),
            None => piece.push(c),
        }
        assert(piece@ == syllable_of(c));
        assert(sy.take(i + 1).drop_last() == sy.take(i as int));
        assert(sy.take(i + 1).last() == piece@);
        if i > 0 {
            out.push(' ');
        } else {
            assert(sy.take(1) == seq![piece@]);
        }
        crate::text::extend_chars(&mut out, piece.as_slice());
        i += 1;
    }
    assert(sy.take(cs@.len() as int) == sy);
    string_of(out.as_slice())
}

/// Tokens for a Japanese run, by its text, as the morphological analysis gave them.
#[derive(Debug, Clone)]
pub struct JapaneseRun {
    pub text: String,
    pub tokens: Vec<Token>,
}

/// The tokens the table holds for a run: those of the first entry with that text.
pub open spec fn tokens_for(table: Seq<JapaneseRun>, run: Seq<char>) -> Option<Seq<Token>>
    decreases table.len(),
{
    if table.len() == 0 {
        None
    } else if table[0].text@ == run {
        Some(table[0].tokens@)
    } else {
        tokens_for(table.drop_first(), run)
    }
}

fn lookup<'a>(table: &'a [JapaneseRun], run: &str) -> (r: Option<&'a Vec<Token>>)
    ensures
        match r {
            Some(t) => tokens_for(table@, run@) == Some(t@),
            None => tokens_for(table@, run@) is None,
        },
{
    let mut i: usize = 0;
    assert(table@.skip(0) == table@);
    while i < table.len()
        invariant
            0 <= i <= table@.len(),
            tokens_for(table@, run@) == tokens_for(table@.skip(i as int), run@),
        decreases table.len() - i,
    {
        assert(table@.skip(i as int)[0] == table@[i as int]);
        assert(table@.skip(i as int).drop_first() == table@.skip(i + 1));
        if str_eq(table[i].text.as_str(), run) {
            return Some(&table[i].tokens);
        }
        i += 1;
    }
    None
}

/// The reading of one run: kept as it is (Latin and the rest), transliterated (alphabets and
/// punctuation), Korean, Japanese (the run itself when the analysis has nothing for it) or
/// Chinese.
pub open spec fn piece_of(cls: Class, run: Seq<char>, japanese: bool, table: Seq<JapaneseRun>) -> Seq<
    char,
> {
    match cls {
        Class::Keep => run,
        Class::Punct => any_ascii_of(run),
        Class::Alphabet => any_ascii_of(run),
        Class::Hangul => korean_text(run),
        Class::Cjk => if japanese {
            match tokens_for(table, run) {
                Some(ts) => japanese_text(token_morphs(ts)),
                None => run,
            }
        } else {
            chinese_text(run)
        },
    }
}

/// Punctuation after which a following word still needs a space.
pub open spec fn is_clause_punct(c: char) -> bool {
    c == ',' || c == '.' || c == '!' || c == '?' || c == ';' || c == ':'
}

/// A script change with no space in the source still needs one in Latin: after a letter,
/// digit or clause punctuation, before a letter or digit.
pub open spec fn joins(out: Seq<char>, piece: Seq<char>) -> bool {
    &&& out.len() > 0
    &&& (alphanumeric(out.last()) || is_clause_punct(out.last()))
    &&& piece.len() > 0
    &&& alphanumeric(piece[0])
}

/// End of the run of class `cls` that continues at `j`.
pub open spec fn run_end(cs: Seq<char>, cls: Class, j: int) -> int
    decreases cs.len() - j,
{
    if 0 <= j < cs.len() && class_of(cs[j]) == cls {
        run_end(cs, cls, j + 1)
    } else {
        j
    }
}

pub proof fn lemma_run_end(cs: Seq<char>, cls: Class, j: int)
    requires
        0 <= j <= cs.len(),
    ensures
        j <= run_end(cs, cls, j) <= cs.len(),
        forall|k: int| j <= k < run_end(cs, cls, j) ==> class_of(#[trigger] cs[k]) == cls,
    decreases cs.len() - j,
{
    if j < cs.len() && class_of(cs[j]) == cls {
        lemma_run_end(cs, cls, j + 1);
    }
}

/// The romanization of the characters from `i` on, appended to `out`.
pub open spec fn romanized_from(
    cs: Seq<char>,
    i: int,
    out: Seq<char>,
    japanese: bool,
    table: Seq<JapaneseRun>,
) -> Seq<char>
    decreases cs.len() - i,
{
    if i < 0 || i >= cs.len() {
        out
    } else {
        let cls = class_of(cs[i]);
        let j = run_end(cs, cls, i + 1);
        proof {
            lemma_run_end(cs, cls, i + 1);
        }
        let piece = piece_of(cls, cs.subrange(i, j), japanese, table);
        let out2 = if joins(out, piece) {
            out.push(' ') + piece
        } else {
            out + piece
        };
        romanized_from(cs, j, out2, japanese, table)
    }
}

/// The romanization of a line.
pub open spec fn romanized_line(line: Seq<char>, japanese: bool, table: Seq<JapaneseRun>) -> Seq<
    char,
> {
    romanized_from(line, 0, seq![], japanese, table)
}

fn piece(cls: Class, run: &str, japanese: bool, table: &[JapaneseRun]) -> (r: String)
    requires
        run@.len() > 0,
        forall|k: int| 0 <= k < run@.len() ==> class_of(#[trigger] run@[k]) == cls,
    ensures
        r@ == piece_of(cls, run@, japanese, table@),
{
    match cls {
        Class::Keep => run.to_owned(),
        Class::Punct => to_ascii(run),
        Class::Alphabet => to_ascii(run),
        Class::Hangul => {
            assert forall|k: int| 0 <= k < run@.len() implies is_syllable(#[trigger] run@[k]) by {
                assert(class_of(run@[k]) == Class::Hangul);
            }
            korean(run)
        },
        Class::Cjk => {
            if japanese {
                match lookup(table, run) {
                    Some(ts) => japanese_run(ts),
                    None => run.to_owned(),
                }
            } else {
                chinese(run)
            }
        },
    }
}

fn is_clause_punct_exec(c: char) -> (r: bool)
    ensures
        r == is_clause_punct(c),
{
    c == ',' || c == '.' || c == '!' || c == '?' || c == ';' || c == ':'
}

/// Romanize one line; `japanese` says how Kanji and kana runs are read.
pub fn romanize_line(line: &str, japanese: bool, table: &[JapaneseRun]) -> (r: String)
    ensures
        r@ == romanized_line(line@, japanese, table@),
{
    let cs = chars_of(line);
    let n = cs.len();
    let mut out: Vec<char> = Vec::new();
    let mut i: usize = 0;
    while i < n
        invariant
            n == cs@.len(),
            cs@ == line@,
            0 <= i <= n,
            romanized_from(cs@, i as int, out@, japanese, table@) == romanized_line(
                line@,
                japanese,
                table@,
            ),
        decreases n - i,
    {
        let cls = class(cs[i]);
        let start = i;
        i += 1;
        while i < n && class(cs[i]) == cls
            invariant
                n == cs@.len(),
                start < i <= n,
                run_end(cs@, cls, start + 1) == run_end(cs@, cls, i as int),
            decreases n - i,
        {
            i += 1;
        }
        proof {
            lemma_run_end(cs@, cls, start + 1);
        }
        let run_v = slice_to_vec(cs.as_slice(), start, i);
        let run = string_of(run_v.as_slice());
        let p = piece(cls, run.as_str(), japanese, table);
        let pv = chars_of(p.as_str());
        let joined = out.len() > 0 && (is_alphanumeric(out[out.len() - 1]) || is_clause_punct_exec(
            out[out.len() - 1],
        )) && pv.len() > 0 && is_alphanumeric(pv[0]);
        if joined {
            out.push(' ');
        }
        crate::text::extend_chars(&mut out, pv.as_slice());
    }
    string_of(out.as_slice())
}

/// The Kanji and kana runs of a text from `i` on, in order: the pieces the line reading looks up
/// in the Japanese table.
pub open spec fn cjk_runs_from(cs: Seq<char>, i: int) -> Seq<Seq<char>>
    decreases cs.len() - i,
{
    if i < 0 || i >= cs.len() {
        seq![]
    } else {
        let cls = class_of(cs[i]);
        let j = run_end(cs, cls, i + 1);
        proof {
            lemma_run_end(cs, cls, i + 1);
        }
        let rest = cjk_runs_from(cs, j);
        if cls == Class::Cjk {
            seq![cs.subrange(i, j)] + rest
        } else {
            rest
        }
    }
}

/// The Kanji and kana runs of a line, which the morphological analysis is asked to tokenize.
pub fn cjk_runs(line: &str) -> (r: Vec<String>)
    ensures
        crate::text::strings_view(r@) == cjk_runs_from(line@, 0),
{
    let cs = chars_of(line);
    let n = cs.len();
    let mut out: Vec<String> = Vec::new();
    let mut i: usize = 0;
    assert(crate::text::strings_view(out@) =~= Seq::<Seq<char>>::empty());
    while i < n
        invariant
            n == cs@.len(),
            cs@ == line@,
            0 <= i <= n,
            crate::text::strings_view(out@) + cjk_runs_from(cs@, i as int) == cjk_runs_from(
                line@,
                0,
            ),
        decreases n - i,
    {
        let cls = class(cs[i]);
        let start = i;
        i += 1;
        while i < n && class(cs[i]) == cls
            invariant
                n == cs@.len(),
                start < i <= n,
                run_end(cs@, cls, start + 1) == run_end(cs@, cls, i as int),
            decreases n - i,
        {
            i += 1;
        }
        proof {
            lemma_run_end(cs@, cls, start + 1);
        }
        let ghost before = crate::text::strings_view(out@);
        if cls == Class::Cjk {
            let run_v = slice_to_vec(cs.as_slice(), start, i);
            let run = string_of(run_v.as_slice());
            out.push(run);
            assert(crate::text::strings_view(out@) =~= before.push(cs@.subrange(start as int, i as int)));
            assert(before.push(cs@.subrange(start as int, i as int)) + cjk_runs_from(cs@, i as int)
                =~= before + (seq![cs@.subrange(start as int, i as int)] + cjk_runs_from(
                cs@,
                i as int,
            )));
        }
    }
    assert(cjk_runs_from(cs@, n as int) == Seq::<Seq<char>>::empty());
    assert(crate::text::strings_view(out@) + Seq::<Seq<char>>::empty() =~= crate::text::strings_view(
        out@,
    ));
    out
}

} // verus!
