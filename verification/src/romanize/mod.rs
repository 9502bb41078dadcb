//! Romanized lyrics: a Latin-script reading under each line of a song in a script the listener
//! may not read.
//!
//! Apple Music's own pronunciation lines come first: a song that has them is left alone. The
//! rest is read locally: Japanese from a morphological analysis (its tokens come from outside),
//! Korean by Revised Romanization with the sound changes at syllable boundaries, Chinese as
//! Hanyu Pinyin, and Cyrillic, Greek, Georgian and Armenian through `any_ascii`.

pub mod japanese;
pub mod korean;
pub mod line;
pub mod script;

use vstd::prelude::*;

use crate::lyrics::{LyricLine, Lyrics};
use crate::text::{chars_of, opt_str_view, opt_view, push_text, str_eq};
use line::{romanize_line, romanized_line, JapaneseRun};
use script::{dominant_script, dominant_script_of};

verus! {

/// All lines' texts, one after the other.
pub open spec fn lines_text(ls: Seq<LyricLine>) -> Seq<char>
    decreases ls.len(),
{
    if ls.len() == 0 {
        seq![]
    } else {
        lines_text(ls.drop_last()) + ls.last().text@
    }
}

/// A line with a kana character is Japanese even in a song that mostly is not.
pub open spec fn has_kana(t: Seq<char>) -> bool {
    exists|i: int| 0 <= i < t.len() && 0x3040 <= (#[trigger] t[i] as u32) <= 0x30FF
}

/// The reading a line gets in a song of script `script`: none when it reads the same.
pub open spec fn line_reading(t: Seq<char>, script: Seq<char>, table: Seq<JapaneseRun>) -> Option<
    Seq<char>,
> {
    let r = romanized_line(t, script == "ja"@ || has_kana(t), table);
    if r != t {
        Some(r)
    } else {
        None
    }
}

/// Some line already carries a reading (Apple's).
pub open spec fn any_romanized(ls: Seq<LyricLine>) -> bool {
    exists|k: int| 0 <= k < ls.len() && (#[trigger] ls[k]).romanized is Some
}

fn line_has_kana(t: &str) -> (r: bool)
    ensures
        r == has_kana(t@),
{
    let cs = chars_of(t);
    let mut i: usize = 0;
    while i < cs.len()
        invariant
            cs@ == t@,
            0 <= i <= cs@.len(),
            forall|j: int| 0 <= j < i ==> !(0x3040 <= (#[trigger] cs@[j] as u32) <= 0x30FF),
        decreases cs.len() - i,
    {
        let u = cs[i] as u32;
        if 0x3040 <= u && u <= 0x30FF {
            return true;
        }
        i += 1;
    }
    false
}

/// Fill `romanized` on every line that needs one and set `script`, the key the UI remembers the
/// toggle under. Nothing changes when no line is in a script that is romanized. A song that
/// already carries readings (Apple's) only gets its script: the two spell differently. Lines
/// that read the same in Latin (an English chorus) get nothing. `japanese` holds the
/// morphological analysis of the song's Kanji and kana runs.
pub fn fill(lyrics: &mut Lyrics, japanese: &[JapaneseRun])
    ensures
        final(lyrics).source == old(lyrics).source,
        final(lyrics).synced == old(lyrics).synced,
        final(lyrics).instrumental == old(lyrics).instrumental,
        match dominant_script_of(lines_text(old(lyrics).lines@)) {
            None => final(lyrics).script == old(lyrics).script && final(lyrics).lines@ == old(
                lyrics,
            ).lines@,
            Some(s) => opt_view(final(lyrics).script) == Some(s) && if any_romanized(
                old(lyrics).lines@,
            ) {
                final(lyrics).lines@ == old(lyrics).lines@
            } else {
                &&& final(lyrics).lines@.len() == old(lyrics).lines@.len()
                &&& forall|k: int|
                    0 <= k < old(lyrics).lines@.len() ==> {
                        &&& (#[trigger] final(lyrics).lines@[k]).text == old(lyrics).lines@[k].text
                        &&& final(lyrics).lines@[k].start_ms == old(lyrics).lines@[k].start_ms
                        &&& opt_view(final(lyrics).lines@[k].romanized) == line_reading(
                            old(lyrics).lines@[k].text@,
                            s,
                            japanese@,
                        )
                    }
            },
        },
{
    let n = lyrics.lines.len();
    let mut all: Vec<char> = Vec::new();
    let mut i: usize = 0;
    while i < n
        invariant
            n == lyrics.lines@.len(),
            0 <= i <= n,
            all@ == lines_text(lyrics.lines@.take(i as int)),
        decreases n - i,
    {
        assert(lyrics.lines@.take(i + 1).drop_last() == lyrics.lines@.take(i as int));
        push_text(&mut all, lyrics.lines[i].text.as_str());
        i += 1;
    }
    assert(lyrics.lines@.take(n as int) == lyrics.lines@);
    let all_s = crate::text::string_of(all.as_slice());
    let script = match dominant_script(all_s.as_str()) {
        Some(s) => s,
        None => return ,
    };
    lyrics.script = Some(script.to_owned());
    let mut k: usize = 0;
    while k < n
        invariant
            lyrics.source == old(lyrics).source,
            lyrics.synced == old(lyrics).synced,
            lyrics.instrumental == old(lyrics).instrumental,
            opt_view(lyrics.script) == Some(script@),
            Some(script@) == dominant_script_of(lines_text(old(lyrics).lines@)),
            lyrics.lines@ == old(lyrics).lines@,
            n == lyrics.lines@.len(),
            0 <= k <= n,
            forall|j: int| 0 <= j < k ==> (#[trigger] lyrics.lines@[j]).romanized is None,
        decreases n - k,
    {
        if lyrics.lines[k].romanized.is_some() {
            assert(any_romanized(old(lyrics).lines@));
            return ;
        }
        k += 1;
    }
    let is_ja = str_eq(script, "ja");
    let ghost before = lyrics.lines@;
    let mut k: usize = 0;
    while k < n
        invariant
            lyrics.source == old(lyrics).source,
            lyrics.synced == old(lyrics).synced,
            lyrics.instrumental == old(lyrics).instrumental,
            opt_view(lyrics.script) == Some(script@),
            Some(script@) == dominant_script_of(lines_text(old(lyrics).lines@)),
            before == old(lyrics).lines@,
            n == lyrics.lines@.len(),
            n == before.len(),
            0 <= k <= n,
            is_ja == (script@ == "ja"@),
            forall|j: int| k <= j < n ==> (#[trigger] lyrics.lines@[j]) == before[j],
            forall|j: int| 0 <= j < n ==> (#[trigger] before[j]).romanized is None,
            forall|j: int|
                0 <= j < k ==> {
                    &&& (#[trigger] lyrics.lines@[j]).text == before[j].text
                    &&& lyrics.lines@[j].start_ms == before[j].start_ms
                    &&& opt_view(lyrics.lines@[j].romanized) == line_reading(
                        before[j].text@,
                        script@,
                        japanese@,
                    )
                },
        decreases n - k,
    {
        let text = lyrics.lines[k].text.clone();
        let ja = is_ja || line_has_kana(text.as_str());
        let r = romanize_line(text.as_str(), ja, japanese);
        if !str_eq(r.as_str(), text.as_str()) {
            let start_ms = lyrics.lines[k].start_ms;
            lyrics.lines.set(k, LyricLine { start_ms, text, romanized: Some(r) });
        }
        k += 1;
    }
    assert(!any_romanized(old(lyrics).lines@));
}

} // verus!
