//! Lyrics as the UI shows them: lines, optionally timed, each with an optional romanized
//! reading.

use vstd::prelude::*;

verus! {

/// One line of lyrics.
#[derive(Debug, Clone)]
pub struct LyricLine {
    /// Start of the line in milliseconds, for synced lyrics.
    pub start_ms: Option<i64>,
    pub text: String,
    /// A Latin-script reading of the line, when it needs one.
    pub romanized: Option<String>,
}

impl LyricLine {
    /// A line with no reading.
    pub fn simple(start_ms: Option<i64>, text: String) -> (r: LyricLine)
        ensures
            r.start_ms == start_ms,
            r.text == text,
            r.romanized is None,
    {
        LyricLine { start_ms, text, romanized: None }
    }
}

/// The lyrics of a song.
#[derive(Debug, Clone)]
pub struct Lyrics {
    pub source: String,
    pub synced: bool,
    pub instrumental: bool,
    /// The script the song is mostly written in, the key the UI remembers the romanization
    /// toggle under.
    pub script: Option<String>,
    pub lines: Vec<LyricLine>,
}

} // verus!
