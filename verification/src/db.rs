//! The rules of the local store: which cached entries still count, and what a play-history
//! window keeps. The SQLite file itself is opened and queried outside the library.

use vstd::prelude::*;

use crate::clock::{reading_secs_i64, secs_i64_of, since_epoch};

verus! {

/// Unix seconds now, as stored in every wall-clock column (0 before the epoch): those of the
/// machine clock's reading, which is not known in advance.
pub fn now_secs() -> (r: i64)
    ensures
        exists|reading: Option<(u64, u32)>| r == reading_secs_i64(reading),
{
    let reading = since_epoch();
    secs_i64_of(reading)
}

/// One file in the local library, its tags as read at scan time; `mtime` is the change
/// detector.
#[derive(Debug, Clone)]
pub struct LocalTrack {
    pub path: String,
    pub title: String,
    pub artist: String,
    pub album: String,
    /// Stable album id fragment (`artist--album`, sanitized).
    pub album_key: String,
    pub track_no: i64,
    pub duration_secs: i64,
    /// Absolute path to the cover image.
    pub cover: Option<String>,
    pub mtime: i64,
}

/// A cached stream URL is served only while it expires after `now` (callers pass `now` plus
/// a safety margin).
pub fn stream_still_valid(expires_at: i64, now: i64) -> (r: bool)
    ensures
        r == (expires_at > now),
{
    expires_at > now
}

/// A cached stream entry is pruned once `expires_at <= now`.
pub fn stream_expired(expires_at: i64, now: i64) -> (r: bool)
    ensures
        r == (expires_at <= now),
{
    expires_at <= now
}

/// The expiry stored for a freshly resolved stream: `now` plus its lifetime, a negative
/// lifetime counting as none.
pub fn stream_expiry(now: i64, expires_in: i64) -> (r: i64)
    requires
        now + (if expires_in > 0 {
            expires_in as int
        } else {
            0
        }) <= i64::MAX,
    ensures
        r == now + if expires_in > 0 {
            expires_in as int
        } else {
            0
        },
{
    now + if expires_in > 0 {
        expires_in
    } else {
        0
    }
}

/// What a lyrics-cache row says: lyrics found are good forever; a cached "no lyrics" verdict
/// holds for `miss_ttl` seconds, after which it reads as a miss (`None`) so the lyrics are
/// fetched again.
pub fn lyrics_verdict(lyrics: Option<String>, fetched_at: i64, now: i64, miss_ttl: i64) -> (r:
    Option<Option<String>>)
    requires
        i64::MIN <= now - fetched_at <= i64::MAX,
    ensures
        lyrics is None && now - fetched_at > miss_ttl ==> r is None,
        !(lyrics is None && now - fetched_at > miss_ttl) ==> r == Some(lyrics),
{
    if lyrics.is_none() && now - fetched_at > miss_ttl {
        return None;
    }
    Some(lyrics)
}

/// Plays recorded before `now - window` fall out of the On Repeat window.
pub fn play_window_start(now: i64, window: i64) -> (r: i64)
    requires
        i64::MIN <= now - window <= i64::MAX,
    ensures
        r == now - window,
{
    now - window
}

} // verus!
