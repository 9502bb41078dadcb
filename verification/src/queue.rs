//! The play queue: items, the current position, the gapless lookahead, and the bookkeeping of
//! the track now playing (which client served it, its watch-history URL and nonce).
//!
//! The player, the resolver and the UI events are driven from outside; every change of the
//! queue goes through here.

use vstd::prelude::*;

use crate::clients::MAIN_CLIENT;
use crate::codec::{
    all_digits, decimal, decimal_i64, digit_char, digits_value, int_text_value, is_digit,
    lemma_decimal_reads_back, parse_i64, parse_i64_spec, push_decimal_i64,
};
use crate::models::metadata::SongItem;
use crate::text::{
    chars_of, is_ws, opt_str_view, opt_view, push_text, slice_to_vec, split_bounds, split_on, str_eq,
    string_of, trim, trim_bounds, trim_start,
};

verus! {

/// A track as Listen Together sends it between peers.
#[derive(Debug, Clone)]
pub struct Track {
    pub id: String,
    pub title: String,
    pub artist: String,
    pub thumbnail: Option<String>,
    pub duration_ms: i64,
}

/// The values of the `:`-separated parts that read as integers (trimmed), in order; parts
/// that do not are dropped.
pub open spec fn duration_parts(parts: Seq<Seq<char>>) -> Seq<i64>
    decreases parts.len(),
{
    if parts.len() == 0 {
        seq![]
    } else {
        let rest = duration_parts(parts.drop_last());
        match parse_i64_spec(trim(parts.last())) {
            Some(v) => rest.push(v),
            None => rest,
        }
    }
}

/// Seconds of `[s]`, `[m, s]` or `[h, m, s]`; 0 for any other count. The arithmetic wraps at
/// 64 bits, as the shipped build's does.
pub open spec fn duration_secs(p: Seq<i64>) -> i64 {
    if p.len() == 1 {
        p[0]
    } else if p.len() == 2 {
        p[0].wrapping_mul(60).wrapping_add(p[1])
    } else if p.len() == 3 {
        p[0].wrapping_mul(3600).wrapping_add(p[1].wrapping_mul(60)).wrapping_add(p[2])
    } else {
        0
    }
}

/// Milliseconds of an `m:ss` or `h:mm:ss` duration text; 0 when absent or unreadable.
pub open spec fn duration_ms_of(s: Option<Seq<char>>) -> i64 {
    match s {
        None => 0,
        Some(t) => duration_secs(duration_parts(split_on(t, ':'))).wrapping_mul(1000),
    }
}

/// Parse an `m:ss` or `h:mm:ss` duration to milliseconds (0 if absent or unreadable).
#[verifier::rlimit(40)]
pub fn parse_duration_ms(s: Option<&str>) -> (r: i64)
    ensures
        r == duration_ms_of(opt_str_view(s)),
{
    let s = match s {
        Some(s) => s,
        None => return 0,
    };
    let v = chars_of(s);
    let bounds = split_bounds(v.as_slice(), ':');
    let ghost parts = split_on(v@, ':');
    let mut vals: Vec<i64> = Vec::new();
    let mut i: usize = 0;
    assert(parts.take(0) =~= Seq::<Seq<char>>::empty());
    while i < bounds.len()
        invariant
            parts == split_on(v@, ':'),
            v@ == s@,
            bounds@.len() == parts.len(),
            forall|j: int|
                0 <= j < bounds@.len() ==> #[trigger] bounds@[j].0 <= bounds@[j].1 <= v@.len()
                    && v@.subrange(bounds@[j].0 as int, bounds@[j].1 as int) == parts[j],
            0 <= i <= bounds@.len(),
            vals@ == duration_parts(parts.take(i as int)),
        decreases bounds.len() - i,
    {
        let (lo, hi) = bounds[i];
        assert(parts.take(i + 1).drop_last() == parts.take(i as int));
        assert(parts.take(i + 1).last() == v@.subrange(lo as int, hi as int));
        let (a, b) = trim_bounds(v.as_slice(), lo, hi);
        let piece = slice_to_vec(v.as_slice(), a, b);
        let text = string_of(piece.as_slice());
        match parse_i64(text.as_str()) {
            Some(x) => vals.push(x),
            None => {},
        }
        i += 1;
    }
    assert(parts.take(bounds@.len() as int) == parts);
    let secs: i64 = if vals.len() == 1 {
        vals[0]
    } else if vals.len() == 2 {
        vals[0].wrapping_mul(60).wrapping_add(vals[1])
    } else if vals.len() == 3 {
        vals[0].wrapping_mul(3600).wrapping_add(vals[1].wrapping_mul(60)).wrapping_add(vals[2])
    } else {
        0
    };
    secs.wrapping_mul(1000)
}

/// Seconds as the queue shows them: two digits, zero-padded when in `0..10` (`{:02}`).
pub open spec fn two_digits(s: int) -> Seq<char> {
    if 0 <= s < 10 {
        seq!['0'] + decimal(s as nat)
    } else {
        decimal_i64(s)
    }
}

/// Division truncating toward zero, as Rust's integer division does.
pub open spec fn tdiv(a: int, b: int) -> int {
    if a >= 0 {
        a / b
    } else {
        -((-a) / b)
    }
}

/// The remainder that goes with `tdiv`, of the dividend's sign.
pub open spec fn trem(a: int, b: int) -> int {
    a - tdiv(a, b) * b
}

/// `m:ss` of a duration in milliseconds.
pub open spec fn duration_text(ms: i64) -> Seq<char> {
    let total = tdiv(ms as int, 1000);
    decimal_i64(tdiv(total, 60)) + seq![':'] + two_digits(trem(total, 60))
}

/// Digits are no white space: trimming leaves them alone.
proof fn lemma_trim_digits(d: Seq<char>)
    requires
        all_digits(d),
    ensures
        trim(d) == d,
{
    assert(!is_ws(d[0]));
    assert(trim_start(d) == d);
    assert(!is_ws(d.last()));
}

/// A text with no `:` is one part.
proof fn lemma_split_no_colon(d: Seq<char>)
    requires
        all_digits(d),
    ensures
        split_on(d, ':') == seq![d],
{
    crate::text::lemma_pos_of_unique(d, ':', -1);
}

/// A duration keeps its length to the second when it is written as `m:ss` and read back, the
/// way a track crosses between a queue item and a Listen Together track: `parse_duration_ms` of
/// `format_duration(ms)` is `ms` with the milliseconds below a second dropped.
pub proof fn law_duration_text_reads_back(ms: i64)
    requires
        ms >= 0,
    ensures
        duration_ms_of(Some(duration_text(ms))) == (ms / 1000) * 1000,
{
    let total: int = ms / 1000;
    let m: int = total / 60;
    let s: int = total % 60;
    assert(tdiv(ms as int, 1000) == total);
    assert(tdiv(total, 60) == m);
    assert(trem(total, 60) == s);
    let a = decimal(m as nat);
    let b = two_digits(s);
    lemma_decimal_reads_back(m as nat);
    lemma_decimal_reads_back(s as nat);
    assert(decimal_i64(m) == a);
    if s < 10 {
        assert(decimal(s as nat) == seq![digit_char(s as nat)]);
        assert(b == seq!['0', digit_char(s as nat)]);
        assert(b.drop_last() == seq!['0']);
        assert(seq!['0'].drop_last() == Seq::<char>::empty());
        assert(digits_value(Seq::<char>::empty()) == 0);
        assert(digits_value(seq!['0']) == 0);
        assert(digits_value(b) == s);
        assert(all_digits(b)) by {
            assert(is_digit(b[0]) && is_digit(b[1]));
        }
    } else {
        assert(b == decimal(s as nat));
    }
    assert(all_digits(b) && digits_value(b) == s);
    let text = duration_text(ms);
    assert(text == a + seq![':'] + b);
    assert forall|j: int| 0 <= j < a.len() implies text[j] != ':' by {
        assert(text[j] == a[j]);
        assert(is_digit(a[j]));
    }
    crate::text::lemma_pos_of_unique(text, ':', a.len() as int);
    assert(text.take(a.len() as int) == a);
    assert(text.skip(a.len() as int + 1) == b);
    lemma_split_no_colon(b);
    let parts = split_on(text, ':');
    assert(parts == seq![a] + seq![b]);
    assert(parts == seq![a, b]);
    lemma_trim_digits(a);
    lemma_trim_digits(b);
    assert(int_text_value(b) == Some(s)) by {
        assert(!(b[0] == '+' || b[0] == '-')) by {
            assert(is_digit(b[0]));
        }
    }
    assert(parse_i64_spec(a) == Some(m as i64));
    assert(parse_i64_spec(b) == Some(s as i64));
    assert(parts.drop_last() == seq![a]);
    assert(seq![a].drop_last() == Seq::<Seq<char>>::empty());
    let vals = duration_parts(parts);
    assert(duration_parts(Seq::<Seq<char>>::empty()) == Seq::<i64>::empty());
    assert(seq![a].last() == a);
    assert(duration_parts(seq![a]) == seq![m as i64]);
    assert(vals == seq![m as i64, s as i64]);
    assert(total == m * 60 + s);
    assert(0 <= m * 60 <= total);
    assert((m as i64).wrapping_mul(60) == m * 60);
    assert((m as i64).wrapping_mul(60).wrapping_add(s as i64) == total);
    assert(0 <= total * 1000 <= ms);
    assert((total as i64).wrapping_mul(1000) == total * 1000);
}

/// Format a duration in milliseconds as `m:ss`.
pub fn format_duration(ms: i64) -> (r: String)
    ensures
        r@ == duration_text(ms),
{
    let total = ms / 1000;
    let m = total / 60;
    let s = total % 60;
    assert(total == tdiv(ms as int, 1000));
    assert(m == tdiv(total as int, 60));
    assert(s == trem(total as int, 60));
    let mut out: Vec<char> = Vec::new();
    push_decimal_i64(&mut out, m);
    out.push(':');
    if 0 <= s && s < 10 {
        out.push('0');
        push_decimal_i64(&mut out, s);
    } else {
        push_decimal_i64(&mut out, s);
    }
    string_of(out.as_slice())
}

fn copy_opt(o: &Option<String>) -> (r: Option<String>)
    ensures
        r == *o,
{
    match o {
        Some(s) => Some(s.clone()),
        None => None,
    }
}

/// A queue item as a Listen Together track.
pub fn song_to_track(s: &SongItem) -> (t: Track)
    ensures
        t.id == s.video_id,
        t.title == s.title,
        t.artist == s.artists,
        t.thumbnail == s.thumbnail,
        t.duration_ms == duration_ms_of(opt_view(s.duration)),
{
    let d = match &s.duration {
        Some(x) => parse_duration_ms(Some(x.as_str())),
        None => parse_duration_ms(None),
    };
    Track {
        id: s.video_id.clone(),
        title: s.title.clone(),
        artist: s.artists.clone(),
        thumbnail: copy_opt(&s.thumbnail),
        duration_ms: d,
    }
}

/// `s` is the queue item of the Listen Together track `t`: its id, title, artists and
/// thumbnail; no album, ids or like state; not queued by hand or by autoplay; its duration
/// shown as `m:ss` when positive.
pub open spec fn song_of_track(s: SongItem, t: Track) -> bool {
    &&& s.video_id == t.id
    &&& s.title == t.title
    &&& s.artists == t.artist
    &&& s.thumbnail == t.thumbnail
    &&& s.artist_id is None && s.album is None && s.album_id is None
    &&& s.set_video_id is None && s.liked is None && s.queued_by is None
    &&& !s.queued && !s.autoplay
    &&& opt_view(s.duration) == if t.duration_ms > 0 {
        Some(duration_text(t.duration_ms))
    } else {
        None
    }
}

/// A Listen Together track as a queue item: no album, ids or like state; its duration shown
/// when positive.
pub fn track_to_song(t: &Track) -> (s: SongItem)
    ensures
        song_of_track(s, *t),
        s.video_id == t.id,
        s.title == t.title,
        s.artists == t.artist,
        s.thumbnail == t.thumbnail,
        s.artist_id is None && s.album is None && s.album_id is None,
        s.set_video_id is None && s.liked is None && s.queued_by is None,
        !s.queued && !s.autoplay,
        t.duration_ms > 0 ==> opt_view(s.duration) == Some(duration_text(t.duration_ms)),
        t.duration_ms <= 0 ==> s.duration is None,
{
    SongItem {
        video_id: t.id.clone(),
        title: t.title.clone(),
        artists: t.artist.clone(),
        artist_id: None,
        album: None,
        album_id: None,
        duration: if t.duration_ms > 0 {
            Some(format_duration(t.duration_ms))
        } else {
            None
        },
        thumbnail: copy_opt(&t.thumbnail),
        set_video_id: None,
        liked: None,
        queued_by: None,
        queued: false,
        autoplay: false,
    }
}

/// A position within a list of `len` items: the position itself, or the last item when it lies
/// past the end.
pub open spec fn clamped_index(len: nat, i: int) -> int {
    if i < len {
        i
    } else {
        len - 1
    }
}

/// What the watch-history latch hands out: the tracking URL and nonce of a play not yet pinged
/// that has a URL, nothing otherwise.
pub open spec fn history_ping(pinged: bool, url: Option<String>, cpn: String) -> Option<
    (String, String),
> {
    if pinged {
        None
    } else {
        match url {
            Some(u) => Some((u, cpn)),
            None => None,
        }
    }
}

/// A queue saved with its position comes back at that very position: restoring the items of a
/// queue together with its current index gives the same items and the same index.
pub proof fn law_saved_queue_restores_in_place(items: Seq<SongItem>, current: int)
    requires
        0 <= current < items.len(),
    ensures
        clamped_index(items.len(), current) == current,
{
}

/// Each play registers in watch history at most once: the latch hands out the tracking URL of
/// a play not yet pinged, and nothing once it has fired (until the next track starts and clears
/// it).
pub proof fn law_history_pinged_once(url: Option<String>, cpn: String)
    ensures
        history_ping(true, url, cpn) is None,
        url is Some ==> history_ping(false, url, cpn) == Some((url.unwrap(), cpn)),
{
}

/// The queue and the bookkeeping of the track now playing.
#[derive(Debug)]
pub struct QueueState {
    pub items: Vec<SongItem>,
    pub current: usize,
    /// The queue index already appended to the player for a gapless transition.
    pub lookahead_loaded: Option<usize>,
    /// Which client served the loaded track.
    pub current_client: Option<String>,
    /// The client that served the primed lookahead track.
    pub lookahead_client: Option<String>,
    /// Watch-history tracking URL of the current track, and of the primed lookahead.
    pub playback_url: Option<String>,
    pub lookahead_playback_url: Option<String>,
    /// Content Playback Nonce of the current play, and whether its history ping went out.
    pub cpn: String,
    pub history_pinged: bool,
}

impl QueueState {
    /// The current position points at an item, or the queue is empty.
    pub open spec fn wf(&self) -> bool {
        self.current < self.items@.len() || (self.items@.len() == 0 && self.current == 0)
    }

    /// An empty queue.
    pub fn new() -> (r: QueueState)
        ensures
            r.wf(),
            r.items@.len() == 0,
            r.current == 0,
            r.lookahead_loaded is None,
            r.current_client is None && r.lookahead_client is None,
            r.playback_url is None && r.lookahead_playback_url is None,
            !r.history_pinged,
            r.cpn@.len() == 0,
    {
        QueueState {
            items: Vec::new(),
            current: 0,
            lookahead_loaded: None,
            current_client: None,
            lookahead_client: None,
            playback_url: None,
            lookahead_playback_url: None,
            cpn: String::new(),
            history_pinged: false,
        }
    }

    /// The item now playing.
    pub fn current_item(&self) -> (r: Option<&SongItem>)
        ensures
            match r {
                Some(s) => self.current < self.items@.len() && *s == self.items@[self.current as int],
                None => self.current >= self.items@.len(),
            },
    {
        if self.current < self.items.len() {
            Some(&self.items[self.current])
        } else {
            None
        }
    }

    /// Start a fresh queue from one track.
    pub fn play_song(&mut self, seed: SongItem)
        ensures
            final(self).wf(),
            final(self).items@ == seq![seed],
            final(self).current == 0,
            final(self).lookahead_loaded is None,
    {
        self.items = vec![seed];
        self.current = 0;
        self.lookahead_loaded = None;
    }

    /// Append the up-next radio for the seed `seed_id`, leaving out the seed itself.
    pub fn add_radio(&mut self, items: Vec<SongItem>, seed_id: &str)
        requires
            old(self).wf(),
        ensures
            final(self).wf(),
            final(self).items@ == old(self).items@ + items@.filter(
                |s: SongItem| s.video_id@ != seed_id@,
            ),
            final(self).current == old(self).current,
            final(self).lookahead_loaded == old(self).lookahead_loaded,
    {
        let ghost base = self.items@;
        let ghost all = items@;
        let mut rest = items;
        let ghost mut i: int = 0;
        assert(all.take(0).filter(|s: SongItem| s.video_id@ != seed_id@) =~= Seq::<SongItem>::empty());
        while rest.len() > 0
            invariant
                self.wf(),
                0 <= i <= all.len(),
                rest@ == all.skip(i),
                self.items@ == base + all.take(i).filter(|s: SongItem| s.video_id@ != seed_id@),
                self.current == old(self).current,
                self.lookahead_loaded == old(self).lookahead_loaded,
                base == old(self).items@,
            decreases rest.len(),
        {
            assert(rest@[0] == all[i]);
            let item = rest.remove(0);
            assert(all.take(i + 1).drop_last() == all.take(i));
            assert(all.take(i + 1).last() == item);
            reveal(Seq::filter);
            if !str_eq(item.video_id.as_str(), seed_id) {
                self.items.push(item);
            }
            assert(rest@ == all.skip(i + 1));
            proof {
                i = i + 1;
            }
        }
        assert(all.take(i) == all);
    }

    /// Play a finite list of tracks from `start` (clamped to the last one). An empty list
    /// changes nothing and returns `false`.
    pub fn play_tracks(&mut self, items: Vec<SongItem>, start: usize) -> (started: bool)
        requires
            old(self).wf(),
        ensures
            final(self).wf(),
            started == (items@.len() > 0),
            started ==> final(self).items@ == items@ && final(self).current == clamped_index(
                items@.len(),
                start as int,
            ) && final(self).lookahead_loaded is None,
            !started ==> final(self).items@ == old(self).items@ && final(self).current == old(
                self,
            ).current && final(self).lookahead_loaded == old(self).lookahead_loaded,
    {
        if items.len() == 0 {
            return false;
        }
        let last = items.len() - 1;
        let start = if start < last {
            start
        } else {
            last
        };
        self.items = items;
        self.current = start;
        self.lookahead_loaded = None;
        true
    }

    /// Jump to a queue index; out of range changes nothing and returns `false`.
    pub fn play_index(&mut self, index: usize) -> (moved: bool)
        requires
            old(self).wf(),
        ensures
            final(self).wf(),
            moved == (index < old(self).items@.len()),
            final(self).items@ == old(self).items@,
            moved ==> final(self).current == index && final(self).lookahead_loaded is None,
            !moved ==> final(self).current == old(self).current && final(self).lookahead_loaded
                == old(self).lookahead_loaded,
    {
        if index >= self.items.len() {
            return false;
        }
        self.current = index;
        self.lookahead_loaded = None;
        true
    }

    /// Advance after a track ended: `false`, and nothing moves, at the end of the queue.
    pub fn advance(&mut self) -> (moved: bool)
        requires
            old(self).wf(),
        ensures
            final(self).wf(),
            moved == (old(self).current + 1 < old(self).items@.len()),
            moved ==> final(self).current == old(self).current + 1,
            !moved ==> final(self).current == old(self).current,
            final(self).items@ == old(self).items@,
            final(self).lookahead_loaded == old(self).lookahead_loaded,
    {
        let n = self.items.len();
        if self.current + 1 >= n {
            return false;
        }
        self.current = self.current + 1;
        true
    }

    /// Skip a track no client could play: like `advance`, and the lookahead is dropped.
    pub fn skip_unplayable(&mut self) -> (moved: bool)
        requires
            old(self).wf(),
        ensures
            final(self).wf(),
            moved == (old(self).current + 1 < old(self).items@.len()),
            moved ==> final(self).current == old(self).current + 1
                && final(self).lookahead_loaded is None,
            !moved ==> final(self).current == old(self).current && final(self).lookahead_loaded
                == old(self).lookahead_loaded,
            final(self).items@ == old(self).items@,
    {
        let n = self.items.len();
        if self.current + 1 >= n {
            return false;
        }
        self.current = self.current + 1;
        self.lookahead_loaded = None;
        true
    }

    /// A track was loaded by `client`: fresh watch-history state.
    pub fn started(&mut self, client: String, playback_url: Option<String>, cpn: String)
        ensures
            final(self).items@ == old(self).items@,
            final(self).current == old(self).current,
            final(self).lookahead_loaded == old(self).lookahead_loaded,
            final(self).current_client == Some(client),
            final(self).playback_url == playback_url,
            final(self).cpn == cpn,
            !final(self).history_pinged,
            final(self).lookahead_client == old(self).lookahead_client,
            final(self).lookahead_playback_url == old(self).lookahead_playback_url,
            final(self).wf() == old(self).wf(),
    {
        self.current_client = Some(client);
        self.playback_url = playback_url;
        self.cpn = cpn;
        self.history_pinged = false;
    }

    /// The player moved into the primed lookahead by itself: the lookahead's client and
    /// history URL become the current ones, with a fresh nonce.
    pub fn gapless_advanced(&mut self, cpn: String)
        ensures
            final(self).items@ == old(self).items@,
            final(self).current == old(self).current,
            final(self).lookahead_loaded == old(self).lookahead_loaded,
            final(self).current_client == old(self).lookahead_client,
            final(self).lookahead_client is None,
            final(self).playback_url == old(self).lookahead_playback_url,
            final(self).lookahead_playback_url is None,
            final(self).cpn == cpn,
            !final(self).history_pinged,
            final(self).wf() == old(self).wf(),
    {
        self.current_client = self.lookahead_client.take();
        self.playback_url = self.lookahead_playback_url.take();
        self.cpn = cpn;
        self.history_pinged = false;
    }

    /// The index to prime for a gapless transition: the next one, unless it is already primed
    /// or the queue ends here.
    pub fn lookahead_target(&self) -> (r: Option<usize>)
        ensures
            match r {
                Some(i) => i == self.current + 1 && i < self.items@.len() && self.lookahead_loaded
                    != Some(i),
                None => self.lookahead_loaded == Some((self.current + 1) as usize) || self.current
                    + 1 >= self.items@.len(),
            },
    {
        if self.current >= self.items.len() || self.current + 1 >= self.items.len() {
            return None;
        }
        let next = self.current + 1;
        match self.lookahead_loaded {
            Some(l) => if l == next {
                return None;
            },
            None => {},
        }
        Some(next)
    }

    /// The lookahead at `index` is primed, served by `client`.
    pub fn lookahead_primed(&mut self, index: usize, client: String, playback_url: Option<String>)
        ensures
            final(self).items@ == old(self).items@,
            final(self).current == old(self).current,
            final(self).lookahead_loaded == Some(index),
            final(self).lookahead_client == Some(client),
            final(self).lookahead_playback_url == playback_url,
            final(self).wf() == old(self).wf(),
    {
        self.lookahead_loaded = Some(index);
        self.lookahead_client = Some(client);
        self.lookahead_playback_url = playback_url;
    }

    /// The index the "next" key jumps to.
    pub fn next_index(&self) -> (r: usize)
        requires
            self.current < usize::MAX,
        ensures
            r == self.current + 1,
    {
        self.current + 1
    }

    /// The index the "previous" key jumps to (the first stays the first).
    pub fn prev_index(&self) -> (r: usize)
        ensures
            r == if self.current > 0 {
                (self.current - 1) as usize
            } else {
                0
            },
    {
        if self.current > 0 {
            self.current - 1
        } else {
            0
        }
    }

    /// Latch the watch-history ping of the current play once it passed the play threshold:
    /// the first call returns the tracking URL and nonce (when there is a URL), later calls
    /// nothing.
    pub fn take_history_ping(&mut self) -> (r: Option<(String, String)>)
        ensures
            final(self).history_pinged,
            r == history_ping(old(self).history_pinged, old(self).playback_url, old(self).cpn),
            final(self).items@ == old(self).items@,
            final(self).current == old(self).current,
            final(self).playback_url == old(self).playback_url,
            final(self).cpn == old(self).cpn,
            final(self).wf() == old(self).wf(),
    {
        if self.history_pinged {
            return None;
        }
        self.history_pinged = true;
        match &self.playback_url {
            Some(u) => Some((u.clone(), self.cpn.clone())),
            None => None,
        }
    }

    /// Restore a saved queue at its saved position (clamped to the last item). An empty saved
    /// queue changes nothing.
    pub fn restore(&mut self, items: Vec<SongItem>, current: u64) -> (restored: bool)
        requires
            old(self).wf(),
        ensures
            final(self).wf(),
            restored == (items@.len() > 0),
            restored ==> final(self).items@ == items@ && final(self).current == clamped_index(
                items@.len(),
                current as int,
            ),
            !restored ==> final(self).items@ == old(self).items@ && final(self).current == old(
                self,
            ).current,
    {
        if items.len() == 0 {
            return false;
        }
        let last = items.len() - 1;
        let c: usize = if current < last as u64 {
            current as usize
        } else {
            last
        };
        self.current = c;
        self.items = items;
        true
    }

    /// Whether the track now playing is `video_id`.
    pub fn is_current(&self, video_id: &str) -> (r: bool)
        ensures
            r == (self.current < self.items@.len() && self.items@[self.current as int].video_id@
                == video_id@),
    {
        if self.current < self.items.len() {
            str_eq(self.items[self.current].video_id.as_str(), video_id)
        } else {
            false
        }
    }

    /// A track served by the main web client failed on the real GET: the video id to remember
    /// so the next resolve bypasses that client.
    pub fn failed_main_client_video(&self) -> (r: Option<String>)
        ensures
            match r {
                Some(v) => self.current < self.items@.len() && v == self.items@[
                    self.current as int
                ].video_id && opt_view(self.current_client) == Some(MAIN_CLIENT@),
                None => !(self.current < self.items@.len() && opt_view(self.current_client)
                    == Some(MAIN_CLIENT@)),
            },
    {
        if self.current >= self.items.len() {
            return None;
        }
        match &self.current_client {
            Some(c) => if str_eq(c.as_str(), MAIN_CLIENT) {
                Some(self.items[self.current].video_id.clone())
            } else {
                None
            },
            None => None,
        }
    }

    /// Listen Together guest: the host's track and its upcoming queue become the queue.
    pub fn follow_host(&mut self, track: &Track, upcoming: &Vec<Track>)
        ensures
            final(self).wf(),
            final(self).items@.len() == upcoming@.len() + 1,
            song_of_track(final(self).items@[0], *track),
            forall|k: int|
                0 <= k < upcoming@.len() ==> song_of_track(
                    #[trigger] final(self).items@[k + 1],
                    upcoming@[k],
                ),
            final(self).current == 0,
            final(self).lookahead_loaded is None,
    {
        let mut items: Vec<SongItem> = Vec::new();
        items.push(track_to_song(track));
        let mut k: usize = 0;
        while k < upcoming.len()
            invariant
                0 <= k <= upcoming@.len(),
                items@.len() == k + 1,
                song_of_track(items@[0], *track),
                forall|j: int| 0 <= j < k ==> song_of_track(#[trigger] items@[j + 1], upcoming@[j]),
            decreases upcoming.len() - k,
        {
            items.push(track_to_song(&upcoming[k]));
            k += 1;
        }
        self.items = items;
        self.current = 0;
        self.lookahead_loaded = None;
    }

    /// Listen Together host: the tracks after the current one, at most fifty.
    pub fn upcoming_tracks(&self) -> (r: Vec<Track>)
        ensures
            r@.len() == if self.current + 1 >= self.items@.len() {
                0
            } else if self.items@.len() - (self.current + 1) < 50 {
                self.items@.len() - (self.current + 1)
            } else {
                50
            },
            forall|k: int| 0 <= k < r@.len() ==> (#[trigger] r@[k]).id == self.items@[
                self.current + 1 + k
            ].video_id,
    {
        let mut out: Vec<Track> = Vec::new();
        if self.current >= self.items.len() {
            return out;
        }
        let mut i: usize = self.current + 1;
        while i < self.items.len() && out.len() < 50
            invariant
                self.current + 1 <= i <= self.items@.len(),
                out@.len() == i - (self.current + 1),
                out@.len() <= 50,
                forall|k: int| 0 <= k < out@.len() ==> (#[trigger] out@[k]).id == self.items@[
                    self.current + 1 + k
                ].video_id,
            decreases self.items.len() - i,
        {
            out.push(song_to_track(&self.items[i]));
            i += 1;
        }
        out
    }

    /// Listen Together host: an approved suggestion joins the end of the queue.
    pub fn enqueue_track(&mut self, track: &Track)
        requires
            old(self).wf(),
        ensures
            final(self).wf(),
            final(self).items@.len() == old(self).items@.len() + 1,
            final(self).items@.take(old(self).items@.len() as int) == old(self).items@,
            song_of_track(final(self).items@.last(), *track),
            final(self).current == old(self).current,
    {
        self.items.push(track_to_song(track));
        assert(self.items@.take(old(self).items@.len() as int) == old(self).items@);
    }
}

/// The seek a restored position asks for when a track starts: the saved position, only when
/// the track is the very one it was saved against; any start uses the saved position up.
pub fn resume_seek(pending: &mut Option<(String, i64)>, video_id: &str) -> (r: Option<i64>)
    ensures
        *final(pending) is None,
        r == match *old(pending) {
            Some((v, pos)) => if v@ == video_id@ {
                Some(pos)
            } else {
                None
            },
            None => None,
        },
{
    match pending.take() {
        Some((v, pos)) => if str_eq(v.as_str(), video_id) {
            Some(pos)
        } else {
            None
        },
        None => None,
    }
}

/// How far apart a guest's position may drift from the host's before it seeks.
pub const DRIFT_TOLERANCE_MS: i64 = 2000;

/// Listen Together guest, on the host's play: the host's live position, its reported position
/// plus the time the message spent in transit (never negative) when the server stamped it.
pub open spec fn live_position(position_ms: i64, server_time_ms: i64, now_ms: i64) -> int {
    if server_time_ms > 0 {
        position_ms + if now_ms - server_time_ms > 0 {
            now_ms - server_time_ms
        } else {
            0
        }
    } else {
        position_ms as int
    }
}

/// The host's live position on a play message.
pub fn live_position_ms(position_ms: i64, server_time_ms: i64, now_ms: i64) -> (r: i64)
    requires
        server_time_ms > 0 ==> i64::MIN <= now_ms - server_time_ms <= i64::MAX,
        i64::MIN <= live_position(position_ms, server_time_ms, now_ms) <= i64::MAX,
    ensures
        r == live_position(position_ms, server_time_ms, now_ms),
{
    if server_time_ms > 0 {
        let transit = now_ms - server_time_ms;
        position_ms + if transit > 0 {
            transit
        } else {
            0
        }
    } else {
        position_ms
    }
}

/// A guest seeks to the host's position only when it drifted past the tolerance.
pub fn drifted(current_ms: i64, target_ms: i64) -> (r: bool)
    requires
        i64::MIN < current_ms - target_ms <= i64::MAX,
    ensures
        r == (current_ms - target_ms > DRIFT_TOLERANCE_MS || target_ms - current_ms
            > DRIFT_TOLERANCE_MS),
{
    let d = current_ms - target_ms;
    let a = if d < 0 {
        -d
    } else {
        d
    };
    a > DRIFT_TOLERANCE_MS
}

/// A guest joining a track: where to seek once it loads, the host's position plus the time the
/// load took when the host is playing, and only past the first half second.
pub fn join_seek_ms(position_ms: i64, elapsed_ms: i64, playing: bool) -> (r: Option<i64>)
    requires
        playing ==> i64::MIN <= position_ms + elapsed_ms <= i64::MAX,
    ensures
        ({
            let target = if playing {
                position_ms + elapsed_ms
            } else {
                position_ms as int
            };
            if target > 500 {
                r == Some(target as i64)
            } else {
                r is None
            }
        }),
{
    let target = if playing {
        position_ms + elapsed_ms
    } else {
        position_ms
    };
    if target > 500 {
        Some(target)
    } else {
        None
    }
}

/// The radio playlist a song seeds: `RDAMVM` and its videoId (a bare `next` on the song
/// returns only the song itself).
pub fn radio_playlist_id(video_id: &str) -> (r: String)
    ensures
        r@ == "RDAMVM"@ + video_id@,
{
    let mut out: Vec<char> = Vec::new();
    push_text(&mut out, "RDAMVM");
    push_text(&mut out, video_id);
    string_of(out.as_slice())
}

/// Watch history is on unless the `enable_history` setting is exactly `false`.
pub fn history_enabled(setting: Option<&str>) -> (r: bool)
    ensures
        r == (opt_str_view(setting) != Some("false"@)),
{
    match setting {
        Some(v) => !str_eq(v, "false"),
        None => true,
    }
}

/// Requested stream quality from the `quality` setting: `LOW`, `AUTO`, anything else high.
pub fn quality_from_setting(v: Option<&str>) -> (r: crate::models::player::AudioQuality)
    ensures
        opt_str_view(v) == Some("LOW"@) ==> r == crate::models::player::AudioQuality::Low,
        opt_str_view(v) == Some("AUTO"@) ==> r == crate::models::player::AudioQuality::Auto,
        !(opt_str_view(v) == Some("LOW"@) || opt_str_view(v) == Some("AUTO"@)) ==> r
            == crate::models::player::AudioQuality::High,
{
    proof {
        reveal_strlit("LOW");
        reveal_strlit("AUTO");
        assert("LOW"@.len() == 3 && "AUTO"@.len() == 4);
    }
    match v {
        Some(s) => if str_eq(s, "LOW") {
            crate::models::player::AudioQuality::Low
        } else if str_eq(s, "AUTO") {
            crate::models::player::AudioQuality::Auto
        } else {
            crate::models::player::AudioQuality::High
        },
        None => crate::models::player::AudioQuality::High,
    }
}

/// The non-empty trimmed entries of a comma-separated list.
pub open spec fn list_entries(parts: Seq<Seq<char>>) -> Seq<Seq<char>>
    decreases parts.len(),
{
    if parts.len() == 0 {
        seq![]
    } else {
        let rest = list_entries(parts.drop_last());
        let t = trim(parts.last());
        if t.len() > 0 {
            rest.push(t)
        } else {
            rest
        }
    }
}

/// The user-disabled stream clients of the comma-separated setting.
#[verifier::rlimit(40)]
pub fn disabled_clients(raw: &str) -> (r: Vec<String>)
    ensures
        crate::text::strings_view(r@) == list_entries(split_on(raw@, ',')),
{
    let v = chars_of(raw);
    let bounds = split_bounds(v.as_slice(), ',');
    let ghost parts = split_on(v@, ',');
    let mut out: Vec<String> = Vec::new();
    let mut i: usize = 0;
    assert(parts.take(0) =~= Seq::<Seq<char>>::empty());
    assert(crate::text::strings_view(out@) =~= Seq::<Seq<char>>::empty());
    while i < bounds.len()
        invariant
            parts == split_on(v@, ','),
            v@ == raw@,
            bounds@.len() == parts.len(),
            forall|j: int|
                0 <= j < bounds@.len() ==> #[trigger] bounds@[j].0 <= bounds@[j].1 <= v@.len()
                    && v@.subrange(bounds@[j].0 as int, bounds@[j].1 as int) == parts[j],
            0 <= i <= bounds@.len(),
            crate::text::strings_view(out@) == list_entries(parts.take(i as int)),
        decreases bounds.len() - i,
    {
        let (lo, hi) = bounds[i];
        assert(parts.take(i + 1).drop_last() == parts.take(i as int));
        assert(parts.take(i + 1).last() == v@.subrange(lo as int, hi as int));
        let (a, b) = trim_bounds(v.as_slice(), lo, hi);
        if a < b {
            let piece = slice_to_vec(v.as_slice(), a, b);
            let ghost before = out@;
            out.push(string_of(piece.as_slice()));
            assert(crate::text::strings_view(out@) =~= crate::text::strings_view(before).push(
                piece@,
            ));
        }
        i += 1;
    }
    assert(parts.take(bounds@.len() as int) == parts);
    out
}

/// Whether a list of names holds `key`.
pub fn contains_name(names: &Vec<String>, key: &str) -> (r: bool)
    ensures
        r == crate::text::strings_view(names@).contains(key@),
{
    let mut i: usize = 0;
    while i < names.len()
        invariant
            0 <= i <= names@.len(),
            forall|j: int| 0 <= j < i ==> (#[trigger] names@[j])@ != key@,
        decreases names.len() - i,
    {
        if str_eq(names[i].as_str(), key) {
            assert(crate::text::strings_view(names@)[i as int] == key@);
            return true;
        }
        i += 1;
    }
    assert forall|j: int| 0 <= j < names@.len() implies crate::text::strings_view(names@)[j]
        != key@ by {}
    false
}

} // verus!
