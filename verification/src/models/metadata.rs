//! Search and up-next results, and the account summary.

use vstd::prelude::*;
use vstd::string::StrSliceExecFns;

use crate::models::browse::starts_with_text;
use crate::models::json::{
    array_in, deref_all, deref_opt, find_all, find_first_str, first_str, found_all, get_in,
    items_of, last_thumb, last_thumbnail, member, member_of, str_in, str_of, Json,
};
use crate::text::{
    chars_of, contains_char, extend_chars, find_seq, first_occurrence, occurs_at, opt_view,
    push_str, push_text, slice_to_vec, starts_with, str_eq, string_of, trim, trim_bounds,
};

verus! {

/// A song item: what the playback path needs to play and show a track.
#[derive(Debug, Clone)]
pub struct SongItem {
    pub video_id: String,
    pub title: String,
    pub artists: String,
    /// The primary artist's channel browseId (`UC…`), when the row links one.
    pub artist_id: Option<String>,
    pub album: Option<String>,
    /// The album's browseId (`MPRE…`), when the row links one.
    pub album_id: Option<String>,
    pub duration: Option<String>,
    pub thumbnail: Option<String>,
    /// The item's id within a playlist, needed to remove it from the playlist.
    pub set_video_id: Option<String>,
    /// Whether the signed-in user has liked the track; `None` when unknown.
    pub liked: Option<bool>,
    /// Listen Together: the guest who added this queue item.
    pub queued_by: Option<String>,
    /// Added to the queue by hand (stacks first-in first-out right after the current song).
    pub queued: bool,
    /// Appended by autoplay radio continuation.
    pub autoplay: bool,
}

/// A song item's fields as values.
pub struct SongView {
    pub video_id: Seq<char>,
    pub title: Seq<char>,
    pub artists: Seq<char>,
    pub artist_id: Option<Seq<char>>,
    pub album: Option<Seq<char>>,
    pub album_id: Option<Seq<char>>,
    pub duration: Option<Seq<char>>,
    pub thumbnail: Option<Seq<char>>,
    pub set_video_id: Option<Seq<char>>,
    pub liked: Option<bool>,
    pub queued_by: Option<Seq<char>>,
    pub queued: bool,
    pub autoplay: bool,
}

impl View for SongItem {
    type V = SongView;

    open spec fn view(&self) -> SongView {
        SongView {
            video_id: self.video_id@,
            title: self.title@,
            artists: self.artists@,
            artist_id: opt_view(self.artist_id),
            album: opt_view(self.album),
            album_id: opt_view(self.album_id),
            duration: opt_view(self.duration),
            thumbnail: opt_view(self.thumbnail),
            set_video_id: opt_view(self.set_video_id),
            liked: self.liked,
            queued_by: opt_view(self.queued_by),
            queued: self.queued,
            autoplay: self.autoplay,
        }
    }
}

/// The views of a list of song items.
pub open spec fn songs_view(s: Seq<SongItem>) -> Seq<SongView> {
    s.map_values(|x: SongItem| x@)
}

#[derive(Debug, Clone)]
pub struct SearchResult {
    pub items: Vec<SongItem>,
}

#[derive(Debug, Clone)]
pub struct NextResult {
    pub items: Vec<SongItem>,
    pub continuation: Option<String>,
    /// The lyrics tab's browseId (`MPLYt…`).
    pub lyrics_browse_id: Option<String>,
}

/// Logged-in account summary.
#[derive(Debug, Clone)]
pub struct AccountInfo {
    pub name: Option<String>,
    /// Channel handle or email, whichever the header carries.
    pub handle: Option<String>,
    pub thumbnail: Option<String>,
    /// The `onBehalfOfUser` id.
    pub data_sync_id: Option<String>,
    /// A login-bound visitorData, when the response carried one.
    pub visitor_data: Option<String>,
}

/// A `dataSyncId` (`"<id>||<other>"`): the part before `||` when it is not empty, else the part
/// after it; the whole text when there is no `||`.
pub open spec fn datasync_id_of(raw: Seq<char>) -> Seq<char> {
    let i = first_occurrence(raw, "||"@);
    if i < 0 {
        raw
    } else if i > 0 {
        raw.take(i)
    } else {
        raw.skip(i + 2)
    }
}

/// Pick the account id out of a `dataSyncId`.
pub fn split_datasync_id(raw: &str) -> (r: String)
    ensures
        r@ == datasync_id_of(raw@),
{
    let v = chars_of(raw);
    let sep = chars_of("||");
    let n = v.len();
    match find_seq(v.as_slice(), sep.as_slice(), 0) {
        Some(i) => {
            proof {
                let k = choose|k: int|
                    occurs_at(v@, sep@, k) && forall|j: int| j < k ==> !occurs_at(v@, sep@, j);
                assert(k == i);
            }
            proof {
                reveal_strlit("||");
            }
            if i > 0 {
                raw.substring_char(0, i).to_owned()
            } else {
                raw.substring_char(i + 2, n).to_owned()
            }
        },
        None => {
            assert(forall|j: int| !occurs_at(v@, sep@, j));
            raw.to_owned()
        },
    }
}

/// A subtitle separator run: `•` once trimmed.
pub open spec fn is_bullet(t: Seq<char>) -> bool {
    trim(t) == "•"@
}

/// The `•`-separated groups of a subtitle's run texts, each group's runs joined, untrimmed.
pub open spec fn subtitle_groups(runs: Seq<Seq<char>>) -> Seq<Seq<char>>
    decreases runs.len(),
{
    if runs.len() == 0 {
        seq![seq![]]
    } else {
        let g = subtitle_groups(runs.drop_last());
        let t = runs.last();
        if is_bullet(t) {
            g.push(seq![])
        } else {
            g.update(g.len() - 1, g.last() + t)
        }
    }
}

proof fn lemma_groups_nonempty(runs: Seq<Seq<char>>)
    ensures
        subtitle_groups(runs).len() >= 1,
    decreases runs.len(),
{
    if runs.len() > 0 {
        lemma_groups_nonempty(runs.drop_last());
    }
}

/// Index of the last group with a `:` in it, or -1.
pub open spec fn last_timed(gs: Seq<Seq<char>>) -> int
    decreases gs.len(),
{
    if gs.len() == 0 {
        -1
    } else if contains_char(gs.last(), ':') {
        gs.len() - 1
    } else {
        last_timed(gs.drop_last())
    }
}

pub open spec fn vecs_view(v: Seq<Vec<char>>) -> Seq<Seq<char>> {
    v.map_values(|g: Vec<char>| g@)
}

fn last_timed_index(tv: &Vec<Vec<char>>) -> (r: Option<usize>)
    ensures
        match r {
            Some(x) => x < tv@.len() && last_timed(vecs_view(tv@)) == x,
            None => last_timed(vecs_view(tv@)) == -1,
        },
{
    let ghost tg = vecs_view(tv@);
    let mut d: usize = tv.len();
    assert(tg.take(d as int) == tg);
    while d > 0
        invariant
            tg == vecs_view(tv@),
            d <= tv@.len(),
            last_timed(tg) == last_timed(tg.take(d as int)),
        decreases d,
    {
        assert(tg.take(d as int).drop_last() == tg.take(d - 1));
        assert(tg.take(d as int).last() == tv@[d - 1]@);
        assert(tv@[d - 1]@.subrange(0, tv@[d - 1]@.len() as int) == tv@[d - 1]@);
        if crate::text::has_char(tv[d - 1].as_slice(), 0, tv[d - 1].len(), ':') {
            return Some(d - 1);
        }
        d -= 1;
    }
    None
}

pub open spec fn trimmed_all(gs: Seq<Seq<char>>) -> Seq<Seq<char>> {
    gs.map_values(|g: Seq<char>| trim(g))
}

/// `(artists, album, duration)` of a subtitle "Artist • Album • 3:21": the first group, the
/// second one unless it is the duration, and the last group that holds a `:`.
pub open spec fn subtitle_parts(runs: Option<Seq<Seq<char>>>) -> (Seq<char>, Option<Seq<char>>, Option<Seq<char>>) {
    match runs {
        None => (seq![], None, None),
        Some(rs) => {
            let gs = trimmed_all(subtitle_groups(rs));
            let d = last_timed(gs);
            let duration = if d >= 0 {
                Some(gs[d])
            } else {
                None
            };
            let album = if gs.len() > 1 && Some(gs[1]) != duration {
                Some(gs[1])
            } else {
                None
            };
            (gs[0], album, duration)
        },
    }
}

fn trimmed(s: &str) -> (r: Vec<char>)
    ensures
        r@ == trim(s@),
{
    let v = chars_of(s);
    let (a, b) = trim_bounds(v.as_slice(), 0, v.len());
    assert(v@.subrange(0, v@.len() as int) == v@);
    slice_to_vec(v.as_slice(), a, b)
}

/// The group `last_timed` picks holds a `:`.
proof fn lemma_last_timed(gs: Seq<Seq<char>>)
    ensures
        -1 <= last_timed(gs) < gs.len(),
        last_timed(gs) >= 0 ==> contains_char(gs[last_timed(gs)], ':'),
        forall|j: int| last_timed(gs) < j < gs.len() ==> !contains_char(#[trigger] gs[j], ':'),
    decreases gs.len(),
{
    if gs.len() > 0 && !contains_char(gs.last(), ':') {
        lemma_last_timed(gs.drop_last());
        assert forall|j: int| last_timed(gs) < j < gs.len() implies !contains_char(#[trigger] gs[j], ':') by {
            if j < gs.len() - 1 {
                assert(gs[j] == gs.drop_last()[j]);
            }
        }
    }
}

/// What a subtitle's parts are, group by group (the runs split at `•` runs, each group
/// trimmed): the artists are the first group; the album is the second group whenever there is
/// one and it holds no `:` (a duration); with a single group there is no album; and the duration
/// is a group holding a `:`, there is one exactly when some group holds one.
pub proof fn law_subtitle_parts(rs: Seq<Seq<char>>)
    ensures
        ({
            let gs = trimmed_all(subtitle_groups(rs));
            let (artists, album, duration) = subtitle_parts(Some(rs));
            &&& gs.len() >= 1
            &&& artists == gs[0]
            &&& (gs.len() >= 2 && !contains_char(gs[1], ':') ==> album == Some(gs[1]))
            &&& (gs.len() < 2 ==> album is None)
            &&& (duration matches Some(d) ==> exists|k: int|
                0 <= k < gs.len() && d == gs[k] && contains_char(d, ':') && forall|j: int|
                    k < j < gs.len() ==> !contains_char(#[trigger] gs[j], ':'))
            &&& (duration is None <==> forall|k: int| 0 <= k < gs.len() ==> !contains_char(
                #[trigger] gs[k],
                ':',
            ))
        }),
{
    lemma_groups_nonempty(rs);
    let gs = trimmed_all(subtitle_groups(rs));
    lemma_last_timed(gs);
    lemma_last_timed_none(gs);
}

/// No group holds a `:` exactly when `last_timed` finds none.
proof fn lemma_last_timed_none(gs: Seq<Seq<char>>)
    ensures
        last_timed(gs) == -1 <==> forall|k: int| 0 <= k < gs.len() ==> !contains_char(
            #[trigger] gs[k],
            ':',
        ),
    decreases gs.len(),
{
    if gs.len() > 0 {
        lemma_last_timed_none(gs.drop_last());
        lemma_last_timed(gs.drop_last());
        if !contains_char(gs.last(), ':') {
            assert forall|k: int| 0 <= k < gs.len() - 1 implies #[trigger] gs[k] == gs.drop_last()[k] by {}
        }
    }
}

/// Split the run texts of a subtitle into `(artists, album, duration)`.
pub fn split_subtitle(runs: Option<&Vec<String>>) -> (r: (String, Option<String>, Option<String>))
    ensures
        (r.0@, crate::text::opt_view(r.1), crate::text::opt_view(r.2)) == subtitle_parts(
            match runs {
                Some(v) => Some(crate::text::strings_view(v@)),
                None => None,
            },
        ),
{
    let runs = match runs {
        Some(v) => v,
        None => return (String::new(), None, None),
    };
    let ghost rv = crate::text::strings_view(runs@);
    let mut groups: Vec<Vec<char>> = Vec::new();
    let mut cur: Vec<char> = Vec::new();
    let mut i: usize = 0;
    while i < runs.len()
        invariant
            rv == crate::text::strings_view(runs@),
            0 <= i <= runs@.len(),
            vecs_view(groups@).push(cur@) == subtitle_groups(rv.take(i as int)),
        decreases runs.len() - i,
    {
        let ghost before_g = vecs_view(groups@);
        assert(rv.take(i + 1).drop_last() == rv.take(i as int));
        assert(rv.take(i + 1).last() == runs@[i as int]@);
        let t = trimmed(runs[i].as_str());
        if t.len() == 1 && t[0] == '•' {
            assert(t@ =~= "•"@) by {
                reveal_strlit("•");
            }
            let done = cur;
            groups.push(done);
            cur = Vec::new();
            assert(vecs_view(groups@) =~= before_g.push(done@));
        } else {
            proof {
                reveal_strlit("•");
                if t@ == "•"@ {
                    assert(t@.len() == 1 && t@[0] == '•');
                }
            }
            push_text(&mut cur, runs[i].as_str());
        }
        i += 1;
    }
    assert(rv.take(runs@.len() as int) == rv);
    let ghost gs = subtitle_groups(rv);
    let ghost tg = trimmed_all(gs);
    groups.push(cur);
    assert(vecs_view(groups@) == gs);
    proof {
        lemma_groups_nonempty(rv);
    }
    let mut tv: Vec<Vec<char>> = Vec::new();
    let mut k: usize = 0;
    while k < groups.len()
        invariant
            vecs_view(groups@) == gs,
            tg == trimmed_all(gs),
            0 <= k <= groups@.len(),
            tv@.len() == k,
            forall|j: int| 0 <= j < k ==> (#[trigger] tv@[j])@ == tg[j],
        decreases groups.len() - k,
    {
        let g = string_of(groups[k].as_slice());
        tv.push(trimmed(g.as_str()));
        k += 1;
    }
    assert(vecs_view(tv@) =~= tg);
    let dur = last_timed_index(&tv);
    let duration: Option<String> = match dur {
        Some(x) => Some(string_of(tv[x].as_slice())),
        None => None,
    };
    let album: Option<String> = if tv.len() > 1 {
        let a = string_of(tv[1].as_slice());
        let same = match &duration {
            Some(du) => crate::text::str_eq(a.as_str(), du.as_str()),
            None => false,
        };
        if same {
            None
        } else {
            Some(a)
        }
    } else {
        None
    };
    (string_of(tv[0].as_slice()), album, duration)
}

/// The text of a run: its `text` string, nothing when it has none.
pub open spec fn run_text(r: Json) -> Seq<char> {
    match str_of(member(r, "text"@)) {
        Some(t) => t,
        None => seq![],
    }
}

/// The texts of runs, in order.
pub open spec fn run_texts(rs: Seq<Json>) -> Seq<Seq<char>> {
    rs.map_values(|r: Json| run_text(r))
}

/// The run texts joined.
pub open spec fn joined_texts(rs: Seq<Json>) -> Seq<char>
    decreases rs.len(),
{
    if rs.len() == 0 {
        seq![]
    } else {
        joined_texts(rs.drop_last()) + run_text(rs.last())
    }
}

/// `{ runs: [...] }` to its run texts joined, when that is not empty.
pub open spec fn runs_text_of(v: Option<Json>) -> Option<Seq<char>> {
    match items_of(member_of(v, "runs"@)) {
        Some(rs) => if joined_texts(rs).len() > 0 {
            Some(joined_texts(rs))
        } else {
            None
        },
        None => None,
    }
}

fn run_text_into(r: &Json, out: &mut Vec<char>)
    ensures
        final(out)@ == old(out)@ + run_text(*r),
{
    match r.get("text") {
        Some(t) => match t.as_str() {
            Some(x) => push_text(out, x),
            None => {},
        },
        None => {},
    }
}

/// The texts of runs, in order.
pub fn texts_of_runs(runs: &Vec<Json>) -> (r: Vec<String>)
    ensures
        crate::text::strings_view(r@) == run_texts(runs@),
{
    let mut out: Vec<String> = Vec::new();
    let mut i: usize = 0;
    while i < runs.len()
        invariant
            0 <= i <= runs@.len(),
            out@.len() == i,
            forall|j: int| 0 <= j < i ==> (#[trigger] out@[j])@ == run_text(runs@[j]),
        decreases runs.len() - i,
    {
        let mut t: Vec<char> = Vec::new();
        run_text_into(&runs[i], &mut t);
        assert(t@ == run_text(runs@[i as int]));
        out.push(string_of(t.as_slice()));
        i += 1;
    }
    assert(crate::text::strings_view(out@) =~= run_texts(runs@));
    out
}

/// `{ runs: [...] }` to its run texts joined, when that is not empty.
pub fn runs_text(v: Option<&Json>) -> (r: Option<String>)
    ensures
        opt_view(r) == runs_text_of(deref_opt(v)),
{
    let runs = match array_in(v, "runs") {
        Some(a) => a,
        None => return None,
    };
    let mut out: Vec<char> = Vec::new();
    let mut i: usize = 0;
    assert(runs@.take(0) == Seq::<Json>::empty());
    while i < runs.len()
        invariant
            0 <= i <= runs@.len(),
            out@ == joined_texts(runs@.take(i as int)),
        decreases runs.len() - i,
    {
        assert(runs@.take(i + 1).drop_last() == runs@.take(i as int));
        assert(runs@.take(i + 1).last() == runs@[i as int]);
        run_text_into(&runs[i], &mut out);
        i += 1;
    }
    assert(runs@.take(runs@.len() as int) == runs@);
    if out.len() > 0 {
        Some(string_of(out.as_slice()))
    } else {
        None
    }
}

/// The joined text of a `musicResponsiveListItemRenderer` flex column.
pub open spec fn flex_text_of(col: Json) -> Option<Seq<char>> {
    runs_text_of(member_of(member(col, "musicResponsiveListItemFlexColumnRenderer"@), "text"@))
}

fn flex_text(col: &Json) -> (r: Option<String>)
    ensures
        opt_view(r) == flex_text_of(*col),
{
    runs_text(get_in(col.get("musicResponsiveListItemFlexColumnRenderer"), "text"))
}

/// The joined text of flex column `i` of a list row.
pub open spec fn flex_column_of(node: Json, i: int) -> Option<Seq<char>> {
    match items_of(member(node, "flexColumns"@)) {
        Some(c) => if 0 <= i < c.len() {
            flex_text_of(c[i])
        } else {
            None
        },
        None => None,
    }
}

/// The joined text of flex column `i` of a list row (0 the title, 1 the subtitle).
pub fn flex_column_text(node: &Json, i: usize) -> (r: Option<String>)
    ensures
        opt_view(r) == flex_column_of(*node, i as int),
{
    match array_in(Some(node), "flexColumns") {
        Some(c) => if i < c.len() {
            flex_text(&c[i])
        } else {
            None
        },
        None => None,
    }
}

/// A row's videoId: from its playlist item data, its watch endpoint, or, last, anywhere in its
/// play-button overlay.
pub open spec fn item_video_id(node: Json) -> Option<Seq<char>> {
    match str_of(member_of(member(node, "playlistItemData"@), "videoId"@)) {
        Some(id) => Some(id),
        None => match str_of(
            member_of(member_of(member(node, "navigationEndpoint"@), "watchEndpoint"@), "videoId"@),
        ) {
            Some(id) => Some(id),
            None => match member(node, "overlay"@) {
                Some(o) => first_str(o, "videoId"@),
                None => None,
            },
        },
    }
}

/// A row's videoId from any of the three places it is found.
pub fn list_item_video_id(node: &Json) -> (r: Option<String>)
    ensures
        opt_view(r) == item_video_id(*node),
{
    match str_in(node.get("playlistItemData"), "videoId") {
        Some(id) => return Some(id.to_owned()),
        None => {},
    }
    match str_in(get_in(node.get("navigationEndpoint"), "watchEndpoint"), "videoId") {
        Some(id) => return Some(id.to_owned()),
        None => {},
    }
    match node.get("overlay") {
        Some(o) => find_first_str(o, "videoId"),
        None => None,
    }
}

/// The first string among `s` that starts with `p`.
pub open spec fn first_with_prefix(s: Seq<Json>, p: Seq<char>) -> Option<Seq<char>>
    decreases s.len(),
{
    if s.len() == 0 {
        None
    } else {
        match str_of(Some(s[0])) {
            Some(t) => if starts_with(t, p) {
                Some(t)
            } else {
                first_with_prefix(s.drop_first(), p)
            },
            None => first_with_prefix(s.drop_first(), p),
        }
    }
}

pub(crate) fn first_prefixed(s: &Vec<&Json>, p: &str) -> (r: Option<String>)
    ensures
        opt_view(r) == first_with_prefix(deref_all(s@), p@),
{
    let ghost d = deref_all(s@);
    let mut i: usize = 0;
    assert(d.skip(0) == d);
    while i < s.len()
        invariant
            d == deref_all(s@),
            0 <= i <= s@.len(),
            first_with_prefix(d, p@) == first_with_prefix(d.skip(i as int), p@),
        decreases s.len() - i,
    {
        assert(d.skip(i as int).drop_first() == d.skip(i + 1));
        assert(d.skip(i as int)[0] == *s@[i as int]);
        match s[i].as_str() {
            Some(t) => if starts_with_text(t, p) {
                return Some(t.to_owned());
            },
            None => {},
        }
        i += 1;
    }
    None
}

/// The album's browseId: the first `MPRE…` browseId anywhere in the row.
pub open spec fn album_id_of(node: Json) -> Option<Seq<char>> {
    first_with_prefix(found_all(node, "browseId"@), "MPRE"@)
}

/// The album's browseId (`MPRE…`): the linked album run or the row menu's "Go to album" entry,
/// whichever the row carries.
pub fn album_id(node: &Json) -> (r: Option<String>)
    ensures
        opt_view(r) == album_id_of(*node),
{
    let ids = find_all(node, "browseId");
    first_prefixed(&ids, "MPRE")
}

/// The artist channel a run links: its browse endpoint's `UC…` browseId.
pub open spec fn run_artist(r: Json) -> Option<Seq<char>> {
    match str_of(
        member_of(member_of(member(r, "navigationEndpoint"@), "browseEndpoint"@), "browseId"@),
    ) {
        Some(id) => if starts_with(id, "UC"@) {
            Some(id)
        } else {
            None
        },
        None => None,
    }
}

/// The first artist channel the runs link.
pub open spec fn first_artist(rs: Seq<Json>) -> Option<Seq<char>>
    decreases rs.len(),
{
    if rs.len() == 0 {
        None
    } else {
        match run_artist(rs[0]) {
            Some(x) => Some(x),
            None => first_artist(rs.drop_first()),
        }
    }
}

/// The first run that links an artist channel (`UC…`).
pub fn first_artist_id(runs: &Vec<Json>) -> (r: Option<String>)
    ensures
        opt_view(r) == first_artist(runs@),
{
    let mut i: usize = 0;
    assert(runs@.skip(0) == runs@);
    while i < runs.len()
        invariant
            0 <= i <= runs@.len(),
            first_artist(runs@) == first_artist(runs@.skip(i as int)),
        decreases runs.len() - i,
    {
        assert(runs@.skip(i as int).drop_first() == runs@.skip(i + 1));
        assert(runs@.skip(i as int)[0] == runs@[i as int]);
        let id = str_in(get_in(runs[i].get("navigationEndpoint"), "browseEndpoint"), "browseId");
        match id {
            Some(t) => if starts_with_text(t, "UC") {
                return Some(t.to_owned());
            },
            None => {},
        }
        i += 1;
    }
    None
}

/// The like state of a row from the first `likeStatus` in it: `LIKE` or not.
pub open spec fn liked_of(node: Json) -> Option<bool> {
    match first_str(node, "likeStatus"@) {
        Some(s) => Some(s == "LIKE"@),
        None => None,
    }
}

fn like_status(node: &Json) -> (r: Option<bool>)
    ensures
        r == liked_of(*node),
{
    match find_first_str(node, "likeStatus") {
        Some(s) => Some(str_eq(s.as_str(), "LIKE")),
        None => None,
    }
}

/// The subtitle runs of a list row: the runs of its second flex column.
pub open spec fn subtitle_runs_of(node: Json) -> Option<Seq<Json>> {
    match items_of(member(node, "flexColumns"@)) {
        Some(c) => if c.len() > 1 {
            items_of(
                member_of(
                    member_of(member(c[1], "musicResponsiveListItemFlexColumnRenderer"@), "text"@),
                    "runs"@,
                ),
            )
        } else {
            None
        },
        None => None,
    }
}

/// A search row (`musicResponsiveListItemRenderer`) as a song: it needs a videoId and a
/// non-empty title; artists, album and duration come from the "Artist • Album • 3:21"
/// subtitle.
pub open spec fn list_item(node: Json) -> Option<SongView> {
    match item_video_id(node) {
        None => None,
        Some(vid) => {
            let title = match flex_column_of(node, 0) {
                Some(t) => t,
                None => seq![],
            };
            if title.len() == 0 {
                None
            } else {
                let sub = subtitle_runs_of(node);
                let parts = subtitle_parts(
                    match sub {
                        Some(rs) => Some(run_texts(rs)),
                        None => None,
                    },
                );
                Some(
                    SongView {
                        video_id: vid,
                        title,
                        artists: parts.0,
                        artist_id: match sub {
                            Some(rs) => first_artist(rs),
                            None => None,
                        },
                        album: parts.1,
                        album_id: album_id_of(node),
                        duration: parts.2,
                        thumbnail: last_thumb(node),
                        set_video_id: str_of(
                            member_of(member(node, "playlistItemData"@), "playlistSetVideoId"@),
                        ),
                        liked: liked_of(node),
                        queued_by: None,
                        queued: false,
                        autoplay: false,
                    },
                )
            }
        },
    }
}

fn subtitle_runs(node: &Json) -> (r: Option<&Vec<Json>>)
    ensures
        match r {
            Some(a) => subtitle_runs_of(*node) == Some(a@),
            None => subtitle_runs_of(*node) is None,
        },
{
    match array_in(Some(node), "flexColumns") {
        Some(c) => if c.len() > 1 {
            array_in(get_in(c[1].get("musicResponsiveListItemFlexColumnRenderer"), "text"), "runs")
        } else {
            None
        },
        None => None,
    }
}

/// A search row as a song item.
pub fn parse_list_item(node: &Json) -> (r: Option<SongItem>)
    ensures
        match r {
            Some(x) => list_item(*node) == Some(x@),
            None => list_item(*node) is None,
        },
{
    let video_id = match list_item_video_id(node) {
        Some(v) => v,
        None => return None,
    };
    // A flex column's text is never empty when there is one.
    let title = match flex_column_text(node, 0) {
        Some(t) => t,
        None => return None,
    };
    let sub = subtitle_runs(node);
    let (artists, album, duration) = match sub {
        Some(rs) => {
            let texts = texts_of_runs(rs);
            split_subtitle(Some(&texts))
        },
        None => split_subtitle(None),
    };
    let artist_id = match sub {
        Some(rs) => first_artist_id(rs),
        None => None,
    };
    let set_video_id = match str_in(node.get("playlistItemData"), "playlistSetVideoId") {
        Some(x) => Some(x.to_owned()),
        None => None,
    };
    Some(
        SongItem {
            video_id,
            title,
            artists,
            artist_id,
            album,
            album_id: album_id(node),
            duration,
            thumbnail: last_thumbnail(node),
            set_video_id,
            liked: like_status(node),
            queued_by: None,
            queued: false,
            autoplay: false,
        },
    )
}

/// The byline of an up-next row: the long one, else the short one.
pub open spec fn byline_of(node: Json) -> Option<Json> {
    match member(node, "longBylineText"@) {
        Some(b) => Some(b),
        None => member(node, "shortBylineText"@),
    }
}

/// An up-next row (`playlistPanelVideoRenderer`) as a song: it needs a videoId and a title.
pub open spec fn panel_video(node: Json) -> Option<SongView> {
    match str_of(member(node, "videoId"@)) {
        None => None,
        Some(vid) => match runs_text_of(member(node, "title"@)) {
            None => None,
            Some(title) => {
                let byline = byline_of(node);
                Some(
                    SongView {
                        video_id: vid,
                        title,
                        artists: match runs_text_of(byline) {
                            Some(a) => a,
                            None => seq![],
                        },
                        artist_id: match items_of(member_of(byline, "runs"@)) {
                            Some(rs) => first_artist(rs),
                            None => None,
                        },
                        album: None,
                        album_id: album_id_of(node),
                        duration: runs_text_of(member(node, "lengthText"@)),
                        thumbnail: last_thumb(node),
                        set_video_id: None,
                        liked: liked_of(node),
                        queued_by: None,
                        queued: false,
                        autoplay: false,
                    },
                )
            },
        },
    }
}

/// An up-next row as a song item.
pub fn parse_panel_video(node: &Json) -> (r: Option<SongItem>)
    ensures
        match r {
            Some(x) => panel_video(*node) == Some(x@),
            None => panel_video(*node) is None,
        },
{
    let video_id = match node.get("videoId") {
        Some(v) => match v.as_str() {
            Some(s) => s.to_owned(),
            None => return None,
        },
        None => return None,
    };
    let title = match runs_text(node.get("title")) {
        Some(t) => t,
        None => return None,
    };
    let byline = match node.get("longBylineText") {
        Some(b) => Some(b),
        None => node.get("shortBylineText"),
    };
    let artists = match runs_text(byline) {
        Some(a) => a,
        None => String::new(),
    };
    let artist_id = match array_in(byline, "runs") {
        Some(rs) => first_artist_id(rs),
        None => None,
    };
    Some(
        SongItem {
            video_id,
            title,
            artists,
            artist_id,
            album: None,
            album_id: album_id(node),
            duration: runs_text(node.get("lengthText")),
            thumbnail: last_thumbnail(node),
            set_video_id: None,
            liked: like_status(node),
            queued_by: None,
            queued: false,
            autoplay: false,
        },
    )
}

/// The search rows among `ns` that read as songs, in order.
pub open spec fn list_items(ns: Seq<Json>) -> Seq<SongView>
    decreases ns.len(),
{
    if ns.len() == 0 {
        seq![]
    } else {
        list_items(ns.drop_last()) + match list_item(ns.last()) {
            Some(x) => seq![x],
            None => seq![],
        }
    }
}

/// The up-next rows among `ns` that read as songs, in order.
pub open spec fn panel_videos(ns: Seq<Json>) -> Seq<SongView>
    decreases ns.len(),
{
    if ns.len() == 0 {
        seq![]
    } else {
        panel_videos(ns.drop_last()) + match panel_video(ns.last()) {
            Some(x) => seq![x],
            None => seq![],
        }
    }
}

proof fn lemma_songs_push(s: Seq<SongItem>, x: SongItem)
    ensures
        songs_view(s.push(x)) == songs_view(s).push(x@),
{
    assert(songs_view(s.push(x)) =~= songs_view(s).push(x@));
}

/// Parse a `search` response into song items: every `musicResponsiveListItemRenderer` that
/// reads as a song, in walk order.
pub fn parse_search(root: &Json) -> (r: SearchResult)
    ensures
        songs_view(r.items@) == list_items(found_all(*root, "musicResponsiveListItemRenderer"@)),
{
    let nodes = find_all(root, "musicResponsiveListItemRenderer");
    let ghost d = deref_all(nodes@);
    let mut items: Vec<SongItem> = Vec::new();
    let mut i: usize = 0;
    assert(d.take(0) == Seq::<Json>::empty());
    assert(songs_view(items@) =~= Seq::<SongView>::empty());
    while i < nodes.len()
        invariant
            d == deref_all(nodes@),
            0 <= i <= nodes@.len(),
            songs_view(items@) == list_items(d.take(i as int)),
        decreases nodes.len() - i,
    {
        assert(d.take(i + 1).drop_last() == d.take(i as int));
        assert(d.take(i + 1).last() == *nodes@[i as int]);
        match parse_list_item(nodes[i]) {
            Some(item) => {
                proof {
                    lemma_songs_push(items@, item);
                }
                items.push(item);
            },
            None => {},
        }
        i += 1;
    }
    assert(d.take(nodes@.len() as int) == d);
    SearchResult { items }
}

/// The lyrics tab's browseId among browse endpoints: the first whose `pageType` is
/// `MUSIC_PAGE_TYPE_TRACK_LYRICS` and that carries a browseId.
pub open spec fn lyrics_id_in(bes: Seq<Json>) -> Option<Seq<char>>
    decreases bes.len(),
{
    if bes.len() == 0 {
        None
    } else {
        let be = bes[0];
        let hit = if first_str(be, "pageType"@) == Some("MUSIC_PAGE_TYPE_TRACK_LYRICS"@) {
            str_of(member(be, "browseId"@))
        } else {
            None
        };
        match hit {
            Some(x) => Some(x),
            None => lyrics_id_in(bes.drop_first()),
        }
    }
}

/// The lyrics tab's browseId of a `next` response.
pub fn lyrics_browse_id(root: &Json) -> (r: Option<String>)
    ensures
        opt_view(r) == lyrics_id_in(found_all(*root, "browseEndpoint"@)),
{
    let bes = find_all(root, "browseEndpoint");
    let ghost d = deref_all(bes@);
    let mut i: usize = 0;
    assert(d.skip(0) == d);
    while i < bes.len()
        invariant
            d == deref_all(bes@),
            d == found_all(*root, "browseEndpoint"@),
            0 <= i <= bes@.len(),
            lyrics_id_in(d) == lyrics_id_in(d.skip(i as int)),
        decreases bes.len() - i,
    {
        assert(d.skip(i as int).drop_first() == d.skip(i + 1));
        assert(d.skip(i as int)[0] == *bes@[i as int]);
        let lyrics = match find_first_str(bes[i], "pageType") {
            Some(t) => str_eq(t.as_str(), "MUSIC_PAGE_TYPE_TRACK_LYRICS"),
            None => false,
        };
        if lyrics {
            match str_in(Some(bes[i]), "browseId") {
                Some(id) => {
                    return Some(id.to_owned());
                },
                None => {},
            }
        }
        i += 1;
    }
    None
}

/// Parse a `next` response: the up-next rows, the radio continuation token (the first
/// `continuation` string) and the lyrics tab's browseId.
pub fn parse_next(root: &Json) -> (r: NextResult)
    ensures
        songs_view(r.items@) == panel_videos(found_all(*root, "playlistPanelVideoRenderer"@)),
        opt_view(r.continuation) == first_str(*root, "continuation"@),
        opt_view(r.lyrics_browse_id) == lyrics_id_in(found_all(*root, "browseEndpoint"@)),
{
    let nodes = find_all(root, "playlistPanelVideoRenderer");
    let ghost d = deref_all(nodes@);
    let mut items: Vec<SongItem> = Vec::new();
    let mut i: usize = 0;
    assert(d.take(0) == Seq::<Json>::empty());
    assert(songs_view(items@) =~= Seq::<SongView>::empty());
    while i < nodes.len()
        invariant
            d == deref_all(nodes@),
            0 <= i <= nodes@.len(),
            songs_view(items@) == panel_videos(d.take(i as int)),
        decreases nodes.len() - i,
    {
        assert(d.take(i + 1).drop_last() == d.take(i as int));
        assert(d.take(i + 1).last() == *nodes@[i as int]);
        match parse_panel_video(nodes[i]) {
            Some(item) => {
                proof {
                    lemma_songs_push(items@, item);
                }
                items.push(item);
            },
            None => {},
        }
        i += 1;
    }
    assert(d.take(nodes@.len() as int) == d);
    NextResult {
        items,
        continuation: find_first_str(root, "continuation"),
        lyrics_browse_id: lyrics_browse_id(root),
    }
}

/// The account header of an `account/account_menu` response: the first
/// `activeAccountHeaderRenderer`.
pub open spec fn account_header(root: Json) -> Option<Json> {
    let hs = found_all(root, "activeAccountHeaderRenderer"@);
    if hs.len() > 0 {
        Some(hs[0])
    } else {
        None
    }
}

/// The response context of a response.
pub open spec fn response_context(root: Json) -> Option<Json> {
    member(root, "responseContext"@)
}

/// Parse an `account/account_menu` response into an account summary: name, handle (the channel
/// handle, else the email) and photo from the account header; the account id and a non-empty
/// visitorData from the response context.
pub fn parse_account_menu(root: &Json) -> (r: AccountInfo)
    ensures
        opt_view(r.name) == runs_text_of(member_of(account_header(*root), "accountName"@)),
        opt_view(r.handle) == match runs_text_of(member_of(account_header(*root), "channelHandle"@)) {
            Some(h) => Some(h),
            None => runs_text_of(member_of(account_header(*root), "email"@)),
        },
        opt_view(r.thumbnail) == match account_header(*root) {
            Some(h) => last_thumb(h),
            None => None,
        },
        opt_view(r.data_sync_id) == match str_of(
            member_of(
                member_of(response_context(*root), "mainAppWebResponseContext"@),
                "datasyncId"@,
            ),
        ) {
            Some(raw) => Some(datasync_id_of(raw)),
            None => None,
        },
        opt_view(r.visitor_data) == match str_of(member_of(response_context(*root), "visitorData"@)) {
            Some(v) => if v.len() > 0 {
                Some(v)
            } else {
                None
            },
            None => None,
        },
{
    let headers = find_all(root, "activeAccountHeaderRenderer");
    let header: Option<&Json> = if headers.len() > 0 {
        Some(headers[0])
    } else {
        None
    };
    assert(deref_opt(header) == account_header(*root));
    let name = runs_text(get_in(header, "accountName"));
    let handle = match runs_text(get_in(header, "channelHandle")) {
        Some(h) => Some(h),
        None => runs_text(get_in(header, "email")),
    };
    let thumbnail = match header {
        Some(h) => last_thumbnail(h),
        None => None,
    };
    let rc = root.get("responseContext");
    let data_sync_id = match str_in(get_in(rc, "mainAppWebResponseContext"), "datasyncId") {
        Some(raw) => Some(split_datasync_id(raw)),
        None => None,
    };
    let visitor_data = match str_in(rc, "visitorData") {
        Some(v) => {
            let cs = chars_of(v);
            if cs.len() > 0 {
                Some(v.to_owned())
            } else {
                None
            }
        },
        None => None,
    };
    AccountInfo { name, handle, thumbnail, data_sync_id, visitor_data }
}

} // verus!
