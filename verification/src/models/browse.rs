//! Browse surfaces: home feed, library grid, playlist, album and artist pages, and categorized
//! search results.

use vstd::prelude::*;

use crate::models::json::{
    array_in, deref_all, deref_opt, find_all, find_all_shallow, first_str, found_all,
    found_shallow, get_in, items_of, last_thumb, last_thumbnail, member, member_of, str_in,
    str_of, Json,
};
use crate::models::metadata::{
    album_id_of, first_artist, first_artist_id, first_with_prefix, flex_column_of,
    flex_column_text, item_video_id, list_item, list_item_video_id, parse_list_item, runs_text,
    runs_text_of, songs_view, SongItem, SongView,
};
use crate::text::{chars_of, opt_view, push_text, range_eq_str, string_of};

verus! {

/// One clickable card in a home carousel or library grid: `song` plays `id` (a videoId);
/// `playlist`, `album` and `artist` navigate to the browse page for `id` (a browseId).
#[derive(Debug, Clone)]
pub struct BrowseItem {
    /// `song`, `playlist`, `album` or `artist`.
    pub kind: &'static str,
    pub id: String,
    pub title: String,
    pub subtitle: Option<String>,
    pub thumbnail: Option<String>,
}

/// A titled row of cards on the home feed.
#[derive(Debug, Clone)]
pub struct Section {
    pub title: String,
    pub items: Vec<BrowseItem>,
    pub more_browse_id: Option<String>,
    pub more_params: Option<String>,
}

/// A mood or genre filter chip above the home feed: its label and the `params` that re-browse
/// the home feed filtered to it.
#[derive(Debug, Clone)]
pub struct HomeChip {
    pub title: String,
    pub params: String,
}

#[derive(Debug, Clone)]
pub struct HomePage {
    pub chips: Vec<HomeChip>,
    pub sections: Vec<Section>,
    pub continuation: Option<String>,
}

/// A playlist or album detail page: header, tracks and a paging token.
#[derive(Debug, Clone)]
pub struct PlaylistPage {
    pub title: Option<String>,
    pub subtitle: Option<String>,
    pub thumbnail: Option<String>,
    pub items: Vec<SongItem>,
    pub continuation: Option<String>,
    /// The signed-in user owns this playlist (rename and delete allowed).
    pub owned: bool,
}

/// A page of extra tracks fetched through a continuation token.
#[derive(Debug, Clone)]
pub struct PlaylistContinuation {
    pub items: Vec<SongItem>,
    pub continuation: Option<String>,
}

/// An artist detail page.
#[derive(Debug, Clone)]
pub struct ArtistPage {
    pub name: Option<String>,
    /// The wide banner image.
    pub thumbnail: Option<String>,
    pub description: Option<String>,
    /// Such as "137M monthly listeners".
    pub subscribers: Option<String>,
    /// Subscribe target: the channel id, else the browseId (the same `UC…`).
    pub channel_id: String,
    pub subscribed: bool,
    pub top_songs: Vec<SongItem>,
    pub sections: Vec<ArtistCarousel>,
}

/// One titled card row on an artist page, and where its "More" button leads.
#[derive(Debug, Clone)]
pub struct ArtistCarousel {
    pub title: String,
    pub items: Vec<BrowseItem>,
    pub more_browse_id: Option<String>,
    pub more_params: Option<String>,
}

/// An album detail page.
#[derive(Debug, Clone)]
pub struct AlbumPage {
    pub title: Option<String>,
    pub artist: Option<String>,
    /// The album artist's channel browseId (`UC…`).
    pub artist_id: Option<String>,
    pub artist_thumbnail: Option<String>,
    /// Such as "Album • 2026".
    pub subtitle: Option<String>,
    /// Such as "18 songs • 1 hour, 8 minutes".
    pub second_subtitle: Option<String>,
    pub description: Option<String>,
    pub thumbnail: Option<String>,
    pub items: Vec<SongItem>,
    pub continuation: Option<String>,
    /// The album's audio playlist id (`OLAK5uy_…`), the radio seed for autoplay.
    pub playlist_id: Option<String>,
}

/// Categorized results of an unfiltered search.
#[derive(Debug, Clone)]
pub struct SearchResults {
    pub top: Vec<BrowseItem>,
    pub songs: Vec<BrowseItem>,
    pub albums: Vec<BrowseItem>,
    pub artists: Vec<BrowseItem>,
    pub playlists: Vec<BrowseItem>,
}

/// The kind of page a browseId leads to: albums are `MPRE…` (or `VLMPRE…`), channels `UC…`,
/// anything else a playlist.
pub open spec fn browse_kind_of(id: Seq<char>) -> Seq<char> {
    if crate::text::starts_with(id, "MPRE"@) || crate::text::starts_with(id, "VLMPRE"@) {
        "album"@
    } else if crate::text::starts_with(id, "UC"@) {
        "artist"@
    } else {
        "playlist"@
    }
}

/// `str::starts_with` with a string pattern.
pub fn starts_with_text(s: &str, p: &str) -> (r: bool)
    ensures
        r == crate::text::starts_with(s@, p@),
{
    let v = chars_of(s);
    let pv = chars_of(p);
    if pv.len() > v.len() {
        return false;
    }
    let r = range_eq_str(v.as_slice(), 0, pv.len(), p);
    assert(v@.subrange(0, pv@.len() as int) == v@.take(pv@.len() as int));
    r
}

/// Classify a browseId.
pub fn browse_kind_from_id(id: &str) -> (r: &'static str)
    ensures
        r@ == browse_kind_of(id@),
{
    if starts_with_text(id, "MPRE") || starts_with_text(id, "VLMPRE") {
        "album"
    } else if starts_with_text(id, "UC") {
        "artist"
    } else {
        "playlist"
    }
}

/// A card's fields as values.
pub struct ItemView {
    pub kind: Seq<char>,
    pub id: Seq<char>,
    pub title: Seq<char>,
    pub subtitle: Option<Seq<char>>,
    pub thumbnail: Option<Seq<char>>,
}

impl View for BrowseItem {
    type V = ItemView;

    open spec fn view(&self) -> ItemView {
        ItemView {
            kind: self.kind@,
            id: self.id@,
            title: self.title@,
            subtitle: opt_view(self.subtitle),
            thumbnail: opt_view(self.thumbnail),
        }
    }
}

/// The views of a list of cards.
pub open spec fn items_view(s: Seq<BrowseItem>) -> Seq<ItemView> {
    s.map_values(|x: BrowseItem| x@)
}

proof fn lemma_items_push(s: Seq<BrowseItem>, x: BrowseItem)
    ensures
        items_view(s.push(x)) == items_view(s).push(x@),
{
    assert(items_view(s.push(x)) =~= items_view(s).push(x@));
}

/// The browseId a node's browse endpoint leads to.
pub open spec fn browse_id_at(nav: Option<Json>) -> Option<Seq<char>> {
    str_of(member_of(member_of(nav, "browseEndpoint"@), "browseId"@))
}

/// The videoId a node's watch endpoint plays.
pub open spec fn watch_id_at(nav: Option<Json>) -> Option<Seq<char>> {
    str_of(member_of(member_of(nav, "watchEndpoint"@), "videoId"@))
}

/// A two-row card (`musicTwoRowItemRenderer`): it needs a title; a watch endpoint makes it a
/// song, a watch-playlist endpoint a playlist (`VL` + its id), a browse endpoint whatever its
/// browseId names.
pub open spec fn two_row_item(node: Json) -> Option<ItemView> {
    match runs_text_of(member(node, "title"@)) {
        None => None,
        Some(title) => {
            let subtitle = runs_text_of(member(node, "subtitle"@));
            let thumbnail = last_thumb(node);
            let nav = member(node, "navigationEndpoint"@);
            match watch_id_at(nav) {
                Some(vid) => Some(ItemView { kind: "song"@, id: vid, title, subtitle, thumbnail }),
                None => match str_of(
                    member_of(member_of(nav, "watchPlaylistEndpoint"@), "playlistId"@),
                ) {
                    Some(pid) => Some(
                        ItemView { kind: "playlist"@, id: "VL"@ + pid, title, subtitle, thumbnail },
                    ),
                    None => match browse_id_at(nav) {
                        Some(bid) => Some(
                            ItemView { kind: browse_kind_of(bid), id: bid, title, subtitle, thumbnail },
                        ),
                        None => None,
                    },
                },
            }
        },
    }
}

fn browse_id_in(nav: Option<&Json>) -> (r: Option<&str>)
    ensures
        match r {
            Some(x) => browse_id_at(deref_opt(nav)) == Some(x@),
            None => browse_id_at(deref_opt(nav)) is None,
        },
{
    str_in(get_in(nav, "browseEndpoint"), "browseId")
}

fn watch_id_in(nav: Option<&Json>) -> (r: Option<&str>)
    ensures
        match r {
            Some(x) => watch_id_at(deref_opt(nav)) == Some(x@),
            None => watch_id_at(deref_opt(nav)) is None,
        },
{
    str_in(get_in(nav, "watchEndpoint"), "videoId")
}

/// A two-row card.
pub fn parse_two_row_item(node: &Json) -> (r: Option<BrowseItem>)
    ensures
        match r {
            Some(x) => two_row_item(*node) == Some(x@),
            None => two_row_item(*node) is None,
        },
{
    let title = match runs_text(node.get("title")) {
        Some(t) => t,
        None => return None,
    };
    let subtitle = runs_text(node.get("subtitle"));
    let thumbnail = last_thumbnail(node);
    let nav = node.get("navigationEndpoint");
    match watch_id_in(nav) {
        Some(vid) => {
            return Some(BrowseItem { kind: "song", id: vid.to_owned(), title, subtitle, thumbnail });
        },
        None => {},
    }
    match str_in(get_in(nav, "watchPlaylistEndpoint"), "playlistId") {
        Some(pid) => {
            let mut id: Vec<char> = Vec::new();
            push_text(&mut id, "VL");
            push_text(&mut id, pid);
            return Some(
                BrowseItem { kind: "playlist", id: string_of(id.as_slice()), title, subtitle, thumbnail },
            );
        },
        None => {},
    }
    match browse_id_in(nav) {
        Some(bid) => Some(
            BrowseItem {
                kind: browse_kind_from_id(bid),
                id: bid.to_owned(),
                title,
                subtitle,
                thumbnail,
            },
        ),
        None => None,
    }
}

/// A carousel entry: a two-row card, or a track row as a song card (its artists as subtitle,
/// when there are any).
pub open spec fn carousel_item(node: Json) -> Option<ItemView> {
    match member(node, "musicTwoRowItemRenderer"@) {
        Some(tr) => two_row_item(tr),
        None => match member(node, "musicResponsiveListItemRenderer"@) {
            Some(li) => match list_item(li) {
                Some(song) => Some(
                    ItemView {
                        kind: "song"@,
                        id: song.video_id,
                        title: song.title,
                        subtitle: if song.artists.len() > 0 {
                            Some(song.artists)
                        } else {
                            None
                        },
                        thumbnail: song.thumbnail,
                    },
                ),
                None => None,
            },
            None => None,
        },
    }
}

/// A carousel entry as a card.
pub fn parse_carousel_item(node: &Json) -> (r: Option<BrowseItem>)
    ensures
        match r {
            Some(x) => carousel_item(*node) == Some(x@),
            None => carousel_item(*node) is None,
        },
{
    match node.get("musicTwoRowItemRenderer") {
        Some(tr) => return parse_two_row_item(tr),
        None => {},
    }
    match node.get("musicResponsiveListItemRenderer") {
        Some(li) => match parse_list_item(li) {
            Some(song) => {
                let artists = chars_of(song.artists.as_str());
                let subtitle = if artists.len() > 0 {
                    Some(song.artists)
                } else {
                    None
                };
                Some(
                    BrowseItem {
                        kind: "song",
                        id: song.video_id,
                        title: song.title,
                        subtitle,
                        thumbnail: song.thumbnail,
                    },
                )
            },
            None => None,
        },
        None => None,
    }
}

/// The cards of carousel entries that read as cards, in order.
pub open spec fn carousel_items(cs: Seq<Json>) -> Seq<ItemView>
    decreases cs.len(),
{
    if cs.len() == 0 {
        seq![]
    } else {
        carousel_items(cs.drop_last()) + match carousel_item(cs.last()) {
            Some(x) => seq![x],
            None => seq![],
        }
    }
}

fn parse_carousel_items(cs: &Vec<Json>) -> (r: Vec<BrowseItem>)
    ensures
        items_view(r@) == carousel_items(cs@),
{
    let mut out: Vec<BrowseItem> = Vec::new();
    let mut i: usize = 0;
    assert(cs@.take(0) == Seq::<Json>::empty());
    assert(items_view(out@) =~= Seq::<ItemView>::empty());
    while i < cs.len()
        invariant
            0 <= i <= cs@.len(),
            items_view(out@) == carousel_items(cs@.take(i as int)),
        decreases cs.len() - i,
    {
        assert(cs@.take(i + 1).drop_last() == cs@.take(i as int));
        assert(cs@.take(i + 1).last() == cs@[i as int]);
        match parse_carousel_item(&cs[i]) {
            Some(x) => {
                proof {
                    lemma_items_push(out@, x);
                }
                out.push(x);
            },
            None => {},
        }
        i += 1;
    }
    assert(cs@.take(cs@.len() as int) == cs@);
    out
}

/// The first value under a key named `key` below `root`.
pub open spec fn first_found(root: Json, key: Seq<char>) -> Option<Json> {
    let f = found_all(root, key);
    if f.len() > 0 {
        Some(f[0])
    } else {
        None
    }
}

/// The first value under a key named `key` below `root`.
pub fn find_first<'a>(root: &'a Json, key: &str) -> (r: Option<&'a Json>)
    ensures
        deref_opt(r) == first_found(*root, key@),
{
    let f = find_all(root, key);
    if f.len() > 0 {
        assert(deref_all(f@)[0] == *f@[0]);
        Some(f[0])
    } else {
        None
    }
}

/// A titled card row (`musicCarouselShelfRenderer`) as `(title, cards, more browseId, more
/// params)`: the title from its basic header (empty when none), the cards of its contents, and
/// where the header's "More" button leads (its first browse endpoint). `None` without cards.
pub open spec fn carousel_of(shelf: Json) -> Option<
    (Seq<char>, Seq<ItemView>, Option<Seq<char>>, Option<Seq<char>>),
> {
    let header = first_found(shelf, "musicCarouselShelfBasicHeaderRenderer"@);
    let title = match runs_text_of(member_of(header, "title"@)) {
        Some(t) => t,
        None => seq![],
    };
    let items = match items_of(member(shelf, "contents"@)) {
        Some(c) => carousel_items(c),
        None => seq![],
    };
    if items.len() == 0 {
        None
    } else {
        let more = match member_of(header, "moreContentButton"@) {
            Some(b) => first_found(b, "browseEndpoint"@),
            None => None,
        };
        Some(
            (
                title,
                items,
                str_of(member_of(more, "browseId"@)),
                str_of(member_of(more, "params"@)),
            ),
        )
    }
}

/// A titled card row of an artist page (or of the home feed).
pub fn parse_artist_carousel(shelf: &Json) -> (r: Option<ArtistCarousel>)
    ensures
        match r {
            Some(c) => carousel_of(*shelf) == Some(
                (c.title@, items_view(c.items@), opt_view(c.more_browse_id), opt_view(c.more_params)),
            ),
            None => carousel_of(*shelf) is None,
        },
{
    let header = find_first(shelf, "musicCarouselShelfBasicHeaderRenderer");
    let title = match runs_text(get_in(header, "title")) {
        Some(t) => t,
        None => String::new(),
    };
    let items = match array_in(Some(shelf), "contents") {
        Some(c) => parse_carousel_items(c),
        None => {
            let v: Vec<BrowseItem> = Vec::new();
            assert(items_view(v@) =~= Seq::<ItemView>::empty());
            v
        },
    };
    if items.len() == 0 {
        return None;
    }
    let more = match get_in(header, "moreContentButton") {
        Some(b) => find_first(b, "browseEndpoint"),
        None => None,
    };
    let more_browse_id = match str_in(more, "browseId") {
        Some(x) => Some(x.to_owned()),
        None => None,
    };
    let more_params = match str_in(more, "params") {
        Some(x) => Some(x.to_owned()),
        None => None,
    };
    Some(ArtistCarousel { title, items, more_browse_id, more_params })
}

/// A filter chip (`chipCloudChipRenderer`) as `(label, params)`: it needs both; chips without a
/// browse endpoint (such as "clear filter") are skipped.
pub open spec fn chip_of(c: Json) -> Option<(Seq<char>, Seq<char>)> {
    match runs_text_of(member(c, "text"@)) {
        None => None,
        Some(t) => match str_of(
            member_of(member_of(member(c, "navigationEndpoint"@), "browseEndpoint"@), "params"@),
        ) {
            Some(p) => Some((t, p)),
            None => None,
        },
    }
}

/// The chips among `cs` that read as chips, in order.
pub open spec fn chips_of(cs: Seq<Json>) -> Seq<(Seq<char>, Seq<char>)>
    decreases cs.len(),
{
    if cs.len() == 0 {
        seq![]
    } else {
        chips_of(cs.drop_last()) + match chip_of(cs.last()) {
            Some(x) => seq![x],
            None => seq![],
        }
    }
}

pub open spec fn chips_view(s: Seq<HomeChip>) -> Seq<(Seq<char>, Seq<char>)> {
    s.map_values(|c: HomeChip| (c.title@, c.params@))
}

fn parse_chip(c: &Json) -> (r: Option<HomeChip>)
    ensures
        match r {
            Some(x) => chip_of(*c) == Some((x.title@, x.params@)),
            None => chip_of(*c) is None,
        },
{
    let title = match runs_text(c.get("text")) {
        Some(t) => t,
        None => return None,
    };
    match str_in(get_in(c.get("navigationEndpoint"), "browseEndpoint"), "params") {
        Some(p) => Some(HomeChip { title, params: p.to_owned() }),
        None => None,
    }
}

/// The first string member `key` among the values `s`.
pub open spec fn first_member_str(s: Seq<Json>, key: Seq<char>) -> Option<Seq<char>>
    decreases s.len(),
{
    if s.len() == 0 {
        None
    } else {
        match str_of(member(s[0], key)) {
            Some(x) => Some(x),
            None => first_member_str(s.drop_first(), key),
        }
    }
}

fn first_member_string(s: &Vec<&Json>, key: &str) -> (r: Option<String>)
    ensures
        opt_view(r) == first_member_str(deref_all(s@), key@),
{
    let ghost d = deref_all(s@);
    let mut i: usize = 0;
    assert(d.skip(0) == d);
    while i < s.len()
        invariant
            d == deref_all(s@),
            0 <= i <= s@.len(),
            first_member_str(d, key@) == first_member_str(d.skip(i as int), key@),
        decreases s.len() - i,
    {
        assert(d.skip(i as int).drop_first() == d.skip(i + 1));
        assert(d.skip(i as int)[0] == *s@[i as int]);
        match str_in(Some(s[i]), key) {
            Some(x) => {
                return Some(x.to_owned());
            },
            None => {},
        }
        i += 1;
    }
    None
}

/// The paging token: the modern one (`continuationCommand.token`), else the legacy one
/// (`nextContinuationData.continuation`).
pub open spec fn continuation_of(root: Json) -> Option<Seq<char>> {
    match first_member_str(found_all(root, "continuationCommand"@), "token"@) {
        Some(t) => Some(t),
        None => first_member_str(found_all(root, "nextContinuationData"@), "continuation"@),
    }
}

/// The paging token of a response.
pub fn continuation_token(root: &Json) -> (r: Option<String>)
    ensures
        opt_view(r) == continuation_of(*root),
{
    let cmds = find_all(root, "continuationCommand");
    match first_member_string(&cmds, "token") {
        Some(t) => return Some(t),
        None => {},
    }
    let legacy = find_all(root, "nextContinuationData");
    first_member_string(&legacy, "continuation")
}

/// The views of a list of carousels.
pub open spec fn sections_view(s: Seq<Section>) -> Seq<
    (Seq<char>, Seq<ItemView>, Option<Seq<char>>, Option<Seq<char>>),
> {
    s.map_values(
        |c: Section| (c.title@, items_view(c.items@), opt_view(c.more_browse_id), opt_view(c.more_params)),
    )
}

/// The carousels among `shelves` that have cards, in order.
pub open spec fn carousels_of(shelves: Seq<Json>) -> Seq<
    (Seq<char>, Seq<ItemView>, Option<Seq<char>>, Option<Seq<char>>),
>
    decreases shelves.len(),
{
    if shelves.len() == 0 {
        seq![]
    } else {
        carousels_of(shelves.drop_last()) + match carousel_of(shelves.last()) {
            Some(x) => seq![x],
            None => seq![],
        }
    }
}

/// Parse a home feed response: the filter chips, the titled carousels with cards, and the
/// paging token. A chip's params browse the same shape, filtered.
pub fn parse_home(root: &Json) -> (r: HomePage)
    ensures
        chips_view(r.chips@) == chips_of(found_all(*root, "chipCloudChipRenderer"@)),
        sections_view(r.sections@) == carousels_of(found_all(*root, "musicCarouselShelfRenderer"@)),
        opt_view(r.continuation) == continuation_of(*root),
{
    let cs = find_all(root, "chipCloudChipRenderer");
    let ghost dc = deref_all(cs@);
    let mut chips: Vec<HomeChip> = Vec::new();
    let mut i: usize = 0;
    assert(dc.take(0) == Seq::<Json>::empty());
    assert(chips_view(chips@) =~= Seq::<(Seq<char>, Seq<char>)>::empty());
    while i < cs.len()
        invariant
            dc == deref_all(cs@),
            0 <= i <= cs@.len(),
            chips_view(chips@) == chips_of(dc.take(i as int)),
        decreases cs.len() - i,
    {
        assert(dc.take(i + 1).drop_last() == dc.take(i as int));
        assert(dc.take(i + 1).last() == *cs@[i as int]);
        match parse_chip(cs[i]) {
            Some(c) => {
                let ghost before = chips@;
                chips.push(c);
                assert(chips_view(chips@) =~= chips_view(before) + seq![(c.title@, c.params@)]);
            },
            None => {},
        }
        i += 1;
    }
    assert(dc.take(cs@.len() as int) == dc);
    let shelves = find_all(root, "musicCarouselShelfRenderer");
    let ghost ds = deref_all(shelves@);
    let mut sections: Vec<Section> = Vec::new();
    let mut k: usize = 0;
    assert(ds.take(0) == Seq::<Json>::empty());
    assert(sections_view(sections@) =~= seq![]);
    while k < shelves.len()
        invariant
            ds == deref_all(shelves@),
            0 <= k <= shelves@.len(),
            sections_view(sections@) == carousels_of(ds.take(k as int)),
        decreases shelves.len() - k,
    {
        assert(ds.take(k + 1).drop_last() == ds.take(k as int));
        assert(ds.take(k + 1).last() == *shelves@[k as int]);
        match parse_artist_carousel(shelves[k]) {
            Some(c) => {
                let ghost before = sections@;
                let sec = Section {
                    title: c.title,
                    items: c.items,
                    more_browse_id: c.more_browse_id,
                    more_params: c.more_params,
                };
                sections.push(sec);
                assert(sections_view(sections@) =~= sections_view(before) + seq![
                    (sec.title@, items_view(sec.items@), opt_view(sec.more_browse_id), opt_view(sec.more_params)),
                ]);
            },
            None => {},
        }
        k += 1;
    }
    assert(ds.take(shelves@.len() as int) == ds);
    HomePage { chips, sections, continuation: continuation_token(root) }
}

/// The two-row cards among `ns` that read as cards, in order.
pub open spec fn two_row_items(ns: Seq<Json>) -> Seq<ItemView>
    decreases ns.len(),
{
    if ns.len() == 0 {
        seq![]
    } else {
        two_row_items(ns.drop_last()) + match two_row_item(ns.last()) {
            Some(x) => seq![x],
            None => seq![],
        }
    }
}

/// Parse the library playlists response into a grid of cards.
pub fn parse_library(root: &Json) -> (r: Vec<BrowseItem>)
    ensures
        items_view(r@) == two_row_items(found_all(*root, "musicTwoRowItemRenderer"@)),
{
    let ns = find_all(root, "musicTwoRowItemRenderer");
    let ghost d = deref_all(ns@);
    let mut out: Vec<BrowseItem> = Vec::new();
    let mut i: usize = 0;
    assert(d.take(0) == Seq::<Json>::empty());
    assert(items_view(out@) =~= Seq::<ItemView>::empty());
    while i < ns.len()
        invariant
            d == deref_all(ns@),
            0 <= i <= ns@.len(),
            items_view(out@) == two_row_items(d.take(i as int)),
        decreases ns.len() - i,
    {
        assert(d.take(i + 1).drop_last() == d.take(i as int));
        assert(d.take(i + 1).last() == *ns@[i as int]);
        match parse_two_row_item(ns[i]) {
            Some(x) => {
                proof {
                    lemma_items_push(out@, x);
                }
                out.push(x);
            },
            None => {},
        }
        i += 1;
    }
    assert(d.take(ns@.len() as int) == d);
    out
}

/// The song rows among `ns`, in order.
pub open spec fn song_rows(ns: Seq<Json>) -> Seq<SongView>
    decreases ns.len(),
{
    if ns.len() == 0 {
        seq![]
    } else {
        song_rows(ns.drop_last()) + match list_item(ns.last()) {
            Some(x) => seq![x],
            None => seq![],
        }
    }
}

/// The rows among `ns` that read as songs.
pub fn parse_rows(ns: &Vec<&Json>) -> (r: Vec<SongItem>)
    ensures
        songs_view(r@) == song_rows(deref_all(ns@)),
{
    let ghost d = deref_all(ns@);
    let mut out: Vec<SongItem> = Vec::new();
    let mut i: usize = 0;
    assert(d.take(0) == Seq::<Json>::empty());
    assert(songs_view(out@) =~= Seq::<SongView>::empty());
    while i < ns.len()
        invariant
            d == deref_all(ns@),
            0 <= i <= ns@.len(),
            songs_view(out@) == song_rows(d.take(i as int)),
        decreases ns.len() - i,
    {
        assert(d.take(i + 1).drop_last() == d.take(i as int));
        assert(d.take(i + 1).last() == *ns@[i as int]);
        match parse_list_item(ns[i]) {
            Some(x) => {
                let ghost before = out@;
                out.push(x);
                assert(songs_view(out@) =~= songs_view(before).push(x@));
            },
            None => {},
        }
        i += 1;
    }
    assert(d.take(ns@.len() as int) == d);
    out
}

/// The header of a playlist or album page: the first responsive header, else the first detail
/// header (found wherever it is wrapped).
pub open spec fn playlist_header_of(root: Json) -> Option<Json> {
    match first_found(root, "musicResponsiveHeaderRenderer"@) {
        Some(h) => Some(h),
        None => first_found(root, "musicDetailHeaderRenderer"@),
    }
}

fn playlist_header(root: &Json) -> (r: Option<&Json>)
    ensures
        deref_opt(r) == playlist_header_of(*root),
{
    match find_first(root, "musicResponsiveHeaderRenderer") {
        Some(h) => Some(h),
        None => find_first(root, "musicDetailHeaderRenderer"),
    }
}

/// Parse a playlist page: the header's title, its second subtitle ("N songs • …", else its
/// subtitle) and thumbnail; the top-level track rows; the paging token; and whether the user
/// owns it (an editable header is there exactly then).
pub fn parse_playlist(root: &Json) -> (r: PlaylistPage)
    ensures
        opt_view(r.title) == runs_text_of(member_of(playlist_header_of(*root), "title"@)),
        opt_view(r.subtitle) == match runs_text_of(member_of(playlist_header_of(*root), "secondSubtitle"@)) {
            Some(t) => Some(t),
            None => runs_text_of(member_of(playlist_header_of(*root), "subtitle"@)),
        },
        opt_view(r.thumbnail) == match playlist_header_of(*root) {
            Some(h) => last_thumb(h),
            None => None,
        },
        songs_view(r.items@) == song_rows(found_shallow(*root, "musicResponsiveListItemRenderer"@)),
        opt_view(r.continuation) == continuation_of(*root),
        r.owned == (found_all(*root, "musicEditablePlaylistDetailHeaderRenderer"@).len() > 0),
{
    let header = playlist_header(root);
    let title = runs_text(get_in(header, "title"));
    let subtitle = match runs_text(get_in(header, "secondSubtitle")) {
        Some(t) => Some(t),
        None => runs_text(get_in(header, "subtitle")),
    };
    let thumbnail = match header {
        Some(h) => last_thumbnail(h),
        None => None,
    };
    let rows = find_all_shallow(root, "musicResponsiveListItemRenderer");
    let items = parse_rows(&rows);
    let editable = find_all(root, "musicEditablePlaylistDetailHeaderRenderer");
    assert(deref_all(editable@).len() == editable@.len());
    PlaylistPage {
        title,
        subtitle,
        thumbnail,
        items,
        continuation: continuation_token(root),
        owned: editable.len() > 0,
    }
}

/// Parse a continuation page of playlist tracks: the top-level track rows (an editable row
/// embeds a copy of itself) and the next paging token.
pub fn parse_playlist_continuation(root: &Json) -> (r: PlaylistContinuation)
    ensures
        songs_view(r.items@) == song_rows(found_shallow(*root, "musicResponsiveListItemRenderer"@)),
        opt_view(r.continuation) == continuation_of(*root),
{
    let rows = find_all_shallow(root, "musicResponsiveListItemRenderer");
    PlaylistContinuation { items: parse_rows(&rows), continuation: continuation_token(root) }
}

/// A browse response is the signed-out "Sign in" state (a stale cookie) when it carries a
/// sign-in endpoint.
pub fn is_signed_out(root: &Json) -> (r: bool)
    ensures
        r == (found_all(*root, "signInEndpoint"@).len() > 0),
{
    let f = find_all(root, "signInEndpoint");
    assert(deref_all(f@).len() == f@.len());
    f.len() > 0
}

/// A text that is `{ simpleText }` or `{ runs: [...] }`.
pub open spec fn text_or_runs_of(v: Option<Json>) -> Option<Seq<char>> {
    match v {
        None => None,
        Some(x) => match str_of(member(x, "simpleText"@)) {
            Some(t) => Some(t),
            None => runs_text_of(Some(x)),
        },
    }
}

fn text_or_runs(v: Option<&Json>) -> (r: Option<String>)
    ensures
        opt_view(r) == text_or_runs_of(deref_opt(v)),
{
    let x = match v {
        Some(x) => x,
        None => return None,
    };
    match str_in(Some(x), "simpleText") {
        Some(t) => Some(t.to_owned()),
        None => runs_text(Some(x)),
    }
}

/// A search row as a card: it needs a title (its first flex column); its own browse endpoint
/// makes it whatever the browseId names, else its videoId makes it a song.
pub open spec fn row_card(node: Json) -> Option<ItemView> {
    match flex_column_of(node, 0) {
        None => None,
        Some(title) => {
            let subtitle = flex_column_of(node, 1);
            let thumbnail = last_thumb(node);
            match browse_id_at(member(node, "navigationEndpoint"@)) {
                Some(bid) => Some(
                    ItemView { kind: browse_kind_of(bid), id: bid, title, subtitle, thumbnail },
                ),
                None => match item_video_id(node) {
                    Some(vid) => Some(ItemView { kind: "song"@, id: vid, title, subtitle, thumbnail }),
                    None => None,
                },
            }
        },
    }
}

/// A search row as a card.
pub fn list_item_to_browse_item(node: &Json) -> (r: Option<BrowseItem>)
    ensures
        match r {
            Some(x) => row_card(*node) == Some(x@),
            None => row_card(*node) is None,
        },
{
    let title = match flex_column_text(node, 0) {
        Some(t) => t,
        None => return None,
    };
    let subtitle = flex_column_text(node, 1);
    let thumbnail = last_thumbnail(node);
    match browse_id_in(node.get("navigationEndpoint")) {
        Some(bid) => {
            return Some(
                BrowseItem {
                    kind: browse_kind_from_id(bid),
                    id: bid.to_owned(),
                    title,
                    subtitle,
                    thumbnail,
                },
            );
        },
        None => {},
    }
    match list_item_video_id(node) {
        Some(vid) => Some(BrowseItem { kind: "song", id: vid, title, subtitle, thumbnail }),
        None => None,
    }
}

/// The rows among `ns` that read as cards, in order.
pub open spec fn row_cards(ns: Seq<Json>) -> Seq<ItemView>
    decreases ns.len(),
{
    if ns.len() == 0 {
        seq![]
    } else {
        row_cards(ns.drop_last()) + match row_card(ns.last()) {
            Some(x) => seq![x],
            None => seq![],
        }
    }
}

/// Parse a filtered search (albums, artists or playlists) into cards.
pub fn parse_search_cards(root: &Json) -> (r: Vec<BrowseItem>)
    ensures
        items_view(r@) == row_cards(found_all(*root, "musicResponsiveListItemRenderer"@)),
{
    let ns = find_all(root, "musicResponsiveListItemRenderer");
    let ghost d = deref_all(ns@);
    let mut out: Vec<BrowseItem> = Vec::new();
    let mut i: usize = 0;
    assert(d.take(0) == Seq::<Json>::empty());
    assert(items_view(out@) =~= Seq::<ItemView>::empty());
    while i < ns.len()
        invariant
            d == deref_all(ns@),
            0 <= i <= ns@.len(),
            items_view(out@) == row_cards(d.take(i as int)),
        decreases ns.len() - i,
    {
        assert(d.take(i + 1).drop_last() == d.take(i as int));
        assert(d.take(i + 1).last() == *ns@[i as int]);
        match list_item_to_browse_item(ns[i]) {
            Some(x) => {
                proof {
                    lemma_items_push(out@, x);
                }
                out.push(x);
            },
            None => {},
        }
        i += 1;
    }
    assert(d.take(ns@.len() as int) == d);
    out
}

/// Where a top-result card leads: its title's first run's endpoint, else its tap endpoint, else
/// its own navigation endpoint.
pub open spec fn card_nav(card: Json) -> Option<Json> {
    let first_run = match items_of(member_of(member(card, "title"@), "runs"@)) {
        Some(rs) => if rs.len() > 0 {
            member(rs[0], "navigationEndpoint"@)
        } else {
            None
        },
        None => None,
    };
    match first_run {
        Some(n) => Some(n),
        None => match member(card, "onTap"@) {
            Some(n) => Some(n),
            None => member(card, "navigationEndpoint"@),
        },
    }
}

/// The primary match of a top-result card shelf: it needs a title and a target, a song when it
/// plays a video, else whatever its browseId names.
pub open spec fn card_main(card: Json) -> Option<ItemView> {
    match runs_text_of(member(card, "title"@)) {
        None => None,
        Some(title) => {
            let subtitle = runs_text_of(member(card, "subtitle"@));
            let thumbnail = match member(card, "thumbnail"@) {
                Some(t) => last_thumb(t),
                None => None,
            };
            let nav = card_nav(card);
            match watch_id_at(nav) {
                Some(vid) => Some(ItemView { kind: "song"@, id: vid, title, subtitle, thumbnail }),
                None => match browse_id_at(nav) {
                    Some(bid) => Some(
                        ItemView { kind: browse_kind_of(bid), id: bid, title, subtitle, thumbnail },
                    ),
                    None => None,
                },
            }
        },
    }
}

fn card_nav_of(card: &Json) -> (r: Option<&Json>)
    ensures
        deref_opt(r) == card_nav(*card),
{
    let first_run = match array_in(card.get("title"), "runs") {
        Some(rs) => if rs.len() > 0 {
            rs[0].get("navigationEndpoint")
        } else {
            None
        },
        None => None,
    };
    match first_run {
        Some(n) => Some(n),
        None => match card.get("onTap") {
            Some(n) => Some(n),
            None => card.get("navigationEndpoint"),
        },
    }
}

/// The primary match of a top-result card shelf.
pub fn card_shelf_main(card: &Json) -> (r: Option<BrowseItem>)
    ensures
        match r {
            Some(x) => card_main(*card) == Some(x@),
            None => card_main(*card) is None,
        },
{
    let title = match runs_text(card.get("title")) {
        Some(t) => t,
        None => return None,
    };
    let subtitle = runs_text(card.get("subtitle"));
    let thumbnail = match card.get("thumbnail") {
        Some(t) => last_thumbnail(t),
        None => None,
    };
    let nav = card_nav_of(card);
    match watch_id_in(nav) {
        Some(vid) => {
            return Some(BrowseItem { kind: "song", id: vid.to_owned(), title, subtitle, thumbnail });
        },
        None => {},
    }
    match browse_id_in(nav) {
        Some(bid) => Some(
            BrowseItem {
                kind: browse_kind_from_id(bid),
                id: bid.to_owned(),
                title,
                subtitle,
                thumbnail,
            },
        ),
        None => None,
    }
}

/// Categorized search results as values.
pub struct ResultsView {
    pub top: Seq<ItemView>,
    pub songs: Seq<ItemView>,
    pub albums: Seq<ItemView>,
    pub artists: Seq<ItemView>,
    pub playlists: Seq<ItemView>,
}

pub open spec fn results_view(r: SearchResults) -> ResultsView {
    ResultsView {
        top: items_view(r.top@),
        songs: items_view(r.songs@),
        albums: items_view(r.albums@),
        artists: items_view(r.artists@),
        playlists: items_view(r.playlists@),
    }
}

/// The contents of the first section list that has an array of contents.
pub open spec fn first_contents(lists: Seq<Json>) -> Option<Seq<Json>>
    decreases lists.len(),
{
    if lists.len() == 0 {
        None
    } else {
        match items_of(member(lists[0], "contents"@)) {
            Some(c) => Some(c),
            None => first_contents(lists.drop_first()),
        }
    }
}

fn first_contents_of<'a>(lists: &Vec<&'a Json>) -> (r: Option<&'a Vec<Json>>)
    ensures
        match r {
            Some(c) => first_contents(deref_all(lists@)) == Some(c@),
            None => first_contents(deref_all(lists@)) is None,
        },
{
    let ghost d = deref_all(lists@);
    let mut i: usize = 0;
    assert(d.skip(0) == d);
    while i < lists.len()
        invariant
            d == deref_all(lists@),
            0 <= i <= lists@.len(),
            first_contents(d) == first_contents(d.skip(i as int)),
        decreases lists.len() - i,
    {
        assert(d.skip(i as int).drop_first() == d.skip(i + 1));
        assert(d.skip(i as int)[0] == *lists@[i as int]);
        match array_in(Some(lists[i]), "contents") {
            Some(c) => {
                return Some(c);
            },
            None => {},
        }
        i += 1;
    }
    None
}

/// A card put in the bucket of its kind (songs for anything not an album, artist or playlist).
pub open spec fn bucket(r: ResultsView, c: ItemView) -> ResultsView {
    if c.kind == "album"@ {
        ResultsView { albums: r.albums.push(c), ..r }
    } else if c.kind == "artist"@ {
        ResultsView { artists: r.artists.push(c), ..r }
    } else if c.kind == "playlist"@ {
        ResultsView { playlists: r.playlists.push(c), ..r }
    } else {
        ResultsView { songs: r.songs.push(c), ..r }
    }
}

/// The rows `lis` bucketed in order, those that read as cards.
pub open spec fn bucket_rows(r: ResultsView, lis: Seq<Json>) -> ResultsView
    decreases lis.len(),
{
    if lis.len() == 0 {
        r
    } else {
        let acc = bucket_rows(r, lis.drop_last());
        match row_card(lis.last()) {
            Some(c) => bucket(acc, c),
            None => acc,
        }
    }
}

/// The related rows of a top-result card shelf, as cards.
pub open spec fn card_rows(cs: Seq<Json>) -> Seq<ItemView>
    decreases cs.len(),
{
    if cs.len() == 0 {
        seq![]
    } else {
        card_rows(cs.drop_last()) + match member(cs.last(), "musicResponsiveListItemRenderer"@) {
            Some(li) => match row_card(li) {
                Some(c) => seq![c],
                None => seq![],
            },
            None => seq![],
        }
    }
}

/// One entry of the result list: a top-result card shelf adds its match and its related rows
/// to the top results; any other entry buckets its rows by kind.
pub open spec fn search_entry(r: ResultsView, node: Json) -> ResultsView {
    match member(node, "musicCardShelfRenderer"@) {
        Some(card) => {
            let main = match card_main(card) {
                Some(m) => seq![m],
                None => seq![],
            };
            let rows = match items_of(member(card, "contents"@)) {
                Some(cs) => card_rows(cs),
                None => seq![],
            };
            ResultsView { top: r.top + main + rows, ..r }
        },
        None => bucket_rows(r, found_all(node, "musicResponsiveListItemRenderer"@)),
    }
}

/// The result list read in order.
pub open spec fn search_entries(r: ResultsView, ns: Seq<Json>) -> ResultsView
    decreases ns.len(),
{
    if ns.len() == 0 {
        r
    } else {
        search_entry(search_entries(r, ns.drop_last()), ns.last())
    }
}

pub open spec fn no_results() -> ResultsView {
    ResultsView { top: seq![], songs: seq![], albums: seq![], artists: seq![], playlists: seq![] }
}

fn bucket_item(li: &Json, r: &mut SearchResults)
    ensures
        results_view(*final(r)) == match row_card(*li) {
            Some(c) => bucket(results_view(*old(r)), c),
            None => results_view(*old(r)),
        },
{
    let bi = match list_item_to_browse_item(li) {
        Some(b) => b,
        None => return ,
    };
    proof {
        reveal_strlit("album");
        reveal_strlit("artist");
        reveal_strlit("playlist");
    }
    if crate::text::str_eq(bi.kind, "album") {
        proof {
            lemma_items_push(r.albums@, bi);
        }
        r.albums.push(bi);
    } else if crate::text::str_eq(bi.kind, "artist") {
        proof {
            lemma_items_push(r.artists@, bi);
        }
        r.artists.push(bi);
    } else if crate::text::str_eq(bi.kind, "playlist") {
        proof {
            lemma_items_push(r.playlists@, bi);
        }
        r.playlists.push(bi);
    } else {
        proof {
            lemma_items_push(r.songs@, bi);
        }
        r.songs.push(bi);
    }
}

/// Parse an unfiltered search: the result list of the first section list that has one, read
/// in order, each row classified by its own navigation target.
pub fn parse_search_all(root: &Json) -> (r: SearchResults)
    ensures
        results_view(r) == match first_contents(found_all(*root, "sectionListRenderer"@)) {
            Some(cs) => search_entries(no_results(), cs),
            None => no_results(),
        },
{
    let mut r = SearchResults {
        top: Vec::new(),
        songs: Vec::new(),
        albums: Vec::new(),
        artists: Vec::new(),
        playlists: Vec::new(),
    };
    assert(items_view(r.top@) =~= Seq::<ItemView>::empty());
    assert(items_view(r.songs@) =~= Seq::<ItemView>::empty());
    assert(items_view(r.albums@) =~= Seq::<ItemView>::empty());
    assert(items_view(r.artists@) =~= Seq::<ItemView>::empty());
    assert(items_view(r.playlists@) =~= Seq::<ItemView>::empty());
    assert(results_view(r) == no_results());
    let lists = find_all(root, "sectionListRenderer");
    let contents = match first_contents_of(&lists) {
        Some(c) => c,
        None => return r,
    };
    let mut i: usize = 0;
    assert(contents@.take(0) == Seq::<Json>::empty());
    while i < contents.len()
        invariant
            0 <= i <= contents@.len(),
            results_view(r) == search_entries(no_results(), contents@.take(i as int)),
        decreases contents.len() - i,
    {
        assert(contents@.take(i + 1).drop_last() == contents@.take(i as int));
        assert(contents@.take(i + 1).last() == contents@[i as int]);
        let node = &contents[i];
        let ghost prev = results_view(r);
        match node.get("musicCardShelfRenderer") {
            Some(card) => {
                match card_shelf_main(card) {
                    Some(m) => {
                        proof {
                            lemma_items_push(r.top@, m);
                        }
                        r.top.push(m);
                    },
                    None => {},
                }
                let ghost main: Seq<ItemView> = match card_main(*card) {
                    Some(m) => seq![m],
                    None => seq![],
                };
                assert(items_view(r.top@) =~= prev.top + main);
                match array_in(Some(card), "contents") {
                    Some(cs) => {
                        let ghost rb = results_view(r);
                        let mut k: usize = 0;
                        assert(cs@.take(0) == Seq::<Json>::empty());
                        assert(rb.top + card_rows(cs@.take(0)) =~= rb.top);
                        while k < cs.len()
                            invariant
                                0 <= k <= cs@.len(),
                                results_view(r) == (ResultsView {
                                    top: rb.top + card_rows(cs@.take(k as int)),
                                    ..rb
                                }),
                            decreases cs.len() - k,
                        {
                            assert(cs@.take(k + 1).drop_last() == cs@.take(k as int));
                            assert(cs@.take(k + 1).last() == cs@[k as int]);
                            let ghost before = rb.top + card_rows(cs@.take(k as int));
                            match cs[k].get("musicResponsiveListItemRenderer") {
                                Some(li) => match list_item_to_browse_item(li) {
                                    Some(c) => {
                                        proof {
                                            lemma_items_push(r.top@, c);
                                        }
                                        r.top.push(c);
                                        assert(items_view(r.top@) =~= rb.top + card_rows(
                                            cs@.take(k + 1),
                                        ));
                                    },
                                    None => {
                                        assert(items_view(r.top@) =~= rb.top + card_rows(
                                            cs@.take(k + 1),
                                        ));
                                    },
                                },
                                None => {
                                    assert(items_view(r.top@) =~= rb.top + card_rows(
                                        cs@.take(k + 1),
                                    ));
                                },
                            }
                            k += 1;
                        }
                        assert(cs@.take(cs@.len() as int) == cs@);
                        assert(items_view(r.top@) =~= prev.top + main + card_rows(cs@));
                    },
                    None => {
                        assert(items_view(r.top@) =~= prev.top + main + Seq::<ItemView>::empty());
                    },
                }
                assert(results_view(r) == search_entry(prev, contents@[i as int]));
            },
            None => {
                let lis = find_all(node, "musicResponsiveListItemRenderer");
                let ghost d = deref_all(lis@);
                let ghost r0 = results_view(r);
                let mut k: usize = 0;
                assert(d.take(0) == Seq::<Json>::empty());
                while k < lis.len()
                    invariant
                        d == deref_all(lis@),
                        0 <= k <= lis@.len(),
                        results_view(r) == bucket_rows(r0, d.take(k as int)),
                    decreases lis.len() - k,
                {
                    assert(d.take(k + 1).drop_last() == d.take(k as int));
                    assert(d.take(k + 1).last() == *lis@[k as int]);
                    bucket_item(lis[k], &mut r);
                    k += 1;
                }
                assert(d.take(lis@.len() as int) == d);
                assert(results_view(r) == search_entry(prev, contents@[i as int]));
            },
        }
        i += 1;
    }
    assert(contents@.take(contents@.len() as int) == contents@);
    r
}

/// Album rows carry no thumbnail of their own: a row without one shows the album cover.
pub open spec fn with_cover(rows: Seq<SongView>, cover: Option<Seq<char>>) -> Seq<SongView> {
    rows.map_values(
        |x: SongView|
            if x.thumbnail is None {
                SongView { thumbnail: cover, ..x }
            } else {
                x
            },
    )
}

/// Every track of an album page shows a picture when the album has a cover: a row keeps its own
/// thumbnail, and a row without one shows the cover.
pub proof fn law_album_tracks_show_cover(rows: Seq<SongView>, cover: Option<Seq<char>>)
    ensures
        with_cover(rows, cover).len() == rows.len(),
        forall|i: int|
            0 <= i < rows.len() ==> (#[trigger] with_cover(rows, cover)[i]).thumbnail == if rows[i].thumbnail
                is Some {
                rows[i].thumbnail
            } else {
                cover
            },
        forall|i: int|
            0 <= i < rows.len() ==> (#[trigger] with_cover(rows, cover)[i]).video_id == rows[i].video_id,
{
}

/// The first description among description shelves.
pub open spec fn first_description(shelves: Seq<Json>) -> Option<Seq<char>>
    decreases shelves.len(),
{
    if shelves.len() == 0 {
        None
    } else {
        match runs_text_of(member(shelves[0], "description"@)) {
            Some(d) => Some(d),
            None => first_description(shelves.drop_first()),
        }
    }
}

/// The album's own audio playlist id among its track rows: the first row carrying an
/// `OLAK5uy_…` playlist id (other albums' ids sit in card rows, not track rows).
pub open spec fn album_playlist_in(rows: Seq<Json>) -> Option<Seq<char>>
    decreases rows.len(),
{
    if rows.len() == 0 {
        None
    } else {
        match first_with_prefix(found_all(rows[0], "playlistId"@), "OLAK5uy_"@) {
            Some(x) => Some(x),
            None => album_playlist_in(rows.drop_first()),
        }
    }
}

fn first_description_of(shelves: &Vec<&Json>) -> (r: Option<String>)
    ensures
        opt_view(r) == first_description(deref_all(shelves@)),
{
    let ghost d = deref_all(shelves@);
    let mut i: usize = 0;
    assert(d.skip(0) == d);
    while i < shelves.len()
        invariant
            d == deref_all(shelves@),
            0 <= i <= shelves@.len(),
            first_description(d) == first_description(d.skip(i as int)),
        decreases shelves.len() - i,
    {
        assert(d.skip(i as int).drop_first() == d.skip(i + 1));
        assert(d.skip(i as int)[0] == *shelves@[i as int]);
        match runs_text(shelves[i].get("description")) {
            Some(x) => {
                return Some(x);
            },
            None => {},
        }
        i += 1;
    }
    None
}

fn album_playlist_id(rows: &Vec<&Json>) -> (r: Option<String>)
    ensures
        opt_view(r) == album_playlist_in(deref_all(rows@)),
{
    let ghost d = deref_all(rows@);
    let mut i: usize = 0;
    assert(d.skip(0) == d);
    while i < rows.len()
        invariant
            d == deref_all(rows@),
            0 <= i <= rows@.len(),
            album_playlist_in(d) == album_playlist_in(d.skip(i as int)),
        decreases rows.len() - i,
    {
        assert(d.skip(i as int).drop_first() == d.skip(i + 1));
        assert(d.skip(i as int)[0] == *rows@[i as int]);
        let ids = find_all(rows[i], "playlistId");
        match crate::models::metadata::first_prefixed(&ids, "OLAK5uy_") {
            Some(x) => {
                return Some(x);
            },
            None => {},
        }
        i += 1;
    }
    None
}

/// Parse an album page: title, subtitles and description (the header's, else the first
/// description shelf's) from the header; the artist, its channel and avatar from the header's
/// strapline; the cover from the header's own thumbnail; the track rows (those without a
/// thumbnail get the cover); the paging token; the album's audio playlist id.
pub fn parse_album(root: &Json) -> (r: AlbumPage)
    ensures
        ({
            let h = playlist_header_of(*root);
            let strap = member_of(h, "straplineTextOne"@);
            let cover = match member_of(h, "thumbnail"@) {
                Some(t) => last_thumb(t),
                None => None,
            };
            &&& opt_view(r.title) == runs_text_of(member_of(h, "title"@))
            &&& opt_view(r.subtitle) == runs_text_of(member_of(h, "subtitle"@))
            &&& opt_view(r.second_subtitle) == runs_text_of(member_of(h, "secondSubtitle"@))
            &&& opt_view(r.artist) == runs_text_of(strap)
            &&& opt_view(r.artist_id) == match items_of(member_of(strap, "runs"@)) {
                Some(rs) => first_artist(rs),
                None => None,
            }
            &&& opt_view(r.artist_thumbnail) == match member_of(h, "straplineThumbnail"@) {
                Some(t) => last_thumb(t),
                None => None,
            }
            &&& opt_view(r.thumbnail) == cover
            &&& opt_view(r.description) == match runs_text_of(member_of(h, "description"@)) {
                Some(d) => Some(d),
                None => first_description(found_all(*root, "musicDescriptionShelfRenderer"@)),
            }
            &&& songs_view(r.items@) == with_cover(
                song_rows(found_all(*root, "musicResponsiveListItemRenderer"@)),
                cover,
            )
            &&& opt_view(r.continuation) == continuation_of(*root)
            &&& opt_view(r.playlist_id) == album_playlist_in(
                found_all(*root, "musicResponsiveListItemRenderer"@),
            )
        }),
{
    let header = playlist_header(root);
    let title = runs_text(get_in(header, "title"));
    let subtitle = runs_text(get_in(header, "subtitle"));
    let second_subtitle = runs_text(get_in(header, "secondSubtitle"));
    let strapline = get_in(header, "straplineTextOne");
    let artist = runs_text(strapline);
    let artist_id = match array_in(strapline, "runs") {
        Some(rs) => first_artist_id(rs),
        None => None,
    };
    let artist_thumbnail = match get_in(header, "straplineThumbnail") {
        Some(t) => last_thumbnail(t),
        None => None,
    };
    let thumbnail = match get_in(header, "thumbnail") {
        Some(t) => last_thumbnail(t),
        None => None,
    };
    let description = match runs_text(get_in(header, "description")) {
        Some(d) => Some(d),
        None => {
            let shelves = find_all(root, "musicDescriptionShelfRenderer");
            first_description_of(&shelves)
        },
    };
    let rows = find_all(root, "musicResponsiveListItemRenderer");
    let parsed = parse_rows(&rows);
    let ghost pv = songs_view(parsed@);
    let mut items: Vec<SongItem> = Vec::new();
    let mut rest = parsed;
    let ghost mut i: int = 0;
    assert(songs_view(items@) =~= with_cover(pv.take(0), opt_view(thumbnail)));
    while rest.len() > 0
        invariant
            0 <= i <= pv.len(),
            songs_view(rest@) == pv.skip(i),
            rest@.len() == pv.len() - i,
            songs_view(items@) == with_cover(pv.take(i), opt_view(thumbnail)),
        decreases rest.len(),
    {
        let ghost old_rest = rest@;
        let mut it = rest.remove(0);
        assert(it == old_rest[0]);
        assert(songs_view(old_rest)[0] == old_rest[0]@);
        assert(pv.skip(i)[0] == pv[i]);
        assert(it@ == pv[i]);
        assert(rest@ == old_rest.skip(1));
        if it.thumbnail.is_none() {
            it.thumbnail = match &thumbnail {
                Some(t) => Some(t.clone()),
                None => None,
            };
        }
        let ghost before = items@;
        items.push(it);
        proof {
            assert(songs_view(items@) =~= songs_view(before).push(it@));
            assert(pv.take(i + 1) =~= pv.take(i).push(pv[i]));
            assert(with_cover(pv.take(i + 1), opt_view(thumbnail)) =~= with_cover(
                pv.take(i),
                opt_view(thumbnail),
            ).push(it@));
            assert forall|j: int| 0 <= j < rest@.len() implies songs_view(rest@)[j] == pv.skip(
                i + 1,
            )[j] by {
                assert(rest@[j] == old_rest[j + 1]);
                assert(songs_view(old_rest)[j + 1] == old_rest[j + 1]@);
                assert(pv.skip(i)[j + 1] == pv[i + 1 + j]);
            }
            assert(songs_view(rest@) =~= pv.skip(i + 1));
            i = i + 1;
        }
    }
    assert(pv.take(i) == pv);
    AlbumPage {
        title,
        artist,
        artist_id,
        artist_thumbnail,
        subtitle,
        second_subtitle,
        description,
        thumbnail,
        items,
        continuation: continuation_token(root),
        playlist_id: album_playlist_id(&rows),
    }
}

/// A carousel as values: title, cards, "More" browseId and params.
pub type CarouselView = (Seq<char>, Seq<ItemView>, Option<Seq<char>>, Option<Seq<char>>);

/// The views of an artist page's carousels.
pub open spec fn artist_carousels_view(s: Seq<ArtistCarousel>) -> Seq<CarouselView> {
    s.map_values(
        |c: ArtistCarousel|
            (c.title@, items_view(c.items@), opt_view(c.more_browse_id), opt_view(c.more_params)),
    )
}

/// One entry of an artist page's section list: the first list shelf that has songs gives the
/// top songs; every carousel with cards is a section.
pub open spec fn artist_entry(acc: (Seq<SongView>, Seq<CarouselView>), node: Json) -> (
    Seq<SongView>,
    Seq<CarouselView>,
) {
    match member(node, "musicShelfRenderer"@) {
        Some(shelf) => if acc.0.len() == 0 {
            (song_rows(found_all(shelf, "musicResponsiveListItemRenderer"@)), acc.1)
        } else {
            acc
        },
        None => match member(node, "musicCarouselShelfRenderer"@) {
            Some(c) => match carousel_of(c) {
                Some(x) => (acc.0, acc.1.push(x)),
                None => acc,
            },
            None => acc,
        },
    }
}

/// An artist page's section list read in order.
pub open spec fn artist_entries(ns: Seq<Json>) -> (Seq<SongView>, Seq<CarouselView>)
    decreases ns.len(),
{
    if ns.len() == 0 {
        (seq![], seq![])
    } else {
        artist_entry(artist_entries(ns.drop_last()), ns.last())
    }
}

/// The header of an artist page: the immersive header, else the plain one.
pub open spec fn artist_header_of(root: Json) -> Option<Json> {
    match first_found(root, "musicImmersiveHeaderRenderer"@) {
        Some(h) => Some(h),
        None => first_found(root, "musicHeaderRenderer"@),
    }
}

/// The subscribe button of an artist page's header.
pub open spec fn subscribe_button_of(root: Json) -> Option<Json> {
    match artist_header_of(root) {
        Some(h) => first_found(h, "subscribeButtonRenderer"@),
        None => None,
    }
}

/// Parse an artist page. `browse_id` is the subscribe target when the button names no channel
/// (an artist's browseId is its channel id).
pub fn parse_artist(root: &Json, browse_id: &str) -> (r: ArtistPage)
    ensures
        ({
            let h = artist_header_of(*root);
            let sub = subscribe_button_of(*root);
            let own = match member_of(h, "thumbnail"@) {
                Some(t) => last_thumb(t),
                None => None,
            };
            let page = match first_contents(found_all(*root, "sectionListRenderer"@)) {
                Some(cs) => artist_entries(cs),
                None => (seq![], seq![]),
            };
            &&& opt_view(r.name) == runs_text_of(member_of(h, "title"@))
            &&& opt_view(r.description) == runs_text_of(member_of(h, "description"@))
            &&& opt_view(r.thumbnail) == match own {
                Some(x) => Some(x),
                None => match h {
                    Some(hh) => last_thumb(hh),
                    None => None,
                },
            }
            &&& r.channel_id@ == match str_of(member_of(sub, "channelId"@)) {
                Some(c) => c,
                None => browse_id@,
            }
            &&& r.subscribed == match member_of(sub, "subscribed"@) {
                Some(Json::Bool(b)) => b,
                _ => false,
            }
            &&& opt_view(r.subscribers) == match text_or_runs_of(
                member_of(sub, "subscriberCountText"@),
            ) {
                Some(x) => Some(x),
                None => text_or_runs_of(member_of(sub, "longSubscriberCountText"@)),
            }
            &&& songs_view(r.top_songs@) == page.0
            &&& artist_carousels_view(r.sections@) == page.1
        }),
{
    let header = match find_first(root, "musicImmersiveHeaderRenderer") {
        Some(h) => Some(h),
        None => find_first(root, "musicHeaderRenderer"),
    };
    let name = runs_text(get_in(header, "title"));
    let description = runs_text(get_in(header, "description"));
    let own = match get_in(header, "thumbnail") {
        Some(t) => last_thumbnail(t),
        None => None,
    };
    let thumbnail = match own {
        Some(x) => Some(x),
        None => match header {
            Some(h) => last_thumbnail(h),
            None => None,
        },
    };
    let sub = match header {
        Some(h) => find_first(h, "subscribeButtonRenderer"),
        None => None,
    };
    let channel_id = match str_in(sub, "channelId") {
        Some(c) => c.to_owned(),
        None => browse_id.to_owned(),
    };
    let subscribed = match get_in(sub, "subscribed") {
        Some(Json::Bool(b)) => *b,
        _ => false,
    };
    let subscribers = match text_or_runs(get_in(sub, "subscriberCountText")) {
        Some(x) => Some(x),
        None => text_or_runs(get_in(sub, "longSubscriberCountText")),
    };
    let mut top_songs: Vec<SongItem> = Vec::new();
    let mut sections: Vec<ArtistCarousel> = Vec::new();
    assert(songs_view(top_songs@) =~= Seq::<SongView>::empty());
    assert(artist_carousels_view(sections@) =~= Seq::<CarouselView>::empty());
    let lists = find_all(root, "sectionListRenderer");
    match first_contents_of(&lists) {
        Some(contents) => {
            let mut i: usize = 0;
            assert(contents@.take(0) == Seq::<Json>::empty());
            while i < contents.len()
                invariant
                    0 <= i <= contents@.len(),
                    (songs_view(top_songs@), artist_carousels_view(sections@)) == artist_entries(
                        contents@.take(i as int),
                    ),
                decreases contents.len() - i,
            {
                assert(contents@.take(i + 1).drop_last() == contents@.take(i as int));
                assert(contents@.take(i + 1).last() == contents@[i as int]);
                let node = &contents[i];
                match node.get("musicShelfRenderer") {
                    Some(shelf) => {
                        if top_songs.len() == 0 {
                            let rows = find_all(shelf, "musicResponsiveListItemRenderer");
                            top_songs = parse_rows(&rows);
                        }
                    },
                    None => match node.get("musicCarouselShelfRenderer") {
                        Some(c) => match parse_artist_carousel(c) {
                            Some(sec) => {
                                let ghost before = sections@;
                                sections.push(sec);
                                assert(artist_carousels_view(sections@) =~= artist_carousels_view(
                                    before,
                                ).push(
                                    (
                                        sec.title@,
                                        items_view(sec.items@),
                                        opt_view(sec.more_browse_id),
                                        opt_view(sec.more_params),
                                    ),
                                ));
                            },
                            None => {},
                        },
                        None => {},
                    },
                }
                i += 1;
            }
            assert(contents@.take(contents@.len() as int) == contents@);
        },
        None => {},
    }
    ArtistPage {
        name,
        thumbnail,
        description,
        subscribers,
        channel_id,
        subscribed,
        top_songs,
        sections,
    }
}

} // verus!
