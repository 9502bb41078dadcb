//! What the endpoint facade sends: request paths, search filters and the `/player` body. The
//! requests themselves go out from outside the library.

use vstd::prelude::*;
use vstd::string::StrSliceExecFns;

use crate::codec::{encode, url_encode};
use crate::models::browse::{is_signed_out, starts_with_text};
use crate::models::json::{find_first_str, first_str, found_all, Json};
use crate::transport::Error;
use crate::models::context::Context;
use crate::models::player::{
    ContentPlaybackContext, PlaybackContext, PlayerBody, ServiceIntegrityDimensions,
};
use crate::text::{opt_str_view, opt_view, push_text, starts_with, str_eq, string_of};

verus! {

/// Search filter params (opaque base64).
pub const FILTER_SONG: &'static str = "EgWKAQIIAWoKEAkQBRAKEAMQBA%3D%3D";

pub const FILTER_ALBUM: &'static str = "EgWKAQIYAWoKEAkQChAFEAMQBA%3D%3D";

pub const FILTER_ARTIST: &'static str = "EgWKAQIgAWoKEAkQChAFEAMQBA%3D%3D";

pub const FILTER_COMMUNITY_PLAYLIST: &'static str = "EgeKAQQoAEABagoQAxAEEAoQCRAF";

/// The raw playlist id playlist edits want: a browse `VL` prefix removed.
pub open spec fn stripped_vl(id: Seq<char>) -> Seq<char> {
    if starts_with(id, "VL"@) {
        id.skip(2)
    } else {
        id
    }
}

/// Playlist edit and delete want the raw playlistId; browse gives it `VL`-prefixed.
pub fn strip_vl(id: &str) -> (r: &str)
    ensures
        r@ == stripped_vl(id@),
{
    if starts_with_text(id, "VL") {
        proof {
            reveal_strlit("VL");
        }
        id.substring_char(2, id.unicode_len())
    } else {
        id
    }
}

/// The filter of a "Show more" card search: albums, artists or playlists; `None` for any other
/// category, which the facade reports as an unknown category.
pub fn search_filter(category: &str) -> (r: Option<&'static str>)
    ensures
        category@ == "albums"@ ==> r == Some(FILTER_ALBUM),
        category@ == "artists"@ ==> r == Some(FILTER_ARTIST),
        category@ == "playlists"@ ==> r == Some(FILTER_COMMUNITY_PLAYLIST),
        !(category@ == "albums"@ || category@ == "artists"@ || category@ == "playlists"@) ==> r
            is None,
{
    proof {
        reveal_strlit("albums");
        reveal_strlit("artists");
        reveal_strlit("playlists");
        assert("albums"@.len() == 6 && "artists"@.len() == 7 && "playlists"@.len() == 9);
    }
    if str_eq(category, "albums") {
        Some(FILTER_ALBUM)
    } else if str_eq(category, "artists") {
        Some(FILTER_ARTIST)
    } else if str_eq(category, "playlists") {
        Some(FILTER_COMMUNITY_PLAYLIST)
    } else {
        None
    }
}

/// `like/like` to like a video, `like/removelike` to take the like back.
pub fn like_path(liked: bool) -> (r: &'static str)
    ensures
        r@ == if liked {
            "like/like"@
        } else {
            "like/removelike"@
        },
{
    if liked {
        "like/like"
    } else {
        "like/removelike"
    }
}

/// One change to a playlist: add a video, remove one (with the playlist item's own id), or
/// rename the playlist.
#[derive(Debug, Clone)]
pub enum PlaylistEdit {
    Add { video_id: String },
    Remove { video_id: String, set_video_id: String },
    Rename { name: String },
}

/// The `action` InnerTube's `browse/edit_playlist` takes for an edit.
pub fn edit_action_name(edit: &PlaylistEdit) -> (r: &'static str)
    ensures
        r@ == match edit {
            PlaylistEdit::Add { .. } => "ACTION_ADD_VIDEO"@,
            PlaylistEdit::Remove { .. } => "ACTION_REMOVE_VIDEO"@,
            PlaylistEdit::Rename { .. } => "ACTION_SET_PLAYLIST_NAME"@,
        },
{
    match edit {
        PlaylistEdit::Add { .. } => "ACTION_ADD_VIDEO",
        PlaylistEdit::Remove { .. } => "ACTION_REMOVE_VIDEO",
        PlaylistEdit::Rename { .. } => "ACTION_SET_PLAYLIST_NAME",
    }
}

/// Where playlist edits go.
pub const EDIT_PLAYLIST_PATH: &'static str = "browse/edit_playlist";

/// Where a new playlist is created, and the privacy it is created with.
pub const CREATE_PLAYLIST_PATH: &'static str = "playlist/create";
pub const NEW_PLAYLIST_PRIVACY: &'static str = "PRIVATE";

/// Where a playlist is deleted.
pub const DELETE_PLAYLIST_PATH: &'static str = "playlist/delete";

/// `subscription/subscribe` or `subscription/unsubscribe`.
pub fn subscription_path(subscribed: bool) -> (r: &'static str)
    ensures
        r@ == if subscribed {
            "subscription/subscribe"@
        } else {
            "subscription/unsubscribe"@
        },
{
    if subscribed {
        "subscription/subscribe"
    } else {
        "subscription/unsubscribe"
    }
}

/// The browse path that fetches the next page of a playlist: the token goes in the query,
/// percent-encoded, twice.
pub open spec fn continuation_path_text(token: Seq<char>) -> Seq<char> {
    "browse?ctoken="@ + url_encode(token) + "&continuation="@ + url_encode(token) + "&type=next"@
}

/// The path of a playlist continuation request.
pub fn continuation_path(token: &str) -> (r: String)
    ensures
        r@ == continuation_path_text(token@),
{
    let enc = encode(token);
    let mut out: Vec<char> = Vec::new();
    push_text(&mut out, "browse?ctoken=");
    push_text(&mut out, enc.as_str());
    push_text(&mut out, "&continuation=");
    push_text(&mut out, enc.as_str());
    push_text(&mut out, "&type=next");
    string_of(out.as_slice())
}

/// The URL of a path under the InnerTube API: `?prettyPrint=false`, or `&prettyPrint=false`
/// when the path already carries a query.
pub open spec fn api_url_text(path: Seq<char>) -> Seq<char> {
    "https://music.youtube.com/youtubei/v1/"@ + path + if crate::text::contains_char(path, '?') {
        "&prettyPrint=false"@
    } else {
        "?prettyPrint=false"@
    }
}

/// The InnerTube URL a request for `path` goes to.
pub fn api_url(path: &str) -> (r: String)
    ensures
        r@ == api_url_text(path@),
{
    let v = crate::text::chars_of(path);
    let q = crate::text::has_char(v.as_slice(), 0, v.len(), '?');
    assert(v@.subrange(0, v@.len() as int) == path@);
    let mut out: Vec<char> = Vec::new();
    push_text(&mut out, "https://music.youtube.com/youtubei/v1/");
    push_text(&mut out, path);
    if q {
        push_text(&mut out, "&prettyPrint=false");
    } else {
        push_text(&mut out, "?prettyPrint=false");
    }
    string_of(out.as_slice())
}

/// The embedding page an embedded client claims.
pub open spec fn embed_url_text(video_id: Seq<char>) -> Seq<char> {
    "https://www.youtube.com/watch?v="@ + video_id
}

/// The `/player` request body for one client: the embedding page filled in for an embedded
/// client, the signature timestamp sent when known (ciphered clients need it), the PoToken when
/// there is one (web clients need it), and both content checks acknowledged.
pub fn player_body(
    context: Context,
    video_id: &str,
    playlist_id: Option<&str>,
    sts: Option<i32>,
    po_token: Option<&str>,
) -> (r: PlayerBody)
    ensures
        r.video_id@ == video_id@,
        opt_view(r.playlist_id) == opt_str_view(playlist_id),
        match sts {
            Some(s) => r.playback_context matches Some(p) && p.content_playback_context.signature_timestamp == s,
            None => r.playback_context is None,
        },
        match po_token {
            Some(t) => r.service_integrity_dimensions matches Some(d) && d.po_token@ == t@,
            None => r.service_integrity_dimensions is None,
        },
        r.content_check_ok && r.racy_check_ok,
        r.context.client == context.client,
        r.context.user == context.user,
        r.context.third_party is Some <==> context.third_party is Some,
        r.context.third_party matches Some(t) ==> t.embed_url@ == embed_url_text(video_id@),
{
    let mut context = context;
    if context.third_party.is_some() {
        let mut u: Vec<char> = Vec::new();
        push_text(&mut u, "https://www.youtube.com/watch?v=");
        push_text(&mut u, video_id);
        context.third_party = Some(crate::models::context::ThirdParty {
            embed_url: string_of(u.as_slice()),
        });
    }
    PlayerBody {
        context,
        video_id: video_id.to_owned(),
        playlist_id: match playlist_id {
            Some(p) => Some(p.to_owned()),
            None => None,
        },
        playback_context: match sts {
            Some(s) => Some(
                PlaybackContext {
                    content_playback_context: ContentPlaybackContext { signature_timestamp: s },
                },
            ),
            None => None,
        },
        service_integrity_dimensions: match po_token {
            Some(t) => Some(ServiceIntegrityDimensions { po_token: t.to_owned() }),
            None => None,
        },
        content_check_ok: true,
        racy_check_ok: true,
    }
}

/// A browse response as the endpoints take it: signed in, a response carrying a sign-in
/// endpoint is the signed-out state of a stale cookie, `SessionExpired`; anything else passes.
pub fn check_browse(logged_in: bool, value: &Json) -> (r: Result<(), Error>)
    ensures
        match r {
            Ok(()) => !(logged_in && found_all(*value, "signInEndpoint"@).len() > 0),
            Err(e) => logged_in && found_all(*value, "signInEndpoint"@).len() > 0
                && e is SessionExpired,
        },
{
    if logged_in && is_signed_out(value) {
        return Err(Error::SessionExpired);
    }
    Ok(())
}

/// The id of a playlist just created: the first `playlistId` string of the response.
pub fn created_playlist_id(value: &Json) -> (r: Result<String, Error>)
    ensures
        match r {
            Ok(id) => first_str(*value, "playlistId"@) == Some(id@),
            Err(e) => first_str(*value, "playlistId"@) is None && (e matches Error::Other(m) && m@
                == "create_playlist: no playlistId in response"@),
        },
{
    match find_first_str(value, "playlistId") {
        Some(id) => Ok(id),
        None => Err(Error::Other(String::from_str("create_playlist: no playlistId in response"))),
    }
}

} // verus!
