use limusic::clients::{Clients, YouTubeClient, MAIN_CLIENT, STREAM_FALLBACK_ORDER};
use limusic::endpoints::{
    api_url, continuation_path, like_path, search_filter, strip_vl, subscription_path, FILTER_ALBUM,
};
use limusic::models::browse::browse_kind_from_id;
use limusic::models::metadata::{split_datasync_id, split_subtitle};
use limusic::models::player::{find_format, AudioQuality, Format, PlayabilityStatus, StreamingData};
use limusic::endpoints::{edit_action_name, PlaylistEdit};

#[test]
fn strips_vl_prefix() {
    assert_eq!(strip_vl("VLPL123"), "PL123");
    assert_eq!(strip_vl("PL123"), "PL123");
}

#[test]
fn splits_datasync_id() {
    assert_eq!(split_datasync_id("realid||other"), "realid");
    assert_eq!(split_datasync_id("||fallback"), "fallback");
    assert_eq!(split_datasync_id("plain"), "plain");
}

#[test]
fn browse_ids_classify() {
    assert_eq!(browse_kind_from_id("MPREb_x"), "album");
    assert_eq!(browse_kind_from_id("VLMPREb_x"), "album");
    assert_eq!(browse_kind_from_id("UCabc"), "artist");
    assert_eq!(browse_kind_from_id("VLPL1"), "playlist");
}

#[test]
fn subtitle_splits_into_artist_album_duration() {
    let runs: Vec<String> = vec!["The Artist".into(), " • ".into(), "The Album".into(), " • ".into(), "3:21".into()];
    let (a, al, d) = split_subtitle(Some(&runs));
    assert_eq!(a, "The Artist");
    assert_eq!(al.as_deref(), Some("The Album"));
    assert_eq!(d.as_deref(), Some("3:21"));
    let runs: Vec<String> = vec!["A".into(), " & ".into(), "B".into(), " • ".into(), "4:05".into()];
    let (a, al, d) = split_subtitle(Some(&runs));
    assert_eq!(a, "A & B");
    assert_eq!(al, None, "the second group is the duration, not an album");
    assert_eq!(d.as_deref(), Some("4:05"));
    assert_eq!(split_subtitle(None), (String::new(), None, None));
}

#[test]
fn endpoint_paths() {
    assert_eq!(search_filter("albums"), Some(FILTER_ALBUM));
    assert_eq!(search_filter("songs"), None);
    assert_eq!(like_path(true), "like/like");
    assert_eq!(like_path(false), "like/removelike");
    assert_eq!(subscription_path(false), "subscription/unsubscribe");
    assert_eq!(continuation_path("a b"), "browse?ctoken=a%20b&continuation=a%20b&type=next");
    assert_eq!(api_url("player"), "https://music.youtube.com/youtubei/v1/player?prettyPrint=false");
    assert_eq!(api_url("browse?x=1"), "https://music.youtube.com/youtubei/v1/browse?x=1&prettyPrint=false");
}

fn client(name: &str, id: &str) -> YouTubeClient {
    YouTubeClient {
        client_name: name.into(),
        client_version: "1".into(),
        client_id: id.into(),
        user_agent: "ua".into(),
        os_name: None,
        os_version: None,
        device_make: None,
        device_model: None,
        android_sdk_version: None,
        build_id: None,
        cronet_version: None,
        package_name: None,
        friendly_name: None,
        login_supported: false,
        login_required: false,
        use_signature_timestamp: false,
        is_embedded: false,
        use_web_po_tokens: false,
    }
}

#[test]
fn registry_lookup_later_entry_wins() {
    let c = Clients::from_entries(vec![
        ("WEB_REMIX".into(), client("WEB_REMIX", "67")),
        ("IOS".into(), client("IOS", "5")),
        ("IOS".into(), client("IOS", "6")),
    ]);
    assert_eq!(c.get(MAIN_CLIENT).unwrap().client_id, "67");
    assert_eq!(c.get("IOS").unwrap().client_id, "6");
    assert!(c.get(STREAM_FALLBACK_ORDER[0]).is_none());
}

#[test]
fn playability() {
    let ok = PlayabilityStatus { status: "OK".into(), reason: None };
    let gated = PlayabilityStatus { status: "LOGIN_REQUIRED".into(), reason: None };
    assert!(ok.is_ok() && !ok.is_age_gated());
    assert!(!gated.is_ok() && gated.is_age_gated());
}

fn fmt(itag: i32, mime: &str, bitrate: i64, q: Option<&str>, width: Option<i32>) -> Format {
    Format {
        itag,
        url: Some(format!("https://x/{itag}")),
        mime_type: mime.into(),
        bitrate,
        width,
        height: None,
        content_length: None,
        audio_quality: q.map(Into::into),
        approx_duration_ms: None,
        audio_channels: None,
        signature_cipher: None,
        cipher: None,
        audio_track: None,
    }
}

#[test]
fn best_format_by_quality() {
    let sd = StreamingData {
        formats: None,
        adaptive_formats: vec![
            fmt(137, "video/mp4", 4_000_000, None, Some(1920)),
            fmt(140, "audio/mp4; codecs=\"mp4a.40.2\"", 130_000, Some("AUDIO_QUALITY_MEDIUM"), None),
            fmt(251, "audio/webm; codecs=\"opus\"", 141_210, Some("AUDIO_QUALITY_MEDIUM"), None),
            fmt(249, "audio/webm; codecs=\"opus\"", 50_000, Some("AUDIO_QUALITY_LOW"), None),
        ],
        expires_in_seconds: Some(21540),
    };
    assert_eq!(find_format(&sd, AudioQuality::High).unwrap().itag, 251, "opus beats mp4a at equal rank");
    assert_eq!(find_format(&sd, AudioQuality::Auto).unwrap().itag, 251);
    assert_eq!(find_format(&sd, AudioQuality::Low).unwrap().itag, 249, "the only one under the cap");
    let video_only = StreamingData { formats: None, adaptive_formats: vec![fmt(137, "video/mp4", 1, None, Some(1))], expires_in_seconds: None };
    assert!(find_format(&video_only, AudioQuality::High).is_none());
}

#[test]
fn direct_url_only_without_cipher() {
    let mut f = fmt(251, "audio/webm", 1, None, None);
    assert_eq!(f.direct_url(), Some("https://x/251"));
    f.signature_cipher = Some("s=1".into());
    assert_eq!(f.direct_url(), None);
}

#[test]
fn playlist_edits_name_their_action() {
    assert_eq!(edit_action_name(&PlaylistEdit::Add { video_id: "v".into() }), "ACTION_ADD_VIDEO");
    assert_eq!(
        edit_action_name(&PlaylistEdit::Remove { video_id: "v".into(), set_video_id: "s".into() }),
        "ACTION_REMOVE_VIDEO"
    );
    assert_eq!(edit_action_name(&PlaylistEdit::Rename { name: "n".into() }), "ACTION_SET_PLAYLIST_NAME");
}
