use limusic::cipher::config::{ConfigState, ConfigTable, PlayerConfig};
use limusic::clients::{Clients, YouTubeClient};
use limusic::hotkeys::{HotkeyAction, VolumeMemory};
use limusic::models::player::{find_format, AudioQuality, Format, StreamingData};
use limusic::potoken::new_session_token;
use limusic::queue::{format_duration, parse_duration_ms};
use limusic::romanize::script::dominant_script;
use limusic::transport::Session;
use limusic::videoproxy::{route, url_for, Endpoint};
use limusic::romanize::line::cjk_runs;
use limusic::orchestrator::{cacheable, from_cache, CachedStream};
use limusic::queue::{drifted, join_seek_ms, live_position_ms};
use limusic::queue::{history_enabled, radio_playlist_id};
use limusic::endpoints::check_browse;
use limusic::models::json::Json;

fn client(ua: &str) -> YouTubeClient {
    YouTubeClient {
        client_name: "C".into(),
        client_version: "1".into(),
        client_id: "1".into(),
        user_agent: ua.into(),
        os_name: None,
        os_version: None,
        device_make: None,
        device_model: None,
        android_sdk_version: None,
        build_id: None,
        cronet_version: None,
        package_name: None,
        friendly_name: None,
        login_supported: false,
        login_required: false,
        use_signature_timestamp: false,
        is_embedded: false,
        use_web_po_tokens: false,
    }
}

fn cfg(hash: &str, sts: i32) -> PlayerConfig {
    PlayerConfig { hash: hash.into(), sts: Some(sts), sig_fn: None, n_fn: None }
}

fn audio(itag: i32, q: &str, bitrate: i64) -> Format {
    Format {
        itag,
        url: Some(format!("https://a/{itag}")),
        mime_type: "audio/webm; codecs=\"opus\"".into(),
        bitrate,
        width: None,
        height: None,
        content_length: None,
        audio_quality: Some(q.into()),
        approx_duration_ms: None,
        audio_channels: None,
        signature_cipher: None,
        cipher: None,
        audio_track: None,
    }
}

#[test]
fn proxy_url_routes_back_to_its_video() {
    let ep = Endpoint { port: 41234, token: "0123456789abcdef0123456789abcdef".into() };
    let url = url_for(Some(&ep), "dQw4w9WgXcQ").unwrap();
    let path = url.strip_prefix("http://127.0.0.1:41234").unwrap();
    assert_eq!(route("GET", Some(ep.token.as_str()), path), Ok("dQw4w9WgXcQ"));
    assert!(route("GET", Some("ffffffffffffffffffffffffffffffff"), path).is_err());
}

#[test]
fn duration_survives_a_round_trip_to_the_second() {
    assert_eq!(format_duration(185_432), "3:05");
    assert_eq!(parse_duration_ms(Some(&format_duration(185_432))), 185_000);
    assert_eq!(parse_duration_ms(Some(&format_duration(3_723_999))), 3_723_000);
}

#[test]
fn fresh_session_token_is_served_until_expiry() {
    let t = new_session_token("visitor", "pot".into(), 43_200, 1_000);
    assert_eq!(t.expires_at, 1_000 + 43_200 - 600);
    assert!(t.valid_for("visitor", 1_000));
    assert!(t.valid_for("visitor", t.expires_at - 1));
    assert!(!t.valid_for("visitor", t.expires_at));
    assert!(!t.valid_for("other", 1_000));
}

#[test]
fn later_registry_entry_wins() {
    let reg = Clients::from_entries(vec![("IOS".into(), client("old")), ("IOS".into(), client("new"))]);
    assert_eq!(reg.get("IOS").unwrap().user_agent, "new");
    assert!(reg.get("WEB").is_none());
}

#[test]
fn same_remote_table_changes_the_store_once() {
    let mut st = ConfigState::new(ConfigTable::from_list(vec![cfg("x", 1)]));
    let fetched = || ConfigTable::from_list(vec![cfg("x", 2), cfg("y", 3)]);
    assert!(st.apply_fetched(fetched()));
    assert_eq!(st.config_epoch(), 1);
    assert!(!st.apply_fetched(fetched()));
    assert_eq!(st.config_epoch(), 1);
    assert_eq!(st.get("x").unwrap().sts, Some(2));
}

#[test]
fn self_heal_refreshes_wait_for_the_cooldown() {
    let mut st = ConfigState::new(ConfigTable::new());
    assert!(st.begin_rejection_refresh(1_000));
    assert!(!st.begin_rejection_refresh(1_000 + 299_999));
    assert!(st.begin_rejection_refresh(1_000 + 300_000));
}

#[test]
fn mute_twice_restores_the_level() {
    let mut v = VolumeMemory::new();
    let t1 = v.target(HotkeyAction::MuteToggle, 37).unwrap();
    let l1 = v.commit(t1);
    let t2 = v.target(HotkeyAction::MuteToggle, l1).unwrap();
    assert_eq!((l1, v.commit(t2)), (0, 37));
}

#[test]
fn dominant_script_needs_a_romanized_character() {
    assert_eq!(dominant_script("plain english, 123"), None);
    assert_eq!(dominant_script("привет, world"), Some("cyrl"));
    assert_eq!(dominant_script("안녕"), Some("ko"));
}

#[test]
fn auto_quality_picks_as_high_does() {
    let data = StreamingData {
        formats: None,
        adaptive_formats: vec![audio(140, "AUDIO_QUALITY_MEDIUM", 130_000), audio(251, "AUDIO_QUALITY_HIGH", 160_000), audio(250, "AUDIO_QUALITY_LOW", 70_000)],
        expires_in_seconds: Some(1),
    };
    let high = find_format(&data, AudioQuality::High).unwrap().itag;
    assert_eq!(high, 251);
    assert_eq!(find_format(&data, AudioQuality::Auto).unwrap().itag, high);
    assert_eq!(find_format(&data, AudioQuality::Low).unwrap().itag, 250);
}

#[test]
fn max_age_zero_removes_every_cookie_of_that_name() {
    let mut s = Session::new();
    s.cookie = Some("SAPISID=a; T=1; X=2; T=3".into());
    s.merge_set_cookies(&["T=gone; Max-Age=0".to_owned()], Some("a"));
    assert_eq!(s.cookie.as_deref(), Some("SAPISID=a; X=2"));
    s.merge_set_cookies(&["X=9".to_owned()], Some("a"));
    assert_eq!(s.cookie.as_deref(), Some("SAPISID=a; X=9"));
    s.merge_set_cookies(&["X=10".to_owned()], Some("b"));
    assert_eq!(s.cookie.as_deref(), Some("SAPISID=a; X=9"), "another identity's response is not merged");
}

#[test]
fn kanji_and_kana_runs_are_listed_for_the_analyser() {
    assert_eq!(cjk_runs("君の名は Your Name 夢"), vec!["君の名は".to_owned(), "夢".to_owned()]);
    assert!(cjk_runs("plain").is_empty());
}

#[test]
fn cache_hits_and_what_is_cached() {
    let r = from_cache("vid", CachedStream { url: "https://c/1".into(), itag: 251, expires_at: 1_000 }, 400);
    assert_eq!(r.expires_in_seconds, 600);
    assert_eq!(r.stream_client, "cache");
    assert!(r.playback_url.is_none() && r.title.is_none());
    assert!(cacheable("IOS"));
    assert!(!cacheable("rustypipe"));
}

#[test]
fn listen_together_positions() {
    assert_eq!(live_position_ms(10_000, 5_000, 5_300), 10_300);
    assert_eq!(live_position_ms(10_000, 5_000, 4_000), 10_000, "clock skew never moves back");
    assert_eq!(live_position_ms(10_000, 0, 99_999), 10_000);
    assert!(!drifted(10_000, 12_000));
    assert!(drifted(10_000, 12_001));
    assert_eq!(join_seek_ms(400, 200, true), Some(600));
    assert_eq!(join_seek_ms(400, 200, false), None);
}

#[test]
fn radio_and_history_settings() {
    assert_eq!(radio_playlist_id("abc"), "RDAMVMabc");
    assert!(history_enabled(None));
    assert!(history_enabled(Some("true")));
    assert!(!history_enabled(Some("false")));
}

#[test]
fn signed_out_browse_is_a_stale_session() {
    let signed_out = Json::Object(vec![("signInEndpoint".into(), Json::Object(vec![]))]);
    assert!(matches!(check_browse(true, &signed_out), Err(limusic::transport::Error::SessionExpired)));
    assert!(check_browse(false, &signed_out).is_ok());
    assert!(check_browse(true, &Json::Object(vec![])).is_ok());
}
