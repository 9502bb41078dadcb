use limusic::clients::{Clients, YouTubeClient};
use limusic::models::player::{
    AudioQuality, Format, PlayabilityStatus, PlayerResponse, StreamingData, VideoDetails,
};
use limusic::orchestrator::{append_pot, better, is_high, Action, Event, Resolver, ResolveError};

fn client(name: &str, ua: &str) -> YouTubeClient {
    YouTubeClient {
        client_name: name.into(),
        client_version: "1".into(),
        client_id: "1".into(),
        user_agent: ua.into(),
        os_name: None,
        os_version: None,
        device_make: None,
        device_model: None,
        android_sdk_version: None,
        build_id: None,
        cronet_version: None,
        package_name: None,
        friendly_name: None,
        login_supported: false,
        login_required: false,
        use_signature_timestamp: false,
        is_embedded: false,
        use_web_po_tokens: false,
    }
}

fn registry() -> Clients {
    Clients::from_entries(
        ["WEB_REMIX", "VISIONOS", "ANDROID_VR_1_43_32", "IOS"]
            .iter()
            .map(|k| (k.to_string(), client(k, &format!("ua-{k}"))))
            .collect(),
    )
}

fn format(itag: i32, q: &str, url: &str) -> Format {
    Format {
        itag,
        url: Some(url.into()),
        mime_type: "audio/webm; codecs=\"opus\"".into(),
        bitrate: 128_000,
        width: None,
        height: None,
        content_length: None,
        audio_quality: Some(q.into()),
        approx_duration_ms: None,
        audio_channels: None,
        signature_cipher: None,
        cipher: None,
        audio_track: None,
    }
}

fn response(status: &str, formats: Vec<Format>) -> PlayerResponse {
    PlayerResponse {
        playability_status: PlayabilityStatus { status: status.into(), reason: None },
        streaming_data: Some(StreamingData { formats: None, adaptive_formats: formats, expires_in_seconds: Some(21540) }),
        video_details: Some(VideoDetails {
            video_id: "vid".into(),
            title: Some("Title".into()),
            author: Some("Artist".into()),
            length_seconds: Some("201".into()),
            music_video_type: None,
            thumbnail: None,
        }),
        playback_tracking: None,
    }
}

#[test]
fn main_client_stream_is_taken_without_validation() {
    let mut r = Resolver::new("vid".into(), AudioQuality::High, false, None, vec![], false, registry());
    assert!(matches!(r.step(Event::Begin), Action::FetchSts));
    match r.step(Event::Sts(Some(20632))) {
        Action::Player { client, sts, po_token } => {
            assert_eq!(client, "WEB_REMIX");
            assert_eq!(sts, Some(20632));
            assert_eq!(po_token, None);
        }
        other => panic!("{other:?}"),
    }
    let main = response("OK", vec![format(251, "AUDIO_QUALITY_HIGH", "https://g/1?x=1")]);
    let url = match r.step(Event::Player(Some(main))) {
        Action::TransformN { url } => url,
        other => panic!("{other:?}"),
    };
    assert_eq!(url, "https://g/1?x=1");
    match r.step(Event::Transformed("https://g/1?x=2".into())) {
        Action::Done(d) => {
            assert_eq!(d.stream_client, "WEB_REMIX");
            assert_eq!(d.stream_url, "https://g/1?x=2");
            assert_eq!(d.itag, 251);
            assert_eq!(d.title.as_deref(), Some("Title"));
            assert_eq!(d.user_agent.as_deref(), Some("ua-WEB_REMIX"));
        }
        other => panic!("{other:?}"),
    }
}

#[test]
fn fallback_clients_are_validated_except_the_last() {
    let mut r = Resolver::new("vid".into(), AudioQuality::High, false, None, vec!["WEB_REMIX".into()], false, registry());
    r.step(Event::Begin);
    // The main client is off: its request is skipped and the loop starts at VISIONOS.
    match r.step(Event::Sts(None)) {
        Action::Player { client, .. } => assert_eq!(client, "VISIONOS"),
        other => panic!("{other:?}"),
    }
    match r.step(Event::Player(Some(response("OK", vec![format(251, "AUDIO_QUALITY_HIGH", "https://v/1")])))) {
        Action::Validate { url, user_agent } => {
            assert_eq!(url, "https://v/1");
            assert_eq!(user_agent.as_deref(), Some("ua-VISIONOS"));
        }
        other => panic!("{other:?}"),
    }
    match r.step(Event::Validated(false)) {
        Action::Player { client, .. } => assert_eq!(client, "ANDROID_VR_1_43_32"),
        other => panic!("{other:?}"),
    }
    match r.step(Event::Player(None)) {
        Action::Player { client, .. } => assert_eq!(client, "IOS"),
        other => panic!("{other:?}"),
    }
    match r.step(Event::Player(Some(response("OK", vec![format(140, "AUDIO_QUALITY_HIGH", "https://i/1")])))) {
        Action::Done(d) => {
            assert_eq!(d.stream_client, "IOS");
            assert_eq!(d.stream_url, "https://i/1");
        }
        other => panic!("{other:?}"),
    }
}

#[test]
fn nothing_playable_ends_in_the_fallback_resolver() {
    let off: Vec<String> = vec!["WEB_REMIX".into(), "VISIONOS".into(), "ANDROID_VR_1_43_32".into(), "IOS".into()];
    let mut r = Resolver::new("vid".into(), AudioQuality::Low, false, None, off.clone(), false, registry());
    r.step(Event::Begin);
    match r.step(Event::Sts(None)) {
        Action::Fallback { prefer_high } => assert!(!prefer_high),
        other => panic!("{other:?}"),
    }
    match r.step(Event::Fallback(None)) {
        Action::Failed(ResolveError::AllClientsFailed(v)) => assert_eq!(v, "vid"),
        other => panic!("{other:?}"),
    }
    let mut r = Resolver::new("vid".into(), AudioQuality::High, false, None, off, false, registry());
    r.step(Event::Begin);
    r.step(Event::Sts(None));
    let found = limusic::orchestrator::FallbackStream {
        url: "https://rp".into(),
        itag: 251,
        expires_in_seconds: 100,
        title: None,
        duration: Some("201".into()),
    };
    match r.step(Event::Fallback(Some(found))) {
        Action::Done(d) => assert_eq!(d.stream_client, "rustypipe"),
        other => panic!("{other:?}"),
    }
}

#[test]
fn a_lesser_stream_waits_while_a_high_one_exists() {
    let mut r = Resolver::new("vid".into(), AudioQuality::High, false, None, vec![], false, registry());
    r.step(Event::Begin);
    r.step(Event::Sts(None));
    // The main response lists a HIGH format but is not playable; the fallbacks offer MEDIUM.
    let mut main = response("UNPLAYABLE", vec![format(251, "AUDIO_QUALITY_HIGH", "https://g/1")]);
    main.playability_status.reason = Some("x".into());
    match r.step(Event::Player(Some(main))) {
        Action::Player { client, .. } => assert_eq!(client, "VISIONOS"),
        other => panic!("{other:?}"),
    }
    // VISIONOS offers MEDIUM only: remembered, the loop goes on.
    match r.step(Event::Player(Some(response("OK", vec![format(140, "AUDIO_QUALITY_MEDIUM", "https://v/m")])))) {
        Action::Player { client, .. } => assert_eq!(client, "ANDROID_VR_1_43_32"),
        other => panic!("{other:?}"),
    }
    match r.step(Event::Player(None)) {
        Action::Player { client, .. } => assert_eq!(client, "IOS"),
        other => panic!("{other:?}"),
    }
    // IOS fails too: the remembered MEDIUM stream is used.
    match r.step(Event::Player(None)) {
        Action::Done(d) => {
            assert_eq!(d.stream_client, "VISIONOS");
            assert_eq!(d.stream_url, "https://v/m");
        }
        other => panic!("{other:?}"),
    }
}

#[test]
fn helpers() {
    let hi = format(1, "AUDIO_QUALITY_HIGH", "u");
    let med = format(2, "AUDIO_QUALITY_MEDIUM", "u");
    assert!(is_high(&hi) && !is_high(&med));
    assert!(better(&hi, Some(&med)));
    assert!(!better(&med, Some(&hi)));
    assert!(better(&med, None));
    assert_eq!(append_pot("https://x/v?a=1", "p/q"), "https://x/v?a=1&pot=p%2Fq");
    assert_eq!(append_pot("https://x/v", "p"), "https://x/v?pot=p");
    assert_eq!(
        ResolveError::AllClientsFailed("v".into()).message(),
        "no client could resolve a playable stream for v"
    );
}
