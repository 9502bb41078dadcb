use limusic::auth::{pasted_cookie, sign_in_verdict, NOT_AUTHENTICATED, NO_SAPISID};
use limusic::clients::YouTubeClient;
use limusic::models::metadata::AccountInfo;
use limusic::transport::{after_failure, AfterFailure, Error, Session};
use limusic::auth::{account_snapshot, auth_changed, sign_out_keys};
use limusic::models::json::Json;

fn web_remix() -> YouTubeClient {
    YouTubeClient {
        client_name: "WEB_REMIX".into(),
        client_version: "1.20250101.01.00".into(),
        client_id: "67".into(),
        user_agent: "Mozilla/5.0".into(),
        os_name: None,
        os_version: None,
        device_make: None,
        device_model: None,
        android_sdk_version: None,
        build_id: None,
        cronet_version: None,
        package_name: None,
        friendly_name: None,
        login_supported: true,
        login_required: false,
        use_signature_timestamp: true,
        is_embedded: false,
        use_web_po_tokens: true,
    }
}

fn header<'a>(h: &'a [(String, String)], name: &str) -> Option<&'a str> {
    h.iter().find(|(k, _)| k == name).map(|(_, v)| v.as_str())
}

#[test]
fn on_behalf_of_user_needs_a_cookie() {
    let web = web_remix();
    let mut session = Session::new();
    session.data_sync_id = Some("abc123".into());
    assert_eq!(session.context_for(&web).user.on_behalf_of_user, None, "no cookie ⇒ no obo (401)");
    session.cookie = Some("SAPISID=secret".into());
    assert_eq!(session.context_for(&web).user.on_behalf_of_user.as_deref(), Some("abc123"));
}

#[test]
fn identity_validation_context_does_not_mutate_the_committed_session() {
    let web = web_remix();
    let mut session = Session::new();
    session.cookie = Some("SAPISID=secret".into());
    session.data_sync_id = Some("committed-id".into());
    assert_eq!(
        session.context_for_identity(&web, "candidate-id").user.on_behalf_of_user.as_deref(),
        Some("candidate-id")
    );
    assert_eq!(session.context_for(&web).user.on_behalf_of_user.as_deref(), Some("committed-id"));
}

#[test]
fn dispatch_snapshot_keeps_cookie_and_identity_consistent() {
    let web = web_remix();
    let mut session = Session::new();
    session.cookie = Some("SAPISID=aaa; __Secure-3PSIDTS=t1".into());
    let (headers, dispatched) = session.request_headers(&web, true);
    assert_eq!(header(&headers, "cookie"), Some("SAPISID=aaa; __Secure-3PSIDTS=t1"));
    assert_eq!(dispatched.as_deref(), Some("aaa"));
    assert!(header(&headers, "authorization").is_some());

    session.cookie = Some("SAPISID=bbb".into());
    session.merge_set_cookies(&["__Secure-3PSIDTS=rotated; Path=/".into()], dispatched.as_deref());
    assert_eq!(session.cookie.as_deref(), Some("SAPISID=bbb"));

    let (headers, dispatched) = session.request_headers(&web, false);
    assert!(header(&headers, "cookie").is_none());
    assert_eq!(dispatched, None);
}

#[test]
fn request_headers_at_a_fixed_second() {
    let web = web_remix();
    let mut session = Session::new();
    session.visitor_data = Some("CgtVISITOR".into());
    session.cookie = Some("SAPISID=aaa".into());
    let (h, d) = session.request_headers_at(&web, true, 1_700_000_000);
    assert_eq!(header(&h, "x-youtube-client-name"), Some("67"));
    assert_eq!(header(&h, "x-goog-visitor-id"), Some("CgtVISITOR"));
    assert_eq!(header(&h, "x-origin"), Some("https://music.youtube.com"));
    let auth = header(&h, "authorization").unwrap();
    assert!(auth.starts_with("SAPISIDHASH 1700000000_"));
    assert_eq!(auth.len(), "SAPISIDHASH 1700000000_".len() + 40);
    assert_eq!(d.as_deref(), Some("aaa"));
    let mut anonymous_client = web_remix();
    anonymous_client.login_supported = false;
    let (h2, d2) = session.request_headers_at(&anonymous_client, true, 1_700_000_000);
    assert!(header(&h2, "cookie").is_none());
    assert_eq!(d2, None);
}

#[test]
fn transient_errors_retry_twice_then_give_up() {
    assert_eq!(after_failure(1, true, None, false), AfterFailure::Retry { delay_ms: 500 });
    assert_eq!(after_failure(2, true, None, false), AfterFailure::Retry { delay_ms: 1000 });
    assert_eq!(after_failure(3, true, None, false), AfterFailure::GiveUp);
    assert_eq!(after_failure(1, false, Some(403), true), AfterFailure::SessionExpired);
    assert_eq!(after_failure(1, false, Some(401), false), AfterFailure::GiveUp);
    assert_eq!(after_failure(1, false, Some(500), true), AfterFailure::GiveUp);
}

#[test]
fn error_messages() {
    assert_eq!(Error::VisitorDataNotFound.message(), "visitorData not found in sw.js_data");
    assert_eq!(Error::Http("timeout".into()).message(), "http: timeout");
    assert_eq!(Error::Other("x".into()).message(), "x");
    assert_eq!(Error::AlreadyInPlaylist.message(), "This track is already in the playlist.");
}

#[test]
fn pasted_cookies_need_a_sapisid() {
    assert_eq!(pasted_cookie("  SAPISID=abc; SID=x \n"), Ok("SAPISID=abc; SID=x".to_owned()));
    assert_eq!(pasted_cookie("SID=x"), Err(NO_SAPISID));
    let named = AccountInfo { name: Some("Jane".into()), handle: None, thumbnail: None, data_sync_id: None, visitor_data: None };
    assert_eq!(sign_in_verdict(&named), Ok(()));
    let nameless = AccountInfo { name: None, ..named };
    assert_eq!(sign_in_verdict(&nameless), Err(NOT_AUTHENTICATED));
}

#[test]
fn sign_out_drops_the_auth_settings_and_reports_a_guest() {
    assert_eq!(sign_out_keys(), vec!["session_cookie", "data_sync_id", "account_json", "active_account"]);
    match auth_changed(false) {
        Json::Object(es) => {
            assert_eq!(es.len(), 1);
            assert_eq!(es[0].0, "signedIn");
            assert!(matches!(es[0].1, Json::Bool(false)));
        }
        _ => panic!("not an object"),
    }
    let stored = Json::Object(vec![
        ("name".into(), Json::Str("A".into())),
        ("signedIn".into(), Json::Bool(true)),
    ]);
    match account_snapshot(Some(stored), false) {
        Json::Object(es) => {
            assert_eq!(es.len(), 2);
            assert_eq!(es[0].0, "name");
            assert_eq!(es[1].0, "signedIn");
            assert!(matches!(es[1].1, Json::Bool(false)));
        }
        _ => panic!("not an object"),
    }
    match account_snapshot(Some(Json::Str("x".into())), true) {
        Json::Object(es) => assert_eq!(es.len(), 1),
        _ => panic!("not an object"),
    }
}
