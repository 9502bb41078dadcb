use limusic::settings::{is_ui_setting, renderer_settings};

#[test]
fn auth_material_is_not_a_ui_setting() {
    for k in [
        "session_cookie",
        "selected_identity_json",
        "data_sync_id",
        "account_json",
        "visitor_data",
        "account_selection_pending",
        "potoken_session",
    ] {
        assert!(!is_ui_setting(k), "{k}");
    }
    for k in ["quality", "enable_history", "disabled_stream_clients", "volume", "proxy"] {
        assert!(is_ui_setting(k), "{k}");
    }
}

#[test]
fn the_renderer_sees_only_ui_settings_in_order() {
    let rows = vec![
        ("account_json".to_owned(), "{}".to_owned()),
        ("enable_history".to_owned(), "true".to_owned()),
        ("session_cookie".to_owned(), "SAPISID=x".to_owned()),
        ("quality".to_owned(), "LOW".to_owned()),
    ];
    assert_eq!(
        renderer_settings(rows),
        vec![("enable_history".to_owned(), "true".to_owned()), ("quality".to_owned(), "LOW".to_owned())]
    );
    assert!(renderer_settings(vec![]).is_empty());
}
