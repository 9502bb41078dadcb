use limusic::potoken::{
    bootstrap_step, cached_session_token, integrity_token_len, new_session_token, BootstrapStep,
    MinterInfo, SessionToken, ACCEPTED_MAX_IT,
};

fn token(session_id: &str, expires_at: i64) -> SessionToken {
    SessionToken { session_id: session_id.to_owned(), token: "tok".to_owned(), expires_at }
}

#[test]
fn session_token_valid_for_matching_id_and_future_expiry() {
    assert!(token("vd123", 1_000).valid_for("vd123", 900));
}

#[test]
fn session_token_invalid_for_wrong_id() {
    assert!(!token("vd123", 1_000).valid_for("other", 900));
}

#[test]
fn session_token_invalid_when_expired() {
    assert!(!token("vd123", 1_000).valid_for("vd123", 1_000), "expiry is exclusive");
    assert!(!token("vd123", 1_000).valid_for("vd123", 1_001));
}

#[test]
fn cached_token_only_for_its_session() {
    let cached = Some(token("vd", 100));
    assert_eq!(cached_session_token(&cached, "vd", 99).as_deref(), Some("tok"));
    assert_eq!(cached_session_token(&cached, "vd", 100), None);
    assert_eq!(cached_session_token(&cached, "other", 1), None);
    assert_eq!(cached_session_token(&None, "vd", 1), None);
}

#[test]
fn fresh_token_expires_ten_minutes_early() {
    let t = new_session_token("vd", "tok".into(), 43_200, 1_000);
    assert_eq!(t.expires_at, 1_000 + 43_200 - 600);
    let short = new_session_token("vd", "tok".into(), 300, 1_000);
    assert_eq!(short.expires_at, 1_000, "a lifetime under the margin is good for nothing");
}

#[test]
fn integrity_token_len_recovers_the_class() {
    let accepted = "MlXqPDpAlDMkCOoCacp97o6hlNiTzyEqbbG19_M6xd4CsWjs_-As_87AhhsJc8P0TBrOBz-NyIZOkBW27jzq9IdgG3iWL8UIP2Z1mH_re9kA4X-E0VNg";
    let rejected = "MlnHbcTsx94ZOMcvkb-5qM8WsZx58c29FKoGcMaRe-7qyQbSAGmxZKrMAr-_WcwQ3Ayn6QcZJUyQwkDM71r6lMts9NLt3mH9kVN6Ni7xo7et0t-naMX8Jore2A";
    assert_eq!(integrity_token_len(accepted, "PtHEr7siapo"), Some(62));
    assert_eq!(integrity_token_len(rejected, "PtHEr7siapo"), Some(66));
    assert!(integrity_token_len(accepted, "PtHEr7siapo").is_some_and(|n| n <= ACCEPTED_MAX_IT));
    assert!(!integrity_token_len(rejected, "PtHEr7siapo").is_some_and(|n| n <= ACCEPTED_MAX_IT));
}

#[test]
fn integrity_token_len_rejects_garbage() {
    assert_eq!(integrity_token_len("not base64!!", "PtHEr7siapo"), None);
    assert_eq!(integrity_token_len("MlU=", "PtHEr7siapo"), None, "shorter than the overhead");
}

#[test]
fn integrity_token_len_uses_the_decoded_identifier() {
    assert_eq!(
        integrity_token_len("MlXqPDpAlDMkCOoCacp97o6hlNiTzyEqbbG19_M6xd4CsWjs_-As_87AhhsJc8P0TBrOBz-NyIZOkBW27jzq9IdgG3iWL8UIP2Z1mH_re9kA4X-E0VNg", "abcdefgh%3D"),
        Some(64),
        "%3D is one byte, not three"
    );
}

#[test]
fn bootstrap_rerolls_until_the_accepted_class() {
    assert_eq!(bootstrap_step(1, Some(62)), BootstrapStep::Accept);
    assert_eq!(bootstrap_step(1, Some(66)), BootstrapStep::Retry);
    assert_eq!(bootstrap_step(1, None), BootstrapStep::Retry);
    assert_eq!(bootstrap_step(8, Some(66)), BootstrapStep::KeepLast);
    assert_eq!(bootstrap_step(8, Some(63)), BootstrapStep::Accept);
}

#[test]
fn minter_lifetime_and_idleness() {
    let m = MinterInfo::started("vd", 43_200, 5_000);
    assert_eq!(m.expires_at_ms, 5_000 + (43_200 - 600) * 1000);
    assert!(m.valid_for("vd", 5_001));
    assert!(!m.valid_for("other", 5_001));
    assert!(!m.valid_for("vd", m.expires_at_ms));
    assert!(m.idle_for(1_000, 6_000));
    assert!(!m.idle_for(1_001, 6_000));
}
