use sha1::Digest;
use limusic::transport::{
    build_playback_url, cookie_sapisid, generate_cpn, CpnCounter, sapisid_hash, sapisid_hash_at, Session,
    CPN_CHARS, ORIGIN,
};

#[test]
fn sapisid_hash_shape() {
    let h = sapisid_hash("MYSAPISID", ORIGIN);
    assert!(h.starts_with("SAPISIDHASH "));
    let rest = &h["SAPISIDHASH ".len()..];
    let (epoch, hash) = rest.split_once('_').unwrap();
    assert!(epoch.parse::<u64>().is_ok());
    assert_eq!(hash.len(), 40); // sha1 hex
}

#[test]
fn sapisid_hash_at_a_fixed_second() {
    // sha1("1700000000 abc https://music.youtube.com")
    let h = sapisid_hash_at(1_700_000_000, "abc", ORIGIN);
    assert!(h.starts_with("SAPISIDHASH 1700000000_"));
    let hex = &h["SAPISIDHASH 1700000000_".len()..];
    assert_eq!(hex.len(), 40);
    assert!(hex.chars().all(|c| c.is_ascii_hexdigit() && !c.is_ascii_uppercase()));
    assert_eq!(h, sapisid_hash_at(1_700_000_000, "abc", ORIGIN));
    assert_ne!(h, sapisid_hash_at(1_700_000_001, "abc", ORIGIN));
}

#[test]
fn sapisid_hash_is_the_sha1_of_epoch_sapisid_origin() {
    let want = hex::encode(sha1::Sha1::digest(b"1700000000 abc https://music.youtube.com"));
    assert_eq!(sapisid_hash_at(1_700_000_000, "abc", ORIGIN), format!("SAPISIDHASH 1700000000_{want}"));
    // The known vector: sha1("abc").
    assert_eq!(hex::encode(sha1::Sha1::digest(b"abc")), "a9993e364706816aba3e25717850c26c9cd0d89d");
}

#[test]
fn playback_url_appends_params() {
    // Base URL already has query params -> chained with `&`; playlist adds list+referrer.
    let u = build_playback_url(
        "https://s.youtube.com/api/stats/playback?cl=1&docid=abc",
        "WEB_REMIX",
        "CPN1234567890AB",
        Some("RDAMVMxyz"),
    );
    assert!(u.contains("?cl=1&docid=abc&c=WEB_REMIX&cpn=CPN1234567890AB&ver=2"));
    assert!(u.contains("&list=RDAMVMxyz&referrer=RDAMVMxyz"));
    // No existing query -> first param uses `?`, no playlist params.
    let u2 = build_playback_url("https://s.youtube.com/x", "IOS", "abc", None);
    assert_eq!(u2, "https://s.youtube.com/x?c=IOS&cpn=abc&ver=2");
}

#[test]
fn playback_url_percent_encodes_values() {
    let u = build_playback_url("https://s.youtube.com/x", "A B", "c/d", Some("é"));
    assert_eq!(u, "https://s.youtube.com/x?c=A%20B&cpn=c%2Fd&ver=2&list=%C3%A9&referrer=%C3%A9");
}

#[test]
fn cpn_is_16_url_safe_chars() {
    let mut counter = CpnCounter::new();
    let cpn = generate_cpn(&mut counter);
    assert_eq!(cpn.len(), 16);
    assert!(cpn.bytes().all(|b| CPN_CHARS.as_bytes().contains(&b)));
    // Two calls in quick succession must differ (counter salt).
    assert_ne!(generate_cpn(&mut counter), generate_cpn(&mut counter));
    assert_eq!(counter.next, 3);
}

#[test]
fn cpn_from_fixed_inputs_is_deterministic() {
    let a = limusic::transport::cpn_from(123_456_789, 7);
    let b = limusic::transport::cpn_from(123_456_789, 7);
    let c = limusic::transport::cpn_from(123_456_789, 8);
    assert_eq!(a, b);
    assert_ne!(a, c);
    assert_eq!(a.len(), 16);
}

#[test]
fn sapisid_extracted_from_cookie() {
    let mut s = Session::new();
    s.cookie = Some("FOO=bar; SAPISID=secret123; OTHER=x".into());
    assert_eq!(s.sapisid().as_deref(), Some("secret123"));
}

#[test]
fn modern_sapisid_alias_is_read() {
    assert_eq!(cookie_sapisid("a=1; __Secure-3PAPISID= v2 ;x=y"), Some("v2"));
    assert_eq!(cookie_sapisid("a=1; b=2"), None);
    assert_eq!(cookie_sapisid(""), None);
}

/// Google rotates its short-lived tokens on authenticated responses; the transport must merge
/// them into the jar (add, replace, `Max-Age=0` delete) so a used session stays alive.
#[test]
fn set_cookie_pairs_merge_into_the_session_jar() {
    let mut session = Session::new();
    session.cookie = Some("SAPISID=aaa; __Secure-3PSIDTS=old".into());
    session.merge_set_cookies(
        &[
            "__Secure-3PSIDTS=new; Path=/; Domain=.youtube.com; HttpOnly; Secure".into(),
            "NEWCOOKIE=fresh; Path=/; Max-Age=3600".into(),
        ],
        Some("aaa"),
    );
    assert_eq!(
        session.cookie.as_deref().unwrap(),
        "SAPISID=aaa; __Secure-3PSIDTS=new; NEWCOOKIE=fresh",
        "rotated tokens replace, new cookies append"
    );

    session.merge_set_cookies(&["__Secure-3PSIDTS=x; Path=/; Max-Age=0".into()], Some("aaa"));
    assert_eq!(session.cookie.as_deref().unwrap(), "SAPISID=aaa; NEWCOOKIE=fresh", "Max-Age=0 deletes");

    // Not logged in -> nothing to merge into, stays None.
    let mut guest = Session::new();
    guest.merge_set_cookies(&["SAPISID=ignored".into()], None);
    assert_eq!(guest.cookie, None);
}

/// A response whose request was dispatched under one session must not be merged after the
/// session switched (or signed out).
#[test]
fn set_cookies_from_a_switched_session_are_not_merged() {
    let mut it = Session::new();
    it.cookie = Some("SAPISID=old; __Secure-3PSIDTS=stale".into());

    // The request went out as "old"; the user switched accounts before the response landed.
    it.cookie = Some("SAPISID=new; __Secure-3PSIDTS=fresh".into());
    it.merge_set_cookies(&["__Secure-3PSIDTS=rotated; Path=/".into()], Some("old"));
    assert_eq!(
        it.cookie.as_deref().unwrap(),
        "SAPISID=new; __Secure-3PSIDTS=fresh",
        "the stale response's pairs must not touch the new account's jar"
    );

    // And an anonymous request's response must not seed a jar the user logged into meanwhile.
    let mut anonymous = Session::new();
    anonymous.cookie = Some("SAPISID=new".into());
    anonymous.merge_set_cookies(&["SAPISID=anon; Path=/".into()], None);
    assert_eq!(anonymous.cookie.as_deref().unwrap(), "SAPISID=new");
}

#[test]
fn unchanged_values_leave_the_jar_alone() {
    let mut s = Session::new();
    s.cookie = Some("SAPISID=a;  X=1".into());
    s.merge_set_cookies(&["X=1; Path=/".into(), "nonsense".into(), "bad name=1".into()], Some("a"));
    assert_eq!(s.cookie.as_deref(), Some("SAPISID=a;  X=1"), "no change, no rewrite");
    s.merge_set_cookies(&["Y=2; max-age = 0".into()], Some("a"));
    assert_eq!(s.cookie.as_deref(), Some("SAPISID=a;  X=1"), "deleting an absent cookie changes nothing");
}

#[test]
fn different_salts_at_one_reading_give_different_nonces() {
    let a = limusic::transport::cpn_from(1_700_000_000_000_000_000, 0);
    let b = limusic::transport::cpn_from(1_700_000_000_000_000_000, 1);
    let c = limusic::transport::cpn_from(1_700_000_000_000_000_000, 2);
    assert!(a != b && b != c && a != c);
}

#[test]
fn signing_out_returns_to_a_guest_session() {
    let mut s = Session::new();
    s.cookie = Some("SAPISID=a".into());
    s.data_sync_id = Some("d".into());
    s.visitor_data = Some("v".into());
    s.sign_out();
    assert!(s.cookie.is_none() && s.data_sync_id.is_none());
    assert_eq!(s.visitor_data.as_deref(), Some("v"));
}

#[test]
fn sapisid_hash_hex_part_is_forty_digits() {
    let h = sapisid_hash_at(1_700_000_000, "abc", ORIGIN);
    let hex = h.split('_').nth(1).unwrap();
    assert_eq!(hex.len(), 40);
    assert_eq!(limusic::transport::sha1_hex("x").len(), 40);
}
