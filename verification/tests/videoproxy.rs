use limusic::videoproxy::{route, token_from, upstream_status, url_for, video_id_from, Endpoint, Refusal};

#[test]
fn only_the_right_token_routes() {
    assert_eq!(video_id_from("/abc123/dQw4w9WgXcQ", "abc123"), Some("dQw4w9WgXcQ"));
    assert_eq!(video_id_from("/wrong/dQw4w9WgXcQ", "abc123"), None);
    assert_eq!(video_id_from("/dQw4w9WgXcQ", "abc123"), None);
    assert_eq!(video_id_from("/abc123/", "abc123"), None);
}

#[test]
fn url_for_names_port_token_and_video() {
    let e = Endpoint { port: 40123, token: "tok".into() };
    assert_eq!(url_for(Some(&e), "vid").as_deref(), Some("http://127.0.0.1:40123/tok/vid"));
    assert_eq!(url_for(None, "vid"), None);
}

#[test]
fn token_is_32_hex_digits() {
    assert_eq!(token_from(0x1, 0xabcdef0123456789), "0000000000000001abcdef0123456789");
    assert_eq!(limusic::videoproxy::new_token().len(), 32);
}

#[test]
fn routing_refusals() {
    assert_eq!(route("POST", Some("t"), "/t/v"), Err(Refusal::MethodNotAllowed));
    assert_eq!(route("GET", None, "/t/v"), Err(Refusal::NoEndpoint));
    assert_eq!(route("HEAD", Some("t"), "/x/v"), Err(Refusal::NotFound));
    assert_eq!(route("GET", Some("t"), "//t/v"), Ok("v"));
    assert_eq!(Refusal::NotFound.status(), 404);
    assert_eq!(upstream_status(206), 206);
    assert_eq!(upstream_status(403), 502);
}
