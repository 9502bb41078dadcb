use limusic::cipher::config::{ConfigState, ConfigTable, PlayerConfig};
use limusic::cipher::extractor::{build_injection, extract_sts, find_n_fn, find_sig_fn, IIFE_TAIL};
use limusic::cipher::{
    apply_n_transform, js_string, n_call_script, n_param, needs_rebuild, parse_cipher, signed_url,
    sig_call_script,
};

#[test]
fn sts_extracted() {
    assert_eq!(extract_sts("abc signatureTimestamp:20632 def"), Some(20632));
    assert_eq!(extract_sts(r#"...,"sts":19999,..."#), Some(19999));
    assert_eq!(extract_sts("no timestamp here"), None);
}

#[test]
fn sig_fn_classic_definition() {
    let js = r#"var x=1;Dz=function(a){a=a.split("");Xu.reverse(a,1);return a.join("")};"#;
    assert_eq!(find_sig_fn(js).as_deref(), Some("Dz"));
}

#[test]
fn n_fn_set_pattern() {
    let js = r#"c=d.get("n"))&&(d=Gx[0](c),e.set("n",d)"#;
    assert_eq!(find_n_fn(js).as_deref(), Some("Gx"));
}

#[test]
fn injection_lands_inside_iife() {
    let js = "var _yt_player={};(function(g){g.foo=1;})(_yt_player);";
    let out = build_injection(js, Some("Dz"), Some("En"));
    assert!(out.contains("window._cipherSigFunc=function(s){return Dz(s);}"));
    assert!(out.contains("window._nTransformFunc=function(n){return En(n);}"));
    assert!(out.ends_with(IIFE_TAIL));
    let export_at = out.find("window._cipherSigFunc").unwrap();
    assert!(export_at < out.rfind(IIFE_TAIL).unwrap());
}

#[test]
fn injection_skips_unknown_names() {
    let js = "(function(g){})(_yt_player);";
    let out = build_injection(js, None, None);
    assert!(!out.contains("_cipherSigFunc"));
    assert!(!out.contains("_nTransformFunc"));
    assert!(out.ends_with(IIFE_TAIL));
}

#[test]
fn injection_without_a_tail_appends_on_a_new_line() {
    let out = build_injection("var a=1;", Some("F"), None);
    assert_eq!(
        out,
        "var a=1;\n;try{window._cipherSigFunc=function(s){return F(s);};}catch(e){}})(_yt_player);"
    );
}

#[test]
fn injection_replaces_only_the_last_tail() {
    let js = "a})(_yt_player);b})(_yt_player);c";
    let out = build_injection(js, None, None);
    assert_eq!(out, "a})(_yt_player);b;})(_yt_player);c");
}

#[test]
fn parses_signature_cipher() {
    let c = "s=ABC%3D%3D&sp=sig&url=https%3A%2F%2Fx.com%2Fv%3Fitag%3D251";
    let (s, sp, url) = parse_cipher(c).unwrap();
    assert_eq!(s, "ABC==");
    assert_eq!(sp, "sig");
    assert_eq!(url, "https://x.com/v?itag=251");
}

#[test]
fn cipher_defaults_sp_to_signature() {
    let (_, sp, _) = parse_cipher("s=X&url=https%3A%2F%2Fx.com").unwrap();
    assert_eq!(sp, "signature");
}

#[test]
fn cipher_missing_url_is_none() {
    assert!(parse_cipher("s=X&sp=sig").is_none());
}

#[test]
fn cipher_pair_without_equals_spoils_it() {
    assert!(parse_cipher("s=X&junk&url=u").is_none());
}

#[test]
fn js_string_escapes() {
    assert_eq!(js_string(r#"a"b\c"#), r#""a\"b\\c""#);
}

#[test]
fn sig_script_embeds_the_escaped_value() {
    assert_eq!(
        sig_call_script("a\"b"),
        r#"(function(){try{return String(window._cipherSigFunc("a\"b"));}catch(e){return null;}})()"#
    );
}

#[test]
fn signed_url_appends_the_encoded_signature() {
    assert_eq!(
        signed_url("https://x.com/v?itag=251", "sig", Some("a/b=".into())).as_deref(),
        Some("https://x.com/v?itag=251&sig=a%2Fb%3D")
    );
    assert_eq!(signed_url("https://x.com/v", "sig", Some("ab".into())).as_deref(), Some("https://x.com/v?sig=ab"));
    assert_eq!(signed_url("https://x.com/v", "sig", Some(String::new())), None);
    assert_eq!(signed_url("https://x.com/v", "sig", None), None);
}

#[test]
fn n_parameter_is_found_and_replaced() {
    let url = "https://r.googlevideo.com/videoplayback?expire=1&n=ab%2Bc&x=1";
    let (enc, dec) = n_param(url).unwrap();
    assert_eq!(enc, "ab%2Bc");
    assert_eq!(dec, "ab+c");
    let out = apply_n_transform(url, &enc, &dec, Some("zz y".into())).unwrap();
    assert_eq!(out, "https://r.googlevideo.com/videoplayback?expire=1&n=zz%20y&x=1");
    assert_eq!(apply_n_transform(url, &enc, &dec, Some("ab+c".into())), None, "unchanged value is a failure");
    assert_eq!(apply_n_transform(url, &enc, &dec, None), None);
    assert!(n_param("https://x.com/v?m=1").is_none());
}

#[test]
fn rebuild_when_missing_dead_or_stale() {
    assert!(!needs_rebuild(true, true, 3, 3));
    assert!(needs_rebuild(false, true, 3, 3));
    assert!(needs_rebuild(true, false, 3, 3));
    assert!(needs_rebuild(true, true, 2, 3));
}

fn cfg(hash: &str, sts: Option<i32>, sig: Option<&str>, n: Option<&str>) -> PlayerConfig {
    PlayerConfig { hash: hash.into(), sts, sig_fn: sig.map(Into::into), n_fn: n.map(Into::into) }
}

#[test]
fn parses_and_looks_up() {
    let table = ConfigTable::from_list(vec![cfg("abc", Some(20632), Some("Lf"), None), cfg("def", None, None, Some("En"))]);
    assert_eq!(table.get("abc").unwrap().sts, Some(20632));
    assert_eq!(table.get("abc").unwrap().sig_fn.as_deref(), Some("Lf"));
    assert_eq!(table.get("def").unwrap().n_fn.as_deref(), Some("En"));
    assert!(table.get("def").unwrap().sig_fn.is_none());
    assert!(table.get("zzz").is_none());
}

#[test]
fn merge_overlays_incoming() {
    let mut a = ConfigTable::from_list(vec![cfg("x", Some(1), None, None)]);
    let grew = a.merge(ConfigTable::from_list(vec![cfg("x", Some(2), None, None), cfg("y", Some(3), None, None)]));
    assert!(grew);
    assert_eq!(a.get("x").unwrap().sts, Some(2));
    assert_eq!(a.get("y").unwrap().sts, Some(3));
    assert_eq!(a.len(), 2);
    let grew_again = a.merge(ConfigTable::from_list(vec![cfg("x", Some(5), None, None)]));
    assert!(!grew_again, "replacing an entry is not growth");
    assert_eq!(a.get("x").unwrap().sts, Some(5));
}

#[test]
fn epoch_moves_only_when_the_table_grows() {
    let mut st = ConfigState::new(ConfigTable::from_list(vec![cfg("x", Some(1), None, None)]));
    assert_eq!(st.config_epoch(), 0);
    assert!(!st.apply_fetched(ConfigTable::new()));
    assert!(!st.apply_fetched(ConfigTable::from_list(vec![cfg("x", Some(9), None, None)])));
    assert_eq!(st.config_epoch(), 0);
    assert!(st.apply_fetched(ConfigTable::from_list(vec![cfg("y", None, None, None)])));
    assert_eq!(st.config_epoch(), 1);
    assert_eq!(st.get("x").unwrap().sts, Some(9));
}

#[test]
fn rejection_refresh_is_rate_limited() {
    let mut st = ConfigState::new(ConfigTable::new());
    assert!(st.begin_rejection_refresh(1_000));
    assert!(!st.begin_rejection_refresh(1_000 + 299_999));
    assert!(st.begin_rejection_refresh(1_000 + 300_000));
    st.begin_forced_refresh(2_000_000);
    assert!(!st.begin_rejection_refresh(2_000_001));
}

#[test]
fn plan_prefers_the_config_table() {
    let js = r#"signatureTimestamp:20632;Dz=function(a){a=a.split("");return a.join("")};"#;
    let p = limusic::cipher::plan_for(Some(cfg("h", Some(1), None, Some("Nn"))), js);
    assert_eq!(p.sts, Some(1));
    assert_eq!(p.sig_fn.as_deref(), Some("Dz"));
    assert_eq!(p.n_fn.as_deref(), Some("Nn"));
    let q = limusic::cipher::plan_for(None, js);
    assert_eq!(q.sts, Some(20632));
}

#[test]
fn n_script_embeds_the_escaped_value() {
    assert_eq!(
        n_call_script("x\\y"),
        r#"(function(){try{return String(window._nTransformFunc("x\\y"));}catch(e){return null;}})()"#
    );
}

#[test]
fn js_string_escapes_control_characters() {
    assert_eq!(js_string("a\u{1}\n\t\u{8}\u{c}\r/"), "\"a\\u0001\\n\\t\\b\\f\\r/\"");
    assert_eq!(js_string("é\u{1f}"), "\"é\\u001f\"");
}

#[test]
fn cipher_values_keep_stray_percent_signs() {
    // A `%` not followed by two hex digits stays as it is; `+` is not a space.
    let (s, _, url) = parse_cipher("s=a%zz%4+b%2&url=https%3A%2F%2Fx.com").unwrap();
    assert_eq!(s, "a%zz%4+b%2");
    assert_eq!(url, "https://x.com");
}
