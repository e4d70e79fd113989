use base64::Engine;
use hmac::Mac;
use session_relay::config::{url_list, Config, Settings};
use session_relay::cookie::{cookie_header, join_page_cookie, read_cid, valid_session_id};
use session_relay::crypto::{ip_hash, mint_cid, mint_id, turn_credentials, turn_credentials_until};
use session_relay::clock::{now_unix, unix_secs};
use session_relay::messages::{client_ip, parse_session_id};
use session_relay::text::{numeric_setting, parse_u64, trimmed};
use sha2::Digest;

#[test]
fn session_ids_use_twelve_unambiguous_characters() {
    assert!(valid_session_id("ABCDEFGH2345"));
    assert!(valid_session_id("23456789WXYZ"));
    assert!(!valid_session_id("ABCDEFGH234"));
    assert!(!valid_session_id("ABCDEFGH23456"));
    assert!(!valid_session_id("ABCDEFGH2341"));
    assert!(!valid_session_id("ABCDEFGH234O"));
    assert!(!valid_session_id("ABCDEFGH234I"));
    assert!(!valid_session_id("ABCDEFGH2340"));
    assert!(!valid_session_id("abcdefgh2345"));
    assert!(!valid_session_id(""));
    assert!(!valid_session_id("ABCDEFGH234É"));
}

#[test]
fn cookie_header_is_secure_httponly_lax() {
    assert_eq!(
        cookie_header("c_abc"),
        "se_cid=c_abc; Path=/; Max-Age=86400; Secure; HttpOnly; SameSite=Lax"
    );
}

#[test]
fn read_cid_takes_first_nonempty_se_cid() {
    assert_eq!(read_cid(None), None);
    assert_eq!(read_cid(Some("")), None);
    assert_eq!(read_cid(Some("se_cid=c_one")), Some("c_one".to_string()));
    assert_eq!(read_cid(Some("a=b;  se_cid=c_two ; x=y")), Some("c_two".to_string()));
    assert_eq!(read_cid(Some("se_cid=; se_cid=c_three")), Some("c_three".to_string()));
    assert_eq!(read_cid(Some("xse_cid=c_no; other=1")), None);
    assert_eq!(read_cid(Some("SE_CID=c_no")), None);
    assert_eq!(read_cid(Some("se_cid=a=b")), Some("a=b".to_string()));
}

#[test]
fn join_page_sets_cookie_only_without_one() {
    assert_eq!(join_page_cookie(Some("se_cid=c_have")), None);
    let header = join_page_cookie(Some("other=1")).expect("a cookie is minted");
    assert!(header.starts_with("se_cid=c_"));
    assert!(header.ends_with("; Path=/; Max-Age=86400; Secure; HttpOnly; SameSite=Lax"));
    assert_eq!(header.len(), "se_cid=".len() + 24 + "; Path=/; Max-Age=86400; Secure; HttpOnly; SameSite=Lax".len());
    assert!(session_relay::reply::header_value_ok(&header));
}

#[test]
fn any_plain_cookie_id_reads_back() {
    for cid in ["abc.def~!", "x", "a b", "c_\u{e9}t\u{e9}", "{}[]"] {
        assert_eq!(read_cid(Some(&format!("se_cid={cid}"))), Some(cid.to_string()));
    }
}

#[test]
fn minted_ids_have_their_shapes() {
    let cid = mint_cid();
    assert_eq!(cid.len(), 24);
    assert!(cid.starts_with("c_"));
    assert!(cid[2..].chars().all(|c| c.is_ascii_alphanumeric() || c == '-' || c == '_'));
    assert_ne!(mint_cid(), cid);
    let id = mint_id("r_");
    assert_eq!(id.len(), 34);
    assert!(id.starts_with("r_"));
    assert!(id[2..].chars().all(|c| c.is_ascii_digit() || ('a'..='f').contains(&c)));
}

#[test]
fn client_ip_prefers_forwarded_for() {
    assert_eq!(client_ip(Some(" 1.2.3.4 , 5.6.7.8"), Some("9.9.9.9"), "127.0.0.1"), "1.2.3.4");
    assert_eq!(client_ip(Some("1.2.3.4"), None, "127.0.0.1"), "1.2.3.4");
    assert_eq!(client_ip(Some(""), Some("9.9.9.9"), "127.0.0.1"), "");
    assert_eq!(client_ip(None, Some(" 9.9.9.9"), "127.0.0.1"), " 9.9.9.9");
    assert_eq!(client_ip(None, None, "127.0.0.1"), "127.0.0.1");
}

#[test]
fn ip_hash_is_salted_sha256_in_base64() {
    let expected = format!(
        "sha256:{}",
        base64::engine::general_purpose::STANDARD_NO_PAD.encode(sha2::Sha256::digest(b"salt:1.2.3.4"))
    );
    let got = ip_hash("salt", "1.2.3.4");
    assert_eq!(got, expected);
    assert_eq!(got.len(), 7 + 43);
    assert_ne!(ip_hash("pepper", "1.2.3.4"), got);
    assert!(!got.contains("1.2.3.4"));
}

#[test]
fn turn_credentials_follow_the_coturn_scheme() {
    let (user, cred) = turn_credentials_until("s3cret", 1_700_000_600);
    assert_eq!(user, "1700000600:se");
    let mut mac = hmac::Hmac::<sha1::Sha1>::new_from_slice(b"s3cret").unwrap();
    mac.update(b"1700000600:se");
    let expected = base64::engine::general_purpose::STANDARD.encode(mac.finalize().into_bytes());
    assert_eq!(cred, expected);
    assert_eq!(cred.len(), 28);
    let (user0, _) = turn_credentials_until("", 0);
    assert_eq!(user0, "0:se");
}

#[test]
fn turn_credentials_expire_ttl_from_now() {
    let before = now_unix();
    let (user, _) = turn_credentials("k", 600).expect("fits");
    let after = now_unix();
    let expiry: u64 = user.trim_end_matches(":se").parse().unwrap();
    assert!(before + 600 <= expiry && expiry <= after + 600);
    assert!(turn_credentials("k", u64::MAX).is_none());
    assert!(before > 1_600_000_000);
}

#[test]
fn parse_u64_matches_from_str() {
    for s in ["0", "7", "+5", "007", "18446744073709551615", "18446744073709551616", "", "+", "-1", "-0", " 5", "5 ", "1_000", "++1", "١"] {
        assert_eq!(parse_u64(s), s.parse::<u64>().ok(), "input {:?}", s);
    }
}

#[test]
fn numeric_settings_fall_back_to_defaults() {
    assert_eq!(numeric_setting(None, u64::MAX, 600), 600);
    assert_eq!(numeric_setting(Some("90"), u64::MAX, 600), 90);
    assert_eq!(numeric_setting(Some("abc"), u64::MAX, 600), 600);
    assert_eq!(numeric_setting(Some("70000"), 65535, 8080), 8080);
}

#[test]
fn trim_matches_str_trim() {
    for s in ["", "  ", " a b ", "\t\u{a0}x\u{3000}", "\u{85}y\u{2029}", "z"] {
        assert_eq!(trimmed(s), s.trim());
    }
}

#[test]
fn url_lists_drop_empty_items() {
    assert_eq!(url_list(Some("a, b,,c ,"), &["d"]), vec!["a", "b", "c"]);
    assert_eq!(url_list(Some("   "), &["d"]), vec!["d"]);
    assert_eq!(url_list(Some(""), &["d", "e"]), vec!["d", "e"]);
    assert_eq!(url_list(None, &["d"]), vec!["d"]);
    assert_eq!(url_list(Some(" , ,"), &["d"]), Vec::<String>::new());
}

fn settings() -> Settings {
    Settings {
        turn_static_auth_secret: None,
        turn_ttl_secs: None,
        stun_urls: None,
        turn_urls: None,
        body_limit_bytes: None,
        join_origin: None,
    }
}

#[test]
fn config_defaults() {
    let cfg = Config::with_salt(&settings(), "salt".to_string());
    assert_eq!(cfg.turn_secret, None);
    assert_eq!(cfg.turn_ttl, 600);
    assert_eq!(cfg.stun_urls, vec!["stun:stun.l.google.com:19302"]);
    assert_eq!(
        cfg.turn_urls,
        vec![
            "turn:turn.screenextend.app:3478?transport=udp",
            "turn:turn.screenextend.app:3478?transport=tcp",
            "turns:turn.screenextend.app:5349?transport=tcp",
        ]
    );
    assert_eq!(cfg.body_limit, 65536);
    assert_eq!(cfg.join_origin, "https://session.screenextend.app");
    assert_eq!(cfg.ip_salt, "salt");
}

#[test]
fn config_reads_settings() {
    let mut s = settings();
    s.turn_static_auth_secret = Some(String::new());
    s.turn_ttl_secs = Some("60".to_string());
    s.stun_urls = Some("stun:a, stun:b".to_string());
    s.body_limit_bytes = Some("x".to_string());
    s.join_origin = Some(String::new());
    let cfg = Config::with_salt(&s, "salt".to_string());
    assert_eq!(cfg.turn_secret, None);
    assert_eq!(cfg.turn_ttl, 60);
    assert_eq!(cfg.stun_urls, vec!["stun:a", "stun:b"]);
    assert_eq!(cfg.body_limit, 65536);
    assert_eq!(cfg.join_origin, "");
    s.turn_static_auth_secret = Some("k".to_string());
    let cfg = Config::from_settings(&s);
    assert_eq!(cfg.turn_secret, Some("k".to_string()));
    assert_eq!(cfg.ip_salt.len(), 22);
    assert!(cfg.ip_salt.chars().all(|c| c.is_ascii_alphanumeric() || c == '+' || c == '/'));
    assert_ne!(Config::from_settings(&s).ip_salt, cfg.ip_salt);
}

#[test]
fn ice_servers_list_stun_then_turn() {
    let mut s = settings();
    let cfg = Config::with_salt(&s, "salt".to_string());
    let servers = cfg.ice_servers_at(1000).unwrap();
    assert_eq!(servers.len(), 1);
    assert_eq!(servers[0].urls, vec!["stun:stun.l.google.com:19302"]);
    assert_eq!(servers[0].username, None);
    s.turn_static_auth_secret = Some("k".to_string());
    let cfg = Config::with_salt(&s, "salt".to_string());
    let servers = cfg.ice_servers_at(1000).unwrap();
    assert_eq!(servers.len(), 2);
    assert_eq!(servers[1].urls.len(), 3);
    assert_eq!(servers[1].username.as_deref(), Some("1600:se"));
    assert_eq!(servers[1].credential, Some(turn_credentials_until("k", 1600).1));
    assert!(cfg.ice_servers_at(u64::MAX - 10).is_none());
    assert_eq!(cfg.ice_servers().unwrap().len(), 2);
    s.stun_urls = Some(" ,".to_string());
    s.turn_urls = Some("turn:x".to_string());
    let cfg = Config::with_salt(&s, "salt".to_string());
    let servers = cfg.ice_servers_at(0).unwrap();
    assert_eq!(servers.len(), 1);
    assert_eq!(servers[0].urls, vec!["turn:x"]);
    assert_eq!(servers[0].username.as_deref(), Some("600:se"));
}

#[test]
fn session_id_is_read_from_json_body() {
    assert_eq!(parse_session_id(br#"{"sessionId":"ABCDEFGH2345","otp":"123456"}"#), Some("ABCDEFGH2345".to_string()));
    assert_eq!(parse_session_id(br#"{"sessionId":12}"#), None);
    assert_eq!(parse_session_id(br#"{"other":"x"}"#), None);
    assert_eq!(parse_session_id(b"not json"), None);
    assert_eq!(parse_session_id(br#"["sessionId"]"#), None);
}

#[test]
fn unix_time_of_a_reading() {
    assert_eq!(unix_secs(Some(1_700_000_000)), 1_700_000_000);
    assert_eq!(unix_secs(Some(0)), 0);
    assert_eq!(unix_secs(None), 0);
    assert!(now_unix() > 1_600_000_000);
}
