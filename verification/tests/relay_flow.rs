use session_relay::config::{Config, Settings};
use session_relay::messages::{HostFrame, HostMessage, RegisterRefusal, TunnelRequest, TunnelStep, register_error};
use session_relay::rate_limit::RateLimiter;
use session_relay::relay::{HostConnection, HostReaction, Relay, HEARTBEAT_SEC, HOST_GRACE_SECS};
use session_relay::reply::{
    build_tunnel_response, finish, finish_tunnel, header_value_ok, route_timeout, HeaderField,
    SignalResponse, TunnelOutcome,
};
use session_relay::crypto::ip_hash;

const SID: &str = "ABCDEFGH2345";
const SEC: u128 = 1_000_000_000;

fn config() -> Config {
    Config::with_salt(
        &Settings {
            turn_static_auth_secret: None,
            turn_ttl_secs: None,
            stun_urls: None,
            turn_urls: None,
            body_limit_bytes: None,
            join_origin: Some("https://join.example".to_string()),
        },
        "salt".to_string(),
    )
}

fn register(relay: &mut Relay, conn: &mut HostConnection, sid: &str, protocol: Option<u64>, now: u128) -> HostMessage {
    relay.handle_register_at(conn, "10.0.0.1", sid, protocol, now)
}

fn refusal_code(msg: &HostMessage) -> Option<String> {
    match msg {
        HostMessage::RegisterError { code, .. } => Some(code.clone()),
        HostMessage::Registered { .. } => None,
    }
}

fn request(path: &str, cookie: Option<&str>, body: &[u8]) -> TunnelRequest {
    TunnelRequest {
        method: "POST".to_string(),
        path: path.to_string(),
        query: "a=1".to_string(),
        cookie: cookie.map(|c| c.to_string()),
        forwarded_for: Some("203.0.113.9, 10.0.0.2".to_string()),
        real_ip: None,
        peer_ip: "127.0.0.1".to_string(),
        content_type: Some("application/json".to_string()),
        body: body.to_vec(),
    }
}

fn whep_body(sid: &str) -> Vec<u8> {
    format!(r#"{{"sessionId":"{}","otp":"123456","sdp":"v=0"}}"#, sid).into_bytes()
}

fn status_of(step: &TunnelStep) -> Option<u16> {
    match step {
        TunnelStep::Respond(r) => Some(r.status),
        TunnelStep::Forward { .. } => None,
    }
}

#[test]
fn register_announces_join_url() {
    let mut relay = Relay::new(config(), 30, 60, 60);
    let mut conn = HostConnection::open();
    assert!(conn.conn_id.starts_with("conn_"));
    assert_eq!(conn.conn_id.len(), 37);
    match register(&mut relay, &mut conn, SID, Some(1), 0) {
        HostMessage::Registered { session_id, join_url, heartbeat_sec } => {
            assert_eq!(session_id, SID);
            assert_eq!(join_url, "https://join.example/?id=ABCDEFGH2345");
            assert_eq!(heartbeat_sec, 20);
        }
        _ => panic!("expected registered"),
    }
    assert_eq!(conn.sessions, vec![SID.to_string()]);
    // registering again on the same connection keeps one entry
    assert!(refusal_code(&register(&mut relay, &mut conn, SID, None, 1)).is_none());
    assert_eq!(conn.sessions, vec![SID.to_string()]);
    assert_eq!(HEARTBEAT_SEC, 20);
    assert_eq!(HOST_GRACE_SECS, 12);
}

#[test]
fn register_refusals_carry_codes() {
    let mut relay = Relay::new(config(), 30, 60, 60);
    let mut conn = HostConnection::open();
    let msg = register(&mut relay, &mut conn, "bad", None, 0);
    match msg {
        HostMessage::RegisterError { session_id, code, message } => {
            assert_eq!(session_id, "bad");
            assert_eq!(code, "invalid_session");
            assert_eq!(message, "malformed session ID");
        }
        _ => panic!("expected an error"),
    }
    assert_eq!(refusal_code(&register(&mut relay, &mut conn, SID, Some(2), 0)).as_deref(), Some("version_unsupported"));
    assert!(conn.sessions.is_empty());
    let mut other = HostConnection::open();
    assert!(refusal_code(&register(&mut relay, &mut conn, SID, None, 0)).is_none());
    let taken = register(&mut relay, &mut other, SID, None, 0);
    match taken {
        HostMessage::RegisterError { code, message, .. } => {
            assert_eq!(code, "session_taken");
            assert_eq!(message, "session already hosted");
        }
        _ => panic!("expected session_taken"),
    }
    assert!(other.sessions.is_empty());
}

#[test]
fn register_is_rate_limited_per_address() {
    let mut relay = Relay::new(config(), 30, 2, 60);
    let mut conn = HostConnection::open();
    assert!(refusal_code(&register(&mut relay, &mut conn, "bad", None, 0)).is_some());
    assert!(refusal_code(&register(&mut relay, &mut conn, SID, None, SEC)).is_none());
    let msg = register(&mut relay, &mut conn, SID, None, 2 * SEC);
    match msg {
        HostMessage::RegisterError { code, message, .. } => {
            assert_eq!(code, "rate_limited");
            assert_eq!(message, "too many register attempts");
        }
        _ => panic!("expected rate_limited"),
    }
    // another address is not limited
    assert!(refusal_code(&relay.handle_register_at(&mut conn, "10.0.0.2", SID, None, 2 * SEC)).is_none());
    // the window restarts once it has run out
    assert!(refusal_code(&register(&mut relay, &mut conn, SID, None, 61 * SEC)).is_none());
}

#[test]
fn refusal_texts() {
    assert_eq!(RegisterRefusal::RateLimited.code(), "rate_limited");
    assert_eq!(RegisterRefusal::SessionTaken.message(), "session already hosted");
    match register_error("S", "c", "m") {
        HostMessage::RegisterError { session_id, code, message } => {
            assert_eq!((session_id.as_str(), code.as_str(), message.as_str()), ("S", "c", "m"));
        }
        _ => panic!(),
    }
}

#[test]
fn whep_is_forwarded_to_the_registered_host() {
    let mut relay = Relay::new(config(), 30, 60, 60);
    let mut conn = HostConnection::open();
    register(&mut relay, &mut conn, SID, None, 0);
    let req = request("/whep", Some("se_cid=c_client"), &whep_body(SID));
    let step = relay.plan_tunnel(&req, "c_minted".to_string(), "r_1".to_string(), 0);
    match step {
        TunnelStep::Forward { conn_id, request, set_cookie, timeout_secs } => {
            assert_eq!(conn_id, conn.conn_id);
            assert_eq!(request.request_id, "r_1");
            assert_eq!(request.session_id, SID);
            assert_eq!(request.client_id, "c_client");
            assert_eq!(request.method, "POST");
            assert_eq!(request.path, "/whep");
            assert_eq!(request.query, "a=1");
            assert_eq!(request.content_type.as_deref(), Some("application/json"));
            assert_eq!(request.body, whep_body(SID));
            assert_eq!(request.ip_hash, ip_hash("salt", "203.0.113.9"));
            assert!(request.with_ice_servers);
            assert_eq!(set_cookie, None);
            assert_eq!(timeout_secs, 15);
        }
        TunnelStep::Respond(r) => panic!("unexpected answer {}", r.status),
    }
    // until the host has answered, the client is bound to no session
    let reconfig = request("/reconfig", Some("se_cid=c_client"), b"");
    assert_eq!(status_of(&relay.plan_tunnel(&reconfig, "c_x".to_string(), "r_2".to_string(), 0)), Some(204));
    let forwarded = match relay.plan_tunnel(&req, "c_minted".to_string(), "r_3".to_string(), 0) {
        TunnelStep::Forward { request, .. } => request,
        _ => panic!("expected forward"),
    };
    let answer = relay.finish_forwarded(
        &forwarded,
        TunnelOutcome::Answered(response(201, HeaderField::Text("application/sdp".into()), HeaderField::Missing, "v=0")),
        None,
    );
    assert_eq!((answer.status, answer.body.as_str()), (201, "v=0"));
    // /reconfig follows the binding of the client's last answered /whep
    let step = relay.plan_tunnel(&reconfig, "c_x".to_string(), "r_2".to_string(), 0);
    match step {
        TunnelStep::Forward { conn_id, request, timeout_secs, .. } => {
            assert_eq!(conn_id, conn.conn_id);
            assert_eq!(request.session_id, SID);
            assert!(!request.with_ice_servers);
            assert_eq!(timeout_secs, 5);
        }
        _ => panic!("expected forward"),
    }
}

#[test]
fn tunnel_refusals() {
    let mut relay = Relay::new(config(), 30, 60, 60);
    let mut conn = HostConnection::open();
    // no binding: 204 with a fresh cookie
    let step = relay.plan_tunnel(&request("/leave", None, b""), "c_new".to_string(), "r".to_string(), 0);
    match &step {
        TunnelStep::Respond(r) => {
            assert_eq!(r.status, 204);
            assert_eq!(r.body, "");
            assert_eq!(r.content_type.as_deref(), Some("text/plain"));
            assert_eq!(r.set_cookie.as_deref(), Some("se_cid=c_new; Path=/; Max-Age=86400; Secure; HttpOnly; SameSite=Lax"));
        }
        _ => panic!(),
    }
    // malformed body: 400
    let step = relay.plan_tunnel(&request("/whep", Some("se_cid=c_a"), b"{}"), "c".to_string(), "r".to_string(), 0);
    assert_eq!(status_of(&step), Some(400));
    let step = relay.plan_tunnel(&request("/whep", Some("se_cid=c_a"), &whep_body("short")), "c".to_string(), "r".to_string(), 0);
    assert_eq!(status_of(&step), Some(400));
    // nobody hosts it: 503, and no binding is made
    let step = relay.plan_tunnel(&request("/whep", Some("se_cid=c_a"), &whep_body(SID)), "c".to_string(), "r".to_string(), 0);
    match &step {
        TunnelStep::Respond(r) => {
            assert_eq!(r.status, 503);
            assert_eq!(r.body, "host offline");
            assert_eq!(r.set_cookie, None);
        }
        _ => panic!(),
    }
    register(&mut relay, &mut conn, SID, None, 0);
    assert_eq!(status_of(&relay.plan_tunnel(&request("/reconfig", Some("se_cid=c_a"), b""), "c".to_string(), "r".to_string(), 0)), Some(204));
}

#[test]
fn whep_is_rate_limited_per_client_and_address() {
    let mut relay = Relay::new(config(), 2, 60, 60);
    let mut conn = HostConnection::open();
    register(&mut relay, &mut conn, SID, None, 0);
    let a = request("/whep", Some("se_cid=c_a"), &whep_body(SID));
    assert_eq!(status_of(&relay.plan_tunnel(&a, "m".to_string(), "r".to_string(), 0)), None);
    assert_eq!(status_of(&relay.plan_tunnel(&a, "m".to_string(), "r".to_string(), SEC)), None);
    let step = relay.plan_tunnel(&a, "m".to_string(), "r".to_string(), 2 * SEC);
    match &step {
        TunnelStep::Respond(r) => {
            assert_eq!(r.status, 429);
            assert_eq!(r.body, "too many requests");
        }
        _ => panic!(),
    }
    // another client from the same address is limited by the address
    let b = request("/whep", Some("se_cid=c_b"), &whep_body(SID));
    assert_eq!(status_of(&relay.plan_tunnel(&b, "m".to_string(), "r".to_string(), 2 * SEC)), Some(429));
    // once the window has run out both pass again
    assert_eq!(status_of(&relay.plan_tunnel(&a, "m".to_string(), "r".to_string(), 70 * SEC)), None);
}

#[test]
fn closed_host_goes_offline_and_can_be_replaced() {
    let mut relay = Relay::new(config(), 30, 60, 60);
    let mut conn = HostConnection::open();
    register(&mut relay, &mut conn, SID, None, 0);
    let removals = relay.host_closed(&conn);
    assert_eq!(removals, vec![SID.to_string()]);
    let req = request("/whep", Some("se_cid=c_a"), &whep_body(SID));
    assert_eq!(status_of(&relay.plan_tunnel(&req, "m".to_string(), "r".to_string(), 0)), Some(503));
    let mut next = HostConnection::open();
    assert!(refusal_code(&register(&mut relay, &mut next, SID, None, 0)).is_none());
    // the grace removal of the old connection leaves the new host's session alone
    assert!(!relay.remove_session(SID, conn.conn_id.as_str()));
    match relay.plan_tunnel(&req, "m".to_string(), "r".to_string(), 0) {
        TunnelStep::Forward { conn_id, .. } => assert_eq!(conn_id, next.conn_id),
        _ => panic!("expected forward"),
    }
    assert!(relay.remove_session(SID, next.conn_id.as_str()));
    assert!(!relay.remove_session(SID, next.conn_id.as_str()));
    assert_eq!(status_of(&relay.plan_tunnel(&req, "m".to_string(), "r".to_string(), 0)), Some(503));
}

fn frame(kind: Option<&str>, sid: Option<&str>, rid: Option<&str>) -> HostFrame {
    HostFrame {
        kind: kind.map(|s| s.to_string()),
        session_id: sid.map(|s| s.to_string()),
        request_id: rid.map(|s| s.to_string()),
        protocol: None,
        response: None,
    }
}

#[test]
fn host_frames_are_dispatched_by_type() {
    let mut relay = Relay::new(config(), 30, 60, 60);
    let mut conn = HostConnection::open();
    match relay.on_host_frame_at(&mut conn, "ip", frame(Some("register"), Some(SID), None), 0) {
        HostReaction::Reply(HostMessage::Registered { session_id, .. }) => assert_eq!(session_id, SID),
        _ => panic!(),
    }
    match relay.on_host_frame_at(&mut conn, "ip", frame(Some("register"), None, None), 0) {
        HostReaction::Reply(HostMessage::RegisterError { session_id, code, .. }) => {
            assert_eq!(session_id, "");
            assert_eq!(code, "invalid_session");
        }
        _ => panic!(),
    }
    match relay.on_host_frame_at(&mut conn, "ip", frame(Some("signal_response"), None, Some("r_9")), 0) {
        HostReaction::Deliver { request_id, response } => {
            assert_eq!(request_id, "r_9");
            assert!(response.is_none());
        }
        _ => panic!(),
    }
    assert!(matches!(relay.on_host_frame_at(&mut conn, "ip", frame(Some("signal_response"), None, None), 0), HostReaction::Nothing));
    assert!(matches!(relay.on_host_frame_at(&mut conn, "ip", frame(Some("ping"), Some(SID), None), 0), HostReaction::Nothing));
    assert!(matches!(relay.on_host_frame_at(&mut conn, "ip", frame(None, Some(SID), None), 0), HostReaction::Nothing));
    assert!(matches!(relay.on_host_frame(&mut conn, "ip", frame(Some("unregister"), Some(SID), None)), HostReaction::Nothing));
    assert!(conn.sessions.is_empty());
    let req = request("/whep", Some("se_cid=c_a"), &whep_body(SID));
    assert_eq!(status_of(&relay.plan_tunnel(&req, "m".to_string(), "r".to_string(), 0)), Some(503));
}

#[test]
fn unregister_by_another_connection_keeps_the_session() {
    let mut relay = Relay::new(config(), 30, 60, 60);
    let mut conn = HostConnection::open();
    let mut other = HostConnection::open();
    register(&mut relay, &mut conn, SID, None, 0);
    relay.handle_unregister(&mut other, SID);
    let req = request("/whep", Some("se_cid=c_a"), &whep_body(SID));
    assert_eq!(status_of(&relay.plan_tunnel(&req, "m".to_string(), "r".to_string(), 0)), None);
}

#[test]
fn tunnel_mints_ids() {
    let mut relay = Relay::new(config(), 30, 60, 60);
    let mut conn = HostConnection::open();
    register(&mut relay, &mut conn, SID, None, 0);
    match relay.tunnel(&request("/whep", None, &whep_body(SID))) {
        TunnelStep::Forward { request, set_cookie, .. } => {
            assert!(request.request_id.starts_with("r_"));
            assert_eq!(request.request_id.len(), 34);
            assert!(request.client_id.starts_with("c_"));
            assert_eq!(set_cookie, Some(request.client_id.clone()));
        }
        _ => panic!(),
    }
}

#[test]
fn rate_limiter_counts_per_window() {
    let mut lim = RateLimiter::new(2, 1);
    assert!(lim.check_at("k", 0));
    assert!(lim.check_at("k", 10));
    assert!(!lim.check_at("k", SEC));
    assert!(lim.check_at("other", SEC));
    assert!(lim.check_at("k", SEC + 1));
    assert!(lim.check_at("k", SEC + 2));
    assert!(!lim.check_at("k", SEC + 3));
    lim.sweep_at(3 * SEC);
    assert!(lim.check_at("k", 3 * SEC));
    assert!(lim.check("fresh"));
    lim.sweep();
}

#[test]
fn zero_limit_allows_nothing() {
    let mut lim = RateLimiter::new(0, 1);
    assert!(!lim.check_at("k", 0));
    assert!(!lim.check_at("k", SEC));
    assert!(!lim.check_at("k", SEC + 1));
    assert!(!lim.check_at("k", 5 * SEC));
    assert!(!lim.check_at("other", 5 * SEC));
}

fn forwarded(step: TunnelStep) -> session_relay::messages::SignalRequest {
    match step {
        TunnelStep::Forward { request, .. } => request,
        TunnelStep::Respond(r) => panic!("unexpected answer {}", r.status),
    }
}

#[test]
fn unanswered_whep_binds_nothing() {
    let mut relay = Relay::new(config(), 30, 60, 60);
    let mut conn = HostConnection::open();
    register(&mut relay, &mut conn, SID, None, 0);
    let whep = request("/whep", Some("se_cid=c_a"), &whep_body(SID));
    let leave = request("/leave", Some("se_cid=c_a"), b"");
    let sent = forwarded(relay.plan_tunnel(&whep, "m".to_string(), "r_1".to_string(), 0));
    let r = relay.finish_forwarded(&sent, TunnelOutcome::HostGone, None);
    assert_eq!((r.status, r.body.as_str()), (502, "host gone"));
    assert_eq!(status_of(&relay.plan_tunnel(&leave, "m".to_string(), "r".to_string(), 0)), Some(204));
    let sent = forwarded(relay.plan_tunnel(&whep, "m".to_string(), "r_2".to_string(), 0));
    let r = relay.finish_forwarded(&sent, TunnelOutcome::TimedOut, Some("c_m".to_string()));
    assert_eq!((r.status, r.body.as_str()), (504, "host did not respond"));
    assert_eq!(r.set_cookie.as_deref(), Some("se_cid=c_m; Path=/; Max-Age=86400; Secure; HttpOnly; SameSite=Lax"));
    assert_eq!(status_of(&relay.plan_tunnel(&leave, "m".to_string(), "r".to_string(), 0)), Some(204));
    // an answered /whep binds; an answered /leave does not move the binding
    let sent = forwarded(relay.plan_tunnel(&whep, "m".to_string(), "r_3".to_string(), 0));
    relay.finish_forwarded(&sent, TunnelOutcome::Answered(response(200, HeaderField::Missing, HeaderField::Missing, "")), None);
    let sent = forwarded(relay.plan_tunnel(&leave, "m".to_string(), "r_4".to_string(), 0));
    assert_eq!(sent.session_id, SID);
    relay.finish_forwarded(&sent, TunnelOutcome::Answered(response(200, HeaderField::Missing, HeaderField::Missing, "")), None);
    assert_eq!(forwarded(relay.plan_tunnel(&leave, "m".to_string(), "r_5".to_string(), 0)).session_id, SID);
}

#[test]
fn cookie_less_refusal_hands_out_a_cookie() {
    let mut relay = Relay::new(config(), 30, 60, 60);
    match relay.tunnel(&request("/whep", None, &whep_body(SID))) {
        TunnelStep::Respond(r) => {
            assert_eq!((r.status, r.body.as_str()), (503, "host offline"));
            let cookie = r.set_cookie.expect("a cookie is handed out");
            assert!(cookie.starts_with("se_cid=c_"));
            assert!(cookie.ends_with("; Path=/; Max-Age=86400; Secure; HttpOnly; SameSite=Lax"));
            assert_eq!(cookie.len(), "se_cid=".len() + 24 + "; Path=/; Max-Age=86400; Secure; HttpOnly; SameSite=Lax".len());
        }
        _ => panic!("expected an answer"),
    }
}

#[test]
fn address_reaches_host_only_as_hash() {
    let mut relay = Relay::new(config(), 30, 60, 60);
    let mut conn = HostConnection::open();
    register(&mut relay, &mut conn, SID, None, 0);
    let first = request("/whep", Some("se_cid=c_a"), &whep_body(SID));
    let mut second = request("/whep", Some("se_cid=c_a"), &whep_body(SID));
    second.forwarded_for = None;
    second.real_ip = Some("198.51.100.7".to_string());
    second.peer_ip = "192.0.2.1".to_string();
    let a = forwarded(relay.plan_tunnel(&first, "m".to_string(), "r_1".to_string(), 0));
    let b = forwarded(relay.plan_tunnel(&second, "m".to_string(), "r_2".to_string(), 0));
    assert_eq!((a.request_id.as_str(), b.request_id.as_str()), ("r_1", "r_2"));
    assert_eq!(a.ip_hash, ip_hash("salt", "203.0.113.9"));
    assert_eq!(b.ip_hash, ip_hash("salt", "198.51.100.7"));
    assert_ne!(a.ip_hash, b.ip_hash);
    assert_eq!(
        (&a.session_id, &a.client_id, &a.method, &a.path, &a.query, &a.content_type, &a.body, a.with_ice_servers),
        (&b.session_id, &b.client_id, &b.method, &b.path, &b.query, &b.content_type, &b.body, b.with_ice_servers)
    );
}

fn response(status: u16, lower: HeaderField, title: HeaderField, body: &str) -> SignalResponse {
    SignalResponse { status, content_type_lower: lower, content_type_title: title, body: body.to_string() }
}

#[test]
fn host_answers_become_client_answers() {
    let r = build_tunnel_response(response(201, HeaderField::Text("application/sdp".into()), HeaderField::Missing, "v=0"), None);
    assert_eq!((r.status, r.body.as_str(), r.content_type.as_deref()), (201, "v=0", Some("application/sdp")));
    let r = build_tunnel_response(response(0, HeaderField::Missing, HeaderField::Text("text/x".into()), ""), Some("c_n".into()));
    assert_eq!(r.status, 502);
    assert_eq!(r.content_type.as_deref(), Some("text/x"));
    assert_eq!(r.set_cookie.as_deref(), Some("se_cid=c_n; Path=/; Max-Age=86400; Secure; HttpOnly; SameSite=Lax"));
    let r = build_tunnel_response(response(1000, HeaderField::NotText, HeaderField::Text("text/x".into()), ""), None);
    assert_eq!(r.status, 502);
    assert_eq!(r.content_type.as_deref(), Some("application/octet-stream"));
    let r = build_tunnel_response(response(999, HeaderField::Text("bad\nvalue".into()), HeaderField::Missing, ""), None);
    assert_eq!(r.status, 999);
    assert_eq!(r.content_type, None);
    let r = build_tunnel_response(response(100, HeaderField::Missing, HeaderField::Missing, ""), None);
    assert_eq!(r.status, 100);
    assert_eq!(r.content_type.as_deref(), Some("application/octet-stream"));
}

#[test]
fn tunnel_outcomes() {
    let r = finish_tunnel(TunnelOutcome::HostGone, None);
    assert_eq!((r.status, r.body.as_str()), (502, "host gone"));
    let r = finish_tunnel(TunnelOutcome::TimedOut, None);
    assert_eq!((r.status, r.body.as_str()), (504, "host did not respond"));
    let r = finish_tunnel(TunnelOutcome::Answered(response(204, HeaderField::Missing, HeaderField::Missing, "")), None);
    assert_eq!(r.status, 204);
    let r = finish(429, "too many requests", None, "text/plain");
    assert_eq!(r.content_type.as_deref(), Some("text/plain"));
}

#[test]
fn header_values_and_timeouts() {
    assert!(header_value_ok("text/plain; charset=utf-8"));
    assert!(header_value_ok("tab\there"));
    assert!(header_value_ok("é"));
    assert!(!header_value_ok("a\u{7f}"));
    assert!(!header_value_ok("a\r\nb"));
    assert_eq!(route_timeout("/whep"), 15);
    assert_eq!(route_timeout("/reconfig"), 5);
    assert_eq!(route_timeout("/leave"), 3);
    assert_eq!(route_timeout("/other"), 10);
}
