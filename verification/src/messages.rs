//! What passes between the relay, its clients and its hosts, as plain values.
use vstd::prelude::*;
use crate::reply::HttpReply;
use crate::text::{before_first, opt_str_view, opt_view, chars_of, first_piece_end, string_of, trim, trim_bounds};

verus! {

/// The client's address as the relay sees it: the first entry of `X-Forwarded-For`,
/// trimmed, when that header is present; else `X-Real-IP`; else the peer address.
pub open spec fn client_ip_spec(
    forwarded_for: Option<Seq<char>>,
    real_ip: Option<Seq<char>>,
    peer_ip: Seq<char>,
) -> Seq<char> {
    match forwarded_for {
        Some(f) => trim(before_first(f, ',')),
        None => match real_ip {
            Some(r) => r,
            None => peer_ip,
        },
    }
}

/// The client's address, from the `X-Forwarded-For` and `X-Real-IP` header values (when
/// present as visible ASCII) and the peer's address.
pub fn client_ip(forwarded_for: Option<&str>, real_ip: Option<&str>, peer_ip: &str) -> (r: String)
    ensures
        r@ == client_ip_spec(opt_str_view(forwarded_for), opt_str_view(real_ip), peer_ip@),
{
    match forwarded_for {
        Some(f) => {
            let cs = chars_of(f);
            let end = first_piece_end(&cs, ',');
            let (a, b) = trim_bounds(&cs, 0, end);
            assert(cs@.subrange(0, end as int) == cs@.take(end as int));
            string_of(&cs, a, b)
        },
        None => match real_ip {
            Some(r) => r.to_owned(),
            None => peer_ip.to_owned(),
        },
    }
}

/// The string member `key` of the JSON document `doc`: `None` when `doc` is not JSON,
/// is not an object, lacks the member, or the member is not a string.
pub uninterp spec fn json_string_member(doc: Seq<u8>, key: Seq<char>) -> Option<Seq<char>>;

/// Calls `serde_json::from_slice::<serde_json::Value>` and reads member `key` with
/// `Value::get`, keeping it when it is a string: the claim is that the result is the
/// string member `key` of the document.
#[verifier::external_body]
fn json_text_member(doc: &[u8], key: &str) -> (r: Option<String>)
    ensures
        opt_view(r) == json_string_member(doc@, key@),
{
    match serde_json::from_slice::<serde_json::Value>(doc) {
        Ok(v) => match v.get(key) {
            Some(serde_json::Value::String(s)) => Some(s.clone()),
            _ => None,
        },
        Err(_) => None,
    }
}

/// The session id a client's `/whep` body names: its `sessionId` string member.
pub fn parse_session_id(body: &[u8]) -> (r: Option<String>)
    ensures
        opt_view(r) == json_string_member(body@, "sessionId"@),
{
    json_text_member(body, "sessionId")
}

/// Why a host's `register` is refused.
pub enum RegisterRefusal {
    RateLimited,
    InvalidSession,
    VersionUnsupported,
    SessionTaken,
}

pub open spec fn refusal_code(r: RegisterRefusal) -> Seq<char> {
    match r {
        RegisterRefusal::RateLimited => "rate_limited"@,
        RegisterRefusal::InvalidSession => "invalid_session"@,
        RegisterRefusal::VersionUnsupported => "version_unsupported"@,
        RegisterRefusal::SessionTaken => "session_taken"@,
    }
}

pub open spec fn refusal_message(r: RegisterRefusal) -> Seq<char> {
    match r {
        RegisterRefusal::RateLimited => "too many register attempts"@,
        RegisterRefusal::InvalidSession => "malformed session ID"@,
        RegisterRefusal::VersionUnsupported => "protocol must be 1"@,
        RegisterRefusal::SessionTaken => "session already hosted"@,
    }
}

impl RegisterRefusal {
    /// The code a host is told.
    pub fn code(&self) -> (r: &'static str)
        ensures
            r@ == refusal_code(*self),
    {
        match self {
            RegisterRefusal::RateLimited => "rate_limited",
            RegisterRefusal::InvalidSession => "invalid_session",
            RegisterRefusal::VersionUnsupported => "version_unsupported",
            RegisterRefusal::SessionTaken => "session_taken",
        }
    }

    /// The message a host is told.
    pub fn message(&self) -> (r: &'static str)
        ensures
            r@ == refusal_message(*self),
    {
        match self {
            RegisterRefusal::RateLimited => "too many register attempts",
            RegisterRefusal::InvalidSession => "malformed session ID",
            RegisterRefusal::VersionUnsupported => "protocol must be 1",
            RegisterRefusal::SessionTaken => "session already hosted",
        }
    }
}

/// A message the relay sends a host on its control connection.
pub enum HostMessage {
    /// `{"type":"registered", "sessionId", "joinUrl", "heartbeatSec"}`
    Registered { session_id: String, join_url: String, heartbeat_sec: u64 },
    /// `{"type":"register_error", "sessionId", "code", "message"}`
    RegisterError { session_id: String, code: String, message: String },
}

/// The refusal of a `register` for `sid`.
pub fn register_error(sid: &str, code: &str, message: &str) -> (r: HostMessage)
    ensures
        r matches HostMessage::RegisterError { session_id, code: c, message: m } && session_id@
            == sid@ && c@ == code@ && m@ == message@,
{
    HostMessage::RegisterError {
        session_id: sid.to_owned(),
        code: code.to_owned(),
        message: message.to_owned(),
    }
}

/// What the relay reads of a JSON text frame from a host: its `type`, `sessionId` and
/// `requestId` string members, its `protocol` member as an unsigned integer, and the
/// frame read as a host's answer (absent when it does not read as one).
pub struct HostFrame {
    pub kind: Option<String>,
    pub session_id: Option<String>,
    pub request_id: Option<String>,
    pub protocol: Option<u64>,
    pub response: Option<crate::reply::SignalResponse>,
}

/// A client request that the relay tunnels to a host: what it reads of the HTTP request.
pub struct TunnelRequest {
    pub method: String,
    pub path: String,
    /// The query string, empty when there is none.
    pub query: String,
    /// The `Cookie` header, when present as visible ASCII.
    pub cookie: Option<String>,
    /// The `X-Forwarded-For` header, when present as visible ASCII.
    pub forwarded_for: Option<String>,
    /// The `X-Real-IP` header, when present as visible ASCII.
    pub real_ip: Option<String>,
    /// The peer's IP address.
    pub peer_ip: String,
    /// The `Content-Type` header, when present as visible ASCII.
    pub content_type: Option<String>,
    pub body: Vec<u8>,
}

/// The `signal_request` that carries a client request to its host.
pub struct SignalRequest {
    pub request_id: String,
    pub session_id: String,
    pub client_id: String,
    pub method: String,
    pub path: String,
    pub query: String,
    /// The only header forwarded: the client's `Content-Type`.
    pub content_type: Option<String>,
    pub body: Vec<u8>,
    /// The salted hash of the client's address; the address itself is not forwarded.
    pub ip_hash: String,
    /// Whether the relay's ICE server list goes with the request (it does for `/whep`).
    pub with_ice_servers: bool,
}

/// What to do with a client request once the relay has looked at it.
pub enum TunnelStep {
    /// Answer the client at once.
    Respond(HttpReply),
    /// Send the request to the host on connection `conn_id` and wait at most
    /// `timeout_secs` for its answer.
    Forward { conn_id: String, request: SignalRequest, set_cookie: Option<String>, timeout_secs: u64 },
}

} // verus!
