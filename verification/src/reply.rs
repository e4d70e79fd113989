//! The HTTP answers the relay gives clients.
use vstd::prelude::*;
use crate::cookie::{cookie_header, cookie_header_spec};
use crate::text::{chars_of, opt_view, str_eq};

verus! {

/// Whether `s` can be an HTTP header value (`http::HeaderValue::from_str`): every byte is
/// a tab, or at least a space and not DEL. Bytes of non-ASCII characters are all above
/// DEL, so it suffices to look at the characters.
pub open spec fn is_header_value(s: Seq<char>) -> bool {
    forall|i: int| 0 <= i < s.len() ==> (#[trigger] s[i] == '\t' || (' ' <= s[i] && s[i] != '\u{7f}'))
}

pub fn header_value_ok(s: &str) -> (r: bool)
    ensures
        r == is_header_value(s@),
{
    let cs = chars_of(s);
    let mut i: usize = 0;
    while i < cs.len()
        invariant
            cs@ == s@,
            i <= cs@.len(),
            forall|j: int| 0 <= j < i ==> (#[trigger] cs@[j] == '\t' || (' ' <= cs@[j] && cs@[j] != '\u{7f}')),
        decreases cs@.len() - i,
    {
        let c = cs[i];
        if !(c == '\t' || (' ' <= c && c != '\u{7f}')) {
            return false;
        }
        i = i + 1;
    }
    true
}

/// An HTTP answer: status, body, and the content-type and cookie headers the relay sets.
/// (The server adds `Cache-Control: no-store` to every answer when it sends one.)
pub struct HttpReply {
    pub status: u16,
    pub body: String,
    /// The `Content-Type` value, when one is set.
    pub content_type: Option<String>,
    /// The `Set-Cookie` value, when one is set.
    pub set_cookie: Option<String>,
}

/// The header that carries `value`, when it is a valid header value.
pub open spec fn header_if_valid(value: Seq<char>) -> Option<Seq<char>> {
    if is_header_value(value) {
        Some(value)
    } else {
        None
    }
}

/// The `Set-Cookie` header for a newly minted client id, when there is one.
pub open spec fn set_cookie_header(cid: Option<Seq<char>>) -> Option<Seq<char>> {
    match cid {
        Some(c) => header_if_valid(cookie_header_spec(c)),
        None => None,
    }
}

fn header_or_none(value: String) -> (r: Option<String>)
    ensures
        opt_view(r) == header_if_valid(value@),
{
    if header_value_ok(value.as_str()) {
        Some(value)
    } else {
        None
    }
}

fn set_cookie_for(set_cookie: Option<String>) -> (r: Option<String>)
    ensures
        opt_view(r) == set_cookie_header(opt_view(set_cookie)),
{
    match set_cookie {
        Some(cid) => header_or_none(cookie_header(cid.as_str())),
        None => None,
    }
}

/// A plain answer of the relay's own: `status` with `body`, content type `ct`, and the
/// client-id cookie when one was minted for this request.
pub fn finish(status: u16, body: &str, set_cookie: Option<String>, ct: &str) -> (r: HttpReply)
    ensures
        r.status == status,
        r.body@ == body@,
        opt_view(r.content_type) == header_if_valid(ct@),
        opt_view(r.set_cookie) == set_cookie_header(opt_view(set_cookie)),
{
    HttpReply {
        status,
        body: body.to_owned(),
        content_type: header_or_none(ct.to_owned()),
        set_cookie: set_cookie_for(set_cookie),
    }
}

/// How long the relay waits for a host's answer to a request on `path`, in seconds.
pub open spec fn route_timeout_spec(path: Seq<char>) -> u64 {
    if path == "/whep"@ {
        15
    } else if path == "/reconfig"@ {
        5
    } else if path == "/leave"@ {
        3
    } else {
        10
    }
}

pub fn route_timeout(path: &str) -> (r: u64)
    ensures
        r == route_timeout_spec(path@),
{
    if str_eq(path, "/whep") {
        15
    } else if str_eq(path, "/reconfig") {
        5
    } else if str_eq(path, "/leave") {
        3
    } else {
        10
    }
}

/// A member of the host's `headers` object.
pub enum HeaderField {
    /// The member is absent (or `headers` is not an object).
    Missing,
    /// The member is a JSON string.
    Text(String),
    /// The member is present but not a string.
    NotText,
}

/// A host's answer to a tunnelled request: `status` (0 when absent), the `content-type`
/// and `Content-Type` members of its `headers`, and its `body` (empty when absent).
pub struct SignalResponse {
    pub status: u16,
    pub content_type_lower: HeaderField,
    pub content_type_title: HeaderField,
    pub body: String,
}

/// The content type a host's answer names: the lowercase member when present, the
/// capitalised one otherwise, when it is a string; `application/octet-stream` otherwise.
pub open spec fn answer_content_type(resp: SignalResponse) -> Seq<char> {
    let field = match resp.content_type_lower {
        HeaderField::Missing => resp.content_type_title,
        other => other,
    };
    match field {
        HeaderField::Text(s) => s@,
        _ => "application/octet-stream"@,
    }
}

/// The status a host's answer is relayed with: its own when it is a valid HTTP status
/// (100 to 999), 502 otherwise.
pub open spec fn answer_status(status: u16) -> u16 {
    if 100 <= status && status <= 999 {
        status
    } else {
        502
    }
}

/// The client's answer built from a host's answer.
pub fn build_tunnel_response(resp: SignalResponse, set_cookie: Option<String>) -> (r: HttpReply)
    ensures
        r.status == answer_status(resp.status),
        100 <= resp.status <= 999 ==> r.status == resp.status,
        !(100 <= resp.status <= 999) ==> r.status == 502,
        r.body@ == resp.body@,
        opt_view(r.content_type) == header_if_valid(answer_content_type(resp)),
        opt_view(r.set_cookie) == set_cookie_header(opt_view(set_cookie)),
{
    let status = if 100 <= resp.status && resp.status <= 999 {
        resp.status
    } else {
        502
    };
    let ghost spec_ct = answer_content_type(resp);
    let field = match resp.content_type_lower {
        HeaderField::Missing => resp.content_type_title,
        other => other,
    };
    let content_type = match field {
        HeaderField::Text(s) => s,
        _ => "application/octet-stream".to_owned(),
    };
    assert(content_type@ == spec_ct);
    HttpReply {
        status,
        body: resp.body,
        content_type: header_or_none(content_type),
        set_cookie: set_cookie_for(set_cookie),
    }
}

/// How a tunnelled request ended on the host's side.
pub enum TunnelOutcome {
    /// The host answered.
    Answered(SignalResponse),
    /// The host's connection went away before it answered.
    HostGone,
    /// The host did not answer in time.
    TimedOut,
}

/// `r` is the client's answer for a tunnelled request that ended with `outcome`: the
/// host's answer, `502 host gone`, or `504 host did not respond`, with the client-id
/// cookie `set_cookie` when one was minted for the request.
pub open spec fn answers_outcome(r: HttpReply, outcome: TunnelOutcome, set_cookie: Option<Seq<char>>) -> bool {
    &&& match outcome {
        TunnelOutcome::Answered(resp) => {
            &&& r.status == answer_status(resp.status)
            &&& r.body@ == resp.body@
            &&& opt_view(r.content_type) == header_if_valid(answer_content_type(resp))
        },
        TunnelOutcome::HostGone => {
            &&& r.status == 502
            &&& r.body@ == "host gone"@
            &&& opt_view(r.content_type) == header_if_valid("text/plain"@)
        },
        TunnelOutcome::TimedOut => {
            &&& r.status == 504
            &&& r.body@ == "host did not respond"@
            &&& opt_view(r.content_type) == header_if_valid("text/plain"@)
        },
    }
    &&& opt_view(r.set_cookie) == set_cookie_header(set_cookie)
}

/// The client's answer for a tunnelled request that ended with `outcome`.
pub fn finish_tunnel(outcome: TunnelOutcome, set_cookie: Option<String>) -> (r: HttpReply)
    ensures
        answers_outcome(r, outcome, opt_view(set_cookie)),
{
    match outcome {
        TunnelOutcome::Answered(resp) => build_tunnel_response(resp, set_cookie),
        TunnelOutcome::HostGone => finish(502, "host gone", set_cookie, "text/plain"),
        TunnelOutcome::TimedOut => finish(504, "host did not respond", set_cookie, "text/plain"),
    }
}

/// A host's answer keeps its status: every status from 100 to 999 (any status an HTTP
/// response can carry) reaches the client as it is, and only a status outside that range
/// becomes `502`. So does every outcome the host answered.
pub proof fn lemma_host_status_passes_through(r: HttpReply, outcome: TunnelOutcome, set_cookie: Option<Seq<char>>)
    requires
        answers_outcome(r, outcome, set_cookie),
        outcome is Answered,
    ensures
        100 <= outcome->Answered_0.status <= 999 ==> r.status == outcome->Answered_0.status,
        !(100 <= outcome->Answered_0.status <= 999) ==> r.status == 502,
{
}

} // verus!
