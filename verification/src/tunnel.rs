//! How the relay routes a client request to the host of its session.
use vstd::prelude::*;
use crate::cookie::{
    cookie_header_spec, is_valid_session_id, lemma_url_safe_cookie_is_header_value, read_cid,
    read_cid_spec, valid_session_id,
};
use crate::crypto::{
    ip_hash, ip_hash_spec, is_minted_cid, is_minted_id, is_url_safe_char, mint_cid, mint_id,
};
use crate::maps::{bindings_get, bindings_insert, lookup, sessions_get};
use crate::messages::{
    client_ip, client_ip_spec, json_string_member, parse_session_id, SignalRequest,
    TunnelRequest, TunnelStep,
};
use crate::rate_limit::{check_step, RateLimiter};
use crate::relay::Relay;
use crate::reply::{
    answers_outcome, finish, finish_tunnel, header_if_valid, is_header_value, route_timeout,
    route_timeout_spec, set_cookie_header, HttpReply, TunnelOutcome,
};
use crate::text::{opt_view, str_eq};

verus! {

/// Where a client request goes: answered at once with a status and body, or to the host
/// connection `conn` that holds session `sid`.
pub enum Route {
    Reject(u16, Seq<char>),
    To(Seq<char>, Seq<char>),
}

/// The client id of a request: the one its cookie carries, else the freshly minted one.
pub open spec fn request_cid(req: TunnelRequest, minted: Seq<char>) -> Seq<char> {
    match read_cid_spec(opt_view(req.cookie)) {
        Some(c) => c,
        None => minted,
    }
}

/// The client id to hand the client in a cookie: the minted one, when the request
/// carries none.
pub open spec fn minted_cookie(req: TunnelRequest, minted: Seq<char>) -> Option<Seq<char>> {
    match read_cid_spec(opt_view(req.cookie)) {
        Some(_) => None,
        None => Some(minted),
    }
}

pub open spec fn is_whep(req: TunnelRequest) -> bool {
    req.path@ == "/whep"@
}

/// The client's address for a request.
pub open spec fn request_ip(req: TunnelRequest) -> Seq<char> {
    client_ip_spec(opt_view(req.forwarded_for), opt_view(req.real_ip), req.peer_ip@)
}

/// The rate-limit key of a client id.
pub open spec fn cid_key(cid: Seq<char>) -> Seq<char> {
    "cid:"@ + cid
}

/// The rate-limit key of a client address.
pub open spec fn ip_key(ip: Seq<char>) -> Seq<char> {
    "ip:"@ + ip
}

/// The `/whep` rate gate at time `now`: the client id is checked, then, when that is
/// allowed, the client address. Gives the limiter's records afterwards and whether both
/// checks were allowed.
pub open spec fn whep_gate(lim: RateLimiter, cid: Seq<char>, ip: Seq<char>, now: u128) -> (
    Map<Seq<char>, (u128, u32)>,
    bool,
) {
    let first = check_step(lookup(lim.entries(), cid_key(cid)), now, lim.limit(), lim.window_nanos());
    let after_first = lim.entries().insert(cid_key(cid), first.0);
    if !first.1 {
        (after_first, false)
    } else {
        let second = check_step(lookup(after_first, ip_key(ip)), now, lim.limit(), lim.window_nanos());
        (after_first.insert(ip_key(ip), second.0), second.1)
    }
}

/// Where a request goes. A `/whep` must pass the rate gate (else 429) and name a
/// well-formed session id in its body (else 400); any other request goes to the session
/// its client id is bound to (else 204, empty). The session's host must be connected and
/// not draining (else 503).
pub open spec fn route(
    sessions: Map<Seq<char>, (Seq<char>, bool)>,
    bindings: Map<Seq<char>, Seq<char>>,
    whep: bool,
    gate_passed: bool,
    cid: Seq<char>,
    named: Option<Seq<char>>,
) -> Route {
    if whep && !gate_passed {
        Route::Reject(429, "too many requests"@)
    } else if whep && !(named matches Some(s) && is_valid_session_id(s)) {
        Route::Reject(400, "bad request"@)
    } else if !whep && !bindings.dom().contains(cid) {
        Route::Reject(204, ""@)
    } else {
        let sid = if whep {
            named->0
        } else {
            bindings[cid]
        };
        match lookup(sessions, sid) {
            Some(l) => if !l.1 {
                Route::To(sid, l.0)
            } else {
                Route::Reject(503, "host offline"@)
            },
            None => Route::Reject(503, "host offline"@),
        }
    }
}

impl Relay {
    /// The route of request `req` in this relay, with `minted` as the client id when it
    /// carries none, at time `now` on the `/whep` limiter's clock.
    pub open spec fn route_of(self, req: TunnelRequest, minted: Seq<char>, now: u128) -> Route {
        let cid = request_cid(req, minted);
        let gate = whep_gate(self.whep_limiter, cid, request_ip(req), now);
        route(
            self.sessions(),
            self.bindings(),
            is_whep(req),
            gate.1,
            cid,
            json_string_member(req.body@, "sessionId"@),
        )
    }

    /// `next` and `step` follow from request `req` in this relay, with `minted` as the
    /// new client id if one is needed, `rid` as the request id, and `now` on the `/whep`
    /// limiter's clock. Only a `/whep` touches the rate limiter; nothing else changes
    /// (a `/whep` binds its client id only once its host has answered, in
    /// `finish_forwarded`). A forwarded request carries the client's method, path, query, content type and body
    /// unchanged, and its address only as a salted hash.
    pub open spec fn tunnel_step(
        self,
        next: Self,
        req: TunnelRequest,
        minted: Seq<char>,
        rid: Seq<char>,
        now: u128,
        step: TunnelStep,
    ) -> bool {
        let cid = request_cid(req, minted);
        let whep = is_whep(req);
        let gate = whep_gate(self.whep_limiter, cid, request_ip(req), now);
        let route = self.route_of(req, minted, now);
        &&& next.whep_limiter.entries() == if whep {
            gate.0
        } else {
            self.whep_limiter.entries()
        }
        &&& next.whep_limiter.limit() == self.whep_limiter.limit()
        &&& next.whep_limiter.window_nanos() == self.whep_limiter.window_nanos()
        &&& next.register_limiter == self.register_limiter
        &&& next.cfg == self.cfg
        &&& next.sessions() == self.sessions()
        &&& next.bindings() == self.bindings()
        &&& match route {
            Route::Reject(status, body) => {
                &&& step matches TunnelStep::Respond(reply)
                &&& reply.status == status
                &&& reply.body@ == body
                &&& opt_view(reply.content_type) == header_if_valid("text/plain"@)
                &&& opt_view(reply.set_cookie) == set_cookie_header(minted_cookie(req, minted))
            },
            Route::To(sid, conn) => {
                &&& step matches TunnelStep::Forward { conn_id, request, set_cookie, timeout_secs }
                &&& conn_id@ == conn
                &&& request.request_id@ == rid
                &&& request.session_id@ == sid
                &&& request.client_id@ == cid
                &&& request.method@ == req.method@
                &&& request.path@ == req.path@
                &&& request.query@ == req.query@
                &&& opt_view(request.content_type) == opt_view(req.content_type)
                &&& request.body@ == req.body@
                &&& request.ip_hash@ == ip_hash_spec(self.cfg.ip_salt@, request_ip(req))
                &&& request.with_ice_servers == whep
                &&& opt_view(set_cookie) == minted_cookie(req, minted)
                &&& timeout_secs == route_timeout_spec(req.path@)
            },
        }
    }

    /// Decides what happens to client request `req`, with `minted` as its client id if it
    /// carries none, `rid` as its request id, at time `now` on the `/whep` limiter's clock.
    pub fn plan_tunnel(&mut self, req: &TunnelRequest, minted: String, rid: String, now: u128) -> (step: TunnelStep)
        ensures
            old(self).tunnel_step(*final(self), *req, minted@, rid@, now, step),
    {
        let (cid, set_cookie) = match read_cid(
            match &req.cookie {
                Some(c) => Some(c.as_str()),
                None => None,
            },
        ) {
            Some(c) => (c, None),
            None => (minted.clone(), Some(minted)),
        };
        let whep = str_eq(req.path.as_str(), "/whep");
        let ip = client_ip(
            match &req.forwarded_for {
                Some(f) => Some(f.as_str()),
                None => None,
            },
            match &req.real_ip {
                Some(r) => Some(r.as_str()),
                None => None,
            },
            req.peer_ip.as_str(),
        );
        let sid: String;
        if whep {
            let mut cid_k = "cid:".to_owned();
            cid_k.append(cid.as_str());
            if !self.whep_limiter.check_at(cid_k.as_str(), now) {
                return TunnelStep::Respond(finish(429, "too many requests", set_cookie, "text/plain"));
            }
            let mut ip_k = "ip:".to_owned();
            ip_k.append(ip.as_str());
            if !self.whep_limiter.check_at(ip_k.as_str(), now) {
                return TunnelStep::Respond(finish(429, "too many requests", set_cookie, "text/plain"));
            }
            match parse_session_id(req.body.as_slice()) {
                Some(s) => {
                    if valid_session_id(s.as_str()) {
                        sid = s;
                    } else {
                        return TunnelStep::Respond(finish(400, "bad request", set_cookie, "text/plain"));
                    }
                },
                None => {
                    return TunnelStep::Respond(finish(400, "bad request", set_cookie, "text/plain"));
                },
            }
        } else {
            match bindings_get(&self.bindings, cid.as_str()) {
                Some(s) => {
                    sid = s;
                },
                None => {
                    return TunnelStep::Respond(finish(204, "", set_cookie, "text/plain"));
                },
            }
        }
        let conn_id = match sessions_get(&self.sessions, sid.as_str()) {
            Some(link) => {
                if link.draining {
                    return TunnelStep::Respond(finish(503, "host offline", set_cookie, "text/plain"));
                }
                link.conn_id
            },
            None => {
                return TunnelStep::Respond(finish(503, "host offline", set_cookie, "text/plain"));
            },
        };
        let request = SignalRequest {
            request_id: rid,
            session_id: sid,
            client_id: cid,
            method: req.method.clone(),
            path: req.path.clone(),
            query: req.query.clone(),
            content_type: match &req.content_type {
                Some(c) => Some(c.clone()),
                None => None,
            },
            body: vstd::slice::slice_to_vec(req.body.as_slice()),
            ip_hash: ip_hash(self.cfg.ip_salt.as_str(), ip.as_str()),
            with_ice_servers: whep,
        };
        TunnelStep::Forward { conn_id, request, set_cookie, timeout_secs: route_timeout(req.path.as_str()) }
    }

    /// Decides what happens to client request `req` now, minting a client id and a
    /// request id for it.
    pub fn tunnel(&mut self, req: &TunnelRequest) -> (step: TunnelStep)
        ensures
            exists|minted: Seq<char>, rid: Seq<char>, now: u128|
                #![trigger old(self).tunnel_step(*final(self), *req, minted, rid, now, step)]
                {
                    &&& is_minted_cid(minted)
                    &&& forall|i: int| 0 <= i < minted.len() ==> is_url_safe_char(#[trigger] minted[i])
                    &&& is_header_value(cookie_header_spec(minted))
                    &&& is_minted_id("r_"@, rid)
                    &&& old(self).tunnel_step(*final(self), *req, minted, rid, now, step)
                },
    {
        let minted = mint_cid();
        proof {
            lemma_url_safe_cookie_is_header_value(minted@);
        }
        let rid = mint_id("r_");
        let now = self.whep_limiter.now();
        let ghost g_minted = minted@;
        let ghost g_rid = rid@;
        let step = self.plan_tunnel(req, minted, rid, now);
        assert(old(self).tunnel_step(*self, *req, g_minted, g_rid, now, step));
        step
    }

    /// `next` follows from finishing forwarded request `request` with `outcome`: a `/whep`
    /// that its host answered binds the client id to the session; nothing else changes.
    pub open spec fn forwarded_step(self, next: Self, request: SignalRequest, outcome: TunnelOutcome) -> bool {
        &&& next.bindings() == if request.path@ == "/whep"@ && outcome is Answered {
            self.bindings().insert(request.client_id@, request.session_id@)
        } else {
            self.bindings()
        }
        &&& next.sessions() == self.sessions()
        &&& next.whep_limiter == self.whep_limiter
        &&& next.register_limiter == self.register_limiter
        &&& next.cfg == self.cfg
    }

    /// Finishes forwarded request `request` once it has ended with `outcome`: records the
    /// client's session when the request is a `/whep` its host answered, and gives the
    /// client's answer, with the client-id cookie `set_cookie` when one was minted.
    pub fn finish_forwarded(
        &mut self,
        request: &SignalRequest,
        outcome: TunnelOutcome,
        set_cookie: Option<String>,
    ) -> (r: HttpReply)
        ensures
            old(self).forwarded_step(*final(self), *request, outcome),
            answers_outcome(r, outcome, opt_view(set_cookie)),
    {
        let answered = match &outcome {
            TunnelOutcome::Answered(_) => true,
            _ => false,
        };
        if answered && str_eq(request.path.as_str(), "/whep") {
            bindings_insert(&mut self.bindings, request.client_id.clone(), request.session_id.clone());
        }
        finish_tunnel(outcome, set_cookie)
    }
}

} // verus!

verus! {

/// A host that has registered a session can be reached: right after a successful
/// `register`, a `/whep` that passes the rate gate and names that session goes to the
/// registering connection.
pub proof fn lemma_registered_session_is_reachable(
    before: Relay,
    after: Relay,
    conn: crate::relay::HostConnection,
    next_conn: crate::relay::HostConnection,
    ip: Seq<char>,
    sid: Seq<char>,
    protocol: Option<u64>,
    now: u128,
    msg: crate::messages::HostMessage,
    bindings: Map<Seq<char>, Seq<char>>,
    cid: Seq<char>,
)
    requires
        before.register_step(after, conn, next_conn, ip, sid, protocol, now, msg),
        msg is Registered,
    ensures
        route(after.sessions(), bindings, true, true, cid, Some(sid)) == Route::To(sid, conn.conn_id@),
{
    let allowed = before.register_limiter.allows(ip, now);
    assert(crate::relay::register_refusal(before.sessions(), conn.conn_id@, sid, protocol, allowed) is None);
    assert(after.sessions().dom().contains(sid));
}

/// `/reconfig` and `/leave` follow the client's last answered `/whep`: once the host has
/// answered a forwarded `/whep`, the client id is bound to that session, every other
/// client's binding is as it was, and any other request with the same client id goes
/// where that `/whep` went.
pub proof fn lemma_whep_binds_client(
    before: Relay,
    mid: Relay,
    after: Relay,
    req: TunnelRequest,
    minted: Seq<char>,
    rid: Seq<char>,
    now: u128,
    step: TunnelStep,
    outcome: TunnelOutcome,
    later: TunnelRequest,
    later_minted: Seq<char>,
    later_now: u128,
)
    requires
        before.tunnel_step(mid, req, minted, rid, now, step),
        is_whep(req),
        step is Forward,
        mid.forwarded_step(after, step->request, outcome),
        outcome is Answered,
        !is_whep(later),
        request_cid(later, later_minted) == request_cid(req, minted),
    ensures
        before.route_of(req, minted, now) is To,
        after.bindings() == before.bindings().insert(
            request_cid(req, minted),
            before.route_of(req, minted, now)->To_0,
        ),
        after.route_of(later, later_minted, later_now) == before.route_of(req, minted, now),
{
    let r = before.route_of(req, minted, now);
    assert(r is To);
    let cid = request_cid(req, minted);
    assert(after.bindings() == before.bindings().insert(cid, r->To_0));
    assert(after.bindings().dom().contains(cid));
}

/// Only an answered `/whep` moves a binding: a forwarded request that its host did not
/// answer (`502` or `504`), or that is not a `/whep`, leaves every client's binding as it
/// was.
pub proof fn lemma_only_answered_whep_binds(
    before: Relay,
    mid: Relay,
    after: Relay,
    req: TunnelRequest,
    minted: Seq<char>,
    rid: Seq<char>,
    now: u128,
    step: TunnelStep,
    outcome: TunnelOutcome,
)
    requires
        before.tunnel_step(mid, req, minted, rid, now, step),
        step is Forward,
        mid.forwarded_step(after, step->request, outcome),
        !(is_whep(req) && outcome is Answered),
    ensures
        after.bindings() == before.bindings(),
{
}

/// A client's address reaches its host only as a salted hash: two requests from the same
/// client (the same client id: the same cookie, or the same minted id without one) that
/// differ in nothing but the client's address (`X-Forwarded-For`, `X-Real-IP`, peer)
/// and are both forwarded from the same relay go to the same host with the same
/// message, but for the request id and the address hash, which is the hash of each
/// one's address under the relay's salt.
pub proof fn lemma_address_reaches_host_only_as_hash(
    before: Relay,
    after1: Relay,
    after2: Relay,
    req1: TunnelRequest,
    req2: TunnelRequest,
    minted1: Seq<char>,
    minted2: Seq<char>,
    rid1: Seq<char>,
    rid2: Seq<char>,
    now1: u128,
    now2: u128,
    step1: TunnelStep,
    step2: TunnelStep,
)
    requires
        before.tunnel_step(after1, req1, minted1, rid1, now1, step1),
        before.tunnel_step(after2, req2, minted2, rid2, now2, step2),
        step1 is Forward,
        step2 is Forward,
        request_cid(req1, minted1) == request_cid(req2, minted2),
        req1.method@ == req2.method@,
        req1.path@ == req2.path@,
        req1.query@ == req2.query@,
        opt_view(req1.cookie) == opt_view(req2.cookie),
        opt_view(req1.content_type) == opt_view(req2.content_type),
        req1.body@ == req2.body@,
    ensures
        step1->conn_id@ == step2->conn_id@,
        opt_view(step1->set_cookie) == opt_view(step2->set_cookie),
        step1->timeout_secs == step2->timeout_secs,
        step1->request.session_id@ == step2->request.session_id@,
        step1->request.client_id@ == step2->request.client_id@,
        step1->request.method@ == step2->request.method@,
        step1->request.path@ == step2->request.path@,
        step1->request.query@ == step2->request.query@,
        opt_view(step1->request.content_type) == opt_view(step2->request.content_type),
        step1->request.body@ == step2->request.body@,
        step1->request.with_ice_servers == step2->request.with_ice_servers,
        step1->request.request_id@ == rid1,
        step2->request.request_id@ == rid2,
        step1->request.ip_hash@ == ip_hash_spec(before.cfg.ip_salt@, request_ip(req1)),
        step2->request.ip_hash@ == ip_hash_spec(before.cfg.ip_salt@, request_ip(req2)),
{
    let r1 = before.route_of(req1, minted1, now1);
    let r2 = before.route_of(req2, minted2, now2);
    assert(r1 is To);
    assert(r2 is To);
    assert(r1 == r2);
}

/// A session that no host holds is offline, whatever the path: a `/whep` that passes the
/// gate and names a well-formed session no host holds, or any other request whose client
/// is bound to such a session, is answered `503 host offline`. Only a request other than
/// `/whep` from a client bound to no session at all is answered `204`.
pub proof fn lemma_unhosted_session_is_offline(
    sessions: Map<Seq<char>, (Seq<char>, bool)>,
    bindings: Map<Seq<char>, Seq<char>>,
    whep: bool,
    gate_passed: bool,
    cid: Seq<char>,
    named: Option<Seq<char>>,
)
    ensures
        (whep && gate_passed && named is Some && is_valid_session_id(named->0)
            && !sessions.dom().contains(named->0)) ==> route(sessions, bindings, whep, gate_passed, cid, named)
            == Route::Reject(503, "host offline"@),
        (!whep && bindings.dom().contains(cid) && !sessions.dom().contains(bindings[cid])) ==> route(
            sessions,
            bindings,
            whep,
            gate_passed,
            cid,
            named,
        ) == Route::Reject(503, "host offline"@),
        (route(sessions, bindings, whep, gate_passed, cid, named) == Route::Reject(204, ""@)) <==> (
        !whep && !bindings.dom().contains(cid)),
{
    reveal_strlit("");
    reveal_strlit("host offline");
    reveal_strlit("too many requests");
    reveal_strlit("bad request");
}

/// Once a host's connection has closed, its sessions take no more requests: any request
/// routed to one of them is answered `503 host offline`.
pub proof fn lemma_closed_host_is_offline(
    before: Relay,
    after: Relay,
    conn: crate::relay::HostConnection,
    sid: Seq<char>,
    bindings: Map<Seq<char>, Seq<char>>,
    whep: bool,
    gate_passed: bool,
    cid: Seq<char>,
    named: Option<Seq<char>>,
)
    requires
        before.closed_step(after, conn),
        lookup(before.sessions(), sid) matches Some(l) && l.0 == conn.conn_id@,
        (whep && gate_passed && named == Some(sid) && is_valid_session_id(sid)) || (!whep
            && bindings.dom().contains(cid) && bindings[cid] == sid),
    ensures
        route(after.sessions(), bindings, whep, gate_passed, cid, named) == Route::Reject(
            503,
            "host offline"@,
        ),
{
    assert(after.sessions().dom().contains(sid));
    assert(after.sessions()[sid].1);
}

} // verus!

verus! {

/// A browser keeps its client id: a request whose `Cookie` header is the `se_cid` cookie
/// the relay handed out (any non-empty id without `;` that does not end in whitespace,
/// as minted ids are) is taken to come from that client, and no new cookie is handed
/// out.
pub proof fn lemma_client_keeps_its_id(req: TunnelRequest, cid: Seq<char>, minted: Seq<char>)
    requires
        opt_view(req.cookie) == Some("se_cid="@ + cid),
        cid.len() > 0,
        forall|i: int| 0 <= i < cid.len() ==> #[trigger] cid[i] != ';',
        !crate::text::is_ws(cid.last()),
    ensures
        request_cid(req, minted) == cid,
        minted_cookie(req, minted) is None,
{
    crate::cookie::lemma_cookie_round_trip(cid);
}

} // verus!
