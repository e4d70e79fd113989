//! The relay: which host holds which session, and how requests find it.
use vstd::prelude::*;
use crate::config::{strings_view, Config};
use crate::cookie::{is_valid_session_id, valid_session_id};
use crate::crypto::{is_minted_id, mint_id};
use crate::maps::{
    binding_table, bindings_new, lookup, session_table, sessions_get, sessions_insert,
    sessions_mark_draining, sessions_new, sessions_remove, BindingMap, SessionMap,
};
use crate::messages::{register_error, HostFrame, HostMessage, RegisterRefusal, refusal_code, refusal_message};
use crate::rate_limit::RateLimiter;
use crate::reply::SignalResponse;
use crate::text::str_eq;

verus! {

/// What the relay records of the host connection that holds a session.
pub struct HostLink {
    pub conn_id: String,
    pub draining: bool,
}

/// The heartbeat interval hosts are told, in seconds.
pub const HEARTBEAT_SEC: u64 = 20;

/// How long, in seconds, the sessions of a closed host connection are kept before they
/// are removed.
pub const HOST_GRACE_SECS: u64 = 12;

/// The relay's shared state.
pub struct Relay {
    /// The hosts of the sessions.
    pub sessions: SessionMap,
    /// The session each client id last joined by a `/whep` that its host answered.
    pub bindings: BindingMap,
    /// Limits `/whep` attempts per client id and per client address.
    pub whep_limiter: RateLimiter,
    /// Limits host `register` attempts per host address.
    pub register_limiter: RateLimiter,
    pub cfg: Config,
}

/// One host's control connection: its id and the sessions it has registered.
pub struct HostConnection {
    pub conn_id: String,
    pub sessions: Vec<String>,
}

/// `s` with `x` added at the end unless it is already there.
pub open spec fn with_session(s: Seq<Seq<char>>, x: Seq<char>) -> Seq<Seq<char>> {
    if s.contains(x) {
        s
    } else {
        s.push(x)
    }
}

/// `s` without any occurrence of `x`, in order.
pub open spec fn without_session(s: Seq<Seq<char>>, x: Seq<char>) -> Seq<Seq<char>>
    decreases s.len(),
{
    if s.len() == 0 {
        Seq::empty()
    } else {
        let prev = without_session(s.drop_last(), x);
        if s.last() == x {
            prev
        } else {
            prev.push(s.last())
        }
    }
}

/// No session id occurs twice.
pub open spec fn no_duplicates(s: Seq<Seq<char>>) -> bool {
    forall|i: int, j: int| 0 <= i < j < s.len() ==> s[i] != s[j]
}

/// Why a host's `register` of `sid` on connection `conn_id` is refused, if it is: the
/// host's address is over its rate limit; the id is malformed; the host speaks another
/// protocol version; or the session is held by another connection that is not draining.
pub open spec fn register_refusal(
    sessions: Map<Seq<char>, (Seq<char>, bool)>,
    conn_id: Seq<char>,
    sid: Seq<char>,
    protocol: Option<u64>,
    allowed: bool,
) -> Option<RegisterRefusal> {
    if !allowed {
        Some(RegisterRefusal::RateLimited)
    } else if !is_valid_session_id(sid) {
        Some(RegisterRefusal::InvalidSession)
    } else if protocol matches Some(p) && p != 1 {
        Some(RegisterRefusal::VersionUnsupported)
    } else if lookup(sessions, sid) matches Some(l) && !l.1 && l.0 != conn_id {
        Some(RegisterRefusal::SessionTaken)
    } else {
        None
    }
}

/// The join URL for a session: `<origin>/?id=<sid>`.
pub open spec fn join_url_spec(origin: Seq<char>, sid: Seq<char>) -> Seq<char> {
    origin + "/?id="@ + sid
}

impl Relay {
    /// The hosts of the sessions: session id to (host connection id, whether draining).
    pub open spec fn sessions(&self) -> Map<Seq<char>, (Seq<char>, bool)> {
        session_table(self.sessions)
    }

    /// The client bindings: client id to the session of its last successful `/whep`.
    pub open spec fn bindings(&self) -> Map<Seq<char>, Seq<char>> {
        binding_table(self.bindings)
    }

    /// A relay with no sessions and no bindings.
    pub fn new(cfg: Config, whep_max: u32, register_max: u32, window_secs: u64) -> (r: Relay)
        ensures
            r.sessions() == Map::<Seq<char>, (Seq<char>, bool)>::empty(),
            r.bindings() == Map::<Seq<char>, Seq<char>>::empty(),
            r.whep_limiter.entries() == Map::<Seq<char>, (u128, u32)>::empty(),
            r.whep_limiter.limit() == whep_max,
            r.whep_limiter.window_nanos() == window_secs as u128 * 1_000_000_000,
            r.register_limiter.entries() == Map::<Seq<char>, (u128, u32)>::empty(),
            r.register_limiter.limit() == register_max,
            r.register_limiter.window_nanos() == window_secs as u128 * 1_000_000_000,
            r.cfg == cfg,
    {
        let r = Relay {
            sessions: sessions_new(),
            bindings: bindings_new(),
            whep_limiter: RateLimiter::new(whep_max, window_secs),
            register_limiter: RateLimiter::new(register_max, window_secs),
            cfg,
        };
        assert(r.sessions() =~= Map::<Seq<char>, (Seq<char>, bool)>::empty());
        assert(r.bindings() =~= Map::<Seq<char>, Seq<char>>::empty());
        r
    }

    /// `next` is this relay after a `register` of `sid` with protocol `protocol` from the
    /// host at `ip` on connection `conn` (which becomes `next_conn`) at time `now` on the
    /// register limiter's clock, answered with `msg`.
    pub open spec fn register_step(
        self,
        next: Self,
        conn: HostConnection,
        next_conn: HostConnection,
        ip: Seq<char>,
        sid: Seq<char>,
        protocol: Option<u64>,
        now: u128,
        msg: HostMessage,
    ) -> bool {
        let allowed = self.register_limiter.allows(ip, now);
        &&& self.register_limiter.checked(next.register_limiter, ip, now, allowed)
        &&& next.whep_limiter == self.whep_limiter
        &&& next.cfg == self.cfg
        &&& next.bindings() == self.bindings()
        &&& next_conn.conn_id == conn.conn_id
        &&& match register_refusal(self.sessions(), conn.conn_id@, sid, protocol, allowed) {
            Some(refusal) => {
                &&& next.sessions() == self.sessions()
                &&& next_conn.sessions == conn.sessions
                &&& msg matches HostMessage::RegisterError { session_id, code, message }
                &&& session_id@ == sid
                &&& code@ == refusal_code(refusal)
                &&& message@ == refusal_message(refusal)
            },
            None => {
                &&& next.sessions() == self.sessions().insert(sid, (conn.conn_id@, false))
                &&& strings_view(next_conn.sessions@) == with_session(
                    strings_view(conn.sessions@),
                    sid,
                )
                &&& msg matches HostMessage::Registered { session_id, join_url, heartbeat_sec }
                &&& session_id@ == sid
                &&& join_url@ == join_url_spec(self.cfg.join_origin@, sid)
                &&& heartbeat_sec == HEARTBEAT_SEC
            },
        }
    }

    /// `next` is this relay after host connection `conn` (which becomes `next_conn`)
    /// unregisters `sid`: the session goes when that connection holds it, and leaves the
    /// connection's list.
    pub open spec fn unregister_step(
        self,
        next: Self,
        conn: HostConnection,
        next_conn: HostConnection,
        sid: Seq<char>,
    ) -> bool {
        &&& next.sessions() == if lookup(self.sessions(), sid) matches Some(l) && l.0
            == conn.conn_id@ {
            self.sessions().remove(sid)
        } else {
            self.sessions()
        }
        &&& next.bindings() == self.bindings()
        &&& next.whep_limiter == self.whep_limiter
        &&& next.register_limiter == self.register_limiter
        &&& next.cfg == self.cfg
        &&& next_conn.conn_id == conn.conn_id
        &&& strings_view(next_conn.sessions@) == without_session(strings_view(conn.sessions@), sid)
    }

    /// Removes session `sid` when connection `conn_id` holds it, and says whether it did;
    /// leaves it otherwise.
    pub fn remove_session(&mut self, sid: &str, conn_id: &str) -> (removed: bool)
        ensures
            removed == (lookup(old(self).sessions(), sid@) matches Some(l) && l.0 == conn_id@),
            final(self).sessions() == if lookup(old(self).sessions(), sid@) matches Some(l) && l.0
                == conn_id@ {
                old(self).sessions().remove(sid@)
            } else {
                old(self).sessions()
            },
            final(self).bindings() == old(self).bindings(),
            final(self).whep_limiter == old(self).whep_limiter,
            final(self).register_limiter == old(self).register_limiter,
            final(self).cfg == old(self).cfg,
    {
        let should_remove = match sessions_get(&self.sessions, sid) {
            Some(link) => str_eq(link.conn_id.as_str(), conn_id),
            None => false,
        };
        if should_remove {
            sessions_remove(&mut self.sessions, sid);
        }
        should_remove
    }
}

impl HostConnection {
    /// A new host connection, with a fresh id `conn_<32 hex digits>` and no sessions.
    pub fn open() -> (r: HostConnection)
        ensures
            is_minted_id("conn_"@, r.conn_id@),
            r.sessions@.len() == 0,
    {
        HostConnection { conn_id: mint_id("conn_"), sessions: Vec::new() }
    }

    /// Whether this connection has registered `sid`.
    pub fn has_session(&self, sid: &str) -> (r: bool)
        ensures
            r == strings_view(self.sessions@).contains(sid@),
    {
        let mut i: usize = 0;
        while i < self.sessions.len()
            invariant
                i <= self.sessions@.len(),
                forall|j: int| 0 <= j < i ==> self.sessions@[j]@ != sid@,
            decreases self.sessions@.len() - i,
        {
            if str_eq(self.sessions[i].as_str(), sid) {
                assert(strings_view(self.sessions@)[i as int] == sid@);
                return true;
            }
            i = i + 1;
        }
        assert forall|j: int| 0 <= j < strings_view(self.sessions@).len() implies strings_view(
            self.sessions@,
        )[j] != sid@ by {}
        false
    }

    /// Adds `sid` to this connection's sessions unless it is there already.
    pub fn add_session(&mut self, sid: &str)
        ensures
            final(self).conn_id == old(self).conn_id,
            strings_view(final(self).sessions@) == with_session(strings_view(old(self).sessions@), sid@),
    {
        if !self.has_session(sid) {
            self.sessions.push(sid.to_owned());
            assert(strings_view(self.sessions@) =~= strings_view(old(self).sessions@).push(sid@));
        }
    }

    /// Drops `sid` from this connection's sessions.
    pub fn drop_session(&mut self, sid: &str)
        ensures
            final(self).conn_id == old(self).conn_id,
            strings_view(final(self).sessions@) == without_session(strings_view(old(self).sessions@), sid@),
    {
        let mut old_sessions: Vec<String> = Vec::new();
        std::mem::swap(&mut old_sessions, &mut self.sessions);
        let ghost v = strings_view(old_sessions@);
        let mut kept: Vec<String> = Vec::new();
        let mut i: usize = 0;
        while i < old_sessions.len()
            invariant
                i <= old_sessions@.len(),
                v == strings_view(old_sessions@),
                strings_view(kept@) == without_session(v.take(i as int), sid@),
            decreases old_sessions@.len() - i,
        {
            assert(v.take(i + 1).drop_last() =~= v.take(i as int));
            assert(v.take(i + 1).last() == old_sessions@[i as int]@);
            if !str_eq(old_sessions[i].as_str(), sid) {
                kept.push(old_sessions[i].clone());
                assert(strings_view(kept@) =~= without_session(v.take(i as int), sid@).push(
                    old_sessions@[i as int]@,
                ));
            }
            i = i + 1;
        }
        assert(v.take(old_sessions@.len() as int) =~= v);
        self.sessions = kept;
    }
}

} // verus!

verus! {

/// What a host connection does with a frame the relay has read from it.
pub enum HostReaction {
    /// Send this message back to the host.
    Reply(HostMessage),
    /// Hand `response` to the tunnelled request `request_id`, if it is still waiting;
    /// `None` means the frame does not read as an answer, so the waiting request is
    /// dropped unanswered.
    Deliver { request_id: String, response: Option<SignalResponse> },
    /// Nothing to do.
    Nothing,
}

impl Relay {
    /// Handles a host's `register` of `sid` (protocol `protocol`) from address `ip` on
    /// connection `conn`, at time `now` on the register limiter's clock.
    pub fn handle_register_at(
        &mut self,
        conn: &mut HostConnection,
        ip: &str,
        sid: &str,
        protocol: Option<u64>,
        now: u128,
    ) -> (msg: HostMessage)
        ensures
            old(self).register_step(*final(self), *old(conn), *final(conn), ip@, sid@, protocol, now, msg),
    {
        if !self.register_limiter.check_at(ip, now) {
            let refusal = RegisterRefusal::RateLimited;
            return register_error(sid, refusal.code(), refusal.message());
        }
        if !valid_session_id(sid) {
            let refusal = RegisterRefusal::InvalidSession;
            return register_error(sid, refusal.code(), refusal.message());
        }
        if let Some(p) = protocol {
            if p != 1 {
                let refusal = RegisterRefusal::VersionUnsupported;
                return register_error(sid, refusal.code(), refusal.message());
            }
        }
        if let Some(existing) = sessions_get(&self.sessions, sid) {
            if !existing.draining && !str_eq(existing.conn_id.as_str(), conn.conn_id.as_str()) {
                let refusal = RegisterRefusal::SessionTaken;
                return register_error(sid, refusal.code(), refusal.message());
            }
        }
        sessions_insert(
            &mut self.sessions,
            sid.to_owned(),
            HostLink { conn_id: conn.conn_id.clone(), draining: false },
        );
        conn.add_session(sid);
        let mut join_url = self.cfg.join_origin.clone();
        join_url.append("/?id=");
        join_url.append(sid);
        HostMessage::Registered { session_id: sid.to_owned(), join_url, heartbeat_sec: HEARTBEAT_SEC }
    }

    /// Handles a host's `register` of `sid` (protocol `protocol`) from address `ip` on
    /// connection `conn`, now.
    pub fn handle_register(
        &mut self,
        conn: &mut HostConnection,
        ip: &str,
        sid: &str,
        protocol: Option<u64>,
    ) -> (msg: HostMessage)
        ensures
            exists|now: u128|
                #[trigger] old(self).register_step(*final(self), *old(conn), *final(conn), ip@, sid@, protocol, now, msg),
    {
        let now = self.register_limiter.now();
        self.handle_register_at(conn, ip, sid, protocol, now)
    }

    /// Drops, in both rate limiters, every record whose window has run out; nothing else
    /// changes.
    pub fn sweep_limiters(&mut self)
        ensures
            exists|now: u128| #[trigger] old(self).whep_limiter.swept(final(self).whep_limiter, now),
            exists|now: u128| #[trigger] old(self).register_limiter.swept(final(self).register_limiter, now),
            final(self).sessions() == old(self).sessions(),
            final(self).bindings() == old(self).bindings(),
            final(self).cfg == old(self).cfg,
    {
        let ghost w0 = self.whep_limiter;
        let ghost r0 = self.register_limiter;
        let whep_now = self.whep_limiter.now();
        self.whep_limiter.sweep_at(whep_now);
        assert(w0.swept(self.whep_limiter, whep_now));
        let register_now = self.register_limiter.now();
        self.register_limiter.sweep_at(register_now);
        assert(r0.swept(self.register_limiter, register_now));
        assert(w0.swept(self.whep_limiter, whep_now));
    }

    /// Handles a host's `unregister` of `sid` on connection `conn`.
    pub fn handle_unregister(&mut self, conn: &mut HostConnection, sid: &str)
        ensures
            old(self).unregister_step(*final(self), *old(conn), *final(conn), sid@),
    {
        self.remove_session(sid, conn.conn_id.as_str());
        conn.drop_session(sid);
    }

    /// `next` is this relay after host connection `conn` has closed: all its sessions are
    /// marked draining (they stop taking requests, and another host may take them over),
    /// and nothing else changes.
    pub open spec fn closed_step(self, next: Self, conn: HostConnection) -> bool {
        &&& next.sessions() == Map::new(
            |k: Seq<char>| self.sessions().dom().contains(k),
            |k: Seq<char>|
                (
                    self.sessions()[k].0,
                    self.sessions()[k].1 || self.sessions()[k].0 == conn.conn_id@,
                ),
        )
        &&& next.bindings() == self.bindings()
        &&& next.whep_limiter == self.whep_limiter
        &&& next.register_limiter == self.register_limiter
        &&& next.cfg == self.cfg
    }

    /// Handles the close of host connection `conn`: marks its sessions draining and gives
    /// back the ids it had registered, which are to be removed (if it still holds them)
    /// after `HOST_GRACE_SECS`.
    pub fn host_closed(&mut self, conn: &HostConnection) -> (r: Vec<String>)
        ensures
            old(self).closed_step(*final(self), *conn),
            strings_view(r@) == strings_view(conn.sessions@),
    {
        sessions_mark_draining(&mut self.sessions, conn.conn_id.as_str());
        crate::config::copy_strings(&conn.sessions)
    }

    /// `next`, `next_conn` and `reaction` follow from a frame `frame` read on host
    /// connection `conn` from address `ip` at time `now` on the register limiter's clock:
    /// `register` registers the frame's `sessionId` (empty when absent); `signal_response`
    /// with a `requestId` delivers the frame's answer; `unregister` with a `sessionId`
    /// unregisters it; anything else is ignored.
    pub open spec fn frame_step(
        self,
        next: Self,
        conn: HostConnection,
        next_conn: HostConnection,
        ip: Seq<char>,
        frame: HostFrame,
        now: u128,
        reaction: HostReaction,
    ) -> bool {
        if frame.kind matches Some(k) && k@ == "register"@ {
            let sid = match frame.session_id {
                Some(s) => s@,
                None => Seq::empty(),
            };
            reaction matches HostReaction::Reply(msg) && self.register_step(
                next,
                conn,
                next_conn,
                ip,
                sid,
                frame.protocol,
                now,
                msg,
            )
        } else if frame.kind matches Some(k) && k@ == "unregister"@ && frame.session_id is Some {
            &&& reaction is Nothing
            &&& self.unregister_step(next, conn, next_conn, frame.session_id->0@)
        } else {
            &&& next == self
            &&& next_conn == conn
            &&& if frame.kind matches Some(k) && k@ == "signal_response"@ && frame.request_id is Some {
                reaction matches HostReaction::Deliver { request_id, response }
                    && request_id == frame.request_id->0 && response == frame.response
            } else {
                reaction is Nothing
            }
        }
    }

    /// Handles one frame from a host, at time `now` on the register limiter's clock.
    pub fn on_host_frame_at(
        &mut self,
        conn: &mut HostConnection,
        ip: &str,
        frame: HostFrame,
        now: u128,
    ) -> (reaction: HostReaction)
        ensures
            old(self).frame_step(*final(self), *old(conn), *final(conn), ip@, frame, now, reaction),
    {
        proof {
            reveal_strlit("register");
            reveal_strlit("unregister");
            reveal_strlit("signal_response");
            assert("register"@.len() == 8);
            assert("unregister"@.len() == 10);
            assert("signal_response"@.len() == 15);
            assert("unregister"@ != "signal_response"@);
        }
        let kind = match &frame.kind {
            Some(k) => k.as_str(),
            None => return HostReaction::Nothing,
        };
        if str_eq(kind, "register") {
            let msg = match &frame.session_id {
                Some(s) => self.handle_register_at(conn, ip, s.as_str(), frame.protocol, now),
                None => self.handle_register_at(conn, ip, "", frame.protocol, now),
            };
            proof {
                assert(""@ =~= Seq::<char>::empty()) by {
                    reveal_strlit("");
                }
            }
            HostReaction::Reply(msg)
        } else if str_eq(kind, "signal_response") {
            match frame.request_id {
                Some(id) => HostReaction::Deliver { request_id: id, response: frame.response },
                None => HostReaction::Nothing,
            }
        } else if str_eq(kind, "unregister") {
            match &frame.session_id {
                Some(s) => {
                    self.handle_unregister(conn, s.as_str());
                    HostReaction::Nothing
                },
                None => HostReaction::Nothing,
            }
        } else {
            HostReaction::Nothing
        }
    }

    /// Handles one frame from a host, now.
    pub fn on_host_frame(&mut self, conn: &mut HostConnection, ip: &str, frame: HostFrame) -> (reaction: HostReaction)
        ensures
            exists|now: u128|
                #[trigger] old(self).frame_step(*final(self), *old(conn), *final(conn), ip@, frame, now, reaction),
    {
        let now = self.register_limiter.now();
        self.on_host_frame_at(conn, ip, frame, now)
    }
}

} // verus!

verus! {

/// Session-takeover protection: a `register` of a session that another connection holds
/// and is not draining is refused, and the sessions stay as they were.
pub proof fn lemma_live_session_cannot_be_taken(
    before: Relay,
    after: Relay,
    conn: HostConnection,
    next_conn: HostConnection,
    ip: Seq<char>,
    sid: Seq<char>,
    protocol: Option<u64>,
    now: u128,
    msg: HostMessage,
    holder: Seq<char>,
)
    requires
        before.register_step(after, conn, next_conn, ip, sid, protocol, now, msg),
        lookup(before.sessions(), sid) == Some((holder, false)),
        holder != conn.conn_id@,
    ensures
        after.sessions() == before.sessions(),
        msg is RegisterError,
        next_conn.sessions == conn.sessions,
{
}

/// A session whose host has closed can be taken over: once connection `conn` has closed,
/// a `register` of one of its sessions by another connection is not refused as taken.
pub proof fn lemma_closed_host_sessions_can_be_taken_over(
    before: Relay,
    after: Relay,
    conn: HostConnection,
    sid: Seq<char>,
    other: Seq<char>,
    protocol: Option<u64>,
    allowed: bool,
)
    requires
        before.closed_step(after, conn),
        lookup(before.sessions(), sid) matches Some(l) && l.0 == conn.conn_id@,
    ensures
        register_refusal(after.sessions(), other, sid, protocol, allowed) != Some(
            RegisterRefusal::SessionTaken,
        ),
{
    assert(after.sessions().dom().contains(sid));
    assert(after.sessions()[sid].1);
}

/// A connection never lists a session twice: `register` and `unregister` keep its list
/// free of duplicates.
pub proof fn lemma_connection_sessions_stay_distinct(
    before: Relay,
    after: Relay,
    conn: HostConnection,
    next_conn: HostConnection,
    ip: Seq<char>,
    sid: Seq<char>,
    protocol: Option<u64>,
    now: u128,
    msg: HostMessage,
)
    requires
        before.register_step(after, conn, next_conn, ip, sid, protocol, now, msg)
            || before.unregister_step(after, conn, next_conn, sid),
        no_duplicates(strings_view(conn.sessions@)),
    ensures
        no_duplicates(strings_view(next_conn.sessions@)),
{
    let s = strings_view(conn.sessions@);
    if before.unregister_step(after, conn, next_conn, sid) {
        lemma_without_session_distinct(s, sid);
    } else {
        assert(strings_view(next_conn.sessions@) == s || strings_view(next_conn.sessions@)
            == with_session(s, sid));
        if !s.contains(sid) {
            let t = s.push(sid);
            assert forall|i: int, j: int| 0 <= i < j < t.len() implies t[i] != t[j] by {
                if j == s.len() {
                    assert(t[i] == s[i]);
                }
            }
        }
    }
}

proof fn lemma_without_session_distinct(s: Seq<Seq<char>>, x: Seq<char>)
    requires
        no_duplicates(s),
    ensures
        no_duplicates(without_session(s, x)),
        forall|y: Seq<char>| #[trigger] without_session(s, x).contains(y) ==> s.contains(y),
    decreases s.len(),
{
    if s.len() > 0 {
        let p = s.drop_last();
        assert(no_duplicates(p));
        lemma_without_session_distinct(p, x);
        assert forall|y: Seq<char>| #[trigger] without_session(s, x).contains(y) implies s.contains(
            y,
        ) by {
            if without_session(p, x).contains(y) {
                let k = choose|k: int| 0 <= k < without_session(p, x).len() && without_session(p, x)[k] == y;
                assert(p.contains(y));
                let m = choose|m: int| 0 <= m < p.len() && p[m] == y;
                assert(s[m] == y);
            } else {
                assert(y == s.last());
                assert(s[s.len() - 1] == y);
            }
        }
        if s.last() != x {
            let w = without_session(p, x);
            let t = w.push(s.last());
            assert forall|i: int, j: int| 0 <= i < j < t.len() implies t[i] != t[j] by {
                if j == w.len() {
                    assert(t[i] == w[i]);
                    assert(w.contains(w[i]));
                    assert(p.contains(w[i]));
                    let m = choose|m: int| 0 <= m < p.len() && p[m] == w[i];
                    assert(s[m] == p[m]);
                    assert(s[s.len() - 1] == s.last());
                }
            }
        }
    }
}

} // verus!
