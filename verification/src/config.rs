//! The relay's settings and the ICE servers it advertises.
use vstd::prelude::*;
use crate::clock::now_unix;
use crate::crypto::{fresh_ip_salt, is_encoded_salt, turn_credential, turn_credentials_until, turn_username};
use crate::text::{
    chars_of, opt_view, numeric_setting, range_pieces, setting_spec, split, split_ranges, string_of, trim,
    trim_bounds,
};

verus! {

/// The views of a list of strings.
pub open spec fn strings_view(v: Seq<String>) -> Seq<Seq<char>> {
    Seq::new(v.len(), |i: int| v[i]@)
}

/// The views of a list of string slices.
pub open spec fn strs_view(v: Seq<&str>) -> Seq<Seq<char>> {
    Seq::new(v.len(), |i: int| v[i]@)
}

/// The trimmed pieces that are not empty, in order.
pub open spec fn nonempty_trimmed(pieces: Seq<Seq<char>>) -> Seq<Seq<char>>
    decreases pieces.len(),
{
    if pieces.len() == 0 {
        Seq::empty()
    } else {
        let prev = nonempty_trimmed(pieces.drop_last());
        if trim(pieces.last()).len() > 0 {
            prev.push(trim(pieces.last()))
        } else {
            prev
        }
    }
}

/// A comma-separated list setting: the trimmed, non-empty items of `value` when it has
/// any text besides whitespace; `default` otherwise.
pub open spec fn url_list_spec(value: Option<Seq<char>>, default: Seq<Seq<char>>) -> Seq<Seq<char>> {
    match value {
        Some(v) => if trim(v).len() > 0 {
            nonempty_trimmed(split(v, ','))
        } else {
            default
        },
        None => default,
    }
}

/// A copy of a list of strings.
pub fn copy_strings(v: &Vec<String>) -> (r: Vec<String>)
    ensures
        strings_view(r@) == strings_view(v@),
{
    let mut r: Vec<String> = Vec::new();
    let mut i: usize = 0;
    while i < v.len()
        invariant
            i <= v@.len(),
            r@.len() == i,
            forall|j: int| 0 <= j < i ==> #[trigger] r@[j]@ == v@[j]@,
        decreases v@.len() - i,
    {
        r.push(v[i].clone());
        i = i + 1;
    }
    assert(strings_view(r@) =~= strings_view(v@));
    r
}

fn owned_strings(v: &[&str]) -> (r: Vec<String>)
    ensures
        strings_view(r@) == strs_view(v@),
{
    let mut r: Vec<String> = Vec::new();
    let mut i: usize = 0;
    while i < v.len()
        invariant
            i <= v@.len(),
            r@.len() == i,
            forall|j: int| 0 <= j < i ==> #[trigger] r@[j]@ == v@[j]@,
        decreases v@.len() - i,
    {
        r.push(v[i].to_owned());
        i = i + 1;
    }
    assert(strings_view(r@) =~= strs_view(v@));
    r
}

/// A comma-separated list setting, read as `url_list_spec` says.
pub fn url_list(value: Option<&str>, default: &[&str]) -> (r: Vec<String>)
    ensures
        strings_view(r@) == url_list_spec(
            match value {
                Some(t) => Some(t@),
                None => None,
            },
            strs_view(default@),
        ),
{
    let v = match value {
        Some(v) => v,
        None => return owned_strings(default),
    };
    let cs = chars_of(v);
    let (a0, b0) = trim_bounds(&cs, 0, cs.len());
    assert(cs@.subrange(0, cs@.len() as int) =~= cs@);
    if a0 == b0 {
        return owned_strings(default);
    }
    let ranges = split_ranges(&cs, ',');
    let ghost pieces = range_pieces(cs@, ranges@);
    let mut out: Vec<String> = Vec::new();
    let mut k: usize = 0;
    assert(pieces.take(0) =~= Seq::<Seq<char>>::empty());
    while k < ranges.len()
        invariant
            k <= ranges@.len(),
            pieces == range_pieces(cs@, ranges@),
            crate::text::ranges_within(ranges@, cs@.len()),
            strings_view(out@) == nonempty_trimmed(pieces.take(k as int)),
        decreases ranges@.len() - k,
    {
        let (from, to) = ranges[k];
        let (a, b) = trim_bounds(&cs, from, to);
        assert(pieces[k as int] == cs@.subrange(from as int, to as int));
        assert(pieces.take(k + 1).drop_last() =~= pieces.take(k as int));
        if a < b {
            out.push(string_of(&cs, a, b));
        }
        k = k + 1;
        assert(strings_view(out@) =~= nonempty_trimmed(pieces.take(k as int)));
    }
    assert(pieces.take(ranges@.len() as int) =~= pieces);
    out
}

/// The settings the relay reads from its environment, as text (absent when unset or not
/// Unicode).
pub struct Settings {
    pub turn_static_auth_secret: Option<String>,
    pub turn_ttl_secs: Option<String>,
    pub stun_urls: Option<String>,
    pub turn_urls: Option<String>,
    pub body_limit_bytes: Option<String>,
    pub join_origin: Option<String>,
}

pub open spec fn default_stun_urls() -> Seq<Seq<char>> {
    seq!["stun:stun.l.google.com:19302"@]
}

pub open spec fn default_turn_urls() -> Seq<Seq<char>> {
    seq![
        "turn:turn.screenextend.app:3478?transport=udp"@,
        "turn:turn.screenextend.app:3478?transport=tcp"@,
        "turns:turn.screenextend.app:5349?transport=tcp"@,
    ]
}

pub open spec fn default_join_origin() -> Seq<char> {
    "https://session.screenextend.app"@
}

/// The relay's configuration.
pub struct Config {
    pub turn_secret: Option<String>,
    pub turn_ttl: u64,
    pub stun_urls: Vec<String>,
    pub turn_urls: Vec<String>,
    pub body_limit: usize,
    pub join_origin: String,
    pub ip_salt: String,
}

/// One entry of the advertised ICE server list: its URLs and, for TURN, the credentials.
pub struct IceServer {
    pub urls: Vec<String>,
    pub username: Option<String>,
    pub credential: Option<String>,
}

/// An ICE server entry as plain values.
pub open spec fn ice_view(s: IceServer) -> (Seq<Seq<char>>, Option<Seq<char>>, Option<Seq<char>>) {
    (strings_view(s.urls@), opt_view(s.username), opt_view(s.credential))
}

pub open spec fn ice_list_view(v: Seq<IceServer>) -> Seq<(Seq<Seq<char>>, Option<Seq<char>>, Option<Seq<char>>)> {
    Seq::new(v.len(), |i: int| ice_view(v[i]))
}

impl Config {
    /// The configuration that `settings` describe, with the given address salt. The TURN
    /// secret is the setting when it is non-empty; the TTL (default 600 s) and the body
    /// limit (default 65536 bytes) are the settings when they are numbers that fit; the
    /// URL lists are the settings' comma-separated items; the join origin is the setting
    /// when it is set.
    pub open spec fn describes(self, settings: Settings, salt: Seq<char>) -> bool {
        &&& self.turn_secret matches Some(s) ==> settings.turn_static_auth_secret matches Some(t)
            && s@ == t@
        &&& (self.turn_secret is Some) == (settings.turn_static_auth_secret matches Some(t) && t@.len() > 0)
        &&& self.turn_ttl == setting_spec(opt_view(settings.turn_ttl_secs), u64::MAX, 600)
        &&& strings_view(self.stun_urls@) == url_list_spec(opt_view(settings.stun_urls), default_stun_urls())
        &&& strings_view(self.turn_urls@) == url_list_spec(opt_view(settings.turn_urls), default_turn_urls())
        &&& self.body_limit == setting_spec(opt_view(settings.body_limit_bytes), usize::MAX as u64, 65536)
        &&& self.join_origin@ == match settings.join_origin {
            Some(o) => o@,
            None => default_join_origin(),
        }
        &&& self.ip_salt@ == salt
    }

    /// The configuration for `settings` with address salt `ip_salt`.
    pub fn with_salt(settings: &Settings, ip_salt: String) -> (r: Config)
        ensures
            r.describes(*settings, ip_salt@),
    {
        let turn_secret = match &settings.turn_static_auth_secret {
            Some(s) => if s.as_str().is_empty() { None } else { Some(s.clone()) },
            None => None,
        };
        let turn_ttl = numeric_setting(
            match &settings.turn_ttl_secs {
                Some(s) => Some(s.as_str()),
                None => None,
            },
            u64::MAX,
            600,
        );
        let stun_urls = url_list(
            match &settings.stun_urls {
                Some(s) => Some(s.as_str()),
                None => None,
            },
            &["stun:stun.l.google.com:19302"],
        );
        let turn_urls = url_list(
            match &settings.turn_urls {
                Some(s) => Some(s.as_str()),
                None => None,
            },
            &[
                "turn:turn.screenextend.app:3478?transport=udp",
                "turn:turn.screenextend.app:3478?transport=tcp",
                "turns:turn.screenextend.app:5349?transport=tcp",
            ],
        );
        let body_limit = numeric_setting(
            match &settings.body_limit_bytes {
                Some(s) => Some(s.as_str()),
                None => None,
            },
            usize::MAX as u64,
            65536,
        ) as usize;
        let join_origin = match &settings.join_origin {
            Some(o) => o.clone(),
            None => "https://session.screenextend.app".to_owned(),
        };
        proof {
            assert(strs_view(seq!["stun:stun.l.google.com:19302"]) =~= default_stun_urls());
            assert(strs_view(
                seq![
                    "turn:turn.screenextend.app:3478?transport=udp",
                    "turn:turn.screenextend.app:3478?transport=tcp",
                    "turns:turn.screenextend.app:5349?transport=tcp",
                ],
            ) =~= default_turn_urls());
        }
        let r = Config { turn_secret, turn_ttl, stun_urls, turn_urls, body_limit, join_origin, ip_salt };
        assert(r.turn_secret matches Some(s) ==> settings.turn_static_auth_secret matches Some(t) && s@ == t@);
        assert((r.turn_secret is Some) == (settings.turn_static_auth_secret matches Some(t) && t@.len() > 0));
        assert(r.turn_ttl == setting_spec(opt_view(settings.turn_ttl_secs), u64::MAX, 600));
        assert(strings_view(r.stun_urls@) == url_list_spec(opt_view(settings.stun_urls), default_stun_urls()));
        assert(strings_view(r.turn_urls@) == url_list_spec(opt_view(settings.turn_urls), default_turn_urls()));
        assert(r.body_limit == setting_spec(opt_view(settings.body_limit_bytes), usize::MAX as u64, 65536));
        r
    }

    /// The configuration for `settings`, with a fresh random address salt.
    pub fn from_settings(settings: &Settings) -> (r: Config)
        ensures
            r.describes(*settings, r.ip_salt@),
            is_encoded_salt(r.ip_salt@),
    {
        Config::with_salt(settings, fresh_ip_salt())
    }
}

} // verus!

verus! {

impl Config {
    /// Whether the advertised ICE servers include a TURN server, which needs credentials.
    pub open spec fn offers_turn(self) -> bool {
        self.turn_secret is Some && self.turn_urls@.len() > 0
    }

    /// The ICE servers advertised when TURN credentials expire at `expiry`: the STUN URLs
    /// when there are any, then the TURN URLs with time-limited credentials when a TURN
    /// secret is configured and there are TURN URLs.
    pub open spec fn ice_servers_spec(self, expiry: nat) -> Seq<
        (Seq<Seq<char>>, Option<Seq<char>>, Option<Seq<char>>),
    > {
        let stun = if self.stun_urls@.len() > 0 {
            seq![(strings_view(self.stun_urls@), None::<Seq<char>>, None::<Seq<char>>)]
        } else {
            Seq::empty()
        };
        let turn = if self.offers_turn() {
            let username = turn_username(expiry);
            seq![
                (
                    strings_view(self.turn_urls@),
                    Some(username),
                    Some(turn_credential(self.turn_secret->0@, username)),
                ),
            ]
        } else {
            Seq::empty()
        };
        stun + turn
    }

    /// `r` is the ICE server list advertised at `now`, as `ice_servers_at` says.
    pub open spec fn ice_answer(self, now: u64, r: Option<Vec<IceServer>>) -> bool {
        &&& (r is None <==> (self.offers_turn() && now + self.turn_ttl > u64::MAX))
        &&& (r matches Some(v) ==> ice_list_view(v@) == self.ice_servers_spec(
            (now + self.turn_ttl) as nat,
        ))
    }

    /// The ICE servers advertised at `now` (seconds since the Unix epoch), with TURN
    /// credentials that expire `turn_ttl` seconds later; `None` when TURN is offered and
    /// that expiry does not fit in 64 bits.
    pub fn ice_servers_at(&self, now: u64) -> (r: Option<Vec<IceServer>>)
        ensures
            r is None <==> (self.offers_turn() && now + self.turn_ttl > u64::MAX),
            r matches Some(v) ==> ice_list_view(v@) == self.ice_servers_spec(
                (now + self.turn_ttl) as nat,
            ),
    {
        let mut servers: Vec<IceServer> = Vec::new();
        if self.stun_urls.len() > 0 {
            servers.push(IceServer { urls: copy_strings(&self.stun_urls), username: None, credential: None });
        }
        if let Some(secret) = &self.turn_secret {
            if self.turn_urls.len() > 0 {
                if now > u64::MAX - self.turn_ttl {
                    return None;
                }
                let (username, credential) = turn_credentials_until(secret.as_str(), now + self.turn_ttl);
                servers.push(
                    IceServer {
                        urls: copy_strings(&self.turn_urls),
                        username: Some(username),
                        credential: Some(credential),
                    },
                );
            }
        }
        assert(ice_list_view(servers@) =~= self.ice_servers_spec((now + self.turn_ttl) as nat));
        Some(servers)
    }

    /// The ICE servers advertised now: as `ice_servers_at` gives them at some reading of
    /// the wall clock.
    pub fn ice_servers(&self) -> (r: Option<Vec<IceServer>>)
        ensures
            exists|now: u64| #[trigger] self.ice_answer(now, r),
    {
        let now = now_unix();
        let r = self.ice_servers_at(now);
        assert(self.ice_answer(now, r));
        r
    }
}

} // verus!
