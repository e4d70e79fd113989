//! The concurrent maps that hold the relay's shared state, as `dashmap::DashMap`s.
//!
//! Each instantiation has a name for what it holds, over plain values, and one
//! wrapper for each map operation the relay uses. The relay holds the maps
//! behind `&mut`, so every change goes through these wrappers.
use vstd::prelude::*;
use dashmap::DashMap;
use crate::relay::HostLink;

verus! {

#[verifier::external_type_specification]
#[verifier::external_body]
#[verifier::reject_recursive_types(K)]
#[verifier::reject_recursive_types(V)]
#[verifier::reject_recursive_types(S)]
pub struct ExDashMap<K, V, S>(DashMap<K, V, S>);

/// Rate windows by key.
pub type WindowMap = DashMap<String, (u128, u32)>;

/// Session links by session id.
pub type SessionMap = DashMap<String, HostLink>;

/// Session ids by client id.
pub type BindingMap = DashMap<String, String>;

/// What a map holds for `k`, if anything.
pub open spec fn lookup<V>(m: Map<Seq<char>, V>, k: Seq<char>) -> Option<V> {
    if m.dom().contains(k) {
        Some(m[k])
    } else {
        None
    }
}

// ---------------------------------------------------------------- rate windows

/// The rate windows a map holds: key to (window start in nanoseconds, requests counted).
pub uninterp spec fn window_table(m: WindowMap) -> Map<Seq<char>, (u128, u32)>;

/// Calls `DashMap::new`: the map starts empty.
#[verifier::external_body]
pub(crate) fn windows_new() -> (r: WindowMap)
    ensures
        window_table(r).dom() == Set::<Seq<char>>::empty(),
{
    DashMap::new()
}

/// Calls `DashMap::get` and copies the value out: the result is what the map holds for
/// `key`.
#[verifier::external_body]
pub(crate) fn windows_get(m: &WindowMap, key: &str) -> (r: Option<(u128, u32)>)
    ensures
        r == lookup(window_table(*m), key@),
{
    match m.get(key) {
        Some(entry) => Some(*entry),
        None => None,
    }
}

/// Calls `DashMap::insert`: afterwards the map holds `value` for `key` and is otherwise
/// unchanged.
#[verifier::external_body]
pub(crate) fn windows_insert(m: &mut WindowMap, key: String, value: (u128, u32))
    ensures
        window_table(*final(m)) == window_table(*old(m)).insert(key@, value),
{
    m.insert(key, value);
}

/// Whether a window that started at `start` is still open at `now`: no more than
/// `window` has passed (an earlier `now` counts as no time passed).
pub open spec fn window_open(start: u128, now: u128, window: u128) -> bool {
    now <= start || now - start <= window
}

pub fn is_window_open(start: u128, now: u128, window: u128) -> (r: bool)
    ensures
        r == window_open(start, now, window),
{
    now <= start || now - start <= window
}

/// Calls `DashMap::retain` with `is_window_open`: afterwards the map holds exactly the
/// entries whose window is still open at `now`, unchanged.
#[verifier::external_body]
pub(crate) fn windows_retain_open(m: &mut WindowMap, now: u128, window: u128)
    ensures
        window_table(*final(m)) == Map::new(
            |k: Seq<char>|
                window_table(*old(m)).dom().contains(k) && window_open(
                    window_table(*old(m))[k].0,
                    now,
                    window,
                ),
            |k: Seq<char>| window_table(*old(m))[k],
        ),
{
    m.retain(|_, entry| is_window_open(entry.0, now, window));
}

// ---------------------------------------------------------------- sessions

/// The sessions a map holds: session id to (id of the host connection, whether that
/// connection is draining).
pub uninterp spec fn session_table(m: SessionMap) -> Map<Seq<char>, (Seq<char>, bool)>;

/// Calls `DashMap::new`: the map starts empty.
#[verifier::external_body]
pub(crate) fn sessions_new() -> (r: SessionMap)
    ensures
        session_table(r).dom() == Set::<Seq<char>>::empty(),
{
    DashMap::new()
}

/// Calls `DashMap::get` and copies the link out: the result is what the map holds for
/// `key`.
#[verifier::external_body]
pub(crate) fn sessions_get(m: &SessionMap, key: &str) -> (r: Option<HostLink>)
    ensures
        match r {
            Some(l) => lookup(session_table(*m), key@) == Some((l.conn_id@, l.draining)),
            None => lookup(session_table(*m), key@) is None,
        },
{
    match m.get(key) {
        Some(entry) => Some(HostLink { conn_id: entry.conn_id.clone(), draining: entry.draining }),
        None => None,
    }
}

/// Calls `DashMap::insert`: afterwards the map holds `link` for `key` and is otherwise
/// unchanged.
#[verifier::external_body]
pub(crate) fn sessions_insert(m: &mut SessionMap, key: String, link: HostLink)
    ensures
        session_table(*final(m)) == session_table(*old(m)).insert(
            key@,
            (link.conn_id@, link.draining),
        ),
{
    m.insert(key, link);
}

/// Calls `DashMap::remove`: afterwards the map holds nothing for `key` and is otherwise
/// unchanged.
#[verifier::external_body]
pub(crate) fn sessions_remove(m: &mut SessionMap, key: &str)
    ensures
        session_table(*final(m)) == session_table(*old(m)).remove(key@),
{
    m.remove(key);
}

/// `link`, marked draining when it belongs to connection `conn_id`.
pub fn drained(link: HostLink, conn_id: &str) -> (r: HostLink)
    ensures
        r.conn_id@ == link.conn_id@,
        r.draining == (link.draining || link.conn_id@ == conn_id@),
{
    let same = crate::text::str_eq(link.conn_id.as_str(), conn_id);
    HostLink { conn_id: link.conn_id, draining: link.draining || same }
}

/// Calls `DashMap::alter_all` with `drained`: afterwards every session of connection
/// `conn_id` is marked draining; the keys and all other entries are unchanged.
#[verifier::external_body]
pub(crate) fn sessions_mark_draining(m: &mut SessionMap, conn_id: &str)
    ensures
        session_table(*final(m)) == Map::new(
            |k: Seq<char>| session_table(*old(m)).dom().contains(k),
            |k: Seq<char>|
                (
                    session_table(*old(m))[k].0,
                    session_table(*old(m))[k].1 || session_table(*old(m))[k].0 == conn_id@,
                ),
        ),
{
    m.alter_all(|_, link| drained(link, conn_id));
}

// ---------------------------------------------------------------- client bindings

/// The client bindings a map holds: client id to the session id of its last `/whep`.
pub uninterp spec fn binding_table(m: BindingMap) -> Map<Seq<char>, Seq<char>>;

/// Calls `DashMap::new`: the map starts empty.
#[verifier::external_body]
pub(crate) fn bindings_new() -> (r: BindingMap)
    ensures
        binding_table(r).dom() == Set::<Seq<char>>::empty(),
{
    DashMap::new()
}

/// Calls `DashMap::get` and clones the value out: the result is what the map holds for
/// `key`.
#[verifier::external_body]
pub(crate) fn bindings_get(m: &BindingMap, key: &str) -> (r: Option<String>)
    ensures
        match r {
            Some(s) => lookup(binding_table(*m), key@) == Some(s@),
            None => lookup(binding_table(*m), key@) is None,
        },
{
    match m.get(key) {
        Some(entry) => Some(entry.clone()),
        None => None,
    }
}

/// Calls `DashMap::insert`: afterwards the map holds `value` for `key` and is otherwise
/// unchanged.
#[verifier::external_body]
pub(crate) fn bindings_insert(m: &mut BindingMap, key: String, value: String)
    ensures
        binding_table(*final(m)) == binding_table(*old(m)).insert(key@, value@),
{
    m.insert(key, value);
}

} // verus!
