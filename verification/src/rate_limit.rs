//! Fixed-window request counting per key.
use vstd::prelude::*;
use std::time::Instant;
use crate::clock::{instant_now, nanos_since};
use crate::maps::{
    lookup, window_open, window_table, windows_get, windows_insert, windows_new,
    windows_retain_open, WindowMap,
};

verus! {

/// One check of a key whose window record is `entry` (start, count) at time `now`, with
/// at most `max` requests per window of `window` nanoseconds: the record afterwards and
/// whether the request is allowed. A key without a record starts a window at `now`
/// with nothing counted; a window that has run out restarts at `now`, with this request
/// counted unless the limit is zero; a full window refuses; otherwise the request is
/// counted.
pub open spec fn check_step(entry: Option<(u128, u32)>, now: u128, max: u32, window: u128) -> (
    (u128, u32),
    bool,
) {
    let (start, count) = match entry {
        Some(e) => e,
        None => (now, 0u32),
    };
    if !window_open(start, now, window) {
        if max >= 1 {
            ((now, 1u32), true)
        } else {
            ((now, 0u32), false)
        }
    } else if count >= max {
        ((start, count), false)
    } else {
        ((start, (count + 1) as u32), true)
    }
}

/// Counts requests per key in fixed windows and refuses those beyond the limit.
pub struct RateLimiter {
    windows: WindowMap,
    max: u32,
    window: u128,
    origin: Instant,
}

impl RateLimiter {
    /// The window record of each key.
    pub closed spec fn entries(&self) -> Map<Seq<char>, (u128, u32)> {
        window_table(self.windows)
    }

    /// The most requests a key may make in one window.
    pub closed spec fn limit(&self) -> u32 {
        self.max
    }

    /// The length of a window, in nanoseconds.
    pub closed spec fn window_nanos(&self) -> u128 {
        self.window
    }

    /// The instant this limiter's clock counts from.
    pub closed spec fn clock_origin(&self) -> Instant {
        self.origin
    }

    /// Whether a check of `key` at time `now` is allowed.
    pub open spec fn allows(self, key: Seq<char>, now: u128) -> bool {
        check_step(lookup(self.entries(), key), now, self.limit(), self.window_nanos()).1
    }

    /// `next` is this limiter after checking `key` at time `now` with result `allowed`.
    pub open spec fn checked(self, next: Self, key: Seq<char>, now: u128, allowed: bool) -> bool {
        let step = check_step(lookup(self.entries(), key), now, self.limit(), self.window_nanos());
        &&& allowed == step.1
        &&& next.entries() == self.entries().insert(key, step.0)
        &&& next.limit() == self.limit()
        &&& next.window_nanos() == self.window_nanos()
        &&& next.clock_origin() == self.clock_origin()
    }

    /// `next` is this limiter after dropping, at time `now`, every record whose window has
    /// run out.
    pub open spec fn swept(self, next: Self, now: u128) -> bool {
        &&& next.entries() == Map::new(
            |k: Seq<char>|
                self.entries().dom().contains(k) && window_open(
                    self.entries()[k].0,
                    now,
                    self.window_nanos(),
                ),
            |k: Seq<char>| self.entries()[k],
        )
        &&& next.limit() == self.limit()
        &&& next.window_nanos() == self.window_nanos()
        &&& next.clock_origin() == self.clock_origin()
    }

    /// Every record has counted at least one request and no more than the limit.
    pub open spec fn counts_in_range(self) -> bool {
        forall|k: Seq<char>| #[trigger]
            self.entries().dom().contains(k) ==> 1 <= self.entries()[k].1 <= self.limit()
    }

    /// A limiter that allows `max` requests per key in each window of `window_secs`
    /// seconds.
    pub fn new(max: u32, window_secs: u64) -> (r: Self)
        ensures
            r.entries() == Map::<Seq<char>, (u128, u32)>::empty(),
            r.limit() == max,
            r.window_nanos() == window_secs as u128 * 1_000_000_000,
            r.counts_in_range(),
    {
        let windows = windows_new();
        let r = RateLimiter {
            windows,
            max,
            window: window_secs as u128 * 1_000_000_000,
            origin: instant_now(),
        };
        assert(r.entries() =~= Map::<Seq<char>, (u128, u32)>::empty());
        r
    }

    /// The time on this limiter's monotonic clock, in nanoseconds.
    pub fn now(&self) -> u128 {
        nanos_since(&self.origin)
    }

    /// Checks one request of `key` at time `now`, counting it when it is allowed.
    pub fn check_at(&mut self, key: &str, now: u128) -> (allowed: bool)
        ensures
            old(self).checked(*final(self), key@, now, allowed),
    {
        let (start, count) = match windows_get(&self.windows, key) {
            Some(e) => e,
            None => (now, 0u32),
        };
        let (entry, allowed) = if !crate::maps::is_window_open(start, now, self.window) {
            if self.max >= 1 {
                ((now, 1u32), true)
            } else {
                ((now, 0u32), false)
            }
        } else if count >= self.max {
            ((start, count), false)
        } else {
            ((start, count + 1), true)
        };
        windows_insert(&mut self.windows, key.to_owned(), entry);
        allowed
    }

    /// Checks one request of `key` now, counting it when it is allowed.
    pub fn check(&mut self, key: &str) -> (allowed: bool)
        ensures
            exists|now: u128| old(self).checked(*final(self), key@, now, allowed),
    {
        let now = self.now();
        self.check_at(key, now)
    }

    /// Drops every record whose window has run out at time `now`.
    pub fn sweep_at(&mut self, now: u128)
        ensures
            old(self).swept(*final(self), now),
    {
        windows_retain_open(&mut self.windows, now, self.window);
    }

    /// Drops every record whose window has run out now.
    pub fn sweep(&mut self)
        ensures
            exists|now: u128| old(self).swept(*final(self), now),
    {
        let now = self.now();
        self.sweep_at(now);
    }
}

} // verus!

verus! {

/// Checks of one key at the given times, in order, from window record `entry`: the
/// record afterwards and how many of the requests were allowed.
pub open spec fn check_run(entry: Option<(u128, u32)>, times: Seq<u128>, max: u32, window: u128) -> (
    Option<(u128, u32)>,
    nat,
)
    decreases times.len(),
{
    if times.len() == 0 {
        (entry, 0)
    } else {
        let before = check_run(entry, times.drop_last(), max, window);
        let step = check_step(before.0, times.last(), max, window);
        (Some(step.0), before.1 + if step.1 { 1nat } else { 0nat })
    }
}

/// Where the window of a run of checks starts: at the record's start, or at the first
/// check when the key has no record.
pub open spec fn run_window_start(entry: Option<(u128, u32)>, times: Seq<u128>) -> u128 {
    match entry {
        Some(e) => e.0,
        None => times[0],
    }
}

/// What the record of a run has already counted.
pub open spec fn run_counted(entry: Option<(u128, u32)>) -> u32 {
    match entry {
        Some(e) => e.1,
        None => 0u32,
    }
}

proof fn lemma_run_within_window(entry: Option<(u128, u32)>, times: Seq<u128>, max: u32, window: u128)
    requires
        times.len() > 0,
        run_counted(entry) <= max,
        forall|i: int|
            0 <= i < times.len() ==> window_open(
                run_window_start(entry, times),
                #[trigger] times[i],
                window,
            ),
    ensures
        check_run(entry, times, max, window).0 == Some(
            (
                run_window_start(entry, times),
                (run_counted(entry) + check_run(entry, times, max, window).1) as u32,
            ),
        ),
        run_counted(entry) + check_run(entry, times, max, window).1 <= max,
    decreases times.len(),
{
    let start = run_window_start(entry, times);
    if times.len() == 1 {
        assert(check_run(entry, times.drop_last(), max, window) == (entry, 0nat));
        assert(window_open(start, times[0], window));
    } else {
        let prefix = times.drop_last();
        assert(run_window_start(entry, prefix) == start);
        assert forall|i: int| 0 <= i < prefix.len() implies window_open(
            run_window_start(entry, prefix),
            #[trigger] prefix[i],
            window,
        ) by {
            assert(prefix[i] == times[i]);
        }
        lemma_run_within_window(entry, prefix, max, window);
        assert(window_open(start, times[times.len() - 1], window));
    }
}

/// The record a run of checks starts from in effect: the key's record while its window
/// is still open at the first check, and none otherwise, since a window that has run
/// out restarts at the first check just as a missing record starts one there.
pub open spec fn run_origin(entry: Option<(u128, u32)>, times: Seq<u128>, window: u128) -> Option<
    (u128, u32),
> {
    match entry {
        Some(e) => if window_open(e.0, times[0], window) {
            entry
        } else {
            None
        },
        None => None,
    }
}

/// Two records on which the first check of a run agrees give the same run.
proof fn lemma_runs_agree_after_first_check(
    a: Option<(u128, u32)>,
    b: Option<(u128, u32)>,
    times: Seq<u128>,
    max: u32,
    window: u128,
)
    requires
        times.len() > 0,
        check_step(a, times[0], max, window) == check_step(b, times[0], max, window),
    ensures
        check_run(a, times, max, window) == check_run(b, times, max, window),
    decreases times.len(),
{
    let prefix = times.drop_last();
    if times.len() == 1 {
        assert(check_run(a, prefix, max, window) == (a, 0nat));
        assert(check_run(b, prefix, max, window) == (b, 0nat));
        assert(times.last() == times[0]);
    } else {
        assert(prefix[0] == times[0]);
        lemma_runs_agree_after_first_check(a, b, prefix, max, window);
    }
}

/// Within one window a key is allowed at most the limit: from any record that has not
/// counted more than `max`, a run of checks whose times all fall inside one window
/// allows no more than `max` requests all told, and the record keeps counting in that
/// window. The window is the record's own while it is open at the first check;
/// otherwise (no record, or one that has run out) it starts at the first check.
pub proof fn lemma_window_allows_at_most_max(
    entry: Option<(u128, u32)>,
    times: Seq<u128>,
    max: u32,
    window: u128,
)
    requires
        times.len() > 0,
        run_counted(entry) <= max,
        forall|i: int|
            0 <= i < times.len() ==> window_open(
                run_window_start(run_origin(entry, times, window), times),
                #[trigger] times[i],
                window,
            ),
    ensures
        run_counted(run_origin(entry, times, window)) + check_run(entry, times, max, window).1
            <= max,
        check_run(entry, times, max, window).0 matches Some(e) && e.0 == run_window_start(
            run_origin(entry, times, window),
            times,
        ),
{
    let origin = run_origin(entry, times, window);
    assert(check_step(entry, times[0], max, window) == check_step(origin, times[0], max, window));
    lemma_runs_agree_after_first_check(entry, origin, times, max, window);
    lemma_run_within_window(origin, times, max, window);
}

/// A refused request is not counted: when a check of `key` is refused, the limiter's
/// records are as they were while the key's window is open; otherwise (no record, or a
/// window that has run out, under a limit of zero) the key's record starts a window at
/// `now` that has counted nothing.
pub proof fn lemma_refusal_counts_nothing(
    before: RateLimiter,
    after: RateLimiter,
    key: Seq<char>,
    now: u128,
)
    requires
        before.checked(after, key, now, false),
    ensures
        before.entries().dom().contains(key) && window_open(
            before.entries()[key].0,
            now,
            before.window_nanos(),
        ) ==> after.entries() == before.entries(),
        !(before.entries().dom().contains(key) && window_open(
            before.entries()[key].0,
            now,
            before.window_nanos(),
        )) ==> after.entries() == before.entries().insert(key, (now, 0u32)),
{
    if before.entries().dom().contains(key) && window_open(
        before.entries()[key].0,
        now,
        before.window_nanos(),
    ) {
        assert(after.entries() =~= before.entries());
    }
}

/// A limit of zero allows nothing: every check under it is refused.
pub proof fn lemma_zero_limit_allows_nothing(
    before: RateLimiter,
    after: RateLimiter,
    key: Seq<char>,
    now: u128,
    allowed: bool,
)
    requires
        before.checked(after, key, now, allowed),
        before.limit() == 0,
    ensures
        !allowed,
{
}

/// A check of one key leaves the record of every other key as it was.
pub proof fn lemma_check_is_per_key(
    before: RateLimiter,
    after: RateLimiter,
    key: Seq<char>,
    other: Seq<char>,
    now: u128,
    allowed: bool,
)
    requires
        before.checked(after, key, now, allowed),
        other != key,
    ensures
        lookup(after.entries(), other) == lookup(before.entries(), other),
{
}

/// Sweeping cannot be seen by later checks: a check of any key at or after the sweep gives the same answer and leaves the same
/// record for that key as it would have without the sweep.
pub proof fn lemma_sweep_is_unobservable(
    before: RateLimiter,
    swept: RateLimiter,
    sweep_time: u128,
    key: Seq<char>,
    now: u128,
)
    requires
        before.swept(swept, sweep_time),
        sweep_time <= now,
    ensures
        check_step(lookup(swept.entries(), key), now, swept.limit(), swept.window_nanos())
            == check_step(lookup(before.entries(), key), now, before.limit(), before.window_nanos()),
{
    if before.entries().dom().contains(key) && !swept.entries().dom().contains(key) {
        assert(!window_open(before.entries()[key].0, sweep_time, before.window_nanos()));
        assert(!window_open(before.entries()[key].0, now, before.window_nanos()));
    }
}

} // verus!

verus! {

/// A key's count never goes above the limit: a check keeps every record within it.
pub proof fn lemma_count_stays_within_limit(
    before: RateLimiter,
    after: RateLimiter,
    key: Seq<char>,
    now: u128,
    allowed: bool,
)
    requires
        before.checked(after, key, now, allowed),
        forall|k: Seq<char>| #[trigger] before.entries().dom().contains(k) ==> before.entries()[k].1
            <= before.limit(),
    ensures
        forall|k: Seq<char>| #[trigger] after.entries().dom().contains(k) ==> after.entries()[k].1
            <= after.limit(),
{
}

/// With a limit of at least one, every record counts between one and the limit, and
/// checks keep it so: a record is only made by a request that it counts.
pub proof fn lemma_check_keeps_counts_in_range(
    before: RateLimiter,
    after: RateLimiter,
    key: Seq<char>,
    now: u128,
    allowed: bool,
)
    requires
        before.checked(after, key, now, allowed),
        before.limit() >= 1,
        before.counts_in_range(),
    ensures
        after.counts_in_range(),
{
}

/// Sweeping keeps every record counting between one and the limit.
pub proof fn lemma_sweep_keeps_counts_in_range(before: RateLimiter, after: RateLimiter, now: u128)
    requires
        before.swept(after, now),
        before.counts_in_range(),
    ensures
        after.counts_in_range(),
{
}

/// `next` follows from `lim` by one check or one sweep.
pub open spec fn limiter_moves(lim: RateLimiter, next: RateLimiter) -> bool {
    ||| exists|key: Seq<char>, now: u128, allowed: bool| lim.checked(next, key, now, allowed)
    ||| exists|now: u128| lim.swept(next, now)
}

proof fn lemma_run_prefix_in_range(states: Seq<RateLimiter>, i: int)
    requires
        0 <= i < states.len(),
        states[0].counts_in_range(),
        states[0].limit() >= 1,
        forall|j: int| 0 <= j < states.len() - 1 ==> #[trigger] limiter_moves(states[j], states[j + 1]),
    ensures
        states[i].counts_in_range(),
        states[i].limit() == states[0].limit(),
    decreases i,
{
    if i > 0 {
        lemma_run_prefix_in_range(states, i - 1);
        let prev = states[i - 1];
        let next = states[i];
        assert(limiter_moves(states[i - 1], states[(i - 1) + 1]));
        if exists|key: Seq<char>, now: u128, allowed: bool| prev.checked(next, key, now, allowed) {
            let (key, now, allowed) = choose|key: Seq<char>, now: u128, allowed: bool|
                prev.checked(next, key, now, allowed);
            lemma_check_keeps_counts_in_range(prev, next, key, now, allowed);
        } else {
            let now = choose|now: u128| prev.swept(next, now);
            lemma_sweep_keeps_counts_in_range(prev, next, now);
        }
    }
}

/// With a limit of at least one, every record counts between one and the limit through
/// any run of checks and sweeps from a new limiter (or any limiter where that holds):
/// at every state of the run.
pub proof fn lemma_counts_in_range_through_any_run(states: Seq<RateLimiter>)
    requires
        states.len() > 0,
        states[0].counts_in_range(),
        states[0].limit() >= 1,
        forall|j: int| 0 <= j < states.len() - 1 ==> #[trigger] limiter_moves(states[j], states[j + 1]),
    ensures
        forall|i: int| 0 <= i < states.len() ==> (#[trigger] states[i]).counts_in_range(),
{
    assert forall|i: int| 0 <= i < states.len() implies (#[trigger] states[i]).counts_in_range() by {
        lemma_run_prefix_in_range(states, i);
    }
}

} // verus!
