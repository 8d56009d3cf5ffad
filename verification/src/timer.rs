//! The periodic timer scheduler's state machine.
//!
//! A `TimerManager` holds a set of named periodic timers, keyed by the full
//! `Event` value they fire.  The engine's background loop is modeled by
//! `tick`: given the current clock reading it returns the events whose
//! intervals have elapsed and the wait the loop should observe before
//! polling again.  Time is a millisecond reading of a monotonic clock,
//! supplied by the caller; the thread that polls `tick` and the real clock
//! live outside the library.

use vstd::prelude::*;

use crate::eventloop::Event;

verus! {

/// One registered timer: fires `key` whenever `interval_ms` has elapsed
/// since `last_fired_ms`, as long as it is active.  Stopping a timer only
/// clears `active`; interval and phase are preserved so the timer can be
/// resumed.
#[derive(Clone, Copy, Debug, PartialEq, Eq, Structural)]
pub struct TimerRecord {
    pub key: Event,
    pub interval_ms: u64,
    pub last_fired_ms: u64,
    pub active: bool,
}

/// The set of registered timers, in registration order.
pub struct TimerManager {
    timers: Vec<TimerRecord>,
}

/// Milliseconds elapsed at `now_ms` since the record last fired, saturating
/// at zero if the record was (re)started after `now_ms` was read.
pub open spec fn elapsed_ms(r: TimerRecord, now_ms: u64) -> int {
    if now_ms >= r.last_fired_ms {
        now_ms - r.last_fired_ms
    } else {
        0
    }
}

/// Whether the record fires at a poll happening at `now_ms`.
pub open spec fn is_due(r: TimerRecord, now_ms: u64) -> bool {
    r.active && elapsed_ms(r, now_ms) >= r.interval_ms
}

/// Index of the first record with the given key, or -1 if there is none.
pub open spec fn find_index(s: Seq<TimerRecord>, key: Event) -> int
    decreases s.len(),
{
    if s.len() == 0 {
        -1
    } else if s[0].key == key {
        0
    } else {
        let rest = find_index(s.subrange(1, s.len() as int), key);
        if rest == -1 {
            -1
        } else {
            rest + 1
        }
    }
}

/// The first record with the given key, if any.
pub open spec fn record_of(s: Seq<TimerRecord>, key: Event) -> Option<TimerRecord> {
    if find_index(s, key) >= 0 {
        Some(s[find_index(s, key)])
    } else {
        None
    }
}

/// Whether some record carries the given key.
pub open spec fn has_key(s: Seq<TimerRecord>, key: Event) -> bool {
    find_index(s, key) >= 0
}

/// `find_index` returns -1 exactly when no record has the key, and otherwise
/// the position of the first record that does.
pub proof fn lemma_find_index_spec(s: Seq<TimerRecord>, key: Event)
    ensures
        find_index(s, key) == -1 ==> forall|i: int| 0 <= i < s.len() ==> s[i].key != key,
        find_index(s, key) != -1 ==> 0 <= find_index(s, key) < s.len() && s[find_index(
            s,
            key,
        )].key == key && forall|j: int| 0 <= j < find_index(s, key) ==> s[j].key != key,
    decreases s.len(),
{
    if s.len() == 0 {
    } else if s[0].key == key {
    } else {
        let tail = s.subrange(1, s.len() as int);
        lemma_find_index_spec(tail, key);
        if find_index(s, key) == -1 {
            assert forall|i: int| 0 <= i < s.len() implies s[i].key != key by {
                if i >= 1 {
                    assert(tail[i - 1] == s[i]);
                }
            }
        } else {
            let fi = find_index(s, key);
            assert(tail[fi - 1] == s[fi]);
            assert forall|j: int| 0 <= j < fi implies s[j].key != key by {
                if j >= 1 {
                    assert(tail[j - 1] == s[j]);
                }
            }
        }
    }
}

/// If `i` is the position of the first record with the key, `find_index`
/// returns `i`.
pub proof fn lemma_find_index_first(s: Seq<TimerRecord>, key: Event, i: int)
    requires
        0 <= i < s.len(),
        s[i].key == key,
        forall|j: int| 0 <= j < i ==> s[j].key != key,
    ensures
        find_index(s, key) == i,
    decreases s.len(),
{
    if i == 0 {
    } else {
        let tail = s.subrange(1, s.len() as int);
        assert(forall|j: int| 0 <= j < tail.len() ==> tail[j] == s[j + 1]);
        lemma_find_index_first(tail, key, i - 1);
    }
}

/// The record a fresh or restarted timer gets: active, with the given
/// interval, and its phase reset to the moment of the call.
pub open spec fn started_record(key: Event, interval_ms: u64, now_ms: u64) -> TimerRecord {
    TimerRecord { key, interval_ms, last_fired_ms: now_ms, active: true }
}

/// Effect of `start_timer`: upsert keyed on the full event value.
pub open spec fn spec_start(
    s: Seq<TimerRecord>,
    key: Event,
    interval_ms: u64,
    now_ms: u64,
) -> Seq<TimerRecord> {
    if has_key(s, key) {
        s.update(find_index(s, key), started_record(key, interval_ms, now_ms))
    } else {
        s.push(started_record(key, interval_ms, now_ms))
    }
}

/// Effect of `stop_timer`: deactivate the matching record, preserving its
/// interval and phase; no-op when the key is absent.
pub open spec fn spec_stop(s: Seq<TimerRecord>, key: Event) -> Seq<TimerRecord> {
    if has_key(s, key) {
        let i = find_index(s, key);
        s.update(i, TimerRecord { active: false, ..s[i] })
    } else {
        s
    }
}

/// Effect of `remove_timer`: delete every record with the key.
pub open spec fn spec_remove(s: Seq<TimerRecord>, key: Event) -> Seq<TimerRecord>
    decreases s.len(),
{
    if s.len() == 0 {
        Seq::empty()
    } else {
        let rest = spec_remove(s.drop_last(), key);
        if s.last().key == key {
            rest
        } else {
            rest.push(s.last())
        }
    }
}

/// Events fired by a poll at `now_ms`: the keys of the due records, in
/// record order.
pub open spec fn spec_fired(s: Seq<TimerRecord>, now_ms: u64) -> Seq<Event>
    decreases s.len(),
{
    if s.len() == 0 {
        Seq::empty()
    } else {
        let rest = spec_fired(s.drop_last(), now_ms);
        if is_due(s.last(), now_ms) {
            rest.push(s.last().key)
        } else {
            rest
        }
    }
}

/// Timer set after a poll at `now_ms`: due records have their phase reset to
/// `now_ms`; everything else is untouched.
pub open spec fn spec_tick(s: Seq<TimerRecord>, now_ms: u64) -> Seq<TimerRecord> {
    s.map_values(
        |r: TimerRecord|
            if is_due(r, now_ms) {
                TimerRecord { last_fired_ms: now_ms, ..r }
            } else {
                r
            },
    )
}

/// The wait the engine starts from when no timer asks for less.
pub const IDLE_WAIT_MS: u64 = 1000;

/// The liveness ceiling: the engine never waits longer than this, so a timer
/// registered concurrently with a wait already in progress is noticed with
/// bounded staleness.
pub const WAIT_CEILING_MS: u64 = 330;

/// Smaller of two mathematical integers.
pub open spec fn min_int(a: int, b: int) -> int {
    if a <= b {
        a
    } else {
        b
    }
}

/// The wait candidate a poll at `now_ms` collects over the records: for each
/// active record, its full interval if it just fired, otherwise the time
/// left until it is due.
pub open spec fn spec_wait(s: Seq<TimerRecord>, now_ms: u64) -> int
    decreases s.len(),
{
    if s.len() == 0 {
        IDLE_WAIT_MS as int
    } else {
        let rest = spec_wait(s.drop_last(), now_ms);
        let r = s.last();
        if !r.active {
            rest
        } else if is_due(r, now_ms) {
            min_int(rest, r.interval_ms as int)
        } else {
            min_int(rest, r.interval_ms - elapsed_ms(r, now_ms))
        }
    }
}

/// The wait a poll at `now_ms` tells the engine to observe before polling
/// again: the collected candidate, capped by the liveness ceiling.
pub open spec fn spec_sleep(s: Seq<TimerRecord>, now_ms: u64) -> int {
    min_int(spec_wait(s, now_ms), WAIT_CEILING_MS as int)
}

/// The wait candidate never exceeds the idle wait and never goes negative.
pub proof fn lemma_wait_bounds(s: Seq<TimerRecord>, now_ms: u64)
    ensures
        0 <= spec_wait(s, now_ms) <= IDLE_WAIT_MS,
    decreases s.len(),
{
    if s.len() > 0 {
        lemma_wait_bounds(s.drop_last(), now_ms);
    }
}

impl TimerManager {
    /// The registered timers, in registration order.
    pub closed spec fn view(&self) -> Seq<TimerRecord> {
        self.timers@
    }

    /// A fresh manager with no timers registered.
    pub fn new() -> (r: TimerManager)
        ensures
            r@ == Seq::<TimerRecord>::empty(),
    {
        TimerManager { timers: Vec::new() }
    }

    /// Position of the first record with the key, if any.
    fn find(&self, key: Event) -> (r: Option<usize>)
        ensures
            match r {
                Some(i) => find_index(self@, key) == i,
                None => find_index(self@, key) == -1,
            },
    {
        let mut i: usize = 0;
        while i < self.timers.len()
            invariant
                0 <= i <= self.timers.len(),
                forall|j: int| 0 <= j < i ==> self.timers@[j].key != key,
            decreases self.timers.len() - i,
        {
            if self.timers[i].key == key {
                proof {
                    lemma_find_index_first(self.timers@, key, i as int);
                }
                return Some(i);
            }
            i += 1;
        }
        proof {
            lemma_find_index_spec(self.timers@, key);
        }
        None
    }

    /// How many timers are registered.
    pub fn len(&self) -> (n: usize)
        ensures
            n == self@.len(),
    {
        self.timers.len()
    }

    /// The record of the timer keyed by `event`, if one is registered.
    pub fn get(&self, event: Event) -> (r: Option<TimerRecord>)
        ensures
            r == record_of(self@, event),
    {
        match self.find(event) {
            Some(i) => {
                proof {
                    lemma_find_index_spec(self.timers@, event);
                }
                Some(self.timers[i])
            },
            None => None,
        }
    }

    /// Upserts the timer keyed by `event`: if present, resets its interval
    /// and phase and reactivates it; if absent, registers a new active
    /// record.  `now_ms` is the caller's reading of the monotonic clock.
    pub fn start_timer(&mut self, event: Event, interval_ms: u64, now_ms: u64)
        ensures
            final(self)@ == spec_start(old(self)@, event, interval_ms, now_ms),
    {
        let rec = TimerRecord { key: event, interval_ms, last_fired_ms: now_ms, active: true };
        match self.find(event) {
            Some(i) => {
                proof {
                    lemma_find_index_spec(self.timers@, event);
                }
                self.timers.remove(i);
                self.timers.insert(i, rec);
                proof {
                    assert(self.timers@ =~= spec_start(old(self)@, event, interval_ms, now_ms));
                }
            },
            None => {
                self.timers.push(rec);
            },
        }
    }

    /// Marks the timer keyed by `event` inactive if present; silently
    /// ignored otherwise.  Interval and phase are preserved, so a later
    /// `start_timer` resumes a fresh period.
    pub fn stop_timer(&mut self, event: Event)
        ensures
            final(self)@ == spec_stop(old(self)@, event),
    {
        match self.find(event) {
            Some(i) => {
                proof {
                    lemma_find_index_spec(self.timers@, event);
                }
                let r = self.timers[i];
                self.timers.remove(i);
                self.timers.insert(i, TimerRecord { active: false, ..r });
                proof {
                    assert(self.timers@ =~= spec_stop(old(self)@, event));
                }
            },
            None => {},
        }
    }

    /// Deletes every record keyed by `event`; no-op when absent.
    pub fn remove_timer(&mut self, event: Event)
        ensures
            final(self)@ == spec_remove(old(self)@, event),
    {
        let ghost s0 = self.timers@;
        let mut kept: Vec<TimerRecord> = Vec::new();
        let mut i: usize = 0;
        while i < self.timers.len()
            invariant
                0 <= i <= self.timers.len(),
                self.timers@ == s0,
                kept@ == spec_remove(s0.subrange(0, i as int), event),
            decreases self.timers.len() - i,
        {
            let r = self.timers[i];
            proof {
                assert(s0.subrange(0, i + 1).drop_last() =~= s0.subrange(0, i as int));
            }
            if !(r.key == event) {
                kept.push(r);
            }
            i += 1;
        }
        proof {
            assert(s0.subrange(0, s0.len() as int) =~= s0);
        }
        self.timers = kept;
    }

    /// One poll of the engine's background loop at clock reading `now_ms`:
    /// returns the events of every due timer, in record order, resets the
    /// phase of exactly those timers, and returns the wait to observe before
    /// the next poll.  The wait never exceeds the liveness ceiling, and for
    /// every active timer it is small enough that the next poll does not
    /// overshoot the timer's deadline.
    pub fn tick(&mut self, now_ms: u64) -> (r: (Vec<Event>, u64))
        ensures
            r.0@ == spec_fired(old(self)@, now_ms),
            final(self)@ == spec_tick(old(self)@, now_ms),
            r.1 == spec_sleep(old(self)@, now_ms),
    {
        let ghost s0 = self.timers@;
        let mut fired: Vec<Event> = Vec::new();
        let mut wait: u64 = IDLE_WAIT_MS;
        let mut i: usize = 0;
        while i < self.timers.len()
            invariant
                0 <= i <= self.timers.len(),
                self.timers@.len() == s0.len(),
                forall|j: int| i <= j < s0.len() ==> self.timers@[j] == s0[j],
                forall|j: int|
                    0 <= j < i ==> self.timers@[j] == (if is_due(s0[j], now_ms) {
                        (TimerRecord { last_fired_ms: now_ms, ..s0[j] })
                    } else {
                        s0[j]
                    }),
                fired@ == spec_fired(s0.subrange(0, i as int), now_ms),
                wait == spec_wait(s0.subrange(0, i as int), now_ms),
            decreases self.timers.len() - i,
        {
            let r = self.timers[i];
            proof {
                assert(s0.subrange(0, i + 1).drop_last() =~= s0.subrange(0, i as int));
                assert(s0.subrange(0, i + 1).last() == s0[i as int]);
            }
            if r.active {
                let elapsed = if now_ms >= r.last_fired_ms {
                    now_ms - r.last_fired_ms
                } else {
                    0
                };
                if elapsed >= r.interval_ms {
                    fired.push(r.key);
                    self.timers.remove(i);
                    self.timers.insert(i, TimerRecord { last_fired_ms: now_ms, ..r });
                    if r.interval_ms < wait {
                        wait = r.interval_ms;
                    }
                } else {
                    let remaining = r.interval_ms - elapsed;
                    if remaining < wait {
                        wait = remaining;
                    }
                }
            }
            i += 1;
        }
        proof {
            assert(s0.subrange(0, s0.len() as int) =~= s0);
            assert(self.timers@ =~= spec_tick(s0, now_ms));
        }
        let sleep = if wait < WAIT_CEILING_MS {
            wait
        } else {
            WAIT_CEILING_MS
        };
        (fired, sleep)
    }
}

/// A key is present exactly when some record carries it.
pub proof fn lemma_has_key_exists(s: Seq<TimerRecord>, key: Event)
    ensures
        has_key(s, key) <==> (exists|i: int| 0 <= i < s.len() && s[i].key == key),
{
    lemma_find_index_spec(s, key);
    if find_index(s, key) >= 0 {
        assert(s[find_index(s, key)].key == key);
    }
}

/// Appending a record changes only the lookup of its own key, and that only
/// when the key was absent before.
pub proof fn lemma_record_push(s: Seq<TimerRecord>, x: TimerRecord, key: Event)
    ensures
        record_of(s.push(x), key) == (if has_key(s, key) {
            record_of(s, key)
        } else if x.key == key {
            Some(x)
        } else {
            None::<TimerRecord>
        }),
{
    let p = s.push(x);
    lemma_find_index_spec(s, key);
    if has_key(s, key) {
        let fi = find_index(s, key);
        lemma_find_index_first(p, key, fi);
    } else if x.key == key {
        lemma_find_index_first(p, key, s.len() as int);
    } else {
        lemma_find_index_spec(p, key);
        if find_index(p, key) >= 0 {
            assert(p[find_index(p, key)].key == key);
            assert(false);
        }
    }
}

/// After `start_timer` the started key maps to a fresh active record with
/// the given interval and phase.
pub proof fn lemma_start_same(s: Seq<TimerRecord>, key: Event, interval_ms: u64, now_ms: u64)
    ensures
        record_of(spec_start(s, key, interval_ms, now_ms), key) == Some(
            started_record(key, interval_ms, now_ms),
        ),
{
    lemma_find_index_spec(s, key);
    if has_key(s, key) {
        let fi = find_index(s, key);
        let u = s.update(fi, started_record(key, interval_ms, now_ms));
        lemma_find_index_first(u, key, fi);
    } else {
        lemma_record_push(s, started_record(key, interval_ms, now_ms), key);
    }
}

/// `start_timer` leaves the record of every other key untouched.
pub proof fn lemma_start_other(
    s: Seq<TimerRecord>,
    key: Event,
    interval_ms: u64,
    now_ms: u64,
    other: Event,
)
    requires
        other != key,
    ensures
        record_of(spec_start(s, key, interval_ms, now_ms), other) == record_of(s, other),
{
    lemma_find_index_spec(s, key);
    lemma_find_index_spec(s, other);
    if has_key(s, key) {
        let fi = find_index(s, key);
        let u = s.update(fi, started_record(key, interval_ms, now_ms));
        if has_key(s, other) {
            let fo = find_index(s, other);
            lemma_find_index_first(u, other, fo);
        } else {
            lemma_find_index_spec(u, other);
            if find_index(u, other) >= 0 {
                assert(u[find_index(u, other)].key == other);
                assert(false);
            }
        }
    } else {
        lemma_record_push(s, started_record(key, interval_ms, now_ms), other);
    }
}

/// After `stop_timer` the stopped key's record, if present, is the old one
/// with `active` cleared.
pub proof fn lemma_stop_same(s: Seq<TimerRecord>, key: Event)
    ensures
        record_of(spec_stop(s, key), key) == (match record_of(s, key) {
            Some(r) => Some(TimerRecord { active: false, ..r }),
            None => None,
        }),
{
    lemma_find_index_spec(s, key);
    if has_key(s, key) {
        let fi = find_index(s, key);
        let u = s.update(fi, TimerRecord { active: false, ..s[fi] });
        lemma_find_index_first(u, key, fi);
    }
}

/// `stop_timer` leaves the record of every other key untouched.
pub proof fn lemma_stop_other(s: Seq<TimerRecord>, key: Event, other: Event)
    requires
        other != key,
    ensures
        record_of(spec_stop(s, key), other) == record_of(s, other),
{
    lemma_find_index_spec(s, key);
    lemma_find_index_spec(s, other);
    if has_key(s, key) {
        let fi = find_index(s, key);
        let u = s.update(fi, TimerRecord { active: false, ..s[fi] });
        if has_key(s, other) {
            let fo = find_index(s, other);
            lemma_find_index_first(u, other, fo);
        } else {
            lemma_find_index_spec(u, other);
            if find_index(u, other) >= 0 {
                assert(u[find_index(u, other)].key == other);
                assert(false);
            }
        }
    }
}

/// After `remove_timer` no record carries the removed key.
pub proof fn lemma_remove_same(s: Seq<TimerRecord>, key: Event)
    ensures
        forall|i: int|
            0 <= i < spec_remove(s, key).len() ==> spec_remove(s, key)[i].key != key,
        record_of(spec_remove(s, key), key) == None::<TimerRecord>,
    decreases s.len(),
{
    if s.len() > 0 {
        lemma_remove_same(s.drop_last(), key);
    }
    let rem = spec_remove(s, key);
    lemma_find_index_spec(rem, key);
    if find_index(rem, key) >= 0 {
        assert(rem[find_index(rem, key)].key == key);
        assert(false);
    }
}

/// `remove_timer` leaves the record of every other key untouched.
pub proof fn lemma_remove_other(s: Seq<TimerRecord>, key: Event, other: Event)
    requires
        other != key,
    ensures
        record_of(spec_remove(s, key), other) == record_of(s, other),
    decreases s.len(),
{
    if s.len() == 0 {
    } else {
        let s1 = s.drop_last();
        let x = s.last();
        lemma_remove_other(s1, key, other);
        assert(s =~= s1.push(x));
        lemma_record_push(s1, x, other);
        if x.key == key {
        } else {
            lemma_record_push(spec_remove(s1, key), x, other);
        }
    }
}

/// A poll preserves each key's record shape: due records get their phase
/// reset, everything else is untouched.
pub proof fn lemma_tick_record(s: Seq<TimerRecord>, now_ms: u64, key: Event)
    ensures
        record_of(spec_tick(s, now_ms), key) == (match record_of(s, key) {
            Some(r) => Some(
                if is_due(r, now_ms) {
                    (TimerRecord { last_fired_ms: now_ms, ..r })
                } else {
                    r
                },
            ),
            None => None,
        }),
{
    let m = spec_tick(s, now_ms);
    assert(forall|j: int| 0 <= j < s.len() ==> m[j].key == s[j].key);
    lemma_find_index_spec(s, key);
    if has_key(s, key) {
        let fi = find_index(s, key);
        lemma_find_index_first(m, key, fi);
    } else {
        lemma_find_index_spec(m, key);
        if find_index(m, key) >= 0 {
            assert(m[find_index(m, key)].key == key);
            assert(false);
        }
    }
}

/// Well-formedness of the timer set: no two records share a key.  It holds
/// of the empty set and every operation preserves it, so it is an invariant
/// of every reachable manager state.
pub open spec fn wf(s: Seq<TimerRecord>) -> bool {
    forall|i: int, j: int| 0 <= i < j < s.len() ==> s[i].key != s[j].key
}

/// One command or poll applied to the timer set: the manager's whole
/// lifecycle is a fold of these.
pub enum TimerOp {
    Start(Event, u64, u64),
    Stop(Event),
    Remove(Event),
    Tick(u64),
}

/// Whether the operation is a `start_timer` of the given key.
pub open spec fn op_starts(op: TimerOp, key: Event) -> bool {
    match op {
        TimerOp::Start(k, _, _) => k == key,
        _ => false,
    }
}

/// Effect of one operation on the timer set.
pub open spec fn apply_op(s: Seq<TimerRecord>, op: TimerOp) -> Seq<TimerRecord> {
    match op {
        TimerOp::Start(k, d, t) => spec_start(s, k, d, t),
        TimerOp::Stop(k) => spec_stop(s, k),
        TimerOp::Remove(k) => spec_remove(s, k),
        TimerOp::Tick(t) => spec_tick(s, t),
    }
}

/// Effect of a sequence of operations, applied in order.
pub open spec fn apply_ops(s: Seq<TimerRecord>, ops: Seq<TimerOp>) -> Seq<TimerRecord>
    decreases ops.len(),
{
    if ops.len() == 0 {
        s
    } else {
        apply_op(apply_ops(s, ops.drop_last()), ops.last())
    }
}

/// Every operation preserves well-formedness of the timer set.
pub proof fn lemma_wf_apply_op(s: Seq<TimerRecord>, op: TimerOp)
    requires
        wf(s),
    ensures
        wf(apply_op(s, op)),
{
    match op {
        TimerOp::Start(k, d, t) => {
            lemma_find_index_spec(s, k);
            if has_key(s, k) {
                let fi = find_index(s, k);
                let u = s.update(fi, started_record(k, d, t));
                assert(forall|j: int| 0 <= j < s.len() ==> u[j].key == s[j].key);
            }
        },
        TimerOp::Stop(k) => {
            lemma_find_index_spec(s, k);
            if has_key(s, k) {
                let fi = find_index(s, k);
                let u = s.update(fi, TimerRecord { active: false, ..s[fi] });
                assert(forall|j: int| 0 <= j < s.len() ==> u[j].key == s[j].key);
            }
        },
        TimerOp::Remove(k) => {
            lemma_wf_remove(s, k);
        },
        TimerOp::Tick(t) => {
            let m = spec_tick(s, t);
            assert(forall|j: int| 0 <= j < s.len() ==> m[j].key == s[j].key);
        },
    }
}

/// Removing a key preserves well-formedness.
pub proof fn lemma_wf_remove(s: Seq<TimerRecord>, key: Event)
    requires
        wf(s),
    ensures
        wf(spec_remove(s, key)),
    decreases s.len(),
{
    if s.len() > 0 {
        let s1 = s.drop_last();
        let x = s.last();
        assert(wf(s1));
        lemma_wf_remove(s1, key);
        if x.key != key {
            let rem1 = spec_remove(s1, key);
            lemma_has_key_exists(s1, x.key);
            assert(!has_key(s1, x.key));
            lemma_remove_other(s1, key, x.key);
            lemma_has_key_exists(rem1, x.key);
            assert(forall|i: int| 0 <= i < rem1.len() ==> rem1[i].key != x.key);
            assert(wf(rem1.push(x)));
        }
    }
}

/// In a well-formed timer set, a poll at `now_ms` fires a key exactly when
/// the key's record exists and is due: active, with at least its interval
/// elapsed.  In particular a stopped or absent timer never fires, and no
/// timer fires early.
pub proof fn lemma_fired_iff_due(s: Seq<TimerRecord>, now_ms: u64, key: Event)
    requires
        wf(s),
    ensures
        record_of(s, key) is None ==> !spec_fired(s, now_ms).contains(key),
        record_of(s, key) matches Some(r) ==> spec_fired(s, now_ms).contains(key) == is_due(
            r,
            now_ms,
        ),
    decreases s.len(),
{
    if s.len() == 0 {
        assert(!spec_fired(s, now_ms).contains(key));
    } else {
        let s1 = s.drop_last();
        let x = s.last();
        assert(wf(s1));
        lemma_fired_iff_due(s1, now_ms, key);
        assert(s =~= s1.push(x));
        lemma_record_push(s1, x, key);
        let f1 = spec_fired(s1, now_ms);
        let f = spec_fired(s, now_ms);
        if is_due(x, now_ms) {
            assert(f == f1.push(x.key));
            assert(forall|i: int| 0 <= i < f1.len() ==> f[i] == f1[i]);
            assert(f[f1.len() as int] == x.key);
            assert(f.contains(key) == (f1.contains(key) || x.key == key)) by {
                if f1.contains(key) {
                    let w = choose|w: int| 0 <= w < f1.len() && f1[w] == key;
                    assert(f[w] == key);
                }
                if x.key == key {
                    assert(f[f1.len() as int] == key);
                }
                if f.contains(key) {
                    let w = choose|w: int| 0 <= w < f.len() && f[w] == key;
                    if w < f1.len() {
                        assert(f1[w] == key);
                    }
                }
            }
        } else {
            assert(f == f1);
        }
        if x.key == key {
            lemma_has_key_exists(s1, key);
            assert(!has_key(s1, key)) by {
                if has_key(s1, key) {
                    let w = choose|w: int| 0 <= w < s1.len() && s1[w].key == key;
                    assert(s[w].key == s[s.len() - 1].key);
                    assert(false);
                }
            }
        }
    }
}

/// The wait returned by a poll never overshoots a pending deadline: for
/// every active record that did not fire, the next poll taken after the
/// advised wait happens no later than the record's due time; and for every
/// record that did fire, the wait is at most its full interval.
pub proof fn lemma_wait_deadline(s: Seq<TimerRecord>, now_ms: u64)
    ensures
        forall|i: int|
            0 <= i < s.len() && s[i].active && !is_due(s[i], now_ms) ==> spec_wait(s, now_ms)
                <= s[i].interval_ms - elapsed_ms(s[i], now_ms),
        forall|i: int|
            0 <= i < s.len() && s[i].active && is_due(s[i], now_ms) ==> spec_wait(s, now_ms)
                <= s[i].interval_ms,
    decreases s.len(),
{
    if s.len() > 0 {
        lemma_wait_deadline(s.drop_last(), now_ms);
        assert(forall|i: int| 0 <= i < s.len() - 1 ==> s.drop_last()[i] == s[i]);
        lemma_wait_bounds(s.drop_last(), now_ms);
    }
}

/// Liveness bound of the scheduler's advised sleep: it is never negative,
/// never exceeds the ceiling, and for every active timer that has not fired
/// yet, polling again after the advised sleep does not pass the timer's
/// deadline.
pub proof fn lemma_sleep_liveness(s: Seq<TimerRecord>, now_ms: u64)
    ensures
        0 <= spec_sleep(s, now_ms) <= WAIT_CEILING_MS,
        forall|i: int|
            0 <= i < s.len() && s[i].active && !is_due(s[i], now_ms) ==> now_ms + spec_sleep(
                s,
                now_ms,
            ) <= s[i].last_fired_ms + s[i].interval_ms,
{
    lemma_wait_bounds(s, now_ms);
    lemma_wait_deadline(s, now_ms);
}

/// Whether a key should be present after the operations, read directly off
/// the operation sequence: the latest `Start` or `Remove` of the key
/// decides, and if there is none, presence in the initial set decides.
pub open spec fn expected_present(base: bool, ops: Seq<TimerOp>, key: Event) -> bool
    decreases ops.len(),
{
    if ops.len() == 0 {
        base
    } else {
        match ops.last() {
            TimerOp::Start(k, _, _) => if k == key {
                true
            } else {
                expected_present(base, ops.drop_last(), key)
            },
            TimerOp::Remove(k) => if k == key {
                false
            } else {
                expected_present(base, ops.drop_last(), key)
            },
            _ => expected_present(base, ops.drop_last(), key),
        }
    }
}

/// The timer set after any sequence of operations contains exactly the keys
/// the sequence implies, each call applied in order: no phantom and no
/// missing entries.
pub proof fn lemma_set_tracks_commands(s: Seq<TimerRecord>, ops: Seq<TimerOp>, key: Event)
    ensures
        has_key(apply_ops(s, ops), key) == expected_present(has_key(s, key), ops, key),
    decreases ops.len(),
{
    if ops.len() > 0 {
        let prefix = ops.drop_last();
        lemma_set_tracks_commands(s, prefix, key);
        let mid = apply_ops(s, prefix);
        match ops.last() {
            TimerOp::Start(k, d, t) => {
                if k == key {
                    lemma_start_same(mid, k, d, t);
                } else {
                    lemma_start_other(mid, k, d, t, key);
                }
            },
            TimerOp::Stop(k) => {
                if k == key {
                    lemma_stop_same(mid, k);
                } else {
                    lemma_stop_other(mid, k, key);
                }
            },
            TimerOp::Remove(k) => {
                if k == key {
                    lemma_remove_same(mid, k);
                } else {
                    lemma_remove_other(mid, k, key);
                }
            },
            TimerOp::Tick(t) => {
                lemma_tick_record(mid, t, key);
            },
        }
    }
}

/// The record a key should have after the operations, read directly off the
/// operation sequence: a `Start` of the key installs a fresh active record,
/// a `Stop` clears its activity, a `Remove` deletes it, and a poll resets
/// the phase of a due record.
pub open spec fn expected_record(
    base: Option<TimerRecord>,
    ops: Seq<TimerOp>,
    key: Event,
) -> Option<TimerRecord>
    decreases ops.len(),
{
    if ops.len() == 0 {
        base
    } else {
        let prev = expected_record(base, ops.drop_last(), key);
        match ops.last() {
            TimerOp::Start(k, d, t) => if k == key {
                Some(started_record(key, d, t))
            } else {
                prev
            },
            TimerOp::Stop(k) => if k == key {
                match prev {
                    Some(r) => Some(TimerRecord { active: false, ..r }),
                    None => None,
                }
            } else {
                prev
            },
            TimerOp::Remove(k) => if k == key {
                None
            } else {
                prev
            },
            TimerOp::Tick(t) => match prev {
                Some(r) => Some(
                    if is_due(r, t) {
                        (TimerRecord { last_fired_ms: t, ..r })
                    } else {
                        r
                    },
                ),
                None => None,
            },
        }
    }
}

/// Strengthening of the tracking law to full records: after any sequence of
/// operations every key's record - its interval, phase and activity, not
/// just its presence - is exactly what the sequence implies.
pub proof fn lemma_records_track_ops(s: Seq<TimerRecord>, ops: Seq<TimerOp>, key: Event)
    ensures
        record_of(apply_ops(s, ops), key) == expected_record(record_of(s, key), ops, key),
    decreases ops.len(),
{
    if ops.len() > 0 {
        let prefix = ops.drop_last();
        lemma_records_track_ops(s, prefix, key);
        let mid = apply_ops(s, prefix);
        match ops.last() {
            TimerOp::Start(k, d, t) => {
                if k == key {
                    lemma_start_same(mid, k, d, t);
                } else {
                    lemma_start_other(mid, k, d, t, key);
                }
            },
            TimerOp::Stop(k) => {
                if k == key {
                    lemma_stop_same(mid, k);
                } else {
                    lemma_stop_other(mid, k, key);
                }
            },
            TimerOp::Remove(k) => {
                if k == key {
                    lemma_remove_same(mid, k);
                } else {
                    lemma_remove_other(mid, k, key);
                }
            },
            TimerOp::Tick(t) => {
                lemma_tick_record(mid, t, key);
            },
        }
    }
}

/// A key is silenced when its record is absent or inactive; a silenced key
/// cannot fire at any poll.
pub open spec fn silenced(s: Seq<TimerRecord>, key: Event) -> bool {
    match record_of(s, key) {
        Some(r) => !r.active,
        None => true,
    }
}

/// Every operation that is not a `start_timer` of the key keeps a silenced
/// key silenced.
pub proof fn lemma_op_preserves_silenced(s: Seq<TimerRecord>, op: TimerOp, key: Event)
    requires
        silenced(s, key),
        !op_starts(op, key),
    ensures
        silenced(apply_op(s, op), key),
{
    match op {
        TimerOp::Start(k, d, t) => {
            lemma_start_other(s, k, d, t, key);
        },
        TimerOp::Stop(k) => {
            if k == key {
                lemma_stop_same(s, k);
            } else {
                lemma_stop_other(s, k, key);
            }
        },
        TimerOp::Remove(k) => {
            if k == key {
                lemma_remove_same(s, k);
            } else {
                lemma_remove_other(s, k, key);
            }
        },
        TimerOp::Tick(t) => {
            lemma_tick_record(s, t, key);
        },
    }
}

/// Once a key is stopped (or removed), and as long as no `start_timer` of
/// that key follows, no poll ever fires it again, however many other
/// operations and polls happen: zero further firings, indefinitely.
pub proof fn lemma_stopped_timer_never_fires(s: Seq<TimerRecord>, ops: Seq<TimerOp>, key: Event)
    requires
        wf(s),
        silenced(s, key),
        forall|i: int| 0 <= i < ops.len() ==> !op_starts(ops[i], key),
    ensures
        wf(apply_ops(s, ops)),
        silenced(apply_ops(s, ops), key),
        forall|i: int, t: u64|
            0 <= i < ops.len() && ops[i] == TimerOp::Tick(t) ==> !spec_fired(
                apply_ops(s, ops.subrange(0, i)),
                t,
            ).contains(key),
    decreases ops.len(),
{
    if ops.len() > 0 {
        let prefix = ops.drop_last();
        assert(forall|i: int| 0 <= i < prefix.len() ==> prefix[i] == ops[i]);
        lemma_stopped_timer_never_fires(s, prefix, key);
        let mid = apply_ops(s, prefix);
        lemma_wf_apply_op(mid, ops.last());
        lemma_op_preserves_silenced(mid, ops.last(), key);
        assert forall|i: int, t: u64|
            0 <= i < ops.len() && ops[i] == TimerOp::Tick(t) implies !spec_fired(
            apply_ops(s, ops.subrange(0, i)),
            t,
        ).contains(key) by {
            if i == ops.len() - 1 {
                assert(ops.subrange(0, i) =~= prefix);
                lemma_fired_iff_due(mid, t, key);
            } else {
                assert(ops.subrange(0, i) =~= prefix.subrange(0, i));
            }
        }
    }
}

/// A timer started with interval `d` at clock reading `t` does not fire at
/// any poll earlier than `t + d`, and fires at every poll from `t + d` on
/// (until it fires and its phase resets, or it is stopped).
pub proof fn lemma_started_timer_first_firing(
    s: Seq<TimerRecord>,
    key: Event,
    interval_ms: u64,
    now_ms: u64,
    poll_ms: u64,
)
    requires
        wf(s),
    ensures
        wf(spec_start(s, key, interval_ms, now_ms)),
        now_ms <= poll_ms < now_ms + interval_ms ==> !spec_fired(
            spec_start(s, key, interval_ms, now_ms),
            poll_ms,
        ).contains(key),
        poll_ms >= now_ms + interval_ms ==> spec_fired(
            spec_start(s, key, interval_ms, now_ms),
            poll_ms,
        ).contains(key),
{
    lemma_wf_apply_op(s, TimerOp::Start(key, interval_ms, now_ms));
    lemma_start_same(s, key, interval_ms, now_ms);
    lemma_fired_iff_due(spec_start(s, key, interval_ms, now_ms), poll_ms, key);
}

/// Whether the key's record exists and is active.
pub open spec fn active_in(s: Seq<TimerRecord>, key: Event) -> bool {
    match record_of(s, key) {
        Some(r) => r.active,
        None => false,
    }
}

/// The clock reading at which the key's timer last (re)started its period.
pub open spec fn phase_time(s: Seq<TimerRecord>, key: Event) -> int {
    match record_of(s, key) {
        Some(r) => r.last_fired_ms as int,
        None => 0,
    }
}

/// The clock reading at which the key's timer becomes due.
pub open spec fn due_time(s: Seq<TimerRecord>, key: Event) -> int {
    match record_of(s, key) {
        Some(r) => r.last_fired_ms + r.interval_ms,
        None => 0,
    }
}

/// Timer set after a sequence of polls, oldest poll first.
pub open spec fn run_state(s: Seq<TimerRecord>, polls: Seq<u64>) -> Seq<TimerRecord>
    decreases polls.len(),
{
    if polls.len() == 0 {
        s
    } else {
        spec_tick(run_state(s, polls.drop_last()), polls.last())
    }
}

/// Folding the polls from the front agrees with folding them from the back.
proof fn lemma_run_state_front(s: Seq<TimerRecord>, polls: Seq<u64>)
    requires
        polls.len() > 0,
    ensures
        run_state(s, polls) == run_state(
            spec_tick(s, polls[0]),
            polls.subrange(1, polls.len() as int),
        ),
    decreases polls.len(),
{
    if polls.len() == 1 {
        assert(polls.drop_last() =~= Seq::<u64>::empty());
        assert(run_state(s, polls) == spec_tick(run_state(s, polls.drop_last()), polls.last()));
        assert(run_state(s, polls.drop_last()) == s);
        assert(polls.last() == polls[0]);
        assert(polls.subrange(1, 1) =~= Seq::<u64>::empty());
        assert(run_state(spec_tick(s, polls[0]), polls.subrange(1, polls.len() as int))
            == spec_tick(s, polls[0]));
    } else {
        let p1 = polls.drop_last();
        lemma_run_state_front(s, p1);
        let t = spec_tick(s, polls[0]);
        let rest = polls.subrange(1, polls.len() as int);
        assert(p1[0] == polls[0]);
        assert(run_state(s, polls) == spec_tick(run_state(s, p1), polls.last()));
        assert(run_state(s, p1) == run_state(t, p1.subrange(1, p1.len() as int)));
        assert(rest.drop_last() =~= p1.subrange(1, p1.len() as int));
        assert(rest.last() == polls.last());
        assert(run_state(t, rest) == spec_tick(run_state(t, rest.drop_last()), rest.last()));
    }
}

/// An active timer fires at the first poll at or after its due time: if
/// every earlier poll fell between the timer's phase start and its due
/// time, the poll that reaches the due time fires the key.  Together with
/// the sleep bounds this pins the firing pattern of the engine loop: each
/// advised sleep ends at or before the due time, so the loop reaches the
/// due time and the timer fires, at least once per interval of elapsed
/// clock.
pub proof fn lemma_fires_at_first_due_poll(
    s: Seq<TimerRecord>,
    key: Event,
    polls: Seq<u64>,
    m: int,
)
    requires
        wf(s),
        active_in(s, key),
        0 <= m < polls.len(),
        forall|j: int| 0 <= j < m ==> phase_time(s, key) <= #[trigger] polls[j] < due_time(s, key),
        polls[m] >= due_time(s, key),
    ensures
        spec_fired(run_state(s, polls.subrange(0, m)), polls[m]).contains(key),
    decreases m,
{
    if m == 0 {
        assert(polls.subrange(0, 0) =~= Seq::<u64>::empty());
        lemma_fired_iff_due(s, polls[0], key);
    } else {
        let s1 = spec_tick(s, polls[0]);
        lemma_wf_apply_op(s, TimerOp::Tick(polls[0]));
        lemma_tick_record(s, polls[0], key);
        let rest = polls.subrange(1, polls.len() as int);
        assert(record_of(s1, key) == record_of(s, key));
        assert(forall|j: int|
            0 <= j < m - 1 ==> phase_time(s1, key) <= #[trigger] rest[j] < due_time(s1, key));
        assert(rest[m - 1] == polls[m]);
        lemma_fires_at_first_due_poll(s1, key, rest, m - 1);
        let front = polls.subrange(0, m);
        lemma_run_state_front(s, front);
        assert(front[0] == polls[0]);
        assert(front.subrange(1, m) =~= rest.subrange(0, m - 1));
    }
}

/// Timers registered under different keys are fully independent: starting,
/// stopping or removing one never changes the record of the other.  Keys
/// are full event values, so `Resize(1, 1)` and `Resize(2, 2)` name two
/// independent timers.
pub proof fn lemma_timer_keys_independent(s: Seq<TimerRecord>, key: Event, other: Event)
    requires
        other != key,
    ensures
        record_of(spec_stop(s, key), other) == record_of(s, other),
        record_of(spec_remove(s, key), other) == record_of(s, other),
        forall|d: u64, t: u64|
            record_of(spec_start(s, key, d, t), other) == record_of(s, other),
{
    lemma_stop_other(s, key, other);
    lemma_remove_other(s, key, other);
    assert forall|d: u64, t: u64|
        record_of(spec_start(s, key, d, t), other) == record_of(s, other) by {
        lemma_start_other(s, key, d, t, other);
    }
}

} // verus!

