//! The timers that the user-mode network stack arms: each is known by a key
//! that the manager hands out, holds the stack's timer id and callback
//! argument, and an expiry time in milliseconds on the manager's clock
//! (`u64::MAX` when it is not armed).

use std::collections::HashMap;
use std::time::{Duration, Instant};
use vstd::prelude::*;

verus! {

/// The monotonic clock's instants.
#[verifier::external_type_specification]
#[verifier::external_body]
pub struct ExInstant(Instant);

/// `Instant::now`: the current instant of the monotonic clock. Nothing is
/// stated of it.
#[verifier::external_body]
pub(crate) fn instant_now() -> (r: Instant) {
    Instant::now()
}

/// `Duration::as_millis`: the whole milliseconds of a duration. Nothing is
/// stated of them.
#[verifier::external_body]
fn duration_as_millis(d: &Duration) -> (r: u128) {
    d.as_millis()
}

/// A timer of the network stack.
#[derive(Clone, Copy, PartialEq, Eq, Structural, Debug)]
pub struct Timer {
    /// The stack's identifier of the timer.
    pub id: u32,
    /// The argument that the stack's callback takes.
    pub cb_opaque: usize,
    /// When the timer expires, in milliseconds on the manager's clock.
    pub expire_time: u64,
}

/// What a timer manager holds: its timers by key, and the next key it
/// hands out.
pub struct TimerModel {
    pub timers: Map<usize, Timer>,
    pub next: usize,
}

/// The timers, by key, and the clock that their expiry times count on.
pub struct TimerManager {
    clock: Instant,
    map: HashMap<usize, Timer>,
    timers: usize,
}

impl View for TimerManager {
    type V = TimerModel;

    closed spec fn view(&self) -> TimerModel {
        TimerModel { timers: self.map@, next: self.timers }
    }
}

/// The timer, disarmed where its expiry time is before `now`: its expiry
/// time then becomes `u64::MAX`.
pub open spec fn disarm(t: Timer, now: u64) -> Timer {
    if t.expire_time < now {
        Timer { expire_time: u64::MAX, ..t }
    } else {
        t
    }
}

/// The timers with the expired ones disarmed.
pub open spec fn disarm_expired(m: Map<usize, Timer>, now: u64) -> Map<usize, Timer> {
    Map::new(|k: usize| m.contains_key(k), |k: usize| disarm(m[k], now))
}

/// The timer under `k` has expired before `now`.
pub open spec fn expired(m: Map<usize, Timer>, k: usize, now: u64) -> bool {
    m.contains_key(k) && m[k].expire_time < now
}

/// `r` holds the timers that expired before `now`, disarmed, each once, in
/// some order.
pub open spec fn collected(m: Map<usize, Timer>, now: u64, r: Seq<Timer>) -> bool {
    exists|ks: Seq<usize>|
        {
            &&& ks.no_duplicates()
            &&& (forall|k: usize| #[trigger] ks.contains(k) <==> expired(m, k, now))
            &&& r == ks.map_values(|k: usize| disarm(m[k], now))
        }
}

/// A timer is collected once: after the expired timers are disarmed, none
/// has expired at the same time, and disarming again changes nothing.
pub proof fn lemma_collect_once(m: Map<usize, Timer>, now: u64)
    ensures
        forall|k: usize| !#[trigger] expired(disarm_expired(m, now), k, now),
        disarm_expired(disarm_expired(m, now), now) == disarm_expired(m, now),
{
    assert(disarm_expired(disarm_expired(m, now), now) =~= disarm_expired(m, now));
}

/// `v` is the expiry time of a timer, and none expires earlier.
pub open spec fn is_min_expire(m: Map<usize, Timer>, v: u64) -> bool {
    &&& exists|k: usize| m.contains_key(k) && m[k].expire_time == v
    &&& forall|k: usize| m.contains_key(k) ==> v <= #[trigger] m[k].expire_time
}

/// The earliest expiry time, if there is a timer.
pub open spec fn min_expire(m: Map<usize, Timer>) -> Option<u64> {
    if exists|k: usize| m.contains_key(k) {
        Some(choose|v: u64| #[trigger] is_min_expire(m, v))
    } else {
        None
    }
}

/// The milliseconds from `now` until the earliest expiry (none when it has
/// passed), or `u64::MAX` when there is no timer.
pub open spec fn wait_millis(m: Map<usize, Timer>, now: u64) -> u64 {
    match min_expire(m) {
        Some(v) => if v > now {
            (v - now) as u64
        } else {
            0
        },
        None => u64::MAX,
    }
}

/// The expiry time that the stack asks for, with a time before the clock's
/// start meaning its start.
pub fn expire_time_of(expire_time: i64) -> (r: u64)
    ensures
        r == (if expire_time < 0 {
            0
        } else {
            expire_time
        }),
{
    if expire_time < 0 {
        0
    } else {
        expire_time as u64
    }
}

impl TimerManager {
    /// A manager with no timer, whose clock starts now and whose first key is 1.
    pub fn new() -> (r: TimerManager)
        ensures
            r@.timers == Map::<usize, Timer>::empty(),
            r@.next == 1,
    {
        TimerManager { clock: instant_now(), map: HashMap::new(), timers: 1 }
    }

    /// Hands out a new key; keys count up, wrapping around.
    pub fn next_timer(&mut self) -> (r: usize)
        ensures
            r == old(self)@.next,
            final(self)@.next == (if old(self)@.next == usize::MAX {
                0
            } else {
                (old(self)@.next + 1) as usize
            }),
            final(self)@.timers == old(self)@.timers,
    {
        let r = self.timers;
        self.timers = self.timers.wrapping_add(1);
        r
    }

    /// Sets the timer with the key, in place of any with that key.
    pub fn insert(&mut self, timer_key: usize, value: Timer)
        ensures
            final(self)@.next == old(self)@.next,
            final(self)@.timers == old(self)@.timers.insert(timer_key, value),
    {
        self.map.insert(timer_key, value);
    }

    /// Removes the timer with the key and gives it back, if there is one.
    pub fn remove(&mut self, timer_key: usize) -> (r: Option<Timer>)
        ensures
            final(self)@.next == old(self)@.next,
            final(self)@.timers == old(self)@.timers.remove(timer_key),
            r == (if old(self)@.timers.contains_key(timer_key) {
                Some(old(self)@.timers[timer_key])
            } else {
                None
            }),
    {
        self.map.remove(&timer_key)
    }

    /// Sets the expiry time of the timer with the key, if there is one.
    pub fn timer_mod(&mut self, timer_key: usize, expire_time: u64)
        ensures
            final(self)@.next == old(self)@.next,
            final(self)@.timers == (if old(self)@.timers.contains_key(timer_key) {
                old(self)@.timers.insert(
                    timer_key,
                    Timer { expire_time, ..old(self)@.timers[timer_key] },
                )
            } else {
                old(self)@.timers
            }),
    {
        match self.map.get(&timer_key) {
            Some(t) => {
                let t2 = Timer { expire_time, ..*t };
                self.map.insert(timer_key, t2);
            },
            None => {},
        }
    }

    /// The keys of the timers, each once, in the map's order.
    fn keys(&self) -> (r: Vec<usize>)
        ensures
            r@.no_duplicates(),
            forall|k: usize| #[trigger] r@.contains(k) <==> self@.timers.contains_key(k),
    {
        let mut ks: Vec<usize> = Vec::new();
        for k in it: self.map.keys()
            invariant
                it.seq().no_duplicates(),
                ks@.no_duplicates(),
                forall|x: usize| #[trigger]
                    ks@.contains(x) ==> self@.timers.contains_key(x) && exists|j: int|
                        0 <= j < it.index() && *it.seq()[j] == x,
                forall|x: usize|
                    self@.timers.contains_key(x) ==> #[trigger] ks@.contains(x) || exists|j: int|
                        it.index() <= j < it.seq().len() && *it.seq()[j] == x,
        {
            let kk: usize = *k;
            match self.map.get(&kk) {
                Some(_) => {
                    proof {
                        assert(!ks@.contains(kk)) by {
                            if ks@.contains(kk) {
                                let j = choose|j: int| 0 <= j < it.index() && *it.seq()[j] == kk;
                                assert(it.seq()[j] == it.seq()[it.index() as int]);
                            }
                        }
                        let k2 = ks@.push(kk);
                        assert forall|x: usize| #[trigger] k2.contains(x) == (ks@.contains(x) || x
                            == kk) by {
                            if x == kk {
                                assert(k2[ks@.len() as int] == kk);
                            }
                            if ks@.contains(x) {
                                let j = choose|j: int| 0 <= j < ks@.len() && ks@[j] == x;
                                assert(k2[j] == x);
                            }
                        }
                        assert forall|a: int, b: int| 0 <= a < k2.len() && 0 <= b < k2.len() && a
                            != b implies k2[a] != k2[b] by {
                            if a == ks@.len() as int {
                                assert(ks@.contains(k2[b]));
                            }
                            if b == ks@.len() as int {
                                assert(ks@.contains(k2[a]));
                            }
                        }
                    }
                    ks.push(kk);
                },
                None => {},
            }
        }
        ks
    }

    /// Disarms the timers that expired before `now_ms` and gives them back,
    /// disarmed, each once.
    pub fn collect_expired_at(&mut self, now_ms: u64) -> (r: Vec<Timer>)
        ensures
            final(self)@.next == old(self)@.next,
            final(self)@.timers == disarm_expired(old(self)@.timers, now_ms),
            collected(old(self)@.timers, now_ms, r@),
    {
        let ghost m = self@.timers;
        let ks = self.keys();
        let mut out: Vec<Timer> = Vec::new();
        let ghost mut eks: Seq<usize> = Seq::empty();
        let mut i: usize = 0;
        while i < ks.len()
            invariant
                self.timers == old(self).timers,
                m == old(self)@.timers,
                ks@.no_duplicates(),
                forall|k: usize| #[trigger] ks@.contains(k) <==> m.contains_key(k),
                i <= ks@.len(),
                self@.timers.dom() == m.dom(),
                forall|k: usize|
                    #[trigger] self@.timers.contains_key(k) ==> self@.timers[k] == (if ks@.take(
                        i as int,
                    ).contains(k) {
                        disarm(m[k], now_ms)
                    } else {
                        m[k]
                    }),
                eks.no_duplicates(),
                forall|k: usize| #[trigger]
                    eks.contains(k) <==> (expired(m, k, now_ms) && ks@.take(i as int).contains(k)),
                out@ == eks.map_values(|k: usize| disarm(m[k], now_ms)),
            decreases ks@.len() - i,
        {
            let k = ks[i];
            proof {
                assert(ks@.take(i + 1) =~= ks@.take(i as int).push(k));
                assert(!ks@.take(i as int).contains(k)) by {
                    if ks@.take(i as int).contains(k) {
                        let j = choose|j: int| 0 <= j < i && ks@.take(i as int)[j] == k;
                        assert(ks@[j] == ks@[i as int]);
                    }
                }
                assert(ks@.contains(k)) by {
                    assert(ks@[i as int] == k);
                }
            }
            proof {
                let t1 = ks@.take(i + 1);
                assert forall|x: usize| #[trigger] t1.contains(x) == (ks@.take(i as int).contains(x)
                    || x == k) by {
                    if x == k {
                        assert(t1[i as int] == k);
                    }
                    if ks@.take(i as int).contains(x) {
                        let j = choose|j: int| 0 <= j < i && ks@.take(i as int)[j] == x;
                        assert(t1[j] == x);
                    }
                }
            }
            let t = *self.map.get(&k).unwrap();
            if t.expire_time < now_ms {
                let d = Timer { expire_time: u64::MAX, ..t };
                self.map.insert(k, d);
                out.push(d);
                proof {
                    assert(!eks.contains(k));
                    let e2 = eks.push(k);
                    assert forall|x: usize| #[trigger] e2.contains(x) == (eks.contains(x) || x == k) by {
                        if x == k {
                            assert(e2[eks.len() as int] == k);
                        }
                        if eks.contains(x) {
                            let j = choose|j: int| 0 <= j < eks.len() && eks[j] == x;
                            assert(e2[j] == x);
                        }
                    }
                    assert forall|a: int, b: int| 0 <= a < e2.len() && 0 <= b < e2.len() && a != b implies e2[a]
                        != e2[b] by {
                        if a == eks.len() as int {
                            assert(eks.contains(e2[b]) || b == a);
                        }
                        if b == eks.len() as int {
                            assert(eks.contains(e2[a]) || b == a);
                        }
                    }
                    assert(e2.map_values(|k: usize| disarm(m[k], now_ms)) =~= eks.map_values(
                        |k: usize| disarm(m[k], now_ms),
                    ).push(d));
                    eks = e2;
                }
            }
            i = i + 1;
        }
        proof {
            assert(ks@.take(ks@.len() as int) =~= ks@);
            assert(self@.timers =~= disarm_expired(m, now_ms));
            assert(collected(m, now_ms, out@)) by {
                assert(eks.no_duplicates());
            }
        }
        out
    }

    /// The milliseconds from `now_ms` until the earliest expiry (see
    /// `wait_millis`).
    pub fn min_duration_at(&self, now_ms: u64) -> (r: u64)
        ensures
            r == wait_millis(self@.timers, now_ms),
    {
        let ghost m = self@.timers;
        let ks = self.keys();
        let mut best: Option<u64> = None;
        let mut i: usize = 0;
        while i < ks.len()
            invariant
                m == self@.timers,
                forall|k: usize| #[trigger] ks@.contains(k) <==> m.contains_key(k),
                i <= ks@.len(),
                match best {
                    Some(v) => (exists|k: usize| m.contains_key(k) && m[k].expire_time == v)
                        && forall|j: int| 0 <= j < i ==> v <= #[trigger] m[ks@[j]].expire_time,
                    None => i == 0,
                },
            decreases ks@.len() - i,
        {
            let k = ks[i];
            proof {
                assert(ks@.contains(k)) by {
                    assert(ks@[i as int] == k);
                }
            }
            let t = self.map.get(&k).unwrap().expire_time;
            best = match best {
                Some(v) => Some(if t < v { t } else { v }),
                None => Some(t),
            };
            i = i + 1;
        }
        proof {
            match best {
                Some(v) => {
                    assert forall|k: usize| m.contains_key(k) implies v <= #[trigger] m[k].expire_time by {
                        assert(ks@.contains(k));
                        let j = choose|j: int| 0 <= j < ks@.len() && ks@[j] == k;
                        assert(v <= m[ks@[j]].expire_time);
                    }
                    assert(is_min_expire(m, v));
                    let c = choose|w: u64| #[trigger] is_min_expire(m, w);
                    assert(min_expire(m) == Some(c));
                    let kc = choose|k: usize| m.contains_key(k) && m[k].expire_time == c;
                    let kv = choose|k: usize| m.contains_key(k) && m[k].expire_time == v;
                    assert(c <= m[kv].expire_time);
                    assert(v <= m[kc].expire_time);
                },
                None => {
                    assert forall|k: usize| !m.contains_key(k) by {
                        if m.contains_key(k) {
                            assert(ks@.contains(k));
                        }
                    }
                },
            }
        }
        match best {
            Some(v) => v.saturating_sub(now_ms),
            None => u64::MAX,
        }
    }

    /// `Instant::elapsed`: the time since the manager's clock started.
    /// Nothing is stated of it.
    #[verifier::external_body]
    fn get_elapsed(&self) -> (r: Duration) {
        self.clock.elapsed()
    }

    /// The milliseconds since the manager's clock started, cut to 64 bits.
    fn elapsed_millis(&self) -> (r: u64) {
        let d = self.get_elapsed();
        duration_as_millis(&d) as u64
    }

    /// Disarms the timers that have expired by the clock and gives them
    /// back (see `collect_expired_at`, for the time that the clock read).
    pub fn collect_expired(&mut self) -> (r: Vec<Timer>)
        ensures
            final(self)@.next == old(self)@.next,
            exists|now: u64|
                final(self)@.timers == disarm_expired(old(self)@.timers, now) && collected(
                    old(self)@.timers,
                    now,
                    r@,
                ),
    {
        let now_ms = self.elapsed_millis();
        self.collect_expired_at(now_ms)
    }

    /// The milliseconds until the earliest expiry by the clock (see
    /// `min_duration_at`, for the time that the clock read).
    pub fn min_duration(&self) -> (r: u64)
        ensures
            exists|now: u64| r == wait_millis(self@.timers, now),
    {
        let now_ms = self.elapsed_millis();
        self.min_duration_at(now_ms)
    }

    /// Registers a new, disarmed timer of the stack under a new key, and
    /// gives the key.
    pub fn new_timer(&mut self, id: u32, cb_opaque: usize) -> (r: usize)
        ensures
            r == old(self)@.next,
            final(self)@.next == (if old(self)@.next == usize::MAX {
                0
            } else {
                (old(self)@.next + 1) as usize
            }),
            final(self)@.timers == old(self)@.timers.insert(
                r,
                Timer { expire_time: u64::MAX, id, cb_opaque },
            ),
    {
        let key = self.next_timer();
        self.insert(key, Timer { expire_time: u64::MAX, id, cb_opaque });
        key
    }
}

} // verus!
