//! Per-address rate limiting: an address is admitted when it has no recorded
//! admission, or when at least the configured interval has passed since its
//! last one. Denied attempts leave the table as it was.
use std::collections::HashMap;
use vstd::prelude::*;

verus! {

broadcast use vstd::std_specs::hash::group_hash_axioms;

/// The last admission time recorded for `addr`, if any.
pub open spec fn last_of(table: Map<u128, u64>, addr: u128) -> Option<u64> {
    if table.contains_key(addr) {
        Some(table[addr])
    } else {
        None
    }
}

/// Whether an attempt at `now` may pass, given the last admission time.
/// Time never runs backwards for an entry: an attempt stamped before the
/// recorded admission is denied.
pub open spec fn allows(last: Option<u64>, now: u64, interval: u64) -> bool {
    match last {
        None => true,
        Some(t) => t <= now && now - t >= interval,
    }
}

/// One admission attempt on the table: the table afterwards and the decision.
pub open spec fn attempt(table: Map<u128, u64>, addr: u128, now: u64, interval: u64) -> (Map<
    u128,
    u64,
>, bool) {
    if allows(last_of(table, addr), now, interval) {
        (table.insert(addr, now), true)
    } else {
        (table, false)
    }
}

/// A series of attempts for one address, in the order they were served:
/// the final table and each decision.
pub open spec fn attempts(table: Map<u128, u64>, addr: u128, times: Seq<u64>, interval: u64) -> (
    Map<u128, u64>,
    Seq<bool>,
)
    decreases times.len(),
{
    if times.len() == 0 {
        (table, Seq::empty())
    } else {
        let first = attempt(table, addr, times[0], interval);
        let rest = attempts(first.0, addr, times.drop_first(), interval);
        (rest.0, seq![first.1] + rest.1)
    }
}

/// Whether the entry recorded at `last` no longer holds back any attempt at
/// or after `now`.
pub open spec fn expired(last: u64, now: u64, interval: u64) -> bool {
    last <= now && now - last >= interval
}

/// An address with no recorded admission is admitted at `t0`, denied at any
/// `t1` before the interval has passed, and admitted again at any `t2` once
/// it has.
pub proof fn lemma_throttle_window(
    table: Map<u128, u64>,
    addr: u128,
    t0: u64,
    t1: u64,
    t2: u64,
    interval: u64,
)
    requires
        !table.contains_key(addr),
        t0 <= t1 < t0 + interval,
        t2 >= t0 + interval,
    ensures
        ({
            let first = attempt(table, addr, t0, interval);
            let second = attempt(first.0, addr, t1, interval);
            let third = attempt(second.0, addr, t2, interval);
            first.1 && !second.1 && third.1 && third.0[addr] == t2
        }),
{
}

/// A denied attempt leaves the table exactly as it was.
pub proof fn lemma_denial_changes_nothing(table: Map<u128, u64>, addr: u128, now: u64, interval: u64)
    ensures
        !attempt(table, addr, now, interval).1 ==> attempt(table, addr, now, interval).0 == table,
{
}

/// After an admission at `t0`, any run of attempts before `t0 + interval` is
/// denied throughout and leaves the table unchanged, so the next attempt
/// passes exactly when it comes at or after `t0 + interval`.
pub proof fn lemma_denials_keep_window(
    table: Map<u128, u64>,
    addr: u128,
    times: Seq<u64>,
    next: u64,
    interval: u64,
)
    requires
        table.contains_key(addr),
        forall|i: int| 0 <= i < times.len() ==> #[trigger] times[i] < table[addr] + interval,
    ensures
        attempts(table, addr, times, interval).0 == table,
        forall|i: int|
            0 <= i < times.len() ==> !#[trigger] attempts(table, addr, times, interval).1[i],
        attempts(table, addr, times, interval).1.len() == times.len(),
        attempt(attempts(table, addr, times, interval).0, addr, next, interval).1 <==> (table[addr]
            <= next && next - table[addr] >= interval),
    decreases times.len(),
{
    if times.len() > 0 {
        let rest = times.drop_first();
        assert forall|i: int| 0 <= i < rest.len() implies #[trigger] rest[i] < table[addr] + interval by {
            assert(rest[i] == times[i + 1]);
        }
        lemma_denials_keep_window(table, addr, rest, next, interval);
        let r = attempts(table, addr, times, interval);
        assert forall|i: int| 0 <= i < times.len() implies !#[trigger] r.1[i] by {
            if i > 0 {
                assert(r.1[i] == attempts(table, addr, rest, interval).1[i - 1]);
            }
        }
    }
}

/// Two attempts from one address, served one after the other within the
/// interval, from a state that lets the first pass: exactly one is admitted.
pub proof fn lemma_same_address_race(
    table: Map<u128, u64>,
    addr: u128,
    t1: u64,
    t2: u64,
    interval: u64,
)
    requires
        allows(last_of(table, addr), t1, interval),
        t1 <= t2 < t1 + interval,
    ensures
        ({
            let first = attempt(table, addr, t1, interval);
            let second = attempt(first.0, addr, t2, interval);
            first.1 && !second.1
        }),
{
}

/// Attempts from one address neither read nor change the entry of another.
pub proof fn lemma_addresses_independent(
    table: Map<u128, u64>,
    addr: u128,
    other: u128,
    now: u64,
    interval: u64,
)
    requires
        addr != other,
    ensures
        last_of(attempt(table, addr, now, interval).0, other) == last_of(table, other),
{
}

/// Sweeping at `now` changes no decision at `now` or later: an entry that
/// was dropped would have let the attempt through, as a missing one does.
pub proof fn lemma_sweep_keeps_decisions(
    before: Map<u128, u64>,
    after: Map<u128, u64>,
    now: u64,
    later: u64,
    addr: u128,
    interval: u64,
)
    requires
        forall|k: u128|
            #[trigger] after.contains_key(k) <==> (before.contains_key(k) && !expired(
                before[k],
                now,
                interval,
            )),
        forall|k: u128| #[trigger] after.contains_key(k) ==> after[k] == before[k],
        now <= later,
    ensures
        allows(last_of(after, addr), later, interval) == allows(last_of(before, addr), later, interval),
{
}

/// The shared admission table: for each client address (an IPv6 address, or
/// an IPv4 one in its mapped form, as a 128-bit integer), the time of its
/// last admission in milliseconds on a monotonic clock.
pub struct RateLimiter {
    last: HashMap<u128, u64>,
    addrs: Vec<u128>,
    interval_ms: u64,
}

impl View for RateLimiter {
    type V = Map<u128, u64>;

    closed spec fn view(&self) -> Map<u128, u64> {
        self.last@
    }
}

impl RateLimiter {
    /// The minimum time between two admissions of one address.
    pub closed spec fn interval(&self) -> u64 {
        self.interval_ms
    }

    /// Every recorded address is listed in `addrs`, and each listed address
    /// is recorded.
    pub closed spec fn wf(&self) -> bool {
        &&& forall|i: int|
            0 <= i < self.addrs@.len() ==> self.last@.contains_key(#[trigger] self.addrs@[i])
        &&& forall|k: u128| self.last@.contains_key(k) ==> #[trigger] self.addrs@.contains(k)
    }

    /// An empty table with the given minimum interval.
    pub fn new(interval_ms: u64) -> (r: RateLimiter)
        ensures
            r.wf(),
            r@ == Map::<u128, u64>::empty(),
            r.interval() == interval_ms,
    {
        RateLimiter { last: HashMap::new(), addrs: Vec::new(), interval_ms }
    }

    /// The minimum time between two admissions of one address.
    pub fn interval_ms(&self) -> (r: u64)
        ensures
            r == self.interval(),
    {
        self.interval_ms
    }

    /// The time of the last admission of `addr`, if it has one.
    pub fn last_admitted(&self, addr: u128) -> (r: Option<u64>)
        ensures
            r == last_of(self@, addr),
    {
        match self.last.get(&addr) {
            Some(t) => Some(*t),
            None => None,
        }
    }

    /// Decides an attempt from `addr` at time `now`; on admission records
    /// `now` for the address, on denial changes nothing.
    pub fn try_admit(&mut self, addr: u128, now: u64) -> (allowed: bool)
        requires
            old(self).wf(),
        ensures
            final(self).wf(),
            final(self).interval() == old(self).interval(),
            (final(self)@, allowed) == attempt(old(self)@, addr, now, old(self).interval()),
    {
        let prev = self.last_admitted(addr);
        let ok = match prev {
            None => true,
            Some(t) => t <= now && now - t >= self.interval_ms,
        };
        if ok {
            if prev.is_none() {
                self.addrs.push(addr);
            }
            self.last.insert(addr, now);
            assert(self.wf()) by {
                assert forall|k: u128| self.last@.contains_key(k) implies #[trigger] self.addrs@.contains(k) by {
                    if k != addr {
                        assert(old(self).addrs@.contains(k));
                        let j = choose|j: int| 0 <= j < old(self).addrs@.len() && old(self).addrs@[j] == k;
                        assert(self.addrs@[j] == k);
                    } else {
                        if prev.is_none() {
                            assert(self.addrs@[self.addrs@.len() - 1] == addr);
                        }
                    }
                }
            }
        }
        ok
    }
    /// Drops every entry that no longer holds back an attempt at or after
    /// `now`, and keeps the others as they are. Decisions at `now` or later
    /// are unchanged by it.
    pub fn sweep(&mut self, now: u64)
        requires
            old(self).wf(),
        ensures
            final(self).wf(),
            final(self).interval() == old(self).interval(),
            forall|k: u128|
                #[trigger] final(self)@.contains_key(k) <==> (old(self)@.contains_key(k)
                    && !expired(old(self)@[k], now, old(self).interval())),
            forall|k: u128| #[trigger] final(self)@.contains_key(k) ==> final(self)@[k] == old(self)@[k],
    {
        let ghost old_last = self.last@;
        let ghost old_addrs = self.addrs@;
        let iv = self.interval_ms;
        let mut kept: Vec<u128> = Vec::new();
        let n = self.addrs.len();
        let mut i: usize = 0;
        while i < n
            invariant
                n == self.addrs@.len(),
                self.addrs@ == old_addrs,
                self.interval_ms == iv,
                i <= n,
                forall|j: int| 0 <= j < old_addrs.len() ==> old_last.contains_key(#[trigger] old_addrs[j]),
                forall|k: u128| old_last.contains_key(k) ==> #[trigger] old_addrs.contains(k),
                forall|k: u128|
                    #[trigger] self.last@.contains_key(k) ==> old_last.contains_key(k) && self.last@[k] == old_last[k],
                forall|k: u128|
                    old_last.contains_key(k) && !expired(old_last[k], now, iv) ==> #[trigger] self.last@.contains_key(k),
                forall|j: int|
                    0 <= j < i ==> (self.last@.contains_key(#[trigger] old_addrs[j]) <==> !expired(old_last[old_addrs[j]], now, iv)),
                forall|j: int|
                    0 <= j < kept@.len() ==> self.last@.contains_key(#[trigger] kept@[j]) && !expired(old_last[kept@[j]], now, iv),
                forall|j: int|
                    0 <= j < i && self.last@.contains_key(#[trigger] old_addrs[j]) ==> kept@.contains(old_addrs[j]),
            decreases n - i,
        {
            let a = self.addrs[i];
            let ghost kept_before = kept@;
            let ghost last_before = self.last@;
            match self.last.get(&a) {
                Some(t) => {
                    let t = *t;
                    if t <= now && now - t >= iv {
                        self.last.remove(&a);
                        assert forall|j: int| 0 <= j < kept@.len() implies self.last@.contains_key(#[trigger] kept@[j]) by {
                            assert(last_before.contains_key(kept@[j]));
                        }
                    } else {
                        kept.push(a);
                        assert(kept@[kept@.len() - 1] == a);
                        assert forall|j: int| 0 <= j < kept@.len() implies self.last@.contains_key(#[trigger] kept@[j])
                            && !expired(old_last[kept@[j]], now, iv) by {
                            if j < kept_before.len() {
                                assert(kept@[j] == kept_before[j]);
                            }
                        }
                    }
                },
                None => {},
            }
            assert forall|j: int|
                0 <= j < i + 1 && self.last@.contains_key(#[trigger] old_addrs[j]) implies kept@.contains(old_addrs[j]) by {
                if j < i {
                    assert(last_before.contains_key(old_addrs[j]));
                    assert(kept_before.contains(old_addrs[j]));
                    let p = choose|p: int| 0 <= p < kept_before.len() && kept_before[p] == old_addrs[j];
                    assert(kept@[p] == old_addrs[j]);
                } else {
                    assert(kept@[kept@.len() - 1] == a);
                }
            }
            i = i + 1;
        }
        self.addrs = kept;
        assert forall|k: u128| self.last@.contains_key(k) implies #[trigger] self.addrs@.contains(k) by {
            assert(old_last.contains_key(k));
            assert(old_addrs.contains(k));
            let j = choose|j: int| 0 <= j < old_addrs.len() && old_addrs[j] == k;
            assert(self.last@.contains_key(old_addrs[j]));
        }
        assert forall|k: u128|
            #[trigger] self.last@.contains_key(k) <==> (old_last.contains_key(k) && !expired(old_last[k], now, iv)) by {
            if old_last.contains_key(k) {
                assert(old_addrs.contains(k));
                let j = choose|j: int| 0 <= j < old_addrs.len() && old_addrs[j] == k;
                assert(self.last@.contains_key(old_addrs[j]) <==> !expired(old_last[old_addrs[j]], now, iv));
            }
        }
    }
}

} // verus!
