//! Counts disconnects over a sliding five-minute window.

use vstd::prelude::*;

verus! {

/// Disconnects within this window count towards the limit (nanoseconds).
pub const TTL_NANOS: u128 = 300_000_000_000;

/// This many disconnects within the window mark the probe as unstable.
pub const MAX_DISCONNECTS: usize = 3;

#[verifier::external_type_specification]
#[verifier::external_body]
pub struct ExInstant(std::time::Instant);

/// Calls `std::time::Instant::now`. Nothing is claimed of the result.
#[verifier::external_body]
fn instant_now() -> std::time::Instant {
    std::time::Instant::now()
}

/// Calls `Instant::elapsed` on `anchor` and `Duration::as_nanos` on the
/// result. It depends on the clock, so nothing is claimed of it.
#[verifier::external_body]
fn nanos_since(anchor: &std::time::Instant) -> u128 {
    anchor.elapsed().as_nanos()
}

/// Disconnect times, in nanoseconds since the tracker was made.
pub struct DisconnectTracker {
    anchor: std::time::Instant,
    times: Vec<u128>,
}

/// Whether a disconnect at `t` still counts at `now` (`Instant::elapsed`
/// saturates at zero).
pub open spec fn alive(t: u128, now: u128) -> bool {
    (if now >= t { now - t } else { 0 }) < TTL_NANOS
}

/// The disconnects that still count at `now`, in order.
pub open spec fn evict(times: Seq<u128>, now: u128) -> Seq<u128>
    decreases times.len(),
{
    if times.len() == 0 {
        Seq::empty()
    } else {
        let p = evict(times.drop_last(), now);
        if alive(times.last(), now) {
            p.push(times.last())
        } else {
            p
        }
    }
}

impl View for DisconnectTracker {
    type V = Seq<u128>;

    closed spec fn view(&self) -> Seq<u128> {
        self.times@
    }
}

impl DisconnectTracker {
    pub fn new() -> (r: Self)
        ensures
            r@ == Seq::<u128>::empty(),
    {
        DisconnectTracker { anchor: instant_now(), times: Vec::new() }
    }

    fn evict_at(&mut self, now: u128)
        ensures
            final(self)@ == evict(old(self)@, now),
            final(self).anchor == old(self).anchor,
    {
        let ghost s0 = self.times@;
        let mut kept: Vec<u128> = Vec::new();
        let mut i: usize = 0;
        assert(s0.take(0) =~= Seq::<u128>::empty());
        while i < self.times.len()
            invariant
                i <= s0.len(),
                s0 == self.times@,
                kept@ == evict(s0.take(i as int), now),
            decreases s0.len() - i,
        {
            let t = self.times[i];
            assert(s0.take(i + 1).drop_last() =~= s0.take(i as int));
            let age = if now >= t { now - t } else { 0 };
            if age < TTL_NANOS {
                kept.push(t);
            }
            i = i + 1;
        }
        assert(s0.take(s0.len() as int) =~= s0);
        self.times = kept;
    }

    /// Records a disconnect at `now` (nanoseconds since the tracker was
    /// made) after dropping the expired ones; `true` once the window holds
    /// `MAX_DISCONNECTS` or more.
    pub fn record_at(&mut self, now: u128) -> (r: bool)
        ensures
            final(self)@ == evict(old(self)@, now).push(now),
            r == (final(self)@.len() >= MAX_DISCONNECTS),
    {
        self.evict_at(now);
        self.times.push(now);
        self.times.len() >= MAX_DISCONNECTS
    }

    /// The disconnects that still count at `now`, after dropping the expired.
    pub fn count_at(&mut self, now: u128) -> (r: usize)
        ensures
            final(self)@ == evict(old(self)@, now),
            r == final(self)@.len(),
    {
        self.evict_at(now);
        self.times.len()
    }

    /// Records a disconnect now; `true` once the window holds
    /// `MAX_DISCONNECTS` or more.
    pub fn record(&mut self) -> (r: bool)
        ensures
            exists|now: u128|
                final(self)@ == evict(old(self)@, now).push(now) && r == (final(self)@.len()
                    >= MAX_DISCONNECTS),
    {
        let now = nanos_since(&self.anchor);
        self.record_at(now)
    }

    /// The disconnects that still count now.
    pub fn count(&mut self) -> (r: usize)
        ensures
            exists|now: u128| final(self)@ == evict(old(self)@, now) && r == final(self)@.len(),
    {
        let now = nanos_since(&self.anchor);
        self.count_at(now)
    }
}

/// Three disconnects within one TTL of each other reach the limit, whatever
/// the tracker held before.
pub proof fn law_three_disconnects_within_ttl_trigger(times: Seq<u128>, t1: u128, t2: u128, t3: u128)
    requires
        t1 <= t2 <= t3,
        t3 - t1 < TTL_NANOS,
    ensures
        evict(evict(evict(times, t1).push(t1), t2).push(t2), t3).push(t3).len() >= MAX_DISCONNECTS,
{
    let a = evict(times, t1).push(t1);
    let b = evict(a, t2).push(t2);
    lemma_evict_push_alive(evict(times, t1), t1, t2);
    lemma_evict_push_alive(evict(a, t2), t2, t3);
    lemma_evict_push_alive(evict(evict(times, t1), t2), t1, t3);
    assert(evict(a, t2).drop_last() == evict(evict(times, t1), t2));
    assert(evict(b, t3) == evict(evict(a, t2), t3).push(t2));
    assert(evict(a, t2) == evict(evict(times, t1), t2).push(t1));
    assert(evict(evict(a, t2), t3) == evict(evict(evict(times, t1), t2), t3).push(t1));
}

/// Only disconnects younger than the TTL count.
pub proof fn law_counted_disconnects_are_recent(times: Seq<u128>, now: u128)
    ensures
        forall|i: int| 0 <= i < evict(times, now).len() ==> alive(#[trigger] evict(times, now)[i], now),
    decreases times.len(),
{
    if times.len() > 0 {
        law_counted_disconnects_are_recent(times.drop_last(), now);
        let p = evict(times.drop_last(), now);
        assert forall|i: int| 0 <= i < evict(times, now).len() implies alive(
            #[trigger] evict(times, now)[i],
            now,
        ) by {
            if i < p.len() {
                assert(evict(times, now)[i] == p[i]);
            }
        }
    }
}

proof fn lemma_evict_push_alive(s: Seq<u128>, t: u128, now: u128)
    requires
        alive(t, now),
    ensures
        evict(s.push(t), now) == evict(s, now).push(t),
{
    assert(s.push(t).drop_last() =~= s);
}

} // verus!
