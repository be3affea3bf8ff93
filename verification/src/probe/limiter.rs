//! The budget of concurrent measurements: how many slots there are and how
//! many are taken. Waiting for slots to come back is left to the caller.

use vstd::prelude::*;

verus! {

/// Maximum number of measurements the probe runs at the same time.
pub const MAX_CONCURRENT: usize = 3;

/// Slots in use out of `capacity`.
pub struct MeasurementLimiter {
    capacity: usize,
    in_flight: usize,
}

/// A limiter as a pair: slots in use and slots in all.
pub struct LimiterView {
    pub in_flight: nat,
    pub capacity: nat,
}

/// `try_acquire`: a slot is granted exactly when one is free.
pub open spec fn acquire_spec(v: LimiterView) -> (LimiterView, bool) {
    if v.in_flight < v.capacity {
        (LimiterView { in_flight: v.in_flight + 1, capacity: v.capacity }, true)
    } else {
        (v, false)
    }
}

/// Giving a slot back (nothing happens when none is taken).
pub open spec fn release_spec(v: LimiterView) -> LimiterView {
    LimiterView {
        in_flight: if v.in_flight > 0 {
            (v.in_flight - 1) as nat
        } else {
            0
        },
        capacity: v.capacity,
    }
}

impl View for MeasurementLimiter {
    type V = LimiterView;

    closed spec fn view(&self) -> LimiterView {
        LimiterView { in_flight: self.in_flight as nat, capacity: self.capacity as nat }
    }
}

impl MeasurementLimiter {
    pub closed spec fn wf(&self) -> bool {
        self.in_flight <= self.capacity
    }

    pub fn new() -> (r: Self)
        ensures
            r.wf(),
            r@ == (LimiterView { in_flight: 0, capacity: MAX_CONCURRENT as nat }),
    {
        MeasurementLimiter { capacity: MAX_CONCURRENT, in_flight: 0 }
    }

    pub fn with_capacity(n: usize) -> (r: Self)
        ensures
            r.wf(),
            r@ == (LimiterView { in_flight: 0, capacity: n as nat }),
    {
        MeasurementLimiter { capacity: n, in_flight: 0 }
    }

    /// Takes a slot if one is free.
    pub fn try_acquire(&mut self) -> (ok: bool)
        requires
            old(self).wf(),
        ensures
            final(self).wf(),
            (final(self)@, ok) == acquire_spec(old(self)@),
    {
        if self.in_flight < self.capacity {
            self.in_flight = self.in_flight + 1;
            true
        } else {
            false
        }
    }

    /// Gives a slot back.
    pub fn release(&mut self)
        requires
            old(self).wf(),
        ensures
            final(self).wf(),
            final(self)@ == release_spec(old(self)@),
    {
        if self.in_flight > 0 {
            self.in_flight = self.in_flight - 1;
        }
    }

    /// Number of measurements running.
    pub fn in_flight(&self) -> (n: usize)
        ensures
            n == self@.in_flight,
    {
        self.in_flight
    }

    pub fn capacity(&self) -> (n: usize)
        ensures
            n == self@.capacity,
    {
        self.capacity
    }

    /// No measurement is running.
    pub fn is_idle(&self) -> (b: bool)
        ensures
            b == (self@.in_flight == 0),
    {
        self.in_flight == 0
    }

    /// What well-formedness means to a caller: no more slots are in use
    /// than there are (`new`, `with_capacity` and every change keep it).
    pub proof fn lemma_wf(&self)
        requires
            self.wf(),
        ensures
            self@.in_flight <= self@.capacity,
    {
    }
}

/// Taking and giving back slots never puts more measurements in flight than
/// there are slots.
pub proof fn law_in_flight_within_capacity(v: LimiterView)
    requires
        v.in_flight <= v.capacity,
    ensures
        acquire_spec(v).0.in_flight <= acquire_spec(v).0.capacity,
        release_spec(v).in_flight <= release_spec(v).capacity,
        acquire_spec(v).0.capacity == v.capacity,
        release_spec(v).capacity == v.capacity,
{
}

/// A full limiter refuses; after one slot comes back, the next request is
/// granted.
pub proof fn law_released_slot_is_reacquirable(v: LimiterView)
    requires
        v.capacity > 0,
        v.in_flight == v.capacity,
    ensures
        !acquire_spec(v).1,
        acquire_spec(release_spec(v)).1,
        acquire_spec(release_spec(v)).0 == v,
{
}

/// Acquiring `k` times from `v`: the number of grants and the final state.
pub open spec fn acquire_n(v: LimiterView, k: nat) -> (LimiterView, nat)
    decreases k,
{
    if k == 0 {
        (v, 0)
    } else {
        let (w, n) = acquire_n(v, (k - 1) as nat);
        let (x, ok) = acquire_spec(w);
        (x, if ok {
            n + 1
        } else {
            n
        })
    }
}

/// From idle, `k` requests get `min(k, capacity)` slots.
pub proof fn law_grants_up_to_capacity(cap: nat, k: nat)
    ensures
        acquire_n(LimiterView { in_flight: 0, capacity: cap }, k).1 == if k < cap {
            k
        } else {
            cap
        },
        acquire_n(LimiterView { in_flight: 0, capacity: cap }, k).0.in_flight == if k < cap {
            k
        } else {
            cap
        },
        acquire_n(LimiterView { in_flight: 0, capacity: cap }, k).0.capacity == cap,
    decreases k,
{
    if k > 0 {
        law_grants_up_to_capacity(cap, (k - 1) as nat);
    }
}

} // verus!
