use vstd::prelude::*;

verus! {

/// Counts how many measurements were started and finished in the current
/// reporting window.
pub struct MeasurementStats {
    started: u64,
    finished: u64,
}

impl MeasurementStats {
    /// Number of measurements started since the last `take`.
    pub closed spec fn started_count(&self) -> u64 {
        self.started
    }

    /// Number of measurements finished since the last `take`.
    pub closed spec fn finished_count(&self) -> u64 {
        self.finished
    }

    pub fn new() -> (s: Self)
        ensures
            s.started_count() == 0,
            s.finished_count() == 0,
    {
        MeasurementStats { started: 0, finished: 0 }
    }

    /// Counts one started measurement (the counter wraps like an atomic add).
    pub fn record_start(&mut self)
        ensures
            final(self).started_count() == old(self).started_count().wrapping_add(1),
            final(self).finished_count() == old(self).finished_count(),
    {
        self.started = self.started.wrapping_add(1);
    }

    /// Counts one finished measurement (the counter wraps like an atomic add).
    pub fn record_finish(&mut self)
        ensures
            final(self).finished_count() == old(self).finished_count().wrapping_add(1),
            final(self).started_count() == old(self).started_count(),
    {
        self.finished = self.finished.wrapping_add(1);
    }

    pub fn started(&self) -> (n: u64)
        ensures
            n == self.started_count(),
    {
        self.started
    }

    pub fn finished(&self) -> (n: u64)
        ensures
            n == self.finished_count(),
    {
        self.finished
    }

    /// Returns `(started, finished)` and resets both counters to zero.
    pub fn take(&mut self) -> (r: (u64, u64))
        ensures
            r == (old(self).started_count(), old(self).finished_count()),
            final(self).started_count() == 0,
            final(self).finished_count() == 0,
    {
        let r = (self.started, self.finished);
        self.started = 0;
        self.finished = 0;
        r
    }
}

} // verus!
