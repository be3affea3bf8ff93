//! Outcome of the periodic ping health check.

use vstd::prelude::*;
use crate::command::ping::parse::PingStats;
use crate::text::{chars_of, opt_view};

verus! {

/// Trials per IP version.
pub const TRIALS: usize = 3;

/// Loss-free trials needed for a version to pass.
pub const REQUIRED_PASSES: usize = 2;

/// Decimal text that reads as zero: digits and points, every digit `0`.
pub open spec fn reads_as_zero(t: Seq<char>) -> bool {
    t.len() > 0 && forall|i: int| 0 <= i < t.len() ==> (t[i] == '0' || t[i] == '.')
}

/// A trial passes when ping reported a loss that reads as zero; the loss is
/// the `\d*(\.\d+)?` text the parser hands out.
pub fn trial_passed(stats: &PingStats) -> (r: bool)
    ensures
        r == (opt_view(stats.loss) matches Some(t) && reads_as_zero(t)),
{
    match &stats.loss {
        Some(t) => {
            let v = chars_of(t.as_str());
            let mut ok = v.len() > 0;
            let mut i: usize = 0;
            while i < v.len()
                invariant
                    v@ == t@,
                    i <= v@.len(),
                    ok == (v@.len() > 0 && forall|j: int| 0 <= j < i ==> (v@[j] == '0' || v@[j] == '.')),
                decreases v.len() - i,
            {
                if v[i] != '0' && v[i] != '.' {
                    ok = false;
                }
                i = i + 1;
            }
            ok
        },
        None => false,
    }
}

pub struct PingTest {
    pub failed: bool,
}

/// A version is supported when enough of its trials had no loss.
pub fn version_passed(passes: usize) -> (r: bool)
    ensures
        r == (passes >= REQUIRED_PASSES),
{
    passes >= REQUIRED_PASSES
}

impl PingTest {
    pub fn new() -> (r: Self)
        ensures
            !r.failed,
    {
        PingTest { failed: false }
    }

    /// Records the per-version outcomes: the check fails only when both IP
    /// versions failed. Returns `(ipv4_supported, ipv6_supported)`.
    pub fn record(&mut self, ipv4_ok: bool, ipv6_ok: bool) -> (r: (bool, bool))
        ensures
            final(self).failed == (!ipv4_ok && !ipv6_ok),
            r == (ipv4_ok, ipv6_ok),
    {
        self.failed = !ipv4_ok && !ipv6_ok;
        (ipv4_ok, ipv6_ok)
    }
}

} // verus!
