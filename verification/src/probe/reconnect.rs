//! Reconnect policy: how a connect error is classified and how long to wait
//! before the next attempt.

use vstd::prelude::*;
use crate::text::{chars_of, contains_seq, find_exec, lemma_find_from, to_lowercase, unicode_lowercase};
use vstd::arithmetic::power2::{pow2, lemma_pow2_unfold, lemma_pow2_pos, lemma2_to64};

verus! {

/// What the client should do after a disconnect or connect error.
#[derive(Debug, Clone, Copy, PartialEq, Eq, Structural)]
pub enum ConnectOutcome {
    /// SIGTERM / CTRL-C — stop the loop entirely.
    CleanShutdown,
    /// Server rejected us because of IP rate-limit or VPN/GeoIP policy — wait 1 hour.
    IpLimitOrVpn,
    /// Server rejected us due to invalid metadata — wait 1 minute.
    MetadataError,
    /// Server says our version is unsupported — exit the process.
    InvalidVersion,
    /// Server is restarting — reconnect immediately.
    ServerTerminating,
    /// Network hiccup / clean disconnect — use exponential back-off.
    Transient,
}

/// The reconnect policy for an already lowercased connect-error message.
pub open spec fn classify_lowered_spec(lower: Seq<char>) -> ConnectOutcome {
    if contains_seq(lower, "invalid probe version"@) || contains_seq(lower, "invalid version"@) {
        ConnectOutcome::InvalidVersion
    } else if contains_seq(lower, "ip limit"@) || contains_seq(lower, "vpn"@) || contains_seq(
        lower,
        "geoip"@,
    ) {
        ConnectOutcome::IpLimitOrVpn
    } else if contains_seq(lower, "metadata"@) {
        ConnectOutcome::MetadataError
    } else if contains_seq(lower, "server-terminating"@) || contains_seq(
        lower,
        "server terminating"@,
    ) {
        ConnectOutcome::ServerTerminating
    } else {
        ConnectOutcome::Transient
    }
}

fn contains_str(hay: &[char], pat: &str) -> (b: bool)
    ensures
        b == contains_seq(hay@, pat@),
{
    let p = chars_of(pat);
    proof {
        lemma_find_from(hay@, p@, 0);
    }
    let r = find_exec(hay, p.as_slice(), 0);
    match r {
        Some(k) => {
            assert(crate::text::occurs_at(hay@, p@, k as int));
            true
        },
        None => false,
    }
}

/// Classifies a connect-error message that is already lowercase.
pub fn classify_lowered(lower: &str) -> (r: ConnectOutcome)
    ensures
        r == classify_lowered_spec(lower@),
{
    let s = chars_of(lower);
    let h = s.as_slice();
    if contains_str(h, "invalid probe version") || contains_str(h, "invalid version") {
        ConnectOutcome::InvalidVersion
    } else if contains_str(h, "ip limit") || contains_str(h, "vpn") || contains_str(h, "geoip") {
        ConnectOutcome::IpLimitOrVpn
    } else if contains_str(h, "metadata") {
        ConnectOutcome::MetadataError
    } else if contains_str(h, "server-terminating") || contains_str(h, "server terminating") {
        ConnectOutcome::ServerTerminating
    } else {
        ConnectOutcome::Transient
    }
}

/// Parse the socket.io connect-error message and return the reconnect policy.
pub fn classify_error(msg: &str) -> (r: ConnectOutcome)
    ensures
        r == classify_lowered_spec(unicode_lowercase(msg@)),
{
    let lower = to_lowercase(msg);
    classify_lowered(lower.as_str())
}

// ── Delays ────────────────────────────────────────────────────────────────────

pub const NANOS_PER_SEC: u32 = 1_000_000_000;

/// A span of time with nanosecond resolution, like `std::time::Duration`.
#[derive(Debug, Clone, Copy, PartialEq, Eq, Structural)]
pub struct Delay {
    secs: u64,
    subsec: u32,
}

/// The longest representable delay, in nanoseconds.
pub open spec fn max_delay_nanos() -> nat {
    (u64::MAX as nat) * 1_000_000_000 + 999_999_999
}

impl Delay {
    #[verifier::type_invariant]
    closed spec fn inv(self) -> bool {
        self.subsec < NANOS_PER_SEC
    }

    /// Length of the delay in nanoseconds.
    pub closed spec fn nanos(self) -> nat {
        (self.secs as nat) * 1_000_000_000 + self.subsec as nat
    }

    pub fn zero() -> (d: Delay)
        ensures
            d.nanos() == 0,
    {
        Delay { secs: 0, subsec: 0 }
    }

    pub fn from_secs(secs: u64) -> (d: Delay)
        ensures
            d.nanos() == secs * 1_000_000_000,
    {
        Delay { secs, subsec: 0 }
    }

    /// `secs` seconds plus `subsec` nanoseconds, with `subsec < 1_000_000_000`.
    pub fn new(secs: u64, subsec: u32) -> (d: Delay)
        requires
            subsec < NANOS_PER_SEC,
        ensures
            d.nanos() == secs * 1_000_000_000 + subsec,
    {
        Delay { secs, subsec }
    }

    pub fn as_secs(&self) -> (s: u64)
        ensures
            s == self.nanos() / 1_000_000_000,
    {
        proof {
            use_type_invariant(self);
        }
        self.secs
    }

    pub fn subsec_nanos(&self) -> (n: u32)
        ensures
            n == self.nanos() % 1_000_000_000,
    {
        proof {
            use_type_invariant(self);
        }
        self.subsec
    }

    pub fn is_zero(&self) -> (b: bool)
        ensures
            b == (self.nanos() == 0),
    {
        self.secs == 0 && self.subsec == 0
    }

    /// Whether the delay can be doubled without leaving the representable range.
    pub fn can_double(&self) -> (b: bool)
        ensures
            b == (self.nanos() * 2 <= max_delay_nanos()),
    {
        proof {
            use_type_invariant(self);
        }
        let carry: u64 = if self.subsec >= 500_000_000 { 1 } else { 0 };
        self.secs <= (u64::MAX - carry) / 2
    }

    /// Twice the delay (`Duration * 2`).
    pub fn doubled(&self) -> (d: Delay)
        requires
            self.nanos() * 2 <= max_delay_nanos(),
        ensures
            d.nanos() == self.nanos() * 2,
    {
        proof {
            use_type_invariant(self);
        }
        let twice = self.subsec as u64 * 2;
        if twice >= NANOS_PER_SEC as u64 {
            Delay { secs: self.secs * 2 + 1, subsec: (twice - NANOS_PER_SEC as u64) as u32 }
        } else {
            Delay { secs: self.secs * 2, subsec: twice as u32 }
        }
    }

    /// The shorter of the two (`Ord::min`).
    pub fn min(self, other: Delay) -> (d: Delay)
        ensures
            d.nanos() == if self.nanos() <= other.nanos() {
                self.nanos()
            } else {
                other.nanos()
            },
            d == self || d == other,
    {
        proof {
            use_type_invariant(&self);
            use_type_invariant(&other);
        }
        if self.secs < other.secs || (self.secs == other.secs && self.subsec <= other.subsec) {
            proof {
                if self.secs < other.secs {
                    let a = self.secs as int;
                    let b = other.secs as int;
                    assert(a * 1_000_000_000 + 1_000_000_000 <= b * 1_000_000_000)
                        by (nonlinear_arith)
                        requires
                            a < b,
                    ;
                }
            }
            self
        } else {
            proof {
                if self.secs > other.secs {
                    let a = self.secs as int;
                    let b = other.secs as int;
                    assert(b * 1_000_000_000 + 1_000_000_000 <= a * 1_000_000_000)
                        by (nonlinear_arith)
                        requires
                            a > b,
                    ;
                }
            }
            other
        }
    }
}

/// How long to wait before the next connection attempt.
pub open spec fn fixed_delay_secs(outcome: ConnectOutcome) -> Option<nat> {
    match outcome {
        ConnectOutcome::CleanShutdown => None,
        ConnectOutcome::InvalidVersion => None,
        ConnectOutcome::IpLimitOrVpn => Some(3600),
        ConnectOutcome::MetadataError => Some(60),
        ConnectOutcome::ServerTerminating => Some(0),
        ConnectOutcome::Transient => None,
    }
}

pub fn reconnect_delay(outcome: &ConnectOutcome, backoff: &mut ExponentialBackoff) -> (r: Option<
    Delay,
>)
    requires
        *outcome == ConnectOutcome::Transient ==> old(backoff).can_advance_spec(),
    ensures
        match *outcome {
            ConnectOutcome::Transient => {
                &&& r == Some(old(backoff).current())
                &&& r->0.nanos() == old(backoff).model().current
                &&& final(backoff).model() == old(backoff).model().advanced()
            },
            ConnectOutcome::CleanShutdown | ConnectOutcome::InvalidVersion => {
                &&& r is None
                &&& final(backoff).model() == old(backoff).model()
            },
            _ => {
                &&& r matches Some(d) && d.nanos() == fixed_delay_secs(*outcome)->0
                    * 1_000_000_000
                &&& final(backoff).model() == old(backoff).model()
            },
        },
{
    match outcome {
        ConnectOutcome::CleanShutdown => None,
        ConnectOutcome::InvalidVersion => None,
        ConnectOutcome::IpLimitOrVpn => Some(Delay::from_secs(60 * 60)),
        ConnectOutcome::MetadataError => Some(Delay::from_secs(60)),
        ConnectOutcome::ServerTerminating => Some(Delay::zero()),
        ConnectOutcome::Transient => Some(backoff.next()),
    }
}

// ── Exponential back-off ──────────────────────────────────────────────────────

/// The state of a back-off, in nanoseconds.
pub struct BackoffModel {
    pub current: nat,
    pub min: nat,
    pub max: nat,
}

impl BackoffModel {
    /// The state after one `next`: the current delay doubled, clamped at `max`.
    pub open spec fn advanced(self) -> BackoffModel {
        BackoffModel {
            current: if self.current * 2 <= self.max {
                self.current * 2
            } else {
                self.max
            },
            min: self.min,
            max: self.max,
        }
    }

    /// The state after `k` calls of `next`.
    pub open spec fn advanced_by(self, k: nat) -> BackoffModel
        decreases k,
    {
        if k == 0 {
            self
        } else {
            self.advanced_by((k - 1) as nat).advanced()
        }
    }
}

/// Doubles the delay each call, clamped between `min` and `max`.
pub struct ExponentialBackoff {
    current: Delay,
    min: Delay,
    max: Delay,
}

impl ExponentialBackoff {
    pub closed spec fn model(self) -> BackoffModel {
        BackoffModel {
            current: self.current.nanos(),
            min: self.min.nanos(),
            max: self.max.nanos(),
        }
    }

    /// The delay the next call of `next` returns.
    pub closed spec fn current(self) -> Delay {
        self.current
    }

    /// The delay a reset returns to.
    pub closed spec fn min_delay(self) -> Delay {
        self.min
    }

    /// The delay `next` returns is the model's current delay, and a reset
    /// returns to the model's minimum.
    pub proof fn lemma_current_is_model(self)
        ensures
            self.current().nanos() == self.model().current,
            self.min_delay().nanos() == self.model().min,
    {
    }

    pub open spec fn can_advance_spec(self) -> bool {
        self.model().current * 2 <= max_delay_nanos()
    }

    pub fn new(min: Delay, max: Delay) -> (b: Self)
        ensures
            b.current() == min,
            b.min_delay() == min,
            b.model() == (BackoffModel { current: min.nanos(), min: min.nanos(), max: max.nanos() }),
    {
        ExponentialBackoff { current: min, min, max }
    }

    /// Whether `next` can double the current delay without overflow.
    pub fn can_advance(&self) -> (b: bool)
        ensures
            b == self.can_advance_spec(),
    {
        self.current.can_double()
    }

    /// Return the current delay and double it for next time.
    pub fn next(&mut self) -> (d: Delay)
        requires
            old(self).can_advance_spec(),
        ensures
            d == old(self).current(),
            d.nanos() == old(self).model().current,
            final(self).model() == old(self).model().advanced(),
    {
        let d = self.current;
        self.current = self.current.doubled().min(self.max);
        d
    }

    pub fn reset(&mut self)
        ensures
            final(self).model() == (BackoffModel { current: old(self).model().min, ..old(self).model() }),
            final(self).current() == old(self).min_delay(),
    {
        self.current = self.min;
    }
}

/// Back-off law: when `min <= max`, after `k` calls of `next` since `new` or
/// `reset` the model's current delay, which is what the following `next`
/// returns, is `min·2^k` clamped at `max`; so the delays handed out are
/// `min, 2·min, 4·min, …`, each clamped at `max`.
pub proof fn law_backoff_doubles_then_clamps(m: BackoffModel, k: nat)
    requires
        m.current == m.min,
        m.min <= m.max,
    ensures
        m.advanced_by(k).current == if m.min * pow2(k) <= m.max {
            m.min * pow2(k)
        } else {
            m.max
        },
        m.advanced_by(k).min == m.min,
        m.advanced_by(k).max == m.max,
    decreases k,
{
    if k == 0 {
        lemma2_to64();
    } else {
        law_backoff_doubles_then_clamps(m, (k - 1) as nat);
        lemma_pow2_unfold(k);
        lemma_pow2_pos((k - 1) as nat);
        let p = pow2((k - 1) as nat);
        assert(m.min * pow2(k) == (m.min * p) * 2) by (nonlinear_arith)
            requires
                pow2(k) == 2 * p,
        ;
    }
}


// ── The reconnect loop ────────────────────────────────────────────────────────

/// What the client does after a connection attempt ends.
#[derive(Debug, Clone, Copy, PartialEq, Eq, Structural)]
pub enum ReconnectStep {
    /// Stop for good (clean shutdown).
    Stop,
    /// Exit so the supervisor restarts an up-to-date probe.
    Restart,
    /// Wait this long, then connect again.
    Retry(Delay),
}

/// A disconnect reason that counts towards the disconnect limit; a normal
/// server restart does not.
pub open spec fn is_problem_disconnect_spec(reason: Seq<char>) -> bool {
    reason == "ping timeout"@ || reason == "transport error"@
}

pub fn is_problem_disconnect(reason: &str) -> (b: bool)
    ensures
        b == is_problem_disconnect_spec(reason@),
{
    crate::text::str_is(reason, "ping timeout") || crate::text::str_is(reason, "transport error")
}

/// The decision after one attempt: no delay means stop (or restart for an
/// outdated version); otherwise wait the delay, having reset the back-off
/// first when the outcome was a policy answer or the session was real.
pub fn next_step(outcome: &ConnectOutcome, was_connected: bool, backoff: &mut ExponentialBackoff) -> (r:
    ReconnectStep)
    requires
        *outcome == ConnectOutcome::Transient ==> old(backoff).can_advance_spec(),
    ensures
        match *outcome {
            ConnectOutcome::CleanShutdown => r == ReconnectStep::Stop && final(backoff).model()
                == old(backoff).model(),
            ConnectOutcome::InvalidVersion => r == ReconnectStep::Restart && final(backoff).model()
                == old(backoff).model(),
            ConnectOutcome::Transient => {
                &&& r == ReconnectStep::Retry(old(backoff).current())
                &&& r matches ReconnectStep::Retry(d) && d.nanos() == old(backoff).model().current
                &&& if was_connected {
                    final(backoff).model() == (BackoffModel {
                        current: old(backoff).model().min,
                        ..old(backoff).model()
                    })
                } else {
                    final(backoff).model() == old(backoff).model().advanced()
                }
            },
            _ => {
                &&& r matches ReconnectStep::Retry(d) && d.nanos() == fixed_delay_secs(*outcome)->0
                    * 1_000_000_000
                &&& final(backoff).model() == (BackoffModel {
                    current: old(backoff).model().min,
                    ..old(backoff).model()
                })
            },
        },
{
    match reconnect_delay(outcome, backoff) {
        None => {
            if *outcome == ConnectOutcome::InvalidVersion {
                ReconnectStep::Restart
            } else {
                ReconnectStep::Stop
            }
        },
        Some(delay) => {
            if *outcome != ConnectOutcome::Transient || was_connected {
                backoff.reset();
            }
            ReconnectStep::Retry(delay)
        },
    }
}

} // verus!
