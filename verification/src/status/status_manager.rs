//! The probe's health status, derived from the health checks, the
//! disconnect history and shutdown.

use vstd::prelude::*;
use crate::status::disconnect::{evict, DisconnectTracker, MAX_DISCONNECTS};
use crate::status::icmp_tcp_test::{vpn_detected_spec, DiffLevel, IcmpTcpTest};
use crate::status::ping_test::PingTest;

verus! {

#[derive(Debug, Clone, Copy, PartialEq, Eq, Structural)]
pub enum ProbeStatus {
    Initializing,
    Ready,
    PingTestFailed,
    IcmpTcpTestFailed,
    TooManyDisconnects,
    Sigterm,
}

pub open spec fn status_text(s: ProbeStatus) -> Seq<char> {
    match s {
        ProbeStatus::Initializing => "initializing"@,
        ProbeStatus::Ready => "ready"@,
        ProbeStatus::PingTestFailed => "ping-test-failed"@,
        ProbeStatus::IcmpTcpTestFailed => "icmp-tcp-test-failed"@,
        ProbeStatus::TooManyDisconnects => "too-many-disconnects"@,
        ProbeStatus::Sigterm => "sigterm"@,
    }
}

impl ProbeStatus {
    /// The status as the API spells it.
    pub fn to_string(&self) -> (r: String)
        ensures
            r@ == status_text(*self),
    {
        match self {
            ProbeStatus::Initializing => "initializing".to_string(),
            ProbeStatus::Ready => "ready".to_string(),
            ProbeStatus::PingTestFailed => "ping-test-failed".to_string(),
            ProbeStatus::IcmpTcpTestFailed => "icmp-tcp-test-failed".to_string(),
            ProbeStatus::TooManyDisconnects => "too-many-disconnects".to_string(),
            ProbeStatus::Sigterm => "sigterm".to_string(),
        }
    }
}

/// The targets of the ICMP/TCP comparison.
pub open spec fn default_icmp_tcp_targets() -> Seq<Seq<char>> {
    seq!["1.1.1.1"@, "8.8.8.8"@, "9.9.9.9"@]
}

pub fn icmp_tcp_targets() -> (r: Vec<&'static str>)
    ensures
        r@.map_values(|s: &str| s@) == default_icmp_tcp_targets(),
{
    let v = vec!["1.1.1.1", "8.8.8.8", "9.9.9.9"];
    assert(v@.map_values(|s: &str| s@) =~= default_icmp_tcp_targets());
    v
}

pub struct StatusManager {
    /// `None` until the ping check has run.
    pub ping_test_failed: Option<bool>,
    /// `None` until the ICMP/TCP check has run.
    pub icmp_tcp_test_failed: Option<bool>,
    pub too_many_disconnects: bool,
    sigterm: bool,
    ping_test: PingTest,
    pub icmp_tcp_test: IcmpTcpTest,
    disconnect_tracker: DisconnectTracker,
    api_host: String,
}

/// The inputs the status is derived from.
pub struct StatusFacts {
    pub sigterm: bool,
    pub ping_test_failed: Option<bool>,
    pub icmp_tcp_test_failed: Option<bool>,
    pub too_many_disconnects: bool,
}

/// Priority, highest first: sigterm, initializing (a check has not run),
/// ping-test-failed, icmp-tcp-test-failed, too-many-disconnects, ready.
pub open spec fn status_spec(f: StatusFacts) -> ProbeStatus {
    if f.sigterm {
        ProbeStatus::Sigterm
    } else if f.ping_test_failed is None || f.icmp_tcp_test_failed is None {
        ProbeStatus::Initializing
    } else if f.ping_test_failed == Some(true) {
        ProbeStatus::PingTestFailed
    } else if f.icmp_tcp_test_failed == Some(true) {
        ProbeStatus::IcmpTcpTestFailed
    } else if f.too_many_disconnects {
        ProbeStatus::TooManyDisconnects
    } else {
        ProbeStatus::Ready
    }
}

impl StatusManager {
    pub closed spec fn facts(&self) -> StatusFacts {
        StatusFacts {
            sigterm: self.sigterm,
            ping_test_failed: self.ping_test_failed,
            icmp_tcp_test_failed: self.icmp_tcp_test_failed,
            too_many_disconnects: self.too_many_disconnects,
        }
    }

    pub closed spec fn api_host_view(&self) -> Seq<char> {
        self.api_host@
    }

    pub closed spec fn disconnects(&self) -> Seq<u128> {
        self.disconnect_tracker@
    }

    pub closed spec fn icmp(&self) -> IcmpTcpTest {
        self.icmp_tcp_test
    }

    pub closed spec fn ping_failed_flag(&self) -> bool {
        self.ping_test.failed
    }

    pub fn new() -> (r: Self)
        ensures
            r.api_host_view() == "api.globalping.io"@,
            r.facts() == (StatusFacts {
                sigterm: false,
                ping_test_failed: None,
                icmp_tcp_test_failed: None,
                too_many_disconnects: false,
            }),
            r.disconnects().len() == 0,
    {
        Self::with_api_host("api.globalping.io")
    }

    pub fn with_api_host(host: &str) -> (r: Self)
        ensures
            r.api_host_view() == host@,
            r.facts() == (StatusFacts {
                sigterm: false,
                ping_test_failed: None,
                icmp_tcp_test_failed: None,
                too_many_disconnects: false,
            }),
            r.disconnects().len() == 0,
            !r.icmp().failed,
            r.icmp().is_proxy is None,
    {
        StatusManager {
            ping_test_failed: None,
            icmp_tcp_test_failed: None,
            too_many_disconnects: false,
            sigterm: false,
            ping_test: PingTest::new(),
            icmp_tcp_test: IcmpTcpTest::new(),
            disconnect_tracker: DisconnectTracker::new(),
            api_host: host.to_string(),
        }
    }

    /// The host the ping check measures.
    pub fn api_host(&self) -> (r: &str)
        ensures
            r@ == self.api_host_view(),
    {
        self.api_host.as_str()
    }

    /// Derive the current probe status.
    pub fn get_status(&self) -> (r: ProbeStatus)
        ensures
            r == status_spec(self.facts()),
    {
        if self.sigterm {
            return ProbeStatus::Sigterm;
        }
        if self.ping_test_failed.is_none() || self.icmp_tcp_test_failed.is_none() {
            return ProbeStatus::Initializing;
        }
        if self.ping_test_failed == Some(true) {
            return ProbeStatus::PingTestFailed;
        }
        if self.icmp_tcp_test_failed == Some(true) {
            return ProbeStatus::IcmpTcpTestFailed;
        }
        if self.too_many_disconnects {
            return ProbeStatus::TooManyDisconnects;
        }
        ProbeStatus::Ready
    }

    /// Records the outcome of the ping check: it failed when neither IP
    /// version passed. Returns `(ipv4_supported, ipv6_supported)`.
    pub fn record_ping_test(&mut self, ipv4_ok: bool, ipv6_ok: bool) -> (r: (bool, bool))
        ensures
            r == (ipv4_ok, ipv6_ok),
            final(self).facts() == (StatusFacts {
                ping_test_failed: Some(!ipv4_ok && !ipv6_ok),
                ..old(self).facts()
            }),
            final(self).ping_failed_flag() == (!ipv4_ok && !ipv6_ok),
            final(self).disconnects() == old(self).disconnects(),
    {
        let r = self.ping_test.record(ipv4_ok, ipv6_ok);
        self.ping_test_failed = Some(!ipv4_ok && !ipv6_ok);
        r
    }

    /// Records the gaps measured by the ICMP/TCP check; `true` if a VPN is
    /// detected, which fails the check.
    pub fn record_icmp_tcp_test(
        &mut self,
        diffs_v4: Vec<Option<DiffLevel>>,
        diffs_v6: Vec<Option<DiffLevel>>,
    ) -> (r: bool)
        ensures
            final(self).icmp().diffs_v4@ == diffs_v4@,
            final(self).icmp().diffs_v6@ == diffs_v6@,
            r == vpn_detected_spec(&final(self).icmp()),
            final(self).facts() == (StatusFacts { icmp_tcp_test_failed: Some(r), ..old(self).facts() }),
            final(self).disconnects() == old(self).disconnects(),
    {
        let detected = self.icmp_tcp_test.record_diffs(diffs_v4, diffs_v6);
        self.icmp_tcp_test_failed = Some(detected);
        detected
    }

    /// Notify that `is_proxy` info arrived from the API (via socket event).
    /// Re-evaluates VPN detection with existing diffs.
    pub fn on_proxy_status(&mut self, is_proxy: bool)
        ensures
            final(self).icmp().is_proxy == Some(is_proxy),
            final(self).icmp().diffs_v4@ == old(self).icmp().diffs_v4@,
            final(self).icmp().diffs_v6@ == old(self).icmp().diffs_v6@,
            final(self).icmp().failed == vpn_detected_spec(&final(self).icmp()),
            final(self).facts() == (StatusFacts {
                icmp_tcp_test_failed: if old(self).facts().icmp_tcp_test_failed is Some {
                    Some(vpn_detected_spec(&final(self).icmp()))
                } else {
                    None
                },
                ..old(self).facts()
            }),
            final(self).disconnects() == old(self).disconnects(),
    {
        let vpn = self.icmp_tcp_test.set_proxy_and_evaluate(is_proxy);
        if self.icmp_tcp_test_failed.is_some() {
            self.icmp_tcp_test_failed = Some(vpn);
        }
    }

    /// Record a disconnect; returns true if the "too-many-disconnects" threshold is hit.
    pub fn report_disconnect(&mut self) -> (r: bool)
        ensures
            exists|now: u128| final(self).disconnects() == evict(old(self).disconnects(), now).push(now),
            r == (final(self).disconnects().len() >= MAX_DISCONNECTS),
            final(self).facts() == (StatusFacts { too_many_disconnects: r, ..old(self).facts() }),
    {
        let ghost before = self.disconnect_tracker@;
        let too_many = self.disconnect_tracker.record();
        let ghost now = choose|now: u128|
            self.disconnect_tracker@ == evict(before, now).push(now) && too_many == (
            self.disconnect_tracker@.len() >= MAX_DISCONNECTS);
        self.too_many_disconnects = too_many;
        assert(self.disconnects() == evict(old(self).disconnects(), now).push(now));
        too_many
    }

    /// Re-evaluate disconnect status after TTL may have expired entries.
    pub fn recheck_disconnect_status(&mut self)
        ensures
            exists|now: u128| final(self).disconnects() == evict(old(self).disconnects(), now),
            final(self).facts() == (StatusFacts {
                too_many_disconnects: final(self).disconnects().len() >= 3,
                ..old(self).facts()
            }),
    {
        let ghost before = self.disconnect_tracker@;
        let n = self.disconnect_tracker.count();
        let ghost now = choose|now: u128|
            self.disconnect_tracker@ == evict(before, now) && n == self.disconnect_tracker@.len();
        let too_many = n >= 3;
        self.too_many_disconnects = too_many;
        assert(self.disconnects() == evict(old(self).disconnects(), now));
    }

    pub fn set_sigterm(&mut self)
        ensures
            final(self).facts() == (StatusFacts { sigterm: true, ..old(self).facts() }),
            final(self).disconnects() == old(self).disconnects(),
    {
        self.sigterm = true;
    }

    /// `None` until the ping check has run; then whether it passed, or the
    /// check object's failure flag.
    pub fn ipv4_supported(&self) -> (r: Option<bool>)
        ensures
            r == match self.facts().ping_test_failed {
                Some(f) => Some(!f || self.ping_failed_flag()),
                None => None,
            },
    {
        match self.ping_test_failed {
            Some(f) => Some(!f || self.ping_test.failed),
            None => None,
        }
    }
}

/// Once shutdown has begun the status is `sigterm`, whatever else holds.
pub proof fn law_sigterm_wins(f: StatusFacts)
    ensures
        status_spec(StatusFacts { sigterm: true, ..f }) == ProbeStatus::Sigterm,
{
}

/// The status is `ready` exactly when shutdown has not begun, both checks
/// have run and passed, and the disconnect limit is not reached.
pub proof fn law_ready_iff_all_pass(f: StatusFacts)
    ensures
        (status_spec(f) == ProbeStatus::Ready) <==> (!f.sigterm && f.ping_test_failed == Some(false)
            && f.icmp_tcp_test_failed == Some(false) && !f.too_many_disconnects),
{
    match (f.ping_test_failed, f.icmp_tcp_test_failed) {
        (Some(a), Some(b)) => {
            if a {
                assert(status_spec(f) != ProbeStatus::Ready || f.sigterm);
            }
        },
        _ => {},
    }
}

} // verus!
