//! VPN/proxy detection from the gap between ICMP and TCP round-trip times.
//!
//! Each measured gap (ICMP average minus TCP average, in milliseconds) is
//! graded against the two thresholds, 60 ms and 100 ms, where it is
//! measured; the decision below works on the grades.

use vstd::prelude::*;

verus! {

/// How a measured ICMP−TCP gap compares with the thresholds.
#[derive(Debug, Clone, Copy, PartialEq, Eq, Structural)]
pub enum DiffLevel {
    /// Below 60 ms (or not comparable).
    Small,
    /// At least 60 ms and below 100 ms.
    Medium,
    /// At least 100 ms.
    High,
}

pub open spec fn count_high(d: Seq<Option<DiffLevel>>) -> nat
    decreases d.len(),
{
    if d.len() == 0 {
        0
    } else {
        count_high(d.drop_last()) + if d.last() == Some(DiffLevel::High) {
            1nat
        } else {
            0nat
        }
    }
}

/// Gaps of at least 60 ms (Medium or High).
pub open spec fn count_med(d: Seq<Option<DiffLevel>>) -> nat
    decreases d.len(),
{
    if d.len() == 0 {
        0
    } else {
        count_med(d.drop_last()) + if d.last() == Some(DiffLevel::High) || d.last() == Some(
            DiffLevel::Medium,
        ) {
            1nat
        } else {
            0nat
        }
    }
}

/// A VPN is assumed on one gap of 100 ms or more, on two of 60 ms or more,
/// or on one of 60 ms or more when the API says the address is a proxy.
/// Missing measurements count as passes.
pub open spec fn is_vpn_spec(d: Seq<Option<DiffLevel>>, is_proxy: Option<bool>) -> bool {
    count_high(d) >= 1 || count_med(d) >= 2 || (count_med(d) >= 1 && is_proxy == Some(true))
}

/// Returns true if the diffs indicate a VPN/proxy setup.
/// null diffs (error cases) are treated as pass (conservative).
pub fn is_vpn(diffs: &[Option<DiffLevel>], is_proxy: Option<bool>) -> (r: bool)
    ensures
        r == is_vpn_spec(diffs@, is_proxy),
{
    let mut high: usize = 0;
    let mut med: usize = 0;
    let mut i: usize = 0;
    assert(diffs@.take(0) =~= Seq::<Option<DiffLevel>>::empty());
    while i < diffs.len()
        invariant
            i <= diffs@.len(),
            high == count_high(diffs@.take(i as int)),
            med == count_med(diffs@.take(i as int)),
            high <= i,
            med <= i,
        decreases diffs.len() - i,
    {
        assert(diffs@.take(i + 1).drop_last() =~= diffs@.take(i as int));
        match diffs[i] {
            Some(DiffLevel::High) => {
                high = high + 1;
                med = med + 1;
            },
            Some(DiffLevel::Medium) => {
                med = med + 1;
            },
            _ => {},
        }
        i = i + 1;
    }
    assert(diffs@.take(diffs@.len() as int) =~= diffs@);
    if high >= 1 {
        return true;
    }
    if med >= 2 {
        return true;
    }
    if med >= 1 && is_proxy == Some(true) {
        return true;
    }
    false
}

pub struct IcmpTcpTest {
    pub failed: bool,
    pub is_proxy: Option<bool>,
    pub diffs_v4: Vec<Option<DiffLevel>>,
    pub diffs_v6: Vec<Option<DiffLevel>>,
}

pub open spec fn vpn_detected_spec(t: &IcmpTcpTest) -> bool {
    is_vpn_spec(t.diffs_v4@, t.is_proxy) || is_vpn_spec(t.diffs_v6@, t.is_proxy)
}

impl IcmpTcpTest {
    pub fn new() -> (r: Self)
        ensures
            !r.failed,
            r.is_proxy is None,
            r.diffs_v4@.len() == 0,
            r.diffs_v6@.len() == 0,
    {
        IcmpTcpTest { failed: false, is_proxy: None, diffs_v4: Vec::new(), diffs_v6: Vec::new() }
    }

    /// Called when the API sends the `isProxy` flag via socket.
    /// Re-evaluates VPN detection against already-measured diffs.
    pub fn set_proxy_and_evaluate(&mut self, is_proxy: bool) -> (r: bool)
        ensures
            final(self).is_proxy == Some(is_proxy),
            final(self).diffs_v4@ == old(self).diffs_v4@,
            final(self).diffs_v6@ == old(self).diffs_v6@,
            r == vpn_detected_spec(final(self)),
            final(self).failed == r,
    {
        self.is_proxy = Some(is_proxy);
        self.failed = self.is_vpn_detected();
        self.failed
    }

    pub fn set_is_proxy(&mut self, is_proxy: bool)
        ensures
            final(self).is_proxy == Some(is_proxy),
            final(self).failed == old(self).failed,
            final(self).diffs_v4@ == old(self).diffs_v4@,
            final(self).diffs_v6@ == old(self).diffs_v6@,
    {
        self.is_proxy = Some(is_proxy);
    }

    /// Stores freshly measured gaps and decides; `true` if a VPN is detected.
    pub fn record_diffs(&mut self, diffs_v4: Vec<Option<DiffLevel>>, diffs_v6: Vec<Option<DiffLevel>>) -> (r: bool)
        ensures
            final(self).diffs_v4@ == diffs_v4@,
            final(self).diffs_v6@ == diffs_v6@,
            final(self).is_proxy == old(self).is_proxy,
            r == vpn_detected_spec(final(self)),
            final(self).failed == r,
    {
        self.diffs_v4 = diffs_v4;
        self.diffs_v6 = diffs_v6;
        self.failed = self.is_vpn_detected();
        self.failed
    }

    pub fn is_vpn_detected(&self) -> (r: bool)
        ensures
            r == vpn_detected_spec(self),
    {
        is_vpn(self.diffs_v4.as_slice(), self.is_proxy) || is_vpn(self.diffs_v6.as_slice(), self.is_proxy)
    }

    pub fn diffs_v4(&self) -> (r: &[Option<DiffLevel>])
        ensures
            r@ == self.diffs_v4@,
    {
        self.diffs_v4.as_slice()
    }

    pub fn diffs_v6(&self) -> (r: &[Option<DiffLevel>])
        ensures
            r@ == self.diffs_v6@,
    {
        self.diffs_v6.as_slice()
    }
}

} // verus!
