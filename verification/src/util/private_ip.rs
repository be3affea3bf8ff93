//! Private and reserved address detection: every RFC-reserved IPv4 and IPv6
//! range, the probe's own local addresses, and IPv6 forms that embed an IPv4
//! address (IPv4-mapped and NAT64), which are judged by the embedded address.

use vstd::prelude::*;
use crate::util::ip::{parse_ip_spec, parse_ip_str, IpAddress};

verus! {

/// The reserved IPv4 ranges, as inclusive bounds of each CIDR block.
pub open spec fn in_private_v4(a: u32) -> bool {
    // 0.0.0.0/8
    (a <= 0x00FF_FFFF)
    // 10.0.0.0/8
    || (0x0A00_0000 <= a && a <= 0x0AFF_FFFF)
    // 100.64.0.0/10
    || (0x6440_0000 <= a && a <= 0x647F_FFFF)
    // 127.0.0.0/8
    || (0x7F00_0000 <= a && a <= 0x7FFF_FFFF)
    // 169.254.0.0/16
    || (0xA9FE_0000 <= a && a <= 0xA9FE_FFFF)
    // 172.16.0.0/12
    || (0xAC10_0000 <= a && a <= 0xAC1F_FFFF)
    // 192.0.0.0/24
    || (0xC000_0000 <= a && a <= 0xC000_00FF)
    // 192.0.2.0/24
    || (0xC000_0200 <= a && a <= 0xC000_02FF)
    // 192.88.99.0/24
    || (0xC058_6300 <= a && a <= 0xC058_63FF)
    // 192.168.0.0/16
    || (0xC0A8_0000 <= a && a <= 0xC0A8_FFFF)
    // 198.18.0.0/15
    || (0xC612_0000 <= a && a <= 0xC613_FFFF)
    // 198.51.100.0/24
    || (0xC633_6400 <= a && a <= 0xC633_64FF)
    // 203.0.113.0/24
    || (0xCB00_7100 <= a && a <= 0xCB00_71FF)
    // 224.0.0.0/4
    || (0xE000_0000 <= a && a <= 0xEFFF_FFFF)
    // 240.0.0.0/4
    || (0xF000_0000 <= a)
    // 255.255.255.255/32
    || (a == 0xFFFF_FFFF)
}

/// The reserved IPv6 ranges, as inclusive bounds of each CIDR block.
pub open spec fn in_private_v6(v: u128) -> bool {
    // ::/128
    (v == 0)
    // ::1/128
    || (v == 1)
    // 64:ff9b:1::/48
    || (0x0064_ff9b_0001_0000_0000_0000_0000_0000 <= v && v <= 0x0064_ff9b_0001_ffff_ffff_ffff_ffff_ffff)
    // 100::/64
    || (0x0100_0000_0000_0000_0000_0000_0000_0000 <= v && v <= 0x0100_0000_0000_0000_ffff_ffff_ffff_ffff)
    // 2001::/32
    || (0x2001_0000_0000_0000_0000_0000_0000_0000 <= v && v <= 0x2001_0000_ffff_ffff_ffff_ffff_ffff_ffff)
    // 2001:10::/28
    || (0x2001_0010_0000_0000_0000_0000_0000_0000 <= v && v <= 0x2001_001f_ffff_ffff_ffff_ffff_ffff_ffff)
    // 2001:20::/28
    || (0x2001_0020_0000_0000_0000_0000_0000_0000 <= v && v <= 0x2001_002f_ffff_ffff_ffff_ffff_ffff_ffff)
    // 2001:db8::/32
    || (0x2001_0db8_0000_0000_0000_0000_0000_0000 <= v && v <= 0x2001_0db8_ffff_ffff_ffff_ffff_ffff_ffff)
    // 2002::/16
    || (0x2002_0000_0000_0000_0000_0000_0000_0000 <= v && v <= 0x2002_ffff_ffff_ffff_ffff_ffff_ffff_ffff)
    // fc00::/7
    || (0xfc00_0000_0000_0000_0000_0000_0000_0000 <= v && v <= 0xfdff_ffff_ffff_ffff_ffff_ffff_ffff_ffff)
    // fe80::/10
    || (0xfe80_0000_0000_0000_0000_0000_0000_0000 <= v && v <= 0xfebf_ffff_ffff_ffff_ffff_ffff_ffff_ffff)
    // ff00::/8
    || (0xff00_0000_0000_0000_0000_0000_0000_0000 <= v)
}

/// Start of `::ffff:0:0/96`, the IPv4-mapped IPv6 block.
pub open spec fn v4_mapped_base() -> u128 {
    0x0000_0000_0000_0000_0000_ffff_0000_0000
}

/// Start of `64:ff9b::/96`, the NAT64 well-known prefix.
pub open spec fn nat64_base() -> u128 {
    0x0064_ff9b_0000_0000_0000_0000_0000_0000
}

/// The address a packet actually goes to: IPv6 forms that embed an IPv4
/// address (IPv4-mapped, NAT64) become that IPv4 address; others are unchanged.
pub open spec fn canonical(ip: IpAddress) -> IpAddress {
    match ip {
        IpAddress::V4(_) => ip,
        IpAddress::V6(v) => if v4_mapped_base() <= v && v <= v4_mapped_base() + 0xffff_ffff {
            IpAddress::V4((v - v4_mapped_base()) as u32)
        } else if nat64_base() <= v && v <= nat64_base() + 0xffff_ffff {
            IpAddress::V4((v - nat64_base()) as u32)
        } else {
            ip
        },
    }
}

/// `ip` is one of the probe's own addresses or in a reserved range, judged
/// after `canonical`.
pub open spec fn is_ip_private_spec(ip: IpAddress, local_ips: Seq<IpAddress>) -> bool {
    let c = canonical(ip);
    local_ips.contains(c) || match c {
        IpAddress::V4(a) => in_private_v4(a),
        IpAddress::V6(v) => in_private_v6(v),
    }
}

/// Collapses IPv6 addresses that embed an IPv4 address to that IPv4 address.
pub fn canonicalize(ip: IpAddress) -> (r: IpAddress)
    ensures
        r == canonical(ip),
{
    match ip {
        IpAddress::V4(_) => ip,
        IpAddress::V6(v) => {
            if 0x0000_0000_0000_0000_0000_ffff_0000_0000 <= v && v
                <= 0x0000_0000_0000_0000_0000_ffff_ffff_ffff {
                IpAddress::V4((v - 0x0000_0000_0000_0000_0000_ffff_0000_0000) as u32)
            } else if 0x0064_ff9b_0000_0000_0000_0000_0000_0000 <= v && v
                <= 0x0064_ff9b_0000_0000_0000_0000_ffff_ffff {
                IpAddress::V4((v - 0x0064_ff9b_0000_0000_0000_0000_0000_0000) as u32)
            } else {
                ip
            }
        },
    }
}

fn in_private_v4_exec(a: u32) -> (b: bool)
    ensures
        b == in_private_v4(a),
{
    (a <= 0x00FF_FFFF) || (0x0A00_0000 <= a && a <= 0x0AFF_FFFF) || (0x6440_0000 <= a && a
        <= 0x647F_FFFF) || (0x7F00_0000 <= a && a <= 0x7FFF_FFFF) || (0xA9FE_0000 <= a && a
        <= 0xA9FE_FFFF) || (0xAC10_0000 <= a && a <= 0xAC1F_FFFF) || (0xC000_0000 <= a && a
        <= 0xC000_00FF) || (0xC000_0200 <= a && a <= 0xC000_02FF) || (0xC058_6300 <= a && a
        <= 0xC058_63FF) || (0xC0A8_0000 <= a && a <= 0xC0A8_FFFF) || (0xC612_0000 <= a && a
        <= 0xC613_FFFF) || (0xC633_6400 <= a && a <= 0xC633_64FF) || (0xCB00_7100 <= a && a
        <= 0xCB00_71FF) || (0xE000_0000 <= a && a <= 0xEFFF_FFFF) || (0xF000_0000 <= a) || (a
        == 0xFFFF_FFFF)
}

fn in_private_v6_exec(v: u128) -> (b: bool)
    ensures
        b == in_private_v6(v),
{
    (v == 0) || (v == 1) || (0x0064_ff9b_0001_0000_0000_0000_0000_0000 <= v && v
        <= 0x0064_ff9b_0001_ffff_ffff_ffff_ffff_ffff) || (0x0100_0000_0000_0000_0000_0000_0000_0000
        <= v && v <= 0x0100_0000_0000_0000_ffff_ffff_ffff_ffff) || (
    0x2001_0000_0000_0000_0000_0000_0000_0000 <= v && v
        <= 0x2001_0000_ffff_ffff_ffff_ffff_ffff_ffff) || (0x2001_0010_0000_0000_0000_0000_0000_0000
        <= v && v <= 0x2001_001f_ffff_ffff_ffff_ffff_ffff_ffff) || (
    0x2001_0020_0000_0000_0000_0000_0000_0000 <= v && v
        <= 0x2001_002f_ffff_ffff_ffff_ffff_ffff_ffff) || (0x2001_0db8_0000_0000_0000_0000_0000_0000
        <= v && v <= 0x2001_0db8_ffff_ffff_ffff_ffff_ffff_ffff) || (
    0x2002_0000_0000_0000_0000_0000_0000_0000 <= v && v
        <= 0x2002_ffff_ffff_ffff_ffff_ffff_ffff_ffff) || (0xfc00_0000_0000_0000_0000_0000_0000_0000
        <= v && v <= 0xfdff_ffff_ffff_ffff_ffff_ffff_ffff_ffff) || (
    0xfe80_0000_0000_0000_0000_0000_0000_0000 <= v && v
        <= 0xfebf_ffff_ffff_ffff_ffff_ffff_ffff_ffff) || (0xff00_0000_0000_0000_0000_0000_0000_0000
        <= v)
}

/// Whether `ip` must not be measured: it is one of `local_ips` (the probe's
/// own addresses) or lies in a reserved range, after `canonicalize`.
pub fn is_ip_private(ip: IpAddress, local_ips: &[IpAddress]) -> (b: bool)
    ensures
        b == is_ip_private_spec(ip, local_ips@),
{
    let c = canonicalize(ip);
    let mut i: usize = 0;
    while i < local_ips.len()
        invariant
            i <= local_ips@.len(),
            c == canonical(ip),
            forall|j: int| 0 <= j < i ==> local_ips@[j] != c,
        decreases local_ips.len() - i,
    {
        if local_ips[i] == c {
            assert(local_ips@[i as int] == c);
            assert(local_ips@.contains(c));
            assert(is_ip_private_spec(ip, local_ips@));
            return true;
        }
        i = i + 1;
    }
    match c {
        IpAddress::V4(a) => in_private_v4_exec(a),
        IpAddress::V6(v) => in_private_v6_exec(v),
    }
}

/// An IPv4-mapped IPv6 address (`::ffff:a.b.c.d`) is private exactly when
/// the IPv4 address it carries is.
pub proof fn law_v4_mapped_judged_as_v4(a: u32, local_ips: Seq<IpAddress>)
    ensures
        is_ip_private_spec(IpAddress::V6((v4_mapped_base() + a) as u128), local_ips)
            == is_ip_private_spec(IpAddress::V4(a), local_ips),
{
    assert(canonical(IpAddress::V6((v4_mapped_base() + a) as u128)) == IpAddress::V4(a));
}

/// A NAT64 address (`64:ff9b::a.b.c.d`) is private exactly when the IPv4
/// address it carries is.
pub proof fn law_nat64_judged_as_v4(a: u32, local_ips: Seq<IpAddress>)
    ensures
        is_ip_private_spec(IpAddress::V6((nat64_base() + a) as u128), local_ips)
            == is_ip_private_spec(IpAddress::V4(a), local_ips),
{
    assert(canonical(IpAddress::V6((nat64_base() + a) as u128)) == IpAddress::V4(a));
}


/// Whether `s` is an IP literal (`str::parse::<IpAddr>`) that is private.
pub open spec fn private_literal(s: Seq<char>, local_ips: Seq<IpAddress>) -> bool {
    match parse_ip_spec(s) {
        Some(ip) => is_ip_private_spec(ip, local_ips),
        None => false,
    }
}

pub fn is_private_literal(s: &str, local_ips: &[IpAddress]) -> (b: bool)
    ensures
        b == private_literal(s@, local_ips@),
{
    match parse_ip_str(s) {
        Some(ip) => is_ip_private(ip, local_ips),
        None => false,
    }
}

} // verus!
