//! DNS measurements with `dig`: options, their checks, and the argument list.

pub mod parse;

use vstd::prelude::*;
use crate::text::{
    chars_of, concat_str, decimal, eq_ignore_ascii_case, eq_ignore_ascii_case_exec, str_is,
    u64_to_string,
};
use crate::util::ip::{parse_ip_spec, parse_ip_str, IpAddress};
use crate::util::private_ip::{is_ip_private, is_ip_private_spec};
use crate::util::validate::{is_safe_host, is_safe_host_spec};

verus! {

// ── Options ───────────────────────────────────────────────────────────────────

#[derive(Debug, Clone)]
pub struct DnsOptions {
    pub target: String,
    pub protocol: String,
    pub port: u16,
    pub resolver: Option<String>,
    pub trace: bool,
    pub query: QueryOptions,
    pub ip_version: u8,
    pub in_progress_updates: bool,
}

#[derive(Debug, Clone)]
pub struct QueryOptions {
    pub record_type: String,
}

/// Runs a DNS measurement; the runner itself lives with the process plumbing.
pub struct DnsCommand;

pub fn default_protocol() -> (r: String)
    ensures
        r@ == "UDP"@,
{
    "UDP".to_string()
}

pub fn default_port() -> (r: u16)
    ensures
        r == 53,
{
    53
}

pub fn default_ip_version() -> (r: u8)
    ensures
        r == 4,
{
    4
}

pub fn default_query_type() -> (r: String)
    ensures
        r@ == "A"@,
{
    "A".to_string()
}

impl Default for QueryOptions {
    fn default() -> (r: Self)
        ensures
            r.record_type@ == "A"@,
    {
        QueryOptions { record_type: default_query_type() }
    }
}

// ── Validation ────────────────────────────────────────────────────────────────

/// Why a DNS measurement was refused.
#[derive(Debug, Clone, PartialEq, Eq)]
pub enum DnsError {
    UnsupportedType(String),
    BadProtocol,
    BadIpVersion,
    InvalidTarget,
    InvalidResolver,
    PrivateResolver,
}

impl DnsError {
    /// The message reported to the API.
    pub fn message(&self) -> (r: String)
        ensures
            r@ == dns_error_message(*self),
    {
        match self {
            DnsError::UnsupportedType(t) => concat_str("unsupported query type: ", t.as_str()),
            DnsError::BadProtocol => "protocol must be UDP or TCP".to_string(),
            DnsError::BadIpVersion => "ipVersion must be 4 or 6".to_string(),
            DnsError::InvalidTarget => "Invalid target.".to_string(),
            DnsError::InvalidResolver => "Invalid resolver.".to_string(),
            DnsError::PrivateResolver => "Private IP ranges are not allowed.".to_string(),
        }
    }
}

pub open spec fn dns_error_message(e: DnsError) -> Seq<char> {
    match e {
        DnsError::UnsupportedType(t) => "unsupported query type: "@ + t@,
        DnsError::BadProtocol => "protocol must be UDP or TCP"@,
        DnsError::BadIpVersion => "ipVersion must be 4 or 6"@,
        DnsError::InvalidTarget => "Invalid target."@,
        DnsError::InvalidResolver => "Invalid resolver."@,
        DnsError::PrivateResolver => "Private IP ranges are not allowed."@,
    }
}

/// The record types `dig` may be asked for.
pub open spec fn is_allowed_type(t: Seq<char>) -> bool {
    ||| t == "A"@
    ||| t == "AAAA"@
    ||| t == "ANY"@
    ||| t == "CNAME"@
    ||| t == "DNSKEY"@
    ||| t == "DS"@
    ||| t == "HTTPS"@
    ||| t == "MX"@
    ||| t == "NS"@
    ||| t == "NSEC"@
    ||| t == "PTR"@
    ||| t == "RRSIG"@
    ||| t == "SOA"@
    ||| t == "TXT"@
    ||| t == "SRV"@
    ||| t == "SVCB"@
}

pub fn allowed_type(t: &str) -> (b: bool)
    ensures
        b == is_allowed_type(t@),
{
    str_is(t, "A") || str_is(t, "AAAA") || str_is(t, "ANY") || str_is(t, "CNAME") || str_is(
        t,
        "DNSKEY",
    ) || str_is(t, "DS") || str_is(t, "HTTPS") || str_is(t, "MX") || str_is(t, "NS") || str_is(
        t,
        "NSEC",
    ) || str_is(t, "PTR") || str_is(t, "RRSIG") || str_is(t, "SOA") || str_is(t, "TXT") || str_is(
        t,
        "SRV",
    ) || str_is(t, "SVCB")
}

/// The first check that `opts` fails, in the order: record type, protocol
/// (UDP or TCP, any case), IP version, target, resolver (a safe host that is
/// not a private address).
pub open spec fn dns_check(
    record_type: Seq<char>,
    protocol: Seq<char>,
    ip_version: u8,
    target: Seq<char>,
    resolver: Option<Seq<char>>,
    local_ips: Seq<IpAddress>,
) -> Option<DnsError> {
    if !is_allowed_type(record_type) {
        Some(DnsError::UnsupportedType(arbitrary()))
    } else if !(eq_ignore_ascii_case("UDP"@, protocol) || eq_ignore_ascii_case("TCP"@, protocol)) {
        Some(DnsError::BadProtocol)
    } else if ip_version != 4 && ip_version != 6 {
        Some(DnsError::BadIpVersion)
    } else if !is_safe_host_spec(target) {
        Some(DnsError::InvalidTarget)
    } else {
        match resolver {
            None => None,
            Some(r) => if !is_safe_host_spec(r) {
                Some(DnsError::InvalidResolver)
            } else {
                match parse_ip_spec(r) {
                    Some(ip) => if is_ip_private_spec(ip, local_ips) {
                        Some(DnsError::PrivateResolver)
                    } else {
                        None
                    },
                    None => None,
                }
            },
        }
    }
}

pub open spec fn opt_string_view(o: Option<String>) -> Option<Seq<char>> {
    match o {
        Some(s) => Some(s@),
        None => None,
    }
}

/// Same variant, with the record type carried for an unsupported type.
pub open spec fn same_error(e: DnsError, expected: DnsError, record_type: Seq<char>) -> bool {
    match expected {
        DnsError::UnsupportedType(_) => e matches DnsError::UnsupportedType(t) && t@ == record_type,
        _ => e == expected,
    }
}

/// Checks DNS options before `dig` is run. `local_ips` are this machine's
/// own addresses, which count as private.
pub fn validate(opts: &DnsOptions, local_ips: &[IpAddress]) -> (r: Result<(), DnsError>)
    ensures
        match dns_check(
            opts.query.record_type@,
            opts.protocol@,
            opts.ip_version,
            opts.target@,
            opt_string_view(opts.resolver),
            local_ips@,
        ) {
            None => r is Ok,
            Some(expected) => r matches Err(e) && same_error(e, expected, opts.query.record_type@),
        },
{
    if !allowed_type(opts.query.record_type.as_str()) {
        return Err(DnsError::UnsupportedType(opts.query.record_type.clone()));
    }
    let p = chars_of(opts.protocol.as_str());
    let udp = chars_of("UDP");
    let tcp = chars_of("TCP");
    if !(eq_ignore_ascii_case_exec(udp.as_slice(), p.as_slice()) || eq_ignore_ascii_case_exec(
        tcp.as_slice(),
        p.as_slice(),
    )) {
        return Err(DnsError::BadProtocol);
    }
    if opts.ip_version != 4 && opts.ip_version != 6 {
        return Err(DnsError::BadIpVersion);
    }
    if !is_safe_host(opts.target.as_str()) {
        return Err(DnsError::InvalidTarget);
    }
    match &opts.resolver {
        None => Ok(()),
        Some(resolver) => {
            if !is_safe_host(resolver.as_str()) {
                return Err(DnsError::InvalidResolver);
            }
            match parse_ip_str(resolver.as_str()) {
                Some(ip) => if is_ip_private(ip, local_ips) {
                    Err(DnsError::PrivateResolver)
                } else {
                    Ok(())
                },
                None => Ok(()),
            }
        },
    }
}

// ── Arguments ─────────────────────────────────────────────────────────────────

/// `dig` arguments: `-x` for PTR or `-t TYPE`, the target, `@resolver`,
/// the port, the IP version, fixed timeouts and flags, then `+trace` and
/// `+tcp` where asked for.
pub open spec fn dns_args_spec(
    record_type: Seq<char>,
    target: Seq<char>,
    resolver: Option<Seq<char>>,
    port: u16,
    ip_version: u8,
    trace: bool,
    protocol: Seq<char>,
) -> Seq<Seq<char>> {
    let a = if record_type == "PTR"@ {
        seq!["-x"@]
    } else {
        seq!["-t"@, record_type]
    };
    let b = a.push(target);
    let c = match resolver {
        Some(r) => b.push("@"@ + r),
        None => b,
    };
    let d = c + seq![
        "-p"@,
        decimal(port as nat),
        "-"@ + decimal(ip_version as nat),
        "+timeout=3"@,
        "+tries=2"@,
        "+nocookie"@,
        "+nosplit"@,
        "+nsid"@,
    ];
    let e = if trace {
        d.push("+trace"@)
    } else {
        d
    };
    if eq_ignore_ascii_case(protocol, "tcp"@) {
        e.push("+tcp"@)
    } else {
        e
    }
}

pub open spec fn string_views(v: Seq<String>) -> Seq<Seq<char>> {
    v.map_values(|s: String| s@)
}

pub fn push_str_arg(args: &mut Vec<String>, s: String)
    ensures
        string_views(final(args)@) == string_views(old(args)@).push(s@),
{
    let ghost prev = args@;
    args.push(s);
    assert(string_views(args@) =~= string_views(prev).push(s@));
}

pub fn build_args(opts: &DnsOptions) -> (r: Vec<String>)
    ensures
        string_views(r@) == dns_args_spec(
            opts.query.record_type@,
            opts.target@,
            opt_string_view(opts.resolver),
            opts.port,
            opts.ip_version,
            opts.trace,
            opts.protocol@,
        ),
{
    let mut args: Vec<String> = Vec::new();
    if str_is(opts.query.record_type.as_str(), "PTR") {
        push_str_arg(&mut args, "-x".to_string());
    } else {
        push_str_arg(&mut args, "-t".to_string());
        push_str_arg(&mut args, opts.query.record_type.clone());
    }
    push_str_arg(&mut args, opts.target.clone());
    match &opts.resolver {
        Some(r) => push_str_arg(&mut args, concat_str("@", r.as_str())),
        None => {},
    }
    push_str_arg(&mut args, "-p".to_string());
    push_str_arg(&mut args, u64_to_string(opts.port as u64));
    let v = u64_to_string(opts.ip_version as u64);
    push_str_arg(&mut args, concat_str("-", v.as_str()));
    push_str_arg(&mut args, "+timeout=3".to_string());
    push_str_arg(&mut args, "+tries=2".to_string());
    push_str_arg(&mut args, "+nocookie".to_string());
    push_str_arg(&mut args, "+nosplit".to_string());
    push_str_arg(&mut args, "+nsid".to_string());
    if opts.trace {
        push_str_arg(&mut args, "+trace".to_string());
    }
    let p = chars_of(opts.protocol.as_str());
    let tcp = chars_of("tcp");
    if eq_ignore_ascii_case_exec(p.as_slice(), tcp.as_slice()) {
        push_str_arg(&mut args, "+tcp".to_string());
    }
    let ghost want = dns_args_spec(
        opts.query.record_type@,
        opts.target@,
        opt_string_view(opts.resolver),
        opts.port,
        opts.ip_version,
        opts.trace,
        opts.protocol@,
    );
    assert(string_views(args@) =~= want);
    args
}

} // verus!
