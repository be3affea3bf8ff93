//! Traceroute measurements: options, their checks, and the argument list.

pub mod parse;

use vstd::prelude::*;
use crate::command::dns::{push_str_arg, string_views};
use crate::text::{
    concat_str, decimal, str_is, to_lowercase, to_uppercase, u64_to_string, unicode_lowercase,
    unicode_uppercase,
};
use crate::util::ip::IpAddress;
use crate::util::private_ip::{is_private_literal, private_literal};

verus! {

#[derive(Debug, Clone)]
pub struct TracerouteOptions {
    pub target: String,
    pub protocol: String,
    pub port: u16,
    pub ip_version: u8,
    pub in_progress_updates: bool,
}

/// Runs a traceroute measurement; the runner itself lives with the process
/// plumbing.
pub struct TracerouteCommand;

pub fn default_protocol() -> (r: String)
    ensures
        r@ == "ICMP"@,
{
    "ICMP".to_string()
}

pub fn default_port() -> (r: u16)
    ensures
        r == 80,
{
    80
}

pub fn default_ip_version() -> (r: u8)
    ensures
        r == 4,
{
    4
}

/// Why a traceroute measurement was refused.
#[derive(Debug, Clone, Copy, PartialEq, Eq, Structural)]
pub enum TracerouteError {
    BadIpVersion,
    BadProtocol,
    PrivateTarget,
}

pub open spec fn traceroute_error_message(e: TracerouteError) -> Seq<char> {
    match e {
        TracerouteError::BadIpVersion => "ipVersion must be 4 or 6"@,
        TracerouteError::BadProtocol => "protocol must be ICMP, TCP, or UDP"@,
        TracerouteError::PrivateTarget => "Private IP ranges are not allowed"@,
    }
}

impl TracerouteError {
    /// The message reported to the API.
    pub fn message(&self) -> (r: String)
        ensures
            r@ == traceroute_error_message(*self),
    {
        match self {
            TracerouteError::BadIpVersion => "ipVersion must be 4 or 6".to_string(),
            TracerouteError::BadProtocol => "protocol must be ICMP, TCP, or UDP".to_string(),
            TracerouteError::PrivateTarget => "Private IP ranges are not allowed".to_string(),
        }
    }
}

/// ICMP, TCP or UDP after Unicode uppercasing.
pub open spec fn known_protocol(protocol: Seq<char>) -> bool {
    let p = unicode_uppercase(protocol);
    p == "ICMP"@ || p == "TCP"@ || p == "UDP"@
}

pub fn is_known_protocol(protocol: &str) -> (b: bool)
    ensures
        b == known_protocol(protocol@),
{
    let p = to_uppercase(protocol);
    str_is(p.as_str(), "ICMP") || str_is(p.as_str(), "TCP") || str_is(p.as_str(), "UDP")
}

/// The first check that fails: IP version, protocol, private IP target.
pub open spec fn traceroute_check(opts: TracerouteOptions, local_ips: Seq<IpAddress>) -> Option<
    TracerouteError,
> {
    if opts.ip_version != 4 && opts.ip_version != 6 {
        Some(TracerouteError::BadIpVersion)
    } else if !known_protocol(opts.protocol@) {
        Some(TracerouteError::BadProtocol)
    } else if private_literal(opts.target@, local_ips) {
        Some(TracerouteError::PrivateTarget)
    } else {
        None
    }
}

/// Checks traceroute options. `local_ips` are this machine's own addresses,
/// which count as private.
pub fn validate(opts: &TracerouteOptions, local_ips: &[IpAddress]) -> (r: Result<(), TracerouteError>)
    ensures
        match traceroute_check(*opts, local_ips@) {
            None => r is Ok,
            Some(e) => r == Err::<(), TracerouteError>(e),
        },
{
    if opts.ip_version != 4 && opts.ip_version != 6 {
        return Err(TracerouteError::BadIpVersion);
    }
    if !is_known_protocol(opts.protocol.as_str()) {
        return Err(TracerouteError::BadProtocol);
    }
    if is_private_literal(opts.target.as_str(), local_ips) {
        return Err(TracerouteError::PrivateTarget);
    }
    Ok(())
}

/// `-4|-6 -m 20 -w 2 -q 2 -N 20 --<protocol lowercased>`, then `-p PORT`
/// for TCP, then the target.
pub open spec fn traceroute_args_spec(opts: TracerouteOptions) -> Seq<Seq<char>> {
    let a = seq![
        "-"@ + decimal(opts.ip_version as nat),
        "-m"@,
        "20"@,
        "-w"@,
        "2"@,
        "-q"@,
        "2"@,
        "-N"@,
        "20"@,
        "--"@ + unicode_lowercase(opts.protocol@),
    ];
    let b = if unicode_uppercase(opts.protocol@) == "TCP"@ {
        a + seq!["-p"@, decimal(opts.port as nat)]
    } else {
        a
    };
    b.push(opts.target@)
}

pub fn build_args(opts: &TracerouteOptions) -> (r: Vec<String>)
    ensures
        string_views(r@) == traceroute_args_spec(*opts),
{
    let mut args: Vec<String> = Vec::new();
    let v = u64_to_string(opts.ip_version as u64);
    push_str_arg(&mut args, concat_str("-", v.as_str()));
    push_str_arg(&mut args, "-m".to_string());
    push_str_arg(&mut args, "20".to_string());
    push_str_arg(&mut args, "-w".to_string());
    push_str_arg(&mut args, "2".to_string());
    push_str_arg(&mut args, "-q".to_string());
    push_str_arg(&mut args, "2".to_string());
    push_str_arg(&mut args, "-N".to_string());
    push_str_arg(&mut args, "20".to_string());
    let lower = to_lowercase(opts.protocol.as_str());
    push_str_arg(&mut args, concat_str("--", lower.as_str()));
    let upper = to_uppercase(opts.protocol.as_str());
    if str_is(upper.as_str(), "TCP") {
        push_str_arg(&mut args, "-p".to_string());
        push_str_arg(&mut args, u64_to_string(opts.port as u64));
    }
    push_str_arg(&mut args, opts.target.clone());
    let ghost want = traceroute_args_spec(*opts);
    assert(string_views(args@) =~= want);
    args
}

} // verus!
