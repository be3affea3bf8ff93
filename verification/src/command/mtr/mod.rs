//! MTR measurements: options, their checks, and the `mtr` argument list.

pub mod parse;
pub mod report;
pub mod asn;

use vstd::prelude::*;
use crate::command::dns::{push_str_arg, string_views};
use crate::command::traceroute::{is_known_protocol, known_protocol};
use crate::text::{concat_str, decimal, str_is, to_uppercase, u64_to_string, unicode_uppercase};
use crate::util::ip::IpAddress;
use crate::util::private_ip::{is_private_literal, private_literal};

verus! {

#[derive(Debug, Clone)]
pub struct MtrOptions {
    pub target: String,
    pub protocol: String,
    pub port: u16,
    pub packets: u8,
    pub ip_version: u8,
    pub in_progress_updates: bool,
}

/// Runs an MTR measurement; the runner itself lives with the process plumbing.
pub struct MtrCommand;

pub fn default_protocol() -> (r: String)
    ensures
        r@ == "ICMP"@,
{
    "ICMP".to_string()
}

pub fn default_port() -> (r: u16)
    ensures
        r == 80,
{
    80
}

pub fn default_packets() -> (r: u8)
    ensures
        r == 3,
{
    3
}

pub fn default_ip_version() -> (r: u8)
    ensures
        r == 4,
{
    4
}

/// Why an MTR measurement was refused.
#[derive(Debug, Clone, Copy, PartialEq, Eq, Structural)]
pub enum MtrError {
    BadIpVersion,
    BadProtocol,
    BadPackets,
    PrivateTarget,
}

pub open spec fn mtr_error_message(e: MtrError) -> Seq<char> {
    match e {
        MtrError::BadIpVersion => "ipVersion must be 4 or 6"@,
        MtrError::BadProtocol => "protocol must be ICMP, TCP, or UDP"@,
        MtrError::BadPackets => "packets must be between 1 and 16"@,
        MtrError::PrivateTarget => "Private IP ranges are not allowed"@,
    }
}

impl MtrError {
    /// The message reported to the API.
    pub fn message(&self) -> (r: String)
        ensures
            r@ == mtr_error_message(*self),
    {
        match self {
            MtrError::BadIpVersion => "ipVersion must be 4 or 6".to_string(),
            MtrError::BadProtocol => "protocol must be ICMP, TCP, or UDP".to_string(),
            MtrError::BadPackets => "packets must be between 1 and 16".to_string(),
            MtrError::PrivateTarget => "Private IP ranges are not allowed".to_string(),
        }
    }
}

/// The first check that fails: IP version, protocol, 1 to 16 packets,
/// private IP target.
pub open spec fn mtr_check(opts: MtrOptions, local_ips: Seq<IpAddress>) -> Option<MtrError> {
    if opts.ip_version != 4 && opts.ip_version != 6 {
        Some(MtrError::BadIpVersion)
    } else if !known_protocol(opts.protocol@) {
        Some(MtrError::BadProtocol)
    } else if opts.packets == 0 || opts.packets > 16 {
        Some(MtrError::BadPackets)
    } else if private_literal(opts.target@, local_ips) {
        Some(MtrError::PrivateTarget)
    } else {
        None
    }
}

/// Checks MTR options. `local_ips` are this machine's own addresses, which
/// count as private.
pub fn validate(opts: &MtrOptions, local_ips: &[IpAddress]) -> (r: Result<(), MtrError>)
    ensures
        match mtr_check(*opts, local_ips@) {
            None => r is Ok,
            Some(e) => r == Err::<(), MtrError>(e),
        },
{
    if opts.ip_version != 4 && opts.ip_version != 6 {
        return Err(MtrError::BadIpVersion);
    }
    if !is_known_protocol(opts.protocol.as_str()) {
        return Err(MtrError::BadProtocol);
    }
    if opts.packets == 0 || opts.packets > 16 {
        return Err(MtrError::BadPackets);
    }
    if is_private_literal(opts.target.as_str(), local_ips) {
        return Err(MtrError::PrivateTarget);
    }
    Ok(())
}

/// `-4|-6 --interval 1.0 --gracetime 3 --max-ttl 30 --timeout 15`, then
/// `--tcp` or `--udp` (ICMP is mtr's default), `-c N --raw -P PORT target`.
pub open spec fn mtr_args_spec(opts: MtrOptions) -> Seq<Seq<char>> {
    let a = seq![
        "-"@ + decimal(opts.ip_version as nat),
        "--interval"@,
        "1.0"@,
        "--gracetime"@,
        "3"@,
        "--max-ttl"@,
        "30"@,
        "--timeout"@,
        "15"@,
    ];
    let p = unicode_uppercase(opts.protocol@);
    let b = if p == "TCP"@ {
        a.push("--tcp"@)
    } else if p == "UDP"@ {
        a.push("--udp"@)
    } else {
        a
    };
    b + seq!["-c"@, decimal(opts.packets as nat), "--raw"@, "-P"@, decimal(opts.port as nat), opts.target@]
}

pub fn build_args(opts: &MtrOptions) -> (r: Vec<String>)
    ensures
        string_views(r@) == mtr_args_spec(*opts),
{
    let mut args: Vec<String> = Vec::new();
    let v = u64_to_string(opts.ip_version as u64);
    push_str_arg(&mut args, concat_str("-", v.as_str()));
    push_str_arg(&mut args, "--interval".to_string());
    push_str_arg(&mut args, "1.0".to_string());
    push_str_arg(&mut args, "--gracetime".to_string());
    push_str_arg(&mut args, "3".to_string());
    push_str_arg(&mut args, "--max-ttl".to_string());
    push_str_arg(&mut args, "30".to_string());
    push_str_arg(&mut args, "--timeout".to_string());
    push_str_arg(&mut args, "15".to_string());
    let p = to_uppercase(opts.protocol.as_str());
    if str_is(p.as_str(), "TCP") {
        push_str_arg(&mut args, "--tcp".to_string());
    } else if str_is(p.as_str(), "UDP") {
        push_str_arg(&mut args, "--udp".to_string());
    }
    push_str_arg(&mut args, "-c".to_string());
    push_str_arg(&mut args, u64_to_string(opts.packets as u64));
    push_str_arg(&mut args, "--raw".to_string());
    push_str_arg(&mut args, "-P".to_string());
    push_str_arg(&mut args, u64_to_string(opts.port as u64));
    push_str_arg(&mut args, opts.target.clone());
    let ghost want = mtr_args_spec(*opts);
    assert(string_views(args@) =~= want);
    args
}

} // verus!
