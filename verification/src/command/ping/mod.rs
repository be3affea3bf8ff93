//! Ping measurements: options, their checks, and the `ping` argument list.

pub mod parse;

use vstd::prelude::*;
use crate::command::dns::{push_str_arg, string_views};
use crate::text::{concat_str, decimal, u64_to_string};
use crate::util::ip::IpAddress;
use crate::util::private_ip::{is_private_literal, private_literal};

verus! {

#[derive(Debug, Clone)]
pub struct PingOptions {
    pub target: String,
    pub packets: u8,
    pub protocol: String,
    pub port: u16,
    pub ip_version: u8,
    pub in_progress_updates: bool,
}

/// Runs a ping measurement; the runner itself lives with the process plumbing.
pub struct PingCommand;

pub fn default_packets() -> (r: u8)
    ensures
        r == 3,
{
    3
}

pub fn default_protocol() -> (r: String)
    ensures
        r@ == "ICMP"@,
{
    "ICMP".to_string()
}

pub fn default_port() -> (r: u16)
    ensures
        r == 80,
{
    80
}

pub fn default_ip_version() -> (r: u8)
    ensures
        r == 4,
{
    4
}

/// Why a ping measurement was refused.
#[derive(Debug, Clone, Copy, PartialEq, Eq, Structural)]
pub enum PingError {
    BadPackets,
    BadIpVersion,
    PrivateTarget,
}

pub open spec fn ping_error_message(e: PingError) -> Seq<char> {
    match e {
        PingError::BadPackets => "packets must be 1–16"@,
        PingError::BadIpVersion => "ipVersion must be 4 or 6"@,
        PingError::PrivateTarget => "Private IP ranges are not allowed."@,
    }
}

impl PingError {
    /// The message reported to the API.
    pub fn message(&self) -> (r: String)
        ensures
            r@ == ping_error_message(*self),
    {
        match self {
            PingError::BadPackets => "packets must be 1–16".to_string(),
            PingError::BadIpVersion => "ipVersion must be 4 or 6".to_string(),
            PingError::PrivateTarget => "Private IP ranges are not allowed.".to_string(),
        }
    }
}

/// The first check that fails: 1 to 16 packets, IP version 4 or 6, and a
/// target that is not a private IP literal.
pub open spec fn ping_check(opts: PingOptions, local_ips: Seq<IpAddress>) -> Option<PingError> {
    if opts.packets < 1 || opts.packets > 16 {
        Some(PingError::BadPackets)
    } else if opts.ip_version != 4 && opts.ip_version != 6 {
        Some(PingError::BadIpVersion)
    } else if private_literal(opts.target@, local_ips) {
        Some(PingError::PrivateTarget)
    } else {
        None
    }
}

/// Checks ping options before `ping` is run. `local_ips` are this machine's
/// own addresses, which count as private.
pub fn validate(opts: &PingOptions, local_ips: &[IpAddress]) -> (r: Result<(), PingError>)
    ensures
        match ping_check(*opts, local_ips@) {
            None => r is Ok,
            Some(e) => r == Err::<(), PingError>(e),
        },
{
    if opts.packets < 1 || opts.packets > 16 {
        return Err(PingError::BadPackets);
    }
    if opts.ip_version != 4 && opts.ip_version != 6 {
        return Err(PingError::BadIpVersion);
    }
    if is_private_literal(opts.target.as_str(), local_ips) {
        return Err(PingError::PrivateTarget);
    }
    Ok(())
}

/// `-4|-6 -O -c N -i 0.5 -w 10 target`.
pub open spec fn ping_args_spec(opts: PingOptions) -> Seq<Seq<char>> {
    seq![
        "-"@ + decimal(opts.ip_version as nat),
        "-O"@,
        "-c"@,
        decimal(opts.packets as nat),
        "-i"@,
        "0.5"@,
        "-w"@,
        "10"@,
        opts.target@,
    ]
}

/// Builds the argument list for the system `ping` binary (Linux format).
pub fn build_args(opts: &PingOptions) -> (r: Vec<String>)
    ensures
        string_views(r@) == ping_args_spec(*opts),
{
    let mut args: Vec<String> = Vec::new();
    let v = u64_to_string(opts.ip_version as u64);
    push_str_arg(&mut args, concat_str("-", v.as_str()));
    push_str_arg(&mut args, "-O".to_string());
    push_str_arg(&mut args, "-c".to_string());
    push_str_arg(&mut args, u64_to_string(opts.packets as u64));
    push_str_arg(&mut args, "-i".to_string());
    push_str_arg(&mut args, "0.5".to_string());
    push_str_arg(&mut args, "-w".to_string());
    push_str_arg(&mut args, "10".to_string());
    push_str_arg(&mut args, opts.target.clone());
    let ghost want = ping_args_spec(*opts);
    assert(string_views(args@) =~= want);
    args
}

} // verus!
