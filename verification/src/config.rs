//! Settings sections read from the configuration file and environment.

use vstd::prelude::*;

verus! {

#[derive(Debug, Clone)]
pub struct ApiConfig {
    pub host: String,
}

#[derive(Debug, Clone, Copy, PartialEq, Eq, Structural)]
pub struct StatusConfig {
    pub ping_interval_secs: u64,
    pub icmp_tcp_interval_secs: u64,
    pub disconnect_ttl_secs: u64,
    pub max_disconnects: usize,
}

#[derive(Debug, Clone, Copy, PartialEq, Eq, Structural)]
pub struct StatsConfig {
    pub interval_secs: u64,
}

} // verus!
