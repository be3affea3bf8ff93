pub mod alt_ips;
pub mod client;
pub mod dns_servers;
pub mod limiter;
pub mod reconnect;
pub mod stats;
pub mod sysinfo;
pub mod uuid;
