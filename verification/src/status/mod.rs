pub mod disconnect;
pub mod icmp_tcp_test;
pub mod ping_test;
pub mod status_manager;
