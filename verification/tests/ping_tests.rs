use globalping_probe::command::ping::parse::{parse, PingStats, PingStatus};
use globalping_probe::status::ping_test::trial_passed;

fn num(t: &Option<String>) -> Option<f64> {
    t.as_ref().map(|s| s.parse::<f64>().unwrap())
}

const SUCCESS: &str = "PING google.com (172.217.20.206) 56(84) bytes of data.\n\
64 bytes from lhr25s33-in-f14.1e100.net (172.217.20.206): icmp_seq=1 ttl=37 time=7.99 ms\n\
64 bytes from lhr25s33-in-f14.1e100.net (172.217.20.206): icmp_seq=2 ttl=37 time=8.12 ms\n\
64 bytes from lhr25s33-in-f14.1e100.net (172.217.20.206): icmp_seq=3 ttl=37 time=7.95 ms\n\
\n\
--- google.com ping statistics ---\n\
3 packets transmitted, 3 received, 0% packet loss, time 404ms\n\
rtt min/avg/max/mdev = 7.948/8.018/8.120/0.073 ms\n";

const NO_DOMAIN: &str = "PING 1.1.1.1 (1.1.1.1) 56(84) bytes of data.\n\
64 bytes from 1.1.1.1: icmp_seq=1 ttl=58 time=41.7 ms\n\
64 bytes from 1.1.1.1: icmp_seq=2 ttl=58 time=41.7 ms\n\
64 bytes from 1.1.1.1: icmp_seq=3 ttl=58 time=41.7 ms\n\
\n\
--- 1.1.1.1 ping statistics ---\n\
3 packets transmitted, 3 received, 0% packet loss, time 1003ms\n\
rtt min/avg/max/mdev = 41.666/41.689/41.706/0.017 ms\n";

const IPV6: &str = "PING google.com(hem08s10-in-x0e.1e100.net (2a00:1450:4026:808::200e)) 56 data bytes\n\
64 bytes from hem08s10-in-x0e.1e100.net (2a00:1450:4026:808::200e): icmp_seq=1 ttl=57 time=1.47 ms\n\
64 bytes from hem08s10-in-x0e.1e100.net (2a00:1450:4026:808::200e): icmp_seq=2 ttl=57 time=1.14 ms\n\
64 bytes from hem08s10-in-x0e.1e100.net (2a00:1450:4026:808::200e): icmp_seq=3 ttl=57 time=1.07 ms\n\
\n\
--- google.com ping statistics ---\n\
3 packets transmitted, 3 received, 0% packet loss, time 1003ms\n\
rtt min/avg/max/mdev = 1.072/1.224/1.466/0.172 ms\n";

const PACKET_LOSS: &str = "PING google.com (172.217.20.206) 56(84) bytes of data.\n\
64 bytes from lhr25s33-in-f14.1e100.net (172.217.20.206): icmp_seq=1 ttl=37 time=8.05 ms\n\
no answer yet for icmp_seq=2\n\
64 bytes from lhr25s33-in-f14.1e100.net (172.217.20.206): icmp_seq=3 ttl=37 time=8.05 ms\n\
\n\
--- google.com ping statistics ---\n\
3 packets transmitted, 2 received, 33.3% packet loss, time 404ms\n\
rtt min/avg/max/mdev = 8.053/8.053/8.053/0.000 ms\n";

const TIMEOUT: &str = "PING 123.21.43.124 (123.21.43.124) 56(84) bytes of data.\n\
no answer yet for icmp_seq=1\n\
\n\
--- 123.21.43.124 ping statistics ---\n\
1 packets transmitted, 0 received, 100% packet loss, time 2909ms\n";

const UNREACHABLE: &str = "PING  (104.18.186.31) 56(84) bytes of data.\n\
From eth2-1109-fsn-lf-e03.productsup.int (10.254.254.17) icmp_seq=1 Destination Port Unreachable\n\
\n\
---  ping statistics ---\n\
1 packets transmitted, 0 received, +1 errors, 100% packet loss, time 0ms\n";

#[test]
fn parses_standard_success() {
    let r = parse(SUCCESS);
    assert_eq!(r.status, PingStatus::Finished);
    assert_eq!(r.resolved_address.as_deref(), Some("172.217.20.206"));
    assert_eq!(r.resolved_hostname.as_deref(), Some("lhr25s33-in-f14.1e100.net"));
    assert_eq!(r.timings.len(), 3);
    assert_eq!((r.timings[0].rtt.parse::<f64>().unwrap(), r.timings[0].ttl), (7.99, 37));
    assert_eq!((r.timings[1].rtt.parse::<f64>().unwrap(), r.timings[1].ttl), (8.12, 37));
    assert_eq!((r.timings[2].rtt.parse::<f64>().unwrap(), r.timings[2].ttl), (7.95, 37));
    assert_eq!(num(&r.stats.min), Some(7.948));
    assert_eq!(num(&r.stats.avg), Some(8.018));
    assert_eq!(num(&r.stats.max), Some(8.120));
    assert_eq!(r.stats.total, Some(3));
    assert_eq!(r.stats.rcv, Some(3));
    assert_eq!(r.stats.drop, Some(0));
    assert_eq!(num(&r.stats.loss), Some(0.0));
}

#[test]
fn parses_no_domain_target() {
    let r = parse(NO_DOMAIN);
    assert_eq!(r.status, PingStatus::Finished);
    assert_eq!(r.resolved_address.as_deref(), Some("1.1.1.1"));
    // When the target is an IP, the host name is the IP itself.
    assert_eq!(r.resolved_hostname.as_deref(), Some("1.1.1.1"));
    assert_eq!(r.timings.len(), 3);
    assert_eq!(r.stats.total, Some(3));
}

#[test]
fn parses_ipv6_header() {
    let r = parse(IPV6);
    assert_eq!(r.status, PingStatus::Finished);
    assert_eq!(r.resolved_address.as_deref(), Some("2a00:1450:4026:808::200e"));
    assert_eq!(r.resolved_hostname.as_deref(), Some("hem08s10-in-x0e.1e100.net"));
    assert_eq!(r.timings.len(), 3);
    assert_eq!(r.timings[0].rtt.parse::<f64>().unwrap(), 1.47);
    assert_eq!(num(&r.stats.min), Some(1.072));
}

#[test]
fn parses_packet_loss() {
    let r = parse(PACKET_LOSS);
    assert_eq!(r.status, PingStatus::Finished);
    assert_eq!(r.timings.len(), 2);
    assert_eq!(r.stats.total, Some(3));
    assert_eq!(r.stats.rcv, Some(2));
    assert_eq!(r.stats.drop, Some(1));
    assert_eq!(num(&r.stats.loss), Some(33.3));
}

#[test]
fn parses_full_timeout_no_rtt() {
    let r = parse(TIMEOUT);
    assert_eq!(r.status, PingStatus::Finished);
    assert_eq!(r.timings.len(), 0);
    assert_eq!(r.stats.total, Some(1));
    assert_eq!(r.stats.rcv, Some(0));
    assert_eq!(num(&r.stats.loss), Some(100.0));
    assert_eq!(r.stats.min, None);
    assert_eq!(r.stats.avg, None);
}

#[test]
fn parses_unreachable_no_hostname() {
    let r = parse(UNREACHABLE);
    assert_eq!(r.status, PingStatus::Finished);
    assert_eq!(r.resolved_address.as_deref(), Some("104.18.186.31"));
    assert_eq!(r.timings.len(), 0);
    assert_eq!(r.stats.total, Some(1));
    assert_eq!(r.stats.rcv, Some(0));
    assert_eq!(num(&r.stats.loss), Some(100.0));
}

#[test]
fn returns_failed_on_empty_input() {
    let r = parse("");
    assert_eq!(r.status, PingStatus::Failed);
    assert!(r.timings.is_empty());
}

#[test]
fn returns_failed_on_no_header() {
    let r = parse("some random output\nwithout a ping header\n");
    assert_eq!(r.status, PingStatus::Failed);
}

#[test]
fn raw_output_strips_trailing_newline() {
    let r = parse(SUCCESS);
    assert!(!r.raw_output.ends_with('\n'));
}

#[test]
fn full_success_round_trip() {
    let r = parse(SUCCESS);
    assert_eq!(r.status, PingStatus::Finished);
    assert_eq!(r.resolved_address.as_deref(), Some("172.217.20.206"));
    assert_eq!(r.resolved_hostname.as_deref(), Some("lhr25s33-in-f14.1e100.net"));
    assert_eq!(r.timings.len(), 3);
    assert_eq!(num(&r.stats.min), Some(7.948));
    assert_eq!(num(&r.stats.avg), Some(8.018));
    assert_eq!(num(&r.stats.max), Some(8.120));
    assert_eq!(r.stats.total, Some(3));
    assert_eq!(r.stats.rcv, Some(3));
    assert_eq!(r.stats.drop, Some(0));
    assert_eq!(num(&r.stats.loss), Some(0.0));
}

#[test]
fn ipv6_success_round_trip() {
    let r = parse(IPV6);
    assert_eq!(r.status, PingStatus::Finished);
    assert_eq!(r.resolved_address.as_deref(), Some("2a00:1450:4026:808::200e"));
    assert_eq!(r.resolved_hostname.as_deref(), Some("hem08s10-in-x0e.1e100.net"));
    assert_eq!(r.timings.len(), 3);
    assert_eq!(num(&r.stats.min), Some(1.072));
}

#[test]
fn packet_loss_partial() {
    let r = parse(PACKET_LOSS);
    assert_eq!(r.timings.len(), 2);
    assert_eq!(r.stats.total, Some(3));
    assert_eq!(r.stats.rcv, Some(2));
    assert_eq!(r.stats.drop, Some(1));
    assert_eq!(num(&r.stats.loss), Some(33.3));
}

#[test]
fn full_timeout_zero_rtt() {
    let r = parse(TIMEOUT);
    assert_eq!(r.status, PingStatus::Finished);
    assert_eq!(r.timings.len(), 0);
    assert_eq!(r.stats.total, Some(1));
    assert_eq!(r.stats.rcv, Some(0));
    assert_eq!(num(&r.stats.loss), Some(100.0));
    assert_eq!(r.stats.min, None);
}

#[test]
fn empty_and_no_header_return_failed() {
    assert_eq!(parse("").status, PingStatus::Failed);
    assert_eq!(parse("not a ping header\n").status, PingStatus::Failed);
}

#[test]
fn parse_zero_loss_returns_true() {
    let raw = "\
PING 1.1.1.1 (1.1.1.1) 56(84) bytes of data.
64 bytes from 1.1.1.1: icmp_seq=1 ttl=55 time=10.2 ms
64 bytes from 1.1.1.1: icmp_seq=2 ttl=55 time=9.8 ms
64 bytes from 1.1.1.1: icmp_seq=3 ttl=55 time=10.5 ms

--- 1.1.1.1 ping statistics ---
3 packets transmitted, 3 received, 0% packet loss, time 2003ms
rtt min/avg/max/mdev = 9.800/10.166/10.500/0.294 ms
";
    let parsed = parse(raw);
    assert_eq!(num(&parsed.stats.loss), Some(0.0));
    assert!(trial_passed(&parsed.stats));
}

#[test]
fn parse_100pct_loss_returns_false() {
    let raw = "\
PING 1.1.1.1 (1.1.1.1) 56(84) bytes of data.

--- 1.1.1.1 ping statistics ---
3 packets transmitted, 0 received, 100% packet loss, time 2009ms
";
    let parsed = parse(raw);
    assert!(num(&parsed.stats.loss) != Some(0.0));
    assert!(!trial_passed(&parsed.stats));
}

// ── Further cases ─────────────────────────────────────────────────────────────

#[test]
fn reply_without_icmp_prefix_is_read() {
    let raw = "PING 9.9.9.9 (9.9.9.9): 56 data bytes\n\
64 bytes from 9.9.9.9: seq=0 ttl=60 time=12.345 ms\n\
\n\
--- 9.9.9.9 ping statistics ---\n\
1 packets transmitted, 1 packets received, 0% packet loss\n\
round-trip min/avg/max = 12.345/12.345/12.345 ms\n";
    let r = parse(raw);
    assert_eq!(r.status, PingStatus::Finished);
    assert_eq!(r.timings.len(), 1);
    assert_eq!(r.timings[0].rtt, "12.345");
    assert_eq!(r.timings[0].ttl, 60);
    assert_eq!(r.stats.rcv, Some(1));
    assert_eq!(r.stats.min.as_deref(), Some("12.345"));
    assert_eq!(r.stats.max.as_deref(), Some("12.345"));
}

#[test]
fn ttl_beyond_u32_drops_the_reply() {
    let raw = "PING a (1.2.3.4) 56(84) bytes of data.\n\
64 bytes from 1.2.3.4: icmp_seq=1 ttl=99999999999 time=1.0 ms\n\
64 bytes from 1.2.3.4: icmp_seq=2 ttl=64 time=2.0 ms\n";
    let r = parse(raw);
    assert_eq!(r.timings.len(), 1);
    assert_eq!(r.timings[0].rtt, "2.0");
}

#[test]
fn empty_time_drops_the_reply() {
    let raw = "PING a (1.2.3.4) 56(84) bytes of data.\n\
64 bytes from 1.2.3.4: icmp_seq=1 ttl=64 time= ms\n";
    let r = parse(raw);
    assert_eq!(r.timings.len(), 0);
}

#[test]
fn dropped_count_floors_at_zero() {
    let raw = "PING a (1.2.3.4) 56(84) bytes of data.\n\
--- a ping statistics ---\n\
1 packets transmitted, 2 received, 0% packet loss\n";
    let r = parse(raw);
    assert_eq!(r.stats.total, Some(1));
    assert_eq!(r.stats.rcv, Some(2));
    assert_eq!(r.stats.drop, Some(0));
}

#[test]
fn no_summary_leaves_stats_empty() {
    let r = parse("PING a (1.2.3.4) 56(84) bytes of data.\n");
    assert_eq!(r.status, PingStatus::Finished);
    assert_eq!(r.stats.total, None);
    assert_eq!(r.stats.loss, None);
    assert_eq!(r.resolved_hostname.as_deref(), Some(""));
}

#[test]
fn raw_output_keeps_failed_input_unchanged() {
    let r = parse("garbage\n\n");
    assert_eq!(r.status, PingStatus::Failed);
    assert_eq!(r.raw_output, "garbage\n\n");
}

#[test]
fn trial_passes_only_on_zero_loss() {
    let mut stats = PingStats::default();
    assert!(!trial_passed(&stats));
    stats.loss = Some("0.0".to_string());
    assert!(trial_passed(&stats));
    stats.loss = Some("0.5".to_string());
    assert!(!trial_passed(&stats));
    stats.loss = Some("33.3".to_string());
    assert!(!trial_passed(&stats));
}

// `\d`, `\w` and `\b` in the reply and summary patterns are Unicode classes.

#[test]
fn letter_before_count_is_no_word_boundary() {
    let raw = SUCCESS.replace("3 packets transmitted", "é3 packets transmitted");
    let r = parse(&raw);
    assert_eq!(r.stats.total, None);
    assert_eq!(r.stats.rcv, Some(3));
}

#[test]
fn non_ascii_digits_match_but_do_not_read_as_numbers() {
    let raw = SUCCESS
        .replace("ttl=37 time=8.12 ms", "ttl=٣٧ time=8.12 ms")
        .replace("time=7.95 ms", "time=٧.٩٥ ms")
        .replace("0% packet loss", "٠% packet loss");
    let r = parse(&raw);
    assert_eq!(r.timings.len(), 1);
    assert_eq!(r.timings[0].rtt, "7.99");
    assert_eq!(r.stats.loss, None);
    assert_eq!(r.stats.total, Some(3));
}
