use globalping_probe::command::traceroute::parse::{parse, TracerouteStatus};



const SUCCESS_OUTPUT: &str = "\
traceroute to 1.1.1.1 (1.1.1.1), 20 hops max, 60 byte packets
 1  _gateway (192.168.1.1)  1.234 ms  1.156 ms
 2  10.0.0.1 (10.0.0.1)  5.678 ms  5.432 ms
 3  * * *
 4  1.1.1.1 (1.1.1.1)  8.123 ms  7.956 ms";

// Fixture where first hop has a real hostname (gets rewritten to _gateway).
const GATEWAY_HOSTNAME_OUTPUT: &str = "\
traceroute to 1.1.1.1 (1.1.1.1), 20 hops max, 60 byte packets
 1  router.home (192.168.1.1)  1.0 ms  1.1 ms
 2  1.1.1.1 (1.1.1.1)  8.0 ms  8.1 ms";

#[test]
fn parses_header_and_hops() {
    let r = parse(SUCCESS_OUTPUT);
    assert_eq!(r.status, TracerouteStatus::Finished);
    assert_eq!(r.resolved_address.as_deref(), Some("1.1.1.1"));
    assert_eq!(r.hops.len(), 4);
}

#[test]
fn gateway_first_hop_preserved_as_gateway() {
    let r = parse(GATEWAY_HOSTNAME_OUTPUT);
    // The real hostname is replaced with _gateway in rawOutput.
    assert!(r.raw_output.contains("_gateway"), "expected _gateway in rawOutput");
    assert!(!r.raw_output.contains("router.home"), "real hostname should be hidden");
    // The hop itself also has _gateway as hostname.
    assert_eq!(r.hops[0].resolved_hostname.as_deref(), Some("_gateway"));
    assert_eq!(r.hops[0].resolved_address.as_deref(), Some("192.168.1.1"));
}

#[test]
fn star_hop_has_no_address_and_no_timings() {
    let r = parse(SUCCESS_OUTPUT);
    let star_hop = &r.hops[2]; // " 3  * * *"
    assert_eq!(star_hop.resolved_address, None);
    assert_eq!(star_hop.resolved_hostname, None);
    assert!(star_hop.timings.is_empty());
}

#[test]
fn rtt_values_parsed_correctly() {
    let r = parse(SUCCESS_OUTPUT);
    // hop 1 (index 0): 1.234 ms and 1.156 ms
    assert_eq!(r.hops[0].timings.len(), 2);
    assert!((r.hops[0].timings[0].rtt.parse::<f64>().unwrap() - 1.234).abs() < 0.001);
    assert!((r.hops[0].timings[1].rtt.parse::<f64>().unwrap() - 1.156).abs() < 0.001);
}

#[test]
fn resolved_hostname_is_last_hop_hostname() {
    let r = parse(SUCCESS_OUTPUT);
    // Last hop is 1.1.1.1 (1.1.1.1) — hostname is the target itself
    assert_eq!(r.resolved_hostname.as_deref(), Some("1.1.1.1"));
}

#[test]
fn empty_input_returns_failed() {
    assert_eq!(parse("").status, TracerouteStatus::Failed);
}

#[test]
fn no_header_returns_failed() {
    assert_eq!(parse("some garbage\n 1  * * *\n").status, TracerouteStatus::Failed);
}

#[test]
fn ipv6_target_parsed() {
    let raw = "\
traceroute to 2606:4700:4700::1111 (2606:4700:4700::1111), 20 hops max, 80 byte packets
 1  _gateway (fe80::1)  1.0 ms  1.1 ms
 2  2606:4700:4700::1111 (2606:4700:4700::1111)  9.5 ms  9.3 ms";

    let r = parse(raw);
    assert_eq!(r.status, TracerouteStatus::Finished);
    assert_eq!(r.resolved_address.as_deref(), Some("2606:4700:4700::1111"));
    assert_eq!(r.hops.len(), 2);
    assert_eq!(r.hops[1].resolved_address.as_deref(), Some("2606:4700:4700::1111"));
}

#[test]
fn mixed_star_and_rtt_hops() {
    let raw = "\
traceroute to 8.8.8.8 (8.8.8.8), 20 hops max, 60 byte packets
 1  * 1.234 ms *
 2  8.8.8.8 (8.8.8.8)  5.0 ms  5.1 ms";

    let r = parse(raw);
    // hop 0: mixed — no host match, one RTT
    assert_eq!(r.hops[0].resolved_address, None);
    assert_eq!(r.hops[0].timings.len(), 1);
    assert!((r.hops[0].timings[0].rtt.parse::<f64>().unwrap() - 1.234).abs() < 0.001);
}

// ── Fixture-based parser tests ────────────────────────────────────────────────

const SUCCESS_ICMP: &str = "\
traceroute to 1.1.1.1 (1.1.1.1), 20 hops max, 60 byte packets
 1  router.home (192.168.1.1)  1.234 ms  0.987 ms
 2  10.20.0.1 (10.20.0.1)  5.678 ms  5.432 ms
 3  * * *
 4  1.1.1.1 (1.1.1.1)  8.123 ms  7.956 ms";

#[test]
fn full_success_parses_address_and_hops() {
    let r = parse(SUCCESS_ICMP);
    assert_eq!(r.status, TracerouteStatus::Finished);
    assert_eq!(r.resolved_address.as_deref(), Some("1.1.1.1"));
    assert_eq!(r.hops.len(), 4);
}

#[test]
fn gateway_hostname_rewritten_in_raw_output() {
    let r = parse(SUCCESS_ICMP);
    assert!(r.raw_output.contains("_gateway"), "expected _gateway in rawOutput");
    assert!(!r.raw_output.contains("router.home"), "real gateway hostname must be hidden");
    assert_eq!(r.hops[0].resolved_hostname.as_deref(), Some("_gateway"));
    assert_eq!(r.hops[0].resolved_address.as_deref(), Some("192.168.1.1"));
}

#[test]
fn star_hop_produces_null_address_and_empty_timings() {
    let r = parse(SUCCESS_ICMP);
    let star = &r.hops[2];
    assert_eq!(star.resolved_address, None);
    assert_eq!(star.resolved_hostname, None);
    assert!(star.timings.is_empty());
}

#[test]
fn traceroute_test_rtt_values_correct() {
    let r = parse(SUCCESS_ICMP);
    assert_eq!(r.hops[0].timings.len(), 2);
    assert!((r.hops[0].timings[0].rtt.parse::<f64>().unwrap() - 1.234).abs() < 0.001);
    assert!((r.hops[0].timings[1].rtt.parse::<f64>().unwrap() - 0.987).abs() < 0.001);
    assert_eq!(r.hops[1].timings.len(), 2);
    assert_eq!(r.hops[3].timings.len(), 2);
}

#[test]
fn resolved_hostname_is_last_real_hop() {
    let r = parse(SUCCESS_ICMP);
    // last hop hostname = "1.1.1.1" (traceroute shows IP when no rDNS)
    assert_eq!(r.resolved_hostname.as_deref(), Some("1.1.1.1"));
}

#[test]
fn empty_input_fails() {
    assert_eq!(parse("").status, TracerouteStatus::Failed);
}

#[test]
fn no_header_fails() {
    assert_eq!(parse("garbage\n 1  * * *\n").status, TracerouteStatus::Failed);
}

#[test]
fn all_star_hops_resolved_hostname_is_none() {
    let raw = "\
traceroute to 8.8.8.8 (8.8.8.8), 20 hops max, 60 byte packets
 1  * * *
 2  * * *";
    let r = parse(raw);
    assert_eq!(r.status, TracerouteStatus::Finished);
    assert_eq!(r.resolved_address.as_deref(), Some("8.8.8.8"));
    assert_eq!(r.resolved_hostname, None);
}

#[test]
fn ipv6_header_parsed() {
    let raw = "\
traceroute to 2606:4700:4700::1111 (2606:4700:4700::1111), 20 hops max, 80 byte packets
 1  _gateway (fe80::1)  1.0 ms  1.1 ms
 2  2606:4700:4700::1111 (2606:4700:4700::1111)  9.5 ms  9.3 ms";
    let r = parse(raw);
    assert_eq!(r.resolved_address.as_deref(), Some("2606:4700:4700::1111"));
    assert_eq!(r.hops.len(), 2);
    assert_eq!(r.hops[1].resolved_address.as_deref(), Some("2606:4700:4700::1111"));
}

#[test]
fn mixed_star_and_rtt_in_same_hop() {
    let raw = "\
traceroute to 8.8.8.8 (8.8.8.8), 20 hops max, 60 byte packets
 1  * 1.234 ms *
 2  8.8.8.8 (8.8.8.8)  5.0 ms  5.1 ms";
    let r = parse(raw);
    assert_eq!(r.hops[0].timings.len(), 1);
    assert!((r.hops[0].timings[0].rtt.parse::<f64>().unwrap() - 1.234).abs() < 0.001);
    assert_eq!(r.hops[0].resolved_address, None);
}


#[test]
fn non_ascii_digits_are_digits_in_the_patterns() {
    let raw = "traceroute to x (١.١.١.١), 20 hops max, 60 byte packets\n 1  h.example (10.0.0.1)  ٥.٥ ms  2.5 ms";
    let r = parse(raw);
    assert_eq!(r.resolved_address.as_deref(), Some("١.١.١.١"));
    assert_eq!(r.hops.len(), 1);
    let rtts: Vec<&str> = r.hops[0].timings.iter().map(|t| t.rtt.as_str()).collect();
    assert_eq!(rtts, vec!["٥.٥", "2.5"]);
}
