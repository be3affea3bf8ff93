use globalping_probe::command::mtr::asn::{asn_query_name, parse_asn_txt};
use globalping_probe::command::mtr::parse::{
    compute_counts, parse_raw, target_is_private, HopTiming, MtrHop,
};
use globalping_probe::command::mtr::report::{build_output, output_row, OutputRow};
use globalping_probe::util::ip::IpAddress;

const RAW_3HOP: &str = "\
h 0 192.168.1.1
d 0 router.home
x 0 0
p 0 1234 0
x 0 1
p 0 987 1
x 0 2
p 0 1456 2
h 1 10.20.0.1
d 1 isp.net
x 1 0
p 1 5678 0
x 1 1
p 1 5432 1
x 1 2
p 1 5890 2
h 2 1.1.1.1
d 2 one.one.one.one
x 2 0
p 2 8123 0
x 2 1
p 2 7956 1
x 2 2
p 2 8234 2";

/// Reply time in milliseconds from the microsecond text mtr printed.
fn ms(t: &HopTiming) -> f64 {
    t.rtt.as_ref().unwrap().parse::<f64>().unwrap() / 1000.0
}

fn rows(hops: &[MtrHop]) -> Vec<OutputRow> {
    hops.iter()
        .map(|h| output_row(h, "0.0".into(), "1.0".into(), "0.0".into(), "0.0".into()))
        .collect()
}

fn timings(rtts: &[Option<&str>]) -> Vec<HopTiming> {
    rtts.iter().map(|r| HopTiming { rtt: r.map(|s| s.to_string()) }).collect()
}

#[test]
fn parse_three_hops() {
    let hops = parse_raw(RAW_3HOP, true);
    assert_eq!(hops.len(), 3);
    assert_eq!(hops[0].resolved_address.as_deref(), Some("192.168.1.1"));
    assert_eq!(hops[1].resolved_address.as_deref(), Some("10.20.0.1"));
    assert_eq!(hops[2].resolved_address.as_deref(), Some("1.1.1.1"));
}

#[test]
fn parse_hostnames() {
    let hops = parse_raw(RAW_3HOP, true);
    assert_eq!(hops[0].resolved_hostname.as_deref(), Some("router.home"));
    assert_eq!(hops[2].resolved_hostname.as_deref(), Some("one.one.one.one"));
}

#[test]
fn parse_timings_all_received() {
    let hops = parse_raw(RAW_3HOP, true);
    assert_eq!(hops[0].timings.len(), 3);
    assert!(hops[0].timings.iter().all(|t| t.rtt.is_some()));
    assert!((ms(&hops[0].timings[0]) - 1.234).abs() < 0.001);
}

#[test]
fn parse_drop_when_x_without_p() {
    let raw = "h 0 1.1.1.1\nx 0 0\nx 0 1\np 0 5000 1\nx 0 2\np 0 6000 2\n";
    let hops = parse_raw(raw, true);
    assert_eq!(hops[0].timings.len(), 3);
    assert_eq!(hops[0].timings[0].rtt, None);
    assert!(hops[0].timings[1].rtt.is_some());
    assert!(hops[0].timings[2].rtt.is_some());
    assert_eq!(hops[0].counts.drop, 1);
    assert_eq!(hops[0].counts.rcv, 2);
}

#[test]
fn parse_star_hop_has_no_address() {
    let raw = "h 0 192.168.1.1\nx 0 0\np 0 1000 0\nx 1 0\nx 1 1\n";
    let hops = parse_raw(raw, true);
    assert_eq!(hops.len(), 2);
    assert_eq!(hops[1].resolved_address, None);
}

#[test]
fn parse_duplicate_removal() {
    let raw = "\
h 0 192.168.1.1
x 0 0
p 0 1000 0
h 1 10.0.0.1
x 1 0
p 1 5000 0
h 2 192.168.1.1
x 2 0
p 2 1000 0";
    let hops = parse_raw(raw, true);
    assert_eq!(hops.len(), 2, "duplicate hop should be removed");
    assert_eq!(hops[0].resolved_address.as_deref(), Some("192.168.1.1"));
    assert_eq!(hops[1].resolved_address.as_deref(), Some("10.0.0.1"));
}

#[test]
fn parse_hostname_fulfillment() {
    let raw = "\
h 0 1.1.1.1
x 0 0
p 0 1000 0
h 1 10.0.0.1
d 1 isp.net
x 1 0
p 1 5000 0
h 2 1.1.1.1
d 2 one.one.one.one
x 2 0
p 2 1000 0";
    let hops = parse_raw(raw, true);
    assert_eq!(hops.len(), 2);
    assert_eq!(hops[0].resolved_hostname.as_deref(), Some("one.one.one.one"));
}

#[test]
fn stats_last_probe_excluded_when_not_final() {
    let t = timings(&[Some("5000"), Some("6000"), None]);
    let c = compute_counts(&t, false);
    assert_eq!(c.rcv, 2);
    assert_eq!(c.drop, 0);
    assert_eq!(c.total, 3);
}

#[test]
fn build_output_has_header_and_gateway() {
    let hops = parse_raw(RAW_3HOP, true);
    let out = build_output(&rows(&hops));
    assert!(out.contains("Host"), "output should have Host header");
    assert!(out.contains("Loss%"), "output should have Loss% column");
    assert!(out.contains("_gateway"), "first hop should be _gateway");
    assert!(!out.contains("router.home"), "real hostname of first hop must not appear");
}

#[test]
fn build_output_trailing_stars_omitted() {
    let raw = "\
h 0 192.168.1.1
x 0 0
p 0 1000 0
x 1 0
x 1 1
x 2 0
x 2 1
x 3 0
x 3 1";
    let hops = parse_raw(raw, true);
    let out = build_output(&rows(&hops));
    let waiting_count = out.lines().filter(|l| l.contains("waiting for reply")).count();
    assert_eq!(waiting_count, 1, "first trailing star shown; subsequent ones removed; output:\n{}", out);
}

#[test]
fn three_hops_parsed() {
    let hops = parse_raw(RAW_3HOP, true);
    assert_eq!(hops.len(), 3);
    assert_eq!(hops[0].resolved_address.as_deref(), Some("192.168.1.1"));
    assert_eq!(hops[1].resolved_address.as_deref(), Some("10.20.0.1"));
    assert_eq!(hops[2].resolved_address.as_deref(), Some("1.1.1.1"));
}

#[test]
fn hostnames_populated() {
    let hops = parse_raw(RAW_3HOP, true);
    assert_eq!(hops[0].resolved_hostname.as_deref(), Some("router.home"));
    assert_eq!(hops[1].resolved_hostname.as_deref(), Some("isp.net"));
    assert_eq!(hops[2].resolved_hostname.as_deref(), Some("one.one.one.one"));
}

#[test]
fn mtr_test_rtt_values_correct() {
    let hops = parse_raw(RAW_3HOP, true);
    assert!((ms(&hops[0].timings[0]) - 1.234).abs() < 0.001);
    assert!((ms(&hops[0].timings[1]) - 0.987).abs() < 0.001);
}

#[test]
fn duplicate_ip_removed() {
    let raw = "\
h 0 192.168.1.1
x 0 0
p 0 1000 0
h 1 10.0.0.1
x 1 0
p 1 5000 0
h 2 192.168.1.1
x 2 0
p 2 1000 0";
    let hops = parse_raw(raw, true);
    assert_eq!(hops.len(), 2, "loop hop should be removed");
}

#[test]
fn star_hop_has_null_address() {
    let raw = "h 0 192.168.1.1\nx 0 0\np 0 1000 0\nx 1 0\nx 1 1\n";
    let hops = parse_raw(raw, true);
    assert_eq!(hops.len(), 2);
    assert_eq!(hops[1].resolved_address, None);
    assert!(hops[1].timings.iter().all(|t| t.rtt.is_none()));
}

#[test]
fn output_has_header_and_gateway() {
    let hops = parse_raw(RAW_3HOP, true);
    let out = build_output(&rows(&hops));
    assert!(out.contains("Host"), "header should contain Host");
    assert!(out.contains("Loss%"));
    assert!(out.contains("_gateway"), "first hop should be _gateway");
    assert!(!out.contains("router.home"), "real first-hop hostname must not appear");
    assert!(out.contains("one.one.one.one"), "last hop hostname should appear");
}

#[test]
fn trailing_stars_omitted_from_output() {
    let raw = "\
h 0 192.168.1.1
x 0 0
p 0 1000 0
x 1 0
x 1 1
x 2 0
x 2 1
x 3 0
x 3 1";
    let hops = parse_raw(raw, true);
    let out = build_output(&rows(&hops));
    let waiting_count = out.lines().filter(|l| l.contains("waiting for reply")).count();
    assert_eq!(waiting_count, 1, "first trailing star shown; remaining removed; output:\n{}", out);
}

#[test]
fn middle_star_stays_in_output() {
    let raw = "\
h 0 192.168.1.1
x 0 0
p 0 1000 0
x 1 0
x 1 1
h 2 1.1.1.1
x 2 0
p 2 8000 0";
    let hops = parse_raw(raw, true);
    let out = build_output(&rows(&hops));
    assert!(out.contains("waiting for reply"), "middle star hop should appear");
    assert!(out.contains("1.1.1.1"), "last hop should appear");
}

// ── Further cases ─────────────────────────────────────────────────────────────

#[test]
fn counts_of_a_final_run_include_the_last_probe() {
    let t = timings(&[Some("5000"), None, Some("5000")]);
    let c = compute_counts(&t, true);
    assert_eq!((c.total, c.rcv, c.drop), (3, 2, 1));
    let none = compute_counts(&[], false);
    assert_eq!((none.total, none.rcv, none.drop), (0, 0, 0));
}

#[test]
fn reply_with_unreadable_time_is_ignored() {
    let raw = "h 0 1.1.1.1\nx 0 0\np 0 abc 0\nx 0 1\np 0 1e3 1\n";
    let hops = parse_raw(raw, true);
    assert_eq!(hops[0].timings[0].rtt, None);
    assert_eq!(hops[0].timings[1].rtt.as_deref(), Some("1e3"));
}

#[test]
fn reply_for_unknown_hop_creates_nothing() {
    let hops = parse_raw("p 3 1000 0\nh 0 1.1.1.1\n", true);
    assert_eq!(hops.len(), 1);
    assert_eq!(hops[0].timings.len(), 0);
}

#[test]
fn repeated_probe_sequence_is_kept_once() {
    let hops = parse_raw("x 0 7\nx 0 7\np 0 100 7\n", true);
    assert_eq!(hops[0].timings.len(), 1);
    assert_eq!(hops[0].timings[0].rtt.as_deref(), Some("100"));
}

#[test]
fn exact_table_layout() {
    let hops = parse_raw("h 0 10.0.0.1\nx 0 0\np 0 1000 0\nh 1 1.1.1.1\nd 1 one\nx 1 0\np 1 2000 0\n", true);
    let out = build_output(&rows(&hops));
    let expected = [
        "Host                              Loss% Drop Rcv Avg  StDev  Javg\n",
        "1. AS???   _gateway (10.0.0.1)   0.0%    0   1 1.0    0.0   0.0\n",
        "2. AS???   one (1.1.1.1)         0.0%    0   1 1.0    0.0   0.0\n",
    ]
    .concat();
    assert_eq!(out, expected);
}

#[test]
fn empty_report_is_empty() {
    assert_eq!(build_output(&[]), "");
    let hops = parse_raw("x 0 0\nx 1 0\n", true);
    assert_eq!(build_output(&rows(&hops)), "");
}

#[test]
fn private_last_hop_is_refused() {
    let hops = parse_raw("h 0 1.1.1.1\nh 1 10.0.0.5\nx 2 0\n", true);
    assert!(target_is_private(&hops, &[]));
    let hops = parse_raw("h 0 10.0.0.5\nh 1 1.1.1.1\n", true);
    assert!(!target_is_private(&hops, &[]));
    let local = [IpAddress::V4(0x0101_0101)];
    assert!(target_is_private(&hops, &local));
}

#[test]
fn asn_query_reverses_octets() {
    assert_eq!(asn_query_name("8.8.4.1", &[]).as_deref(), Some("1.4.8.8.origin.asn.cymru.com"));
    assert_eq!(asn_query_name("10.0.0.1", &[]), None);
    assert_eq!(asn_query_name("2001:4860::1", &[]), None);
    assert_eq!(asn_query_name("not-an-ip", &[]), None);
}

#[test]
fn asn_answer_is_read() {
    assert_eq!(parse_asn_txt("\"15169 | 8.8.8.0/24 | US | arin | 2014-03-14\"\n"), vec![15169]);
    assert_eq!(parse_asn_txt("\n\"x | y\"\n\"13335 209242 | 1.1.1.0/24\"\n"), vec![13335, 209242]);
    assert_eq!(parse_asn_txt(""), Vec::<u32>::new());
}
