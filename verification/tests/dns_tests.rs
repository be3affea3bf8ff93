use globalping_probe::command::dns::parse::{parse_answer_line, parse_classic, parse_trace, DnsStatus};
use globalping_probe::command::dns::{build_args, validate, DnsError, DnsOptions, QueryOptions};


fn make_opts(record_type: &str, trace: bool, protocol: &str) -> DnsOptions {
    DnsOptions {
        target: "example.com".into(),
        protocol: protocol.into(),
        port: 53,
        resolver: None,
        trace,
        query: QueryOptions { record_type: record_type.into() },
        ip_version: 4,
        in_progress_updates: false,
    }
}

#[test]
fn build_args_basic_a_query() {
    let opts = make_opts("A", false, "UDP");
    let args = build_args(&opts);
    assert_eq!(args[0], "-t");
    assert_eq!(args[1], "A");
    assert_eq!(args[2], "example.com");
    assert!(args.contains(&"-p".to_string()));
    assert!(args.contains(&"53".to_string()));
    assert!(args.contains(&"-4".to_string()));
    assert!(args.contains(&"+timeout=3".to_string()));
    assert!(!args.contains(&"+trace".to_string()));
    assert!(!args.contains(&"+tcp".to_string()));
}

#[test]
fn build_args_ptr_uses_dash_x() {
    let opts = make_opts("PTR", false, "UDP");
    let args = build_args(&opts);
    assert_eq!(args[0], "-x");
    assert_eq!(args[1], "example.com");
}

#[test]
fn build_args_trace_adds_plus_trace() {
    let opts = make_opts("A", true, "UDP");
    let args = build_args(&opts);
    assert!(args.contains(&"+trace".to_string()));
}

#[test]
fn build_args_tcp_protocol_adds_plus_tcp() {
    let opts = make_opts("A", false, "TCP");
    let args = build_args(&opts);
    assert!(args.contains(&"+tcp".to_string()));
}

#[test]
fn build_args_resolver_prefixed_with_at() {
    let mut opts = make_opts("A", false, "UDP");
    opts.resolver = Some("8.8.8.8".into());
    let args = build_args(&opts);
    assert!(args.contains(&"@8.8.8.8".to_string()));
}

#[test]
fn build_args_ipv6_flag() {
    let mut opts = make_opts("AAAA", false, "UDP");
    opts.ip_version = 6;
    let args = build_args(&opts);
    assert!(args.contains(&"-6".to_string()));
}

#[test]
fn validate_rejects_unknown_type() {
    let opts = make_opts("INVALID", false, "UDP");
    assert!(validate(&opts, &[]).is_err());
}

#[test]
fn validate_accepts_all_allowed_types() {
    for &t in &[
        "A", "AAAA", "ANY", "CNAME", "DNSKEY", "DS", "HTTPS", "MX", "NS",
        "NSEC", "PTR", "RRSIG", "SOA", "TXT", "SRV", "SVCB",
    ] {
        let opts = make_opts(t, false, "UDP");
        assert!(validate(&opts, &[]).is_ok(), "type {t} should be allowed");
    }
}

#[test]
fn validate_rejects_argument_injection_target() {
    // Target is passed to `dig` as a bare arg; a leading `-`/`+` would be an option.
    for bad in ["-f/etc/passwd", "+norecurse", "evil.com; id", "a b"] {
        let mut opts = make_opts("A", false, "UDP");
        opts.target = bad.into();
        assert!(validate(&opts, &[]).is_err(), "should reject target {bad:?}");
    }
}

#[test]
fn validate_rejects_private_resolver() {
    // Prevents using the probe as an internal port scanner over DNS (SSRF).
    for bad in ["10.0.0.1", "127.0.0.1", "169.254.169.254", "::1", "::ffff:127.0.0.1"] {
        let mut opts = make_opts("A", false, "UDP");
        opts.resolver = Some(bad.into());
        assert!(validate(&opts, &[]).is_err(), "should reject resolver {bad:?}");
    }
}

#[test]
fn validate_accepts_public_resolver() {
    let mut opts = make_opts("A", false, "UDP");
    opts.resolver = Some("8.8.8.8".into());
    assert!(validate(&opts, &[]).is_ok());
}

#[test]
fn validate_rejects_injection_resolver() {
    let mut opts = make_opts("A", false, "UDP");
    opts.resolver = Some("-x".into());
    assert!(validate(&opts, &[]).is_err());
}



const SUCCESS_CLASSIC: &str = ";; Truncated, retrying in TCP mode.\n\
; <<>> DiG 9.16.1-Ubuntu <<>> google.com -t TXT -p 53 -4 +timeout=3 +tries=2 +nocookie\n\
;; global options: +cmd\n\
;; Got answer:\n\
;; ->>HEADER<<- opcode: QUERY, status: NOERROR, id: 29356\n\
;; flags: qr rd ra; QUERY: 1, ANSWER: 9, AUTHORITY: 0, ADDITIONAL: 0\n\
\n\
;; QUESTION SECTION:\n\
;google.com.\t\t\tIN\tTXT\n\
\n\
;; ANSWER SECTION:\n\
google.com.\t\t3600\tIN\tTXT\t\"v=spf1 include:_spf.google.com ~all\"\n\
\n\
;; Query time: 0 msec\n\
;; SERVER: 192.168.0.49#53(192.168.0.49)\n\
;; WHEN: Mon Apr 04 12:25:44 UTC 2022\n\
;; MSG SIZE  rcvd: 614\n";

const CONNECTION_REFUSED: &str =
    ";; Connection to 8.8.8.8#212(8.8.8.8) for abc.com failed: connection refused.";

const FORMERR: &str = ";; Got bad packet: FORMERR\n205 bytes\nsome hex dump";

const SUCCESS_TRACE: &str = "; <<>> DiG 9.18.1-1ubuntu1-Ubuntu <<>> +trace +nocookie cdn.jsdelivr.net\n\
;; global options: +cmd\n\
.\t\t\t6593\tIN\tNS\tj.root-servers.net.\n\
.\t\t\t6593\tIN\tNS\ta.root-servers.net.\n\
;; Received 811 bytes from 127.0.0.53#53(127.0.0.53) in 4 ms\n\
\n\
cdn.jsdelivr.net.\t900\tIN\tCNAME\tjsdelivr.map.fastly.net.\n\
;; Received 79 bytes from 185.136.98.122#53(gns3.cloudns.net) in 28 ms\n";

// ── Classic ──────────────────────────────────────────────────────────────

#[test]
fn classic_parses_answers_and_metadata() {
    let r = parse_classic(SUCCESS_CLASSIC, &[]);
    assert_eq!(r.status, DnsStatus::Finished);
    assert_eq!(r.status_code_name.as_deref(), Some("NOERROR"));
    assert_eq!(r.status_code, Some(0));
    assert_eq!(r.timings.total, 0);
    // Private SERVER IP → rewritten to "private"
    assert_eq!(r.resolver.as_deref(), Some("private"));
    assert_eq!(r.answers.len(), 1);
    assert_eq!(r.answers[0].name, "google.com.");
    assert_eq!(r.answers[0].record_type, "TXT");
    assert_eq!(r.answers[0].ttl, 3600);
    assert_eq!(r.answers[0].class, "IN");
    assert!(r.answers[0].value.contains("v=spf1"));
    // rawOutput must contain the rewritten IP
    assert!(r.raw_output.contains("x.x.x.x"));
    assert!(!r.raw_output.contains("192.168.0.49"));
}

#[test]
fn classic_connection_refused_returns_failed() {
    let r = parse_classic(CONNECTION_REFUSED, &[]);
    assert_eq!(r.status, DnsStatus::Failed);
    assert!(r.answers.is_empty());
    assert_eq!(r.resolver, None);
    assert!(r.raw_output.contains("connection refused"));
}

#[test]
fn classic_bad_packet_returns_failed() {
    let r = parse_classic(FORMERR, &[]);
    assert_eq!(r.status, DnsStatus::Failed);
}

#[test]
fn classic_public_resolver_is_kept_as_is() {
    let output = "; <<>> DiG 9.16 <<>> google.com\n\
;; global options: +cmd\n\
;; Got answer:\n\
;; ->>HEADER<<- opcode: QUERY, status: NOERROR, id: 1\n\
;; flags: qr rd ra;\n\
\n\
;; QUESTION SECTION:\n\
;google.com.\tIN\tA\n\
\n\
;; ANSWER SECTION:\n\
google.com.\t300\tIN\tA\t142.250.200.46\n\
\n\
;; Query time: 5 msec\n\
;; SERVER: 8.8.8.8#53(8.8.8.8)\n\
;; MSG SIZE  rcvd: 55\n";
    let r = parse_classic(output, &[]);
    assert_eq!(r.resolver.as_deref(), Some("8.8.8.8"));
    assert!(!r.raw_output.contains("x.x.x.x"));
}

#[test]
fn classic_nxdomain_status_code() {
    let output = "; <<>> DiG 9.16 <<>> nxdomain-test.example\n\
;; global options: +cmd\n\
;; Got answer:\n\
;; ->>HEADER<<- opcode: QUERY, status: NXDOMAIN, id: 42\n\
;; flags: qr rd ra;\n\
\n\
;; QUESTION SECTION:\n\
;nxdomain-test.example.\tIN\tA\n\
\n\
;; ANSWER SECTION:\n\
\n\
;; Query time: 10 msec\n\
;; SERVER: 8.8.8.8#53(8.8.8.8)\n\
;; MSG SIZE  rcvd: 100\n";
    let r = parse_classic(output, &[]);
    assert_eq!(r.status_code_name.as_deref(), Some("NXDOMAIN"));
    assert_eq!(r.status_code, Some(3));
}

// ── Trace ─────────────────────────────────────────────────────────────────

#[test]
fn trace_parses_hops_resolvers_timings() {
    let r = parse_trace(SUCCESS_TRACE);
    assert_eq!(r.status, DnsStatus::Finished);
    assert_eq!(r.hops.len(), 2);

    let hop0 = &r.hops[0];
    assert_eq!(hop0.resolver.as_deref(), Some("127.0.0.53"));
    assert_eq!(hop0.timings.total, 4);
    assert_eq!(hop0.answers.len(), 2);
    assert_eq!(hop0.answers[0].name, ".");
    assert_eq!(hop0.answers[0].record_type, "NS");

    let hop1 = &r.hops[1];
    assert_eq!(hop1.resolver.as_deref(), Some("gns3.cloudns.net"));
    assert_eq!(hop1.timings.total, 28);
    assert_eq!(hop1.answers[0].record_type, "CNAME");
}

#[test]
fn trace_bad_packet_returns_failed() {
    let r = parse_trace(";; Got bad packet: FORMERR\n1 line\n");
    assert_eq!(r.status, DnsStatus::Failed);
}

// ── Answer line parsing ───────────────────────────────────────────────────

#[test]
fn answer_line_parses_txt_with_spaces() {
    let line = "google.com.\t3600\tIN\tTXT\t\"v=spf1 include:_spf.google.com ~all\"";
    let a = parse_answer_line(line).unwrap();
    assert_eq!(a.name, "google.com.");
    assert_eq!(a.record_type, "TXT");
    assert_eq!(a.ttl, 3600);
    assert_eq!(a.class, "IN");
    assert_eq!(a.value, "\"v=spf1 include:_spf.google.com ~all\"");
}

#[test]
fn answer_line_parses_ns_record() {
    let line = ".\t6593\tIN\tNS\tj.root-servers.net.";
    let a = parse_answer_line(line).unwrap();
    assert_eq!(a.name, ".");
    assert_eq!(a.record_type, "NS");
    assert_eq!(a.ttl, 6593);
    assert_eq!(a.value, "j.root-servers.net.");
}


// ── Fixture-based parser tests ────────────────────────────────────────────────

#[test]
fn classic_full_success_with_private_resolver() {
    // dig output of a successful TXT query on Linux.
    let raw = ";; Truncated, retrying in TCP mode.\n\
; <<>> DiG 9.16.1-Ubuntu <<>> google.com -t TXT -p 53 -4 +timeout=3 +tries=2 +nocookie\n\
;; global options: +cmd\n\
;; Got answer:\n\
;; ->>HEADER<<- opcode: QUERY, status: NOERROR, id: 29356\n\
;; flags: qr rd ra; QUERY: 1, ANSWER: 9, AUTHORITY: 0, ADDITIONAL: 0\n\
\n\
;; QUESTION SECTION:\n\
;google.com.\t\t\tIN\tTXT\n\
\n\
;; ANSWER SECTION:\n\
google.com.\t\t3600\tIN\tTXT\t\"v=spf1 include:_spf.google.com ~all\"\n\
google.com.\t\t3600\tIN\tTXT\t\"facebook-domain-verification=22rm551cu4k0ab0bxsw536tlds4h95\"\n\
\n\
;; Query time: 0 msec\n\
;; SERVER: 192.168.0.49#53(192.168.0.49)\n\
;; WHEN: Mon Apr 04 12:25:44 UTC 2022\n\
;; MSG SIZE  rcvd: 614\n";

    let r = parse_classic(raw, &[]);
    assert_eq!(r.status, DnsStatus::Finished);
    assert_eq!(r.status_code_name.as_deref(), Some("NOERROR"));
    assert_eq!(r.status_code, Some(0));
    assert_eq!(r.resolver.as_deref(), Some("private"));
    assert_eq!(r.timings.total, 0);
    assert_eq!(r.answers.len(), 2);
    assert_eq!(r.answers[0].name, "google.com.");
    assert_eq!(r.answers[0].record_type, "TXT");
    assert_eq!(r.answers[0].ttl, 3600);
    // rawOutput has private IP redacted
    assert!(r.raw_output.contains("x.x.x.x"));
    assert!(!r.raw_output.contains("192.168.0.49"));
}

#[test]
fn classic_connection_refused_fails_gracefully() {
    let raw = ";; Connection to 8.8.8.8#212(8.8.8.8) for abc.com failed: connection refused.";
    let r = parse_classic(raw, &[]);
    assert_eq!(r.status, DnsStatus::Failed);
    assert!(r.answers.is_empty());
    assert_eq!(r.resolver, None);
    assert_eq!(r.status_code_name, None);
    assert!(r.raw_output.contains("connection refused"));
}

#[test]
fn classic_bad_packet_fails() {
    let raw = ";; Got bad packet: FORMERR\n205 bytes\nsome hex\n";
    let r = parse_classic(raw, &[]);
    assert_eq!(r.status, DnsStatus::Failed);
}

#[test]
fn classic_public_resolver_not_redacted() {
    let raw = "; <<>> DiG 9.16 <<>> example.com\n\
;; global options: +cmd\n\
;; Got answer:\n\
;; ->>HEADER<<- opcode: QUERY, status: NOERROR, id: 1\n\
;; flags: qr rd ra;\n\
\n\
;; QUESTION SECTION:\n\
;example.com.\tIN\tA\n\
\n\
;; ANSWER SECTION:\n\
example.com.\t3600\tIN\tA\t93.184.216.34\n\
\n\
;; Query time: 12 msec\n\
;; SERVER: 8.8.8.8#53(8.8.8.8)\n\
;; MSG SIZE  rcvd: 56\n";

    let r = parse_classic(raw, &[]);
    assert_eq!(r.status, DnsStatus::Finished);
    assert_eq!(r.resolver.as_deref(), Some("8.8.8.8"));
    assert!(!r.raw_output.contains("x.x.x.x"));
    assert_eq!(r.timings.total, 12);
    assert_eq!(r.answers.len(), 1);
    assert_eq!(r.answers[0].value, "93.184.216.34");
}

#[test]
fn classic_nxdomain_returns_code_3() {
    let raw = "; <<>> DiG 9.16 <<>> nonexistent.invalid\n\
;; global options: +cmd\n\
;; Got answer:\n\
;; ->>HEADER<<- opcode: QUERY, status: NXDOMAIN, id: 42\n\
;; flags: qr rd ra;\n\
\n\
;; QUESTION SECTION:\n\
;nonexistent.invalid.\tIN\tA\n\
\n\
;; Query time: 5 msec\n\
;; SERVER: 8.8.8.8#53(8.8.8.8)\n\
;; MSG SIZE  rcvd: 44\n";

    let r = parse_classic(raw, &[]);
    assert_eq!(r.status_code_name.as_deref(), Some("NXDOMAIN"));
    assert_eq!(r.status_code, Some(3));
    assert!(r.answers.is_empty());
}

#[test]
fn trace_full_fixture() {
    // dig +trace output of a successful query (abbreviated).
    let raw = "; <<>> DiG 9.18.1 <<>> +trace cdn.jsdelivr.net\n\
;; global options: +cmd\n\
.\t\t\t6593\tIN\tNS\tj.root-servers.net.\n\
.\t\t\t6593\tIN\tNS\ta.root-servers.net.\n\
;; Received 811 bytes from 127.0.0.53#53(127.0.0.53) in 4 ms\n\
\n\
net.\t\t\t172800\tIN\tNS\ta.gtld-servers.net.\n\
;; Received 1173 bytes from 199.7.91.13#53(d.root-servers.net) in 24 ms\n\
\n\
cdn.jsdelivr.net.\t900\tIN\tCNAME\tjsdelivr.map.fastly.net.\n\
;; Received 79 bytes from 185.136.98.122#53(gns3.cloudns.net) in 28 ms\n";

    let r = parse_trace(raw);
    assert_eq!(r.status, DnsStatus::Finished);
    assert_eq!(r.hops.len(), 3);

    assert_eq!(r.hops[0].resolver.as_deref(), Some("127.0.0.53"));
    assert_eq!(r.hops[0].timings.total, 4);
    assert_eq!(r.hops[0].answers.len(), 2);

    assert_eq!(r.hops[1].resolver.as_deref(), Some("d.root-servers.net"));
    assert_eq!(r.hops[1].timings.total, 24);

    assert_eq!(r.hops[2].resolver.as_deref(), Some("gns3.cloudns.net"));
    assert_eq!(r.hops[2].timings.total, 28);
    assert_eq!(r.hops[2].answers[0].record_type, "CNAME");
    assert_eq!(r.hops[2].answers[0].value, "jsdelivr.map.fastly.net.");
}


#[test]
fn classic_query_time_in_other_digits_reads_as_zero() {
    let output = "; <<>> DiG 9.16 <<>> google.com\n\
;; global options: +cmd\n\
;; Got answer:\n\
;; ->>HEADER<<- opcode: QUERY, status: NOERROR, id: 1\n\
;; flags: qr rd ra;\n\
\n\
;; QUESTION SECTION:\n\
;google.com.\tIN\tA\n\
\n\
;; ANSWER SECTION:\n\
google.com.\t300\tIN\tA\t142.250.200.46\n\
\n\
;; Query time: 5 msec\n\
;; Query time: ١٢ msec\n\
;; SERVER: 8.8.8.8#53(8.8.8.8)\n\
;; MSG SIZE  rcvd: 55\n";
    let r = parse_classic(output, &[]);
    assert_eq!(r.timings.total, 0);
}
