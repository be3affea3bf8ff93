use globalping_probe::command::http::openssl::{
    apply_x509_text, first_resolved_address, resolve_args, s_client_args, verify_verdict, x509_args,
};
use globalping_probe::command::http::parse::{TlsInfo, TlsIssuer, TlsSubject};
use globalping_probe::command::mtr::parse::failed_output;
use globalping_probe::command::ping::parse::{is_reply_line, refused_result, resolved_private, PingStatus};
use globalping_probe::command::traceroute::parse::{finish, is_hop_line, TracerouteStatus};
use globalping_probe::probe::alt_ips::{order_confirmed, parse_global_addrs};
use globalping_probe::probe::client::{
    admission, unknown_type_output, Admission, TIMED_OUT_OUTPUT,
};
use globalping_probe::status::status_manager::ProbeStatus;
use globalping_probe::text::float_text_exec;
use globalping_probe::util::ip::IpAddress;
use globalping_probe::util::logs_transport::{make_entry, ApiLogsLayer};
use globalping_probe::util::output_limit::{limited_raw_output, MAX_RAW_OUTPUT_BYTES};

fn chars(s: &str) -> Vec<char> {
    s.chars().collect()
}

#[test]
fn admission_needs_slot_then_ready() {
    assert_eq!(admission(false, ProbeStatus::Ready), Admission::Busy);
    assert_eq!(admission(true, ProbeStatus::Initializing), Admission::NotReady);
    assert_eq!(admission(true, ProbeStatus::Sigterm), Admission::NotReady);
    assert_eq!(admission(true, ProbeStatus::Ready), Admission::Accept);
}

#[test]
fn failure_texts() {
    assert_eq!(unknown_type_output("foo"), "Unknown measurement type: foo");
    assert_eq!(TIMED_OUT_OUTPUT, "Measurement timed out.");
}

#[test]
fn global_addresses_are_read_from_ip_output() {
    let out = "\
2: eth0    inet 203.0.113.7/24 brd 203.0.113.255 scope global eth0\\       valid_lft forever
2: eth0    inet6 2001:db8::7/64 scope global \\       valid_lft forever
3: eth1    inet 169.254.3.4/16 scope global eth1
3: eth1    inet6 FE80::1/64 scope global
4: eth2    inet not-an-ip/8 scope global
";
    let ips = parse_global_addrs(out);
    assert_eq!(ips, vec![IpAddress::V4(0xCB00_7107), IpAddress::V6(0x2001_0db8_0000_0000_0000_0000_0000_0007)]);
    assert!(parse_global_addrs("").is_empty());
}

#[test]
fn confirmed_addresses_list_ipv4_first() {
    let confirmed = vec!["2001:db8::1".to_string(), "1.2.3.4".to_string(), "1.2.3.4".to_string(), "5.6.7.8".to_string()];
    let order = order_confirmed("9.9.9.9", &confirmed);
    assert_eq!(order, vec!["9.9.9.9", "1.2.3.4", "5.6.7.8", "2001:db8::1"]);
    let order = order_confirmed("2001:db8::9", &vec!["9.9.9.9".to_string()]);
    assert_eq!(order, vec!["9.9.9.9", "2001:db8::9"]);
}

#[test]
fn float_literals_follow_the_documented_grammar() {
    for ok in ["1", "1.", ".5", "1.5e10", "1E-3", "+2", "-0.0", "inf", "-Infinity", "NaN", "12345"] {
        assert!(float_text_exec(&chars(ok)), "{ok}");
        assert!(ok.parse::<f64>().is_ok(), "{ok}");
    }
    for bad in ["", ".", "e5", "1e", "1e+", "--1", "1_0", " 1", "abc", "1.2.3", "infinit"] {
        assert!(!float_text_exec(&chars(bad)), "{bad}");
        assert!(bad.parse::<f64>().is_err(), "{bad}");
    }
}

#[test]
fn raw_output_is_limited_only_when_over() {
    assert_eq!(limited_raw_output("short"), None);
    let exact = "a".repeat(MAX_RAW_OUTPUT_BYTES);
    assert_eq!(limited_raw_output(&exact), None);
    let big = "a".repeat(MAX_RAW_OUTPUT_BYTES + 1);
    let cut = limited_raw_output(&big).unwrap();
    assert!(cut.ends_with("\n[...truncated]"));
    assert!(cut.starts_with(&"a".repeat(MAX_RAW_OUTPUT_BYTES)));
}

#[test]
fn log_entries_are_built_from_events() {
    let e = make_entry("INFO", "api:connect", "hello".to_string(), "T".to_string()).unwrap();
    assert_eq!((e.message.as_str(), e.level.as_str(), e.timestamp.as_str(), e.scope.as_str()), ("hello", "info", "T", "api:connect"));
    let e = make_entry("WARN", "globalping::probe", "m".to_string(), "T".to_string()).unwrap();
    assert_eq!(e.scope, "general");
    assert!(make_entry("INFO", "log", "m".to_string(), "T".to_string()).is_none());
    let e = ApiLogsLayer.entry("ERROR", "status-manager", "x".to_string()).unwrap();
    assert_eq!((e.level.as_str(), e.scope.as_str()), ("error", "status-manager"));
    assert!(e.timestamp.ends_with('Z'));
}

fn tls() -> TlsInfo {
    TlsInfo {
        authorized: false,
        protocol: None,
        cipher_name: None,
        created_at: None,
        expires_at: None,
        subject: TlsSubject { cn: Some("example.com".into()), alt: None },
        issuer: TlsIssuer::default(),
        key_type: None,
        key_bits: None,
        serial_number: None,
        fingerprint256: None,
        public_key: None,
    }
}

#[test]
fn dig_short_arguments_and_answer() {
    assert_eq!(resolve_args("example.com", None, 4), vec!["example.com", "A", "+short", "+time=2", "+tries=1"]);
    assert_eq!(resolve_args("example.com", Some("1.1.1.1"), 6), vec!["@1.1.1.1", "example.com", "AAAA", "+short", "+time=2", "+tries=1"]);
    assert_eq!(first_resolved_address(";; comment\nexample.net.\n  93.184.216.34 \n1.2.3.4\n").as_deref(), Some("93.184.216.34"));
    assert_eq!(first_resolved_address("cname.example.\n"), None);
}

#[test]
fn s_client_arguments() {
    assert_eq!(s_client_args("1.2.3.4", 443, "example.com"), vec!["s_client", "-connect", "1.2.3.4:443", "-servername", "example.com"]);
    assert_eq!(s_client_args("2606:4700::1", 8443, "1.1.1.1"), vec!["s_client", "-connect", "[2606:4700::1]:8443", "-noservername"]);
    assert_eq!(x509_args(), vec!["x509", "-noout", "-fingerprint", "-sha256", "-serial", "-text"]);
}

#[test]
fn verify_return_code_is_read() {
    assert_eq!(verify_verdict("depth=0\nVerify return code: 0 (ok)\n"), Some(true));
    assert_eq!(verify_verdict("Verify return code: 20 (unable to get local issuer certificate)\n"), Some(false));
    assert_eq!(verify_verdict("nothing here\n"), None);
}

#[test]
fn x509_text_fills_certificate_fields() {
    let text = "\
sha256 Fingerprint=AA:BB:CC
serial=0a1b2c
Certificate:
        Subject Public Key Info:
            Public Key Algorithm: id-ecPublicKey
                Public-Key: (256 bit)
        X509v3 extensions:
            X509v3 Subject Alternative Name: 
                DNS:example.com, DNS:www.example.com
";
    let mut t = tls();
    apply_x509_text(&mut t, text);
    assert_eq!(t.fingerprint256.as_deref(), Some("AA:BB:CC"));
    assert_eq!(t.serial_number.as_deref(), Some("0A:1B:2C"));
    assert_eq!(t.key_type.as_deref(), Some("EC"));
    assert_eq!(t.key_bits, Some(256));
    assert_eq!(t.subject.alt.as_deref(), Some("DNS:example.com, DNS:www.example.com"));
    assert_eq!(t.subject.cn.as_deref(), Some("example.com"));
    let mut r = tls();
    apply_x509_text(&mut r, "SHA256 Fingerprint= 11:22 \nPublic Key Algorithm: rsaEncryption\nserial=ABC\n");
    assert_eq!(r.fingerprint256.as_deref(), Some("11:22"));
    assert_eq!(r.key_type.as_deref(), Some("RSA"));
    assert_eq!(r.serial_number.as_deref(), Some("AB:C"));
}

#[test]
fn ping_run_decisions() {
    assert!(is_reply_line("64 bytes from 1.1.1.1: icmp_seq=1 ttl=58 time=41.7 ms"));
    assert!(!is_reply_line("no answer yet for icmp_seq=2"));
    assert!(!is_reply_line(" time= then bytes from x"));
    assert_eq!(resolved_private("PING a (10.0.0.1) 56(84) bytes of data.\n", &[]), Some(true));
    assert_eq!(resolved_private("PING a (1.1.1.1) 56(84) bytes of data.\n", &[]), Some(false));
    assert_eq!(resolved_private("ping: unknown host\n", &[]), None);
    let r = refused_result();
    assert_eq!(r.status, PingStatus::Failed);
    assert_eq!(r.raw_output, "Private IP ranges are not allowed.");
}

#[test]
fn traceroute_run_decisions() {
    assert!(is_hop_line(" 1  _gateway (192.168.1.1)  1.2 ms"));
    assert!(is_hop_line("12 * * *"));
    assert!(!is_hop_line("traceroute to 1.1.1.1 (1.1.1.1), 20 hops max"));
    assert!(!is_hop_line("  7"));
    let r = finish("  \n", &[]);
    assert_eq!(r.status, TracerouteStatus::Failed);
    assert_eq!(r.raw_output, "");
    let r = finish("traceroute to 10.0.0.1 (10.0.0.1), 20 hops max\n 1  10.0.0.1 (10.0.0.1)  1.0 ms", &[]);
    assert_eq!(r.status, TracerouteStatus::Failed);
    assert_eq!(r.raw_output, "Private IP ranges are not allowed.");
    assert!(r.hops.is_empty());
    let r = finish("traceroute to 1.1.1.1 (1.1.1.1), 20 hops max\n 1  1.1.1.1 (1.1.1.1)  1.0 ms", &[]);
    assert_eq!(r.status, TracerouteStatus::Finished);
}

#[test]
fn mtr_failure_output() {
    assert_eq!(failed_output("  \n"), "Test failed. Please try again.");
    assert_eq!(failed_output("mtr: unable to get raw sockets\n"), "mtr: unable to get raw sockets\n");
}
