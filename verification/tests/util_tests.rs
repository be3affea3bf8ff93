use globalping_probe::util::ip::{parse_ip_str, IpAddress};
use globalping_probe::util::output_limit::{truncate_output, MAX_RAW_OUTPUT_BYTES, TRUNCATION_MARKER};
use globalping_probe::util::private_ip::is_ip_private;
use globalping_probe::util::progress_buffer::{BufferMode, ProgressBuffer};
use globalping_probe::util::validate::{is_safe_host, is_safe_url_component};

fn ip(s: &str) -> IpAddress {
    parse_ip_str(s).unwrap()
}

fn field(out: &[(String, String)], name: &str) -> String {
    out.iter().find(|(k, _)| k == name).map(|(_, v)| v.clone()).unwrap()
}

// ── output limit ──



// ── truncate_output ───────────────────────────────────────────────────────

#[test]
fn short_string_returned_unchanged() {
    let s = "hello";
    assert_eq!(truncate_output(s, 100), "hello");
}

#[test]
fn string_exactly_at_limit_returned_unchanged() {
    let s = "a".repeat(64);
    let out = truncate_output(&s, 64);
    assert_eq!(out, s);
    assert!(!out.contains("[...truncated]"));
}

#[test]
fn string_over_limit_is_truncated_and_marked() {
    let s = "x".repeat(200);
    let out = truncate_output(&s, 100);
    assert!(out.len() < 200, "truncated output should be shorter");
    assert!(out.ends_with("[...truncated]"), "should end with marker");
    assert!(out.starts_with("xxx"), "should keep prefix");
}

#[test]
fn truncated_output_obeys_byte_limit_on_prefix() {
    let s = "a".repeat(1000);
    let out = truncate_output(&s, 50);
    // Prefix (before marker) must be ≤ 50 bytes
    let prefix = out.trim_end_matches("[...truncated]").trim_end_matches('\n');
    assert!(prefix.len() <= 50);
}

#[test]
fn truncation_marker_always_present_when_over_limit() {
    for limit in [1, 10, 100, 1024] {
        let s = "z".repeat(limit + 1);
        let out = truncate_output(&s, limit);
        assert!(out.contains("[...truncated]"), "limit={limit}");
    }
}

#[test]
fn no_marker_when_within_limit() {
    for limit in [5, 50, 500] {
        let s = "a".repeat(limit);
        assert!(!truncate_output(&s, limit).contains("[...truncated]"), "limit={limit}");
    }
}

#[test]
fn empty_string_returned_unchanged() {
    assert_eq!(truncate_output("", 10), "");
}

#[test]
fn zero_limit_gives_only_marker() {
    let out = truncate_output("hello", 0);
    assert_eq!(out, TRUNCATION_MARKER);
}

#[test]
fn valid_utf8_boundary_respected() {
    // "é" is 2 bytes (0xC3 0xA9). Cutting at byte 1 would split it.
    let s = "aé"; // bytes: [0x61, 0xC3, 0xA9]
    // limit=2 would catch the 'a' and first byte of 'é', but
    // truncate_output must not produce invalid UTF-8.
    let out = truncate_output(s, 2);
    assert!(std::str::from_utf8(out.as_bytes()).is_ok(), "must be valid UTF-8");
}

#[test]
fn multibyte_char_at_boundary_is_not_split() {
    let s = "hello\u{1F600}world"; // emoji = 4 bytes
    // limit places a cut right in the middle of the emoji
    let emoji_start = "hello".len(); // byte 5
    let out = truncate_output(s, emoji_start + 2); // cuts into emoji
    assert!(std::str::from_utf8(out.as_bytes()).is_ok());
    assert!(!out.contains('\u{1F600}'), "partial emoji must not appear");
}

#[test]
fn max_raw_output_bytes_constant_is_correct() {
    assert_eq!(MAX_RAW_OUTPUT_BYTES, 10_240);
}

// ── Constant ──────────────────────────────────────────────────────────────────

#[test]
fn max_raw_output_bytes_is_ten_kib() {
    assert_eq!(MAX_RAW_OUTPUT_BYTES, 10_240);
}

// ── truncate_output ───────────────────────────────────────────────────────────

#[test]
fn short_output_unchanged() {
    let s = "PING 1.1.1.1: 56 data bytes\n64 bytes from 1.1.1.1: seq=0 ttl=58 time=10 ms";
    assert_eq!(truncate_output(s, MAX_RAW_OUTPUT_BYTES), s);
}

#[test]
fn output_exactly_at_limit_unchanged() {
    let s = "a".repeat(MAX_RAW_OUTPUT_BYTES);
    let out = truncate_output(&s, MAX_RAW_OUTPUT_BYTES);
    assert_eq!(out.len(), MAX_RAW_OUTPUT_BYTES);
    assert!(!out.contains("[...truncated]"));
}

#[test]
fn output_one_byte_over_limit_gets_truncated() {
    let s = "b".repeat(MAX_RAW_OUTPUT_BYTES + 1);
    let out = truncate_output(&s, MAX_RAW_OUTPUT_BYTES);
    assert!(out.contains("[...truncated]"), "marker must appear");
    assert!(out.len() <= MAX_RAW_OUTPUT_BYTES + "[...truncated]".len() + 1);
}

#[test]
fn truncated_output_is_valid_utf8() {
    // Build a string where a 4-byte emoji straddles the cut point.
    // Pad to MAX_RAW_OUTPUT_BYTES - 2 with ASCII, then append the emoji.
    let pad = "a".repeat(MAX_RAW_OUTPUT_BYTES - 2);
    let emoji = "\u{1F4E1}"; // 4 bytes — antenna emoji
    let s = format!("{pad}{emoji}");
    // The cut at MAX_RAW_OUTPUT_BYTES falls inside the emoji; truncate_output
    // must walk back to a valid boundary and not produce invalid UTF-8.
    let out = truncate_output(&s, MAX_RAW_OUTPUT_BYTES);
    assert!(std::str::from_utf8(out.as_bytes()).is_ok(), "output must be valid UTF-8");
    assert!(out.contains("[...truncated]"));
}

#[test]
fn large_output_prefix_preserved() {
    let s = format!("HEADER\n{}\nFOOTER", "x".repeat(50_000));
    let out = truncate_output(&s, MAX_RAW_OUTPUT_BYTES);
    assert!(out.starts_with("HEADER"), "prefix must be preserved");
    assert!(out.contains("[...truncated]"));
}

#[test]
fn empty_input_returned_unchanged() {
    assert_eq!(truncate_output("", MAX_RAW_OUTPUT_BYTES), "");
}


// ── progress buffer ──



#[test]
fn append_mode_concatenates_values() {
    let mut buf = ProgressBuffer::new(BufferMode::Append);
    buf.push("rawOutput", "line1\n");
    buf.push("rawOutput", "line2\n");
    let out = buf.take_progress();
    assert_eq!(field(&out, "rawOutput"), "line1\nline2\n");
}

#[test]
fn diff_mode_returns_only_new_content() {
    let mut buf = ProgressBuffer::new(BufferMode::Diff);
    buf.push("rawOutput", "line1\n");
    let first = buf.take_progress();
    assert_eq!(field(&first, "rawOutput"), "line1\n");

    buf.push("rawOutput", "line1\nline2\n");
    let second = buf.take_progress();
    assert_eq!(field(&second, "rawOutput"), "line2\n");
}

#[test]
fn overwrite_mode_replaces_value() {
    let mut buf = ProgressBuffer::new(BufferMode::Overwrite);
    buf.push("rawOutput", "first");
    buf.push("rawOutput", "second");
    let out = buf.take_progress();
    assert_eq!(field(&out, "rawOutput"), "second");
}

#[test]
fn is_first_returns_true_once() {
    let mut buf = ProgressBuffer::new(BufferMode::Append);
    assert!(buf.is_first_progress());
    assert!(!buf.is_first_progress());
}

#[test]
fn append_mode_accumulates_across_calls() {
    let mut buf = ProgressBuffer::new(BufferMode::Append);
    buf.push("rawOutput", "PING 1.1.1.1\n");
    buf.push("rawOutput", "64 bytes from 1.1.1.1: icmp_seq=1\n");
    buf.push("rawOutput", "64 bytes from 1.1.1.1: icmp_seq=2\n");

    let out = buf.take_progress();
    assert_eq!(
        field(&out, "rawOutput"),
        "PING 1.1.1.1\n64 bytes from 1.1.1.1: icmp_seq=1\n64 bytes from 1.1.1.1: icmp_seq=2\n"
    );
}

#[test]
fn diff_mode_emits_only_incremental_output() {
    let mut buf = ProgressBuffer::new(BufferMode::Diff);

    buf.push("rawOutput", "line1\n");
    let d1 = buf.take_progress();
    assert_eq!(field(&d1, "rawOutput"), "line1\n");

    buf.push("rawOutput", "line1\nline2\n");
    let d2 = buf.take_progress();
    assert_eq!(field(&d2, "rawOutput"), "line2\n");

    buf.push("rawOutput", "line1\nline2\nline3\n");
    let d3 = buf.take_progress();
    assert_eq!(field(&d3, "rawOutput"), "line3\n");
}

// ── validation ──



#[test]
fn accepts_plain_hostnames() {
    assert!(is_safe_host("example.com"));
    assert!(is_safe_host("a.b.c.example.co.uk"));
    assert!(is_safe_host("_dmarc.example.com"));
    assert!(is_safe_host("xn--nxasmq6b.example")); // punycode IDN
    assert!(is_safe_host("host-name123.net"));
}

#[test]
fn accepts_ip_literals() {
    assert!(is_safe_host("1.1.1.1"));
    assert!(is_safe_host("8.8.8.8"));
    assert!(is_safe_host("2606:4700:4700::1111"));
    assert!(is_safe_host("::1"));
    assert!(is_safe_host("::ffff:127.0.0.1"));
}

#[test]
fn rejects_leading_dash_argument_injection() {
    // The core argument-injection vectors.
    assert!(!is_safe_host("-O"));
    assert!(!is_safe_host("--help"));
    assert!(!is_safe_host("-f/etc/passwd"));
    assert!(!is_safe_host("-oxx"));
    assert!(!is_safe_host("--resolve=evil"));
}

#[test]
fn rejects_shell_metacharacters() {
    assert!(!is_safe_host("evil.com; touch /tmp/pwned"));
    assert!(!is_safe_host("$(id)"));
    assert!(!is_safe_host("`id`"));
    assert!(!is_safe_host("a|b"));
    assert!(!is_safe_host("a&b"));
    assert!(!is_safe_host("a>b"));
    assert!(!is_safe_host("a b"));
    assert!(!is_safe_host("a\nb"));
    assert!(!is_safe_host("evil.com\r\nHost: other"));
    assert!(!is_safe_host("a'b"));
    assert!(!is_safe_host("a\"b"));
    assert!(!is_safe_host("a\\b"));
    assert!(!is_safe_host("a/b")); // slash is not valid in a hostname
    assert!(!is_safe_host("a@b")); // '@' is dig's resolver sigil
}

#[test]
fn rejects_empty_and_oversized() {
    assert!(!is_safe_host(""));
    assert!(!is_safe_host(&"a".repeat(254)));
    assert!(!is_safe_host(".leadingdot.com"));
}

#[test]
fn url_component_rejects_control_and_space() {
    assert!(is_safe_url_component("/path/to/page?x=1&y=2"));
    assert!(is_safe_url_component("/%20encoded"));
    assert!(!is_safe_url_component("/path with space"));
    assert!(!is_safe_url_component("/path\r\nInjected: header"));
    assert!(!is_safe_url_component("/null\0byte"));
}

// ── private addresses ──



#[test]
fn private_ipv4_ranges_are_blocked() {
    assert!(is_ip_private(ip("10.0.0.1"), &[]));
    assert!(is_ip_private(ip("192.168.1.1"), &[]));
    assert!(is_ip_private(ip("172.16.0.1"), &[]));
    assert!(is_ip_private(ip("127.0.0.1"), &[]));
}

#[test]
fn public_ipv4_is_allowed() {
    assert!(!is_ip_private(ip("1.1.1.1"), &[]));
    assert!(!is_ip_private(ip("8.8.8.8"), &[]));
}

#[test]
fn private_ipv6_ranges_are_blocked() {
    assert!(is_ip_private(ip("::1"), &[]));
    assert!(is_ip_private(ip("fc00::1"), &[]));
    assert!(is_ip_private(ip("fe80::1"), &[]));
}

#[test]
fn ipv4_mapped_ipv6_private_is_blocked() {
    // Regression: these must not bypass the filter via the IPv6 encoding.
    assert!(is_ip_private(ip("::ffff:127.0.0.1"), &[]));
    assert!(is_ip_private(ip("::ffff:10.0.0.1"), &[]));
    assert!(is_ip_private(ip("::ffff:192.168.1.1"), &[]));
    assert!(is_ip_private(ip("::ffff:169.254.169.254"), &[])); // cloud metadata
}

#[test]
fn ipv4_mapped_ipv6_public_is_allowed() {
    // Mapped *public* addresses must still be permitted (normalise, don't blanket-block).
    assert!(!is_ip_private(ip("::ffff:1.1.1.1"), &[]));
    assert!(!is_ip_private(ip("::ffff:8.8.8.8"), &[]));
}

#[test]
fn nat64_embedded_private_is_blocked() {
    // 64:ff9b::169.254.169.254 → 169.254.169.254
    assert!(is_ip_private(ip("64:ff9b::a9fe:a9fe"), &[]));
    // 64:ff9b::10.0.0.1
    assert!(is_ip_private(ip("64:ff9b::a00:1"), &[]));
}

#[test]
fn blocks_all_rfc_private_ranges() {
    let private_cases = [
        "10.0.0.1", "10.255.255.255",
        "192.168.0.1", "192.168.255.255",
        "172.16.0.1", "172.31.255.255",
        "127.0.0.1", "127.255.255.255",
        "169.254.0.1",
        "100.64.0.1",
        "::1",
        "fc00::1", "fdff::1",
        "fe80::1",
    ];

    for ip in private_cases {
        let parsed = parse_ip_str(ip).unwrap();
        assert!(is_ip_private(parsed, &[]), "{ip} should be private");
    }
}

#[test]
fn allows_public_ips() {
    let public_cases = ["1.1.1.1", "8.8.8.8", "2606:4700:4700::1111"];

    for ip in public_cases {
        let parsed = parse_ip_str(ip).unwrap();
        assert!(!is_ip_private(parsed, &[]), "{ip} should be public");
    }
}

#[test]
fn truncated_output_within_limit_plus_marker() {
    let s = "é".repeat(100);
    let out = truncate_output(&s, 51);
    assert!(out.len() <= 51 + "\n[...truncated]".len());
    assert_eq!(out, format!("{}\n[...truncated]", "é".repeat(25)));
}

fn log_entry(message: &str) -> globalping_probe::util::logs_transport::LogEntry {
    globalping_probe::util::logs_transport::LogEntry {
        message: message.to_string(),
        level: "info".to_string(),
        timestamp: "2025-01-01T00:00:00.000Z".to_string(),
        scope: "general".to_string(),
    }
}

#[test]
fn logs_buffer_keeps_the_newest_in_push_order() {
    let mut buf = globalping_probe::util::logs_transport::ApiLogsBuffer::new();
    buf.update(Some(true), None, Some(2));
    for m in ["a", "b", "c", "d", "e"] {
        buf.push(log_entry(m));
    }
    let (logs, skipped) = buf.take().expect("entries are buffered");
    let messages: Vec<&str> = logs.iter().map(|e| e.message.as_str()).collect();
    assert_eq!(messages, vec!["d", "e"]);
    assert_eq!(skipped, 3);
    assert!(buf.take().is_none());
}

#[test]
fn first_progress_is_true_once_across_pushes_and_takes() {
    let mut buf = ProgressBuffer::new(BufferMode::Diff);
    buf.push("rawOutput", "a");
    assert!(buf.is_first_progress());
    let _ = buf.take_progress();
    buf.push("rawOutput", "ab");
    assert!(!buf.is_first_progress());
    let _ = buf.take_progress();
    assert!(!buf.is_first_progress());
}
