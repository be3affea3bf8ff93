use globalping_probe::command::http::parse::{
    build_raw_output, dedup_headers, parse_header_file, parse_status_text, parse_tls_verbose, truncate_headers,
    HttpStatus,
};
use globalping_probe::command::http::{
    extract_pem, validate, HttpError, HttpOptions, HttpRequestOptions,
};

const TRUNCATION_MARK: &str = "...[truncated]";
const HEADERS_SIZE_LIMIT: usize = 10_000;


#[test]
fn parse_header_file_basic() {
    let raw = "HTTP/1.1 200 OK\r\nContent-Type: text/html\r\nX-Foo: bar\r\n\r\n";
    let pairs = parse_header_file(raw);
    assert_eq!(pairs.len(), 2);
    assert_eq!(pairs[0].0, "Content-Type");
    assert_eq!(pairs[0].1, "text/html");
    assert_eq!(pairs[1].0, "X-Foo");
    assert_eq!(pairs[1].1, "bar");
}

#[test]
fn parse_header_file_http2_lowercase() {
    let raw = "HTTP/2 200 \r\ncontent-type: application/json\r\n";
    let pairs = parse_header_file(raw);
    assert_eq!(pairs[0].0, "content-type");
}

#[test]
fn parse_status_text_ok() {
    assert_eq!(parse_status_text("HTTP/1.1 200 OK\r\n"), Some("OK".into()));
    assert_eq!(parse_status_text("HTTP/2 200 \r\n"), Some("".into()));
    assert_eq!(parse_status_text("HTTP/1.1 404 Not Found"), Some("Not Found".into()));
}

#[test]
fn truncate_headers_no_truncation_needed() {
    let pairs = vec![("X-Foo".into(), "bar".into())];
    let res = truncate_headers(pairs);
    assert!(!res.truncated);
    assert_eq!(res.headers.len(), 1);
}

#[test]
fn truncate_headers_shrinks_large_value() {
    // One header with a very large value
    let big_value = "x".repeat(11_000);
    let pairs = vec![("X-Big".into(), big_value)];
    let res = truncate_headers(pairs);
    assert!(res.truncated);
    let val = &res.headers[0].1;
    assert!(val.ends_with(TRUNCATION_MARK), "value should end with truncation mark: {}", &val[val.len().saturating_sub(20)..]);
    let raw_size = res.headers.iter().map(|(k, v)| k.len() + v.len() + 2).sum::<usize>();
    assert!(raw_size <= HEADERS_SIZE_LIMIT + 10, "output size should be within limit");
}

#[test]
fn truncate_headers_drops_headers_when_too_many() {
    // Many headers each with a large min-size
    let pairs: Vec<(String, String)> = (0..200)
        .map(|i| (format!("X-Header-{i:03}"), "x".repeat(100)))
        .collect();
    let res = truncate_headers(pairs);
    assert!(res.truncated);
    let total: usize = res.headers.iter()
        .map(|(k, v)| k.len() + v.len() + 3)
        .sum::<usize>()
        .saturating_sub(1);
    assert!(total <= HEADERS_SIZE_LIMIT, "total after truncation: {total}");
}

#[test]
fn parse_tls_verbose_extracts_fields() {
    let verbose = "\
* SSL connection using TLSv1.3 / TLS_AES_256_GCM_SHA384
* Server certificate:
*  subject: CN=cloudflare.com
*  start date: Oct  1 00:00:00 2024 GMT
*  expire date: Oct  1 23:59:59 2025 GMT
*  subjectAltName: host \"cloudflare.com\" matched cert's \"cloudflare.com\"
*  issuer: C=US; O=DigiCert Inc; CN=DigiCert TLS RSA SHA256 2020 CA1
";
    let tls = parse_tls_verbose(verbose, 0).expect("should parse TLS");
    assert!(tls.authorized);
    assert_eq!(tls.protocol.as_deref(), Some("TLSv1.3"));
    assert_eq!(tls.cipher_name.as_deref(), Some("TLS_AES_256_GCM_SHA384"));
    assert_eq!(tls.subject.cn.as_deref(), Some("cloudflare.com"));
    assert_eq!(tls.issuer.cn.as_deref(), Some("DigiCert TLS RSA SHA256 2020 CA1"));
    assert_eq!(tls.issuer.o.as_deref(), Some("DigiCert Inc"));
    assert_eq!(tls.issuer.c.as_deref(), Some("US"));
    assert!(tls.created_at.is_some());
    assert!(tls.expires_at.is_some());
}

#[test]
fn parse_tls_verbose_returns_none_for_http() {
    let verbose = "* Connected to example.com (1.2.3.4) port 80";
    assert!(parse_tls_verbose(verbose, 0).is_none());
}

#[test]
fn build_raw_output_head_no_body() {
    let out = build_raw_output(Some("1.1"), Some(200), Some("Content-Type: text/html"), None, "HEAD");
    assert!(out.is_some());
    let s = out.unwrap();
    assert!(s.starts_with("HTTP/1.1 200"));
    assert!(!s.contains("\n\n"));
}

#[test]
fn http_build_raw_output_get_with_body() {
    let out = build_raw_output(Some("1.1"), Some(200), Some("Content-Type: text/html"), Some("<html>"), "GET");
    let s = out.unwrap();
    assert!(s.contains("\n\n<html>"));
}



fn opts() -> HttpOptions {
    HttpOptions {
        target: "example.com".into(),
        resolver: None,
        protocol: "HTTPS".into(),
        port: None,
        ip_version: 4,
        in_progress_updates: false,
        request: HttpRequestOptions {
            method: "HEAD".into(),
            host: None,
            path: "/".into(),
            query: String::new(),
            headers: Vec::new(),
        },
    }
}

#[test]
fn accepts_clean_request() {
    assert!(validate(&opts(), &[]).is_ok());
}

#[test]
fn rejects_host_header_command_injection() {
    // Regression for the enrich_tls RCE: the Host override is used as the TLS
    // servername. Shell syntax here must never be accepted.
    for bad in [
        "evil.com; touch /tmp/pwned",
        "$(id)",
        "`id`",
        "a.com\nb",
        "evil.com -x",
    ] {
        let mut o = opts();
        o.request.host = Some(bad.into());
        assert!(validate(&o, &[]).is_err(), "should reject host {bad:?}");
    }
}

#[test]
fn rejects_argument_injection_target() {
    let mut o = opts();
    o.target = "-o/tmp/x".into();
    assert!(validate(&o, &[]).is_err());
}

#[test]
fn rejects_private_resolver() {
    let mut o = opts();
    o.resolver = Some("169.254.169.254".into());
    assert!(validate(&o, &[]).is_err());
}

#[test]
fn rejects_crlf_in_path_and_query() {
    let mut o = opts();
    o.request.path = "/x\r\nInjected: 1".into();
    assert!(validate(&o, &[]).is_err());
    let mut o = opts();
    o.request.query = "a=1 b".into();
    assert!(validate(&o, &[]).is_err());
}

#[test]
fn rejects_control_chars_in_headers() {
    let mut o = opts();
    o.request.headers.push(("X-Foo".into(), "bar\r\nEvil: 1".into()));
    assert!(validate(&o, &[]).is_err());
}

#[test]
fn extract_pem_pulls_only_cert_block() {
    let s = "noise\n-----BEGIN CERTIFICATE-----\nABC\n-----END CERTIFICATE-----\ntrailer";
    let pem = extract_pem(s).expect("should find PEM");
    assert!(pem.starts_with("-----BEGIN CERTIFICATE-----"));
    assert!(pem.ends_with("-----END CERTIFICATE-----"));
    assert!(!pem.contains("noise"));
    assert!(!pem.contains("trailer"));
}

#[test]
fn extract_pem_none_when_absent() {
    assert!(extract_pem("no cert here").is_none());
}

// ── Fixture-based parser tests ────────────────────────────────────────────────

const HEADER_FILE_HTTP11: &str = "HTTP/1.1 200 OK\r\n\
Content-Type: text/html; charset=utf-8\r\n\
Content-Length: 1234\r\n\
Set-Cookie: a=1; Path=/\r\n\
Set-Cookie: b=2; Path=/\r\n\
\r\n";

const HEADER_FILE_HTTP2: &str = "HTTP/2 301 \r\n\
content-type: text/html\r\n\
location: https://www.example.com/\r\n\
\r\n";

#[test]
fn parse_headers_http11() {
    let pairs = parse_header_file(HEADER_FILE_HTTP11);
    assert_eq!(pairs.len(), 4);
    assert_eq!(pairs[0].0, "Content-Type");
    assert_eq!(pairs[0].1, "text/html; charset=utf-8");
    assert_eq!(pairs[2].0, "Set-Cookie");
    assert_eq!(pairs[3].0, "Set-Cookie");
}

#[test]
fn parse_status_text_http11() {
    assert_eq!(parse_status_text(HEADER_FILE_HTTP11), Some("OK".into()));
}

#[test]
fn parse_status_text_http2_empty() {
    // HTTP/2 often has no status text after code
    assert_eq!(parse_status_text(HEADER_FILE_HTTP2), Some("".into()));
}

#[test]
fn parse_headers_http2_lowercase() {
    let pairs = parse_header_file(HEADER_FILE_HTTP2);
    assert_eq!(pairs[0].0, "content-type");
    assert_eq!(pairs[1].0, "location");
}

#[test]
fn truncate_no_op_for_small_headers() {
    let pairs = vec![("Content-Type".into(), "text/html".into())];
    let res = truncate_headers(pairs);
    assert!(!res.truncated);
    assert_eq!(res.headers.len(), 1);
}

#[test]
fn truncate_shrinks_large_value() {
    let pairs = vec![("X-Big".into(), "y".repeat(12_000))];
    let res = truncate_headers(pairs);
    assert!(res.truncated);
    assert!(res.headers[0].1.ends_with("...[truncated]"));
    let total: usize = res.headers.iter().map(|(k, v)| k.len() + v.len() + 3).sum::<usize>() - 1;
    assert!(total <= 10_000, "size after truncation: {total}");
}

#[test]
fn truncate_drops_excess_headers() {
    let pairs: Vec<(String, String)> = (0..300)
        .map(|i| (format!("X-H-{i:03}"), "val".repeat(10)))
        .collect();
    let res = truncate_headers(pairs);
    assert!(res.truncated);
    let total: usize = res.headers.iter().map(|(k, v)| k.len() + v.len() + 3).sum::<usize>().saturating_sub(1);
    assert!(total <= 10_000, "total {total} exceeds limit");
}

const TLS_VERBOSE: &str = "\
* SSL connection using TLSv1.3 / TLS_AES_256_GCM_SHA384
* ALPN: server accepted h2
* Server certificate:
*  subject: CN=cloudflare-dns.com
*  start date: Nov  5 00:00:00 2024 GMT
*  expire date: Nov  4 23:59:59 2025 GMT
*  subjectAltName: host \"cloudflare-dns.com\" matched cert's \"cloudflare-dns.com\"
*  issuer: C=US; O=Google Trust Services; CN=WR2
*  SSL certificate verify result: self-signed certificate (18), continuing anyway.
";

#[test]
fn parse_tls_verbose_ok() {
    let tls = parse_tls_verbose(TLS_VERBOSE, 18).expect("should parse TLS");
    assert!(!tls.authorized); // ssl_verify_result != 0
    assert_eq!(tls.protocol.as_deref(), Some("TLSv1.3"));
    assert_eq!(tls.cipher_name.as_deref(), Some("TLS_AES_256_GCM_SHA384"));
    assert_eq!(tls.subject.cn.as_deref(), Some("cloudflare-dns.com"));
    assert_eq!(tls.issuer.cn.as_deref(), Some("WR2"));
    assert_eq!(tls.issuer.o.as_deref(), Some("Google Trust Services"));
    assert_eq!(tls.issuer.c.as_deref(), Some("US"));
    assert!(tls.created_at.is_some(), "created_at should be parsed");
    assert!(tls.expires_at.is_some(), "expires_at should be parsed");
    // ISO 8601 format
    assert!(tls.created_at.as_deref().unwrap().contains('T'));
}

#[test]
fn parse_tls_verbose_authorized_true() {
    let tls = parse_tls_verbose(TLS_VERBOSE, 0).expect("TLS present");
    assert!(tls.authorized);
}

#[test]
fn parse_tls_verbose_no_tls_returns_none() {
    assert!(parse_tls_verbose("* Connected to example.com (1.2.3.4) port 80", 0).is_none());
}

#[test]
fn build_raw_output_head() {
    let out = build_raw_output(Some("1.1"), Some(200), Some("Content-Type: text/html"), None, "HEAD");
    let s = out.unwrap();
    assert!(s.starts_with("HTTP/1.1 200"));
    assert!(s.contains("Content-Type: text/html"));
    assert!(!s.contains("\n\n"));
}

#[test]
fn http_test_build_raw_output_get_with_body() {
    let out = build_raw_output(Some("2"), Some(200), Some("Content-Type: text/html"), Some("<html>hello</html>"), "GET");
    let s = out.unwrap();
    assert!(s.starts_with("HTTP/2 200"));
    assert!(s.contains("\n\n<html>hello</html>"));
}


fn group<'a>(map: &'a [(String, Vec<String>)], name: &str) -> Option<&'a Vec<String>> {
    map.iter().find(|(k, _)| k == name).map(|(_, v)| v)
}

#[test]
fn dedup_headers_singles() {
    let pairs = vec![
        ("Content-Type".to_string(), "text/html".to_string()),
        ("X-Foo".to_string(), "bar".to_string()),
    ];
    let map = dedup_headers(&pairs);
    assert_eq!(group(&map, "content-type"), Some(&vec!["text/html".to_string()]));
}

#[test]
fn dedup_headers_duplicates_become_array() {
    let pairs = vec![
        ("Set-Cookie".to_string(), "a=1".to_string()),
        ("Set-Cookie".to_string(), "b=2".to_string()),
    ];
    let map = dedup_headers(&pairs);
    let arr = group(&map, "set-cookie").unwrap();
    assert!(arr.len() > 1);
    assert_eq!(arr.len(), 2);
}

#[test]
fn dedup_sets_cookies_as_array() {
    let pairs = parse_header_file(HEADER_FILE_HTTP11);
    let map = dedup_headers(&pairs);
    assert!(group(&map, "set-cookie").map(|v| v.len() > 1).unwrap_or(false));
    let arr = group(&map, "set-cookie").unwrap();
    assert_eq!(arr.len(), 2);
}

#[test]
fn dedup_single_header_is_string() {
    let pairs = parse_header_file(HEADER_FILE_HTTP11);
    let map = dedup_headers(&pairs);
    assert_eq!(group(&map, "content-type"), Some(&vec!["text/html; charset=utf-8".to_string()]));
}

#[test]
fn dedup_keeps_first_appearance_order() {
    let pairs = vec![
        ("B".to_string(), "1".to_string()),
        ("a".to_string(), "2".to_string()),
        ("b".to_string(), "3".to_string()),
    ];
    let map = dedup_headers(&pairs);
    assert_eq!(map, vec![
        ("b".to_string(), vec!["1".to_string(), "3".to_string()]),
        ("a".to_string(), vec!["2".to_string()]),
    ]);
}

fn serialized_size(headers: &[(String, String)]) -> usize {
    headers.iter().map(|(k, v)| k.len() + v.len() + 3).sum::<usize>().saturating_sub(1)
}

#[test]
fn truncated_headers_fit_after_values_are_cut() {
    let pairs: Vec<(String, String)> = (0..3).map(|i| (format!("X-Big-{i}"), "v".repeat(5_000))).collect();
    let res = truncate_headers(pairs);
    assert!(res.truncated);
    assert_eq!(res.headers.len(), 3);
    assert!(res.headers.iter().all(|(_, v)| v.ends_with(TRUNCATION_MARK)));
    assert!(serialized_size(&res.headers) <= HEADERS_SIZE_LIMIT);
}

#[test]
fn truncated_headers_fit_when_cut_to_the_mark() {
    let pairs: Vec<(String, String)> = (0..800).map(|i| (format!("X-Header-{i:03}"), "y".repeat(20))).collect();
    let res = truncate_headers(pairs);
    assert!(res.truncated);
    assert!(res.headers.len() < 800);
    assert!(serialized_size(&res.headers) <= HEADERS_SIZE_LIMIT);
}

#[test]
fn curl_dates_become_rfc3339_utc() {
    assert_eq!(globalping_probe::command::http::parse::parse_curl_date("Nov  5 00:00:00 2024 GMT").as_deref(), Some("2024-11-05T00:00:00.000Z"));
    assert_eq!(globalping_probe::command::http::parse::parse_curl_date("Oct 21 13:45:07 2025 GMT").as_deref(), Some("2025-10-21T13:45:07.000Z"));
    assert_eq!(globalping_probe::command::http::parse::parse_curl_date("not a date"), None);
}

#[test]
fn curl_outcome_orders_no_response_then_private_address() {
    assert!(matches!(globalping_probe::command::http::curl_outcome(0, "1.1.1.1", "1.1.1.1", &[]), globalping_probe::command::http::CurlOutcome::NoResponse));
    assert!(matches!(globalping_probe::command::http::curl_outcome(200, "10.0.0.1", "1.1.1.1", &[]), globalping_probe::command::http::CurlOutcome::PrivateAddress));
    match globalping_probe::command::http::curl_outcome(200, "", "1.1.1.1", &[]) {
        globalping_probe::command::http::CurlOutcome::Answered(ip) => assert_eq!(ip, "1.1.1.1"),
        other => panic!("unexpected {other:?}"),
    }
    match globalping_probe::command::http::curl_outcome(301, "8.8.8.8", "1.1.1.1", &[]) {
        globalping_probe::command::http::CurlOutcome::Answered(ip) => assert_eq!(ip, "8.8.8.8"),
        other => panic!("unexpected {other:?}"),
    }
}

#[test]
fn body_is_capped_at_the_limit() {
    let (kept, cut) = globalping_probe::command::http::capped_body(&vec![b'a'; 10_001]);
    assert_eq!((kept.len(), cut), (10_000, true));
    let (kept, cut) = globalping_probe::command::http::capped_body(&vec![b'a'; 10_000]);
    assert_eq!((kept.len(), cut), (10_000, false));
    assert_eq!(globalping_probe::command::http::non_empty(String::new()), None);
    assert_eq!(globalping_probe::command::http::non_empty("x".to_string()).as_deref(), Some("x"));
    assert!(globalping_probe::command::http::uses_tls("https"));
    assert!(!globalping_probe::command::http::uses_tls("http"));
    assert!(globalping_probe::command::http::uses_tls("HTTP2"));
}
