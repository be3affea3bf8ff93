use globalping_probe::command::{measurement_type, MeasurementType};
use globalping_probe::probe::client::{connection_url, ClientConfig, VERSION};
use globalping_probe::probe::reconnect::{
    classify_error, reconnect_delay, ConnectOutcome, Delay, ExponentialBackoff,
};
use globalping_probe::probe::dns_servers::parse_resolv_conf;
use globalping_probe::probe::stats::MeasurementStats;
use globalping_probe::probe::sysinfo::{parse_df_output, parse_meminfo_total};

// ── client ──

fn cfg(uuid: &str) -> ClientConfig {
    ClientConfig {
        api_host: "https://api.globalping.io".into(),
        uuid: uuid.into(),
        ping_target: "api.globalping.io".into(),
        adoption_token: None,
    }
}

#[test]
fn url_contains_required_fields() {
    let url = connection_url(&cfg("my-uuid-123"), 0, 0, 0);
    assert!(url.contains("uuid=my-uuid-123"), "url: {url}");
    assert!(url.contains(&format!("version={VERSION}")), "url: {url}");
    assert!(url.contains("totalMemory="), "url: {url}");
    assert!(url.contains("totalDiskSize="), "url: {url}");
    assert!(url.contains("availableDiskSpace="), "url: {url}");
    assert!(url.contains("nodeVersion=v22.22.3"), "url: {url}");
}

#[test]
fn url_base_is_api_host() {
    let url = connection_url(&cfg("x"), 0, 0, 0);
    assert!(url.starts_with("https://api.globalping.io?"), "url: {url}");
}

#[test]
fn url_includes_adoption_token_when_set() {
    let mut c = cfg("u");
    c.adoption_token = Some("mytoken123".into());
    let url = connection_url(&c, 0, 0, 0);
    assert!(url.contains("adoptionToken=mytoken123"), "url: {url}");
}

#[test]
fn url_omits_adoption_token_when_none() {
    let url = connection_url(&cfg("u"), 0, 0, 0);
    assert!(!url.contains("adoptionToken"), "url: {url}");
}




// ── classify_error ────────────────────────────────────────────────────────

#[test]
fn classifies_ip_limit() {
    assert_eq!(classify_error("ip limit"), ConnectOutcome::IpLimitOrVpn);
    assert_eq!(classify_error("IP LIMIT"), ConnectOutcome::IpLimitOrVpn);
}

#[test]
fn classifies_vpn() {
    assert_eq!(classify_error("vpn detected"), ConnectOutcome::IpLimitOrVpn);
    assert_eq!(classify_error("VPN"), ConnectOutcome::IpLimitOrVpn);
}

#[test]
fn classifies_geoip() {
    assert_eq!(classify_error("geoip lookup failed"), ConnectOutcome::IpLimitOrVpn);
}

#[test]
fn classifies_metadata() {
    assert_eq!(classify_error("invalid metadata"), ConnectOutcome::MetadataError);
    assert_eq!(classify_error("metadata error"), ConnectOutcome::MetadataError);
}

#[test]
fn classifies_invalid_version() {
    assert_eq!(classify_error("invalid probe version (0.1.0)"), ConnectOutcome::InvalidVersion);
    assert_eq!(classify_error("invalid version"), ConnectOutcome::InvalidVersion);
}

#[test]
fn classifies_server_terminating() {
    assert_eq!(classify_error("server-terminating"), ConnectOutcome::ServerTerminating);
    assert_eq!(classify_error("server terminating"), ConnectOutcome::ServerTerminating);
}

#[test]
fn classifies_unknown_as_transient() {
    assert_eq!(classify_error(""), ConnectOutcome::Transient);
    assert_eq!(classify_error("connection reset by peer"), ConnectOutcome::Transient);
    assert_eq!(classify_error("timeout"), ConnectOutcome::Transient);
}

// ── reconnect_delay ───────────────────────────────────────────────────────

#[test]
fn clean_shutdown_returns_none() {
    let mut bo = ExponentialBackoff::new(Delay::from_secs(1), Delay::from_secs(300));
    assert_eq!(reconnect_delay(&ConnectOutcome::CleanShutdown, &mut bo), None);
}

#[test]
fn invalid_version_returns_none() {
    let mut bo = ExponentialBackoff::new(Delay::from_secs(1), Delay::from_secs(300));
    assert_eq!(reconnect_delay(&ConnectOutcome::InvalidVersion, &mut bo), None);
}

#[test]
fn ip_limit_returns_one_hour() {
    let mut bo = ExponentialBackoff::new(Delay::from_secs(1), Delay::from_secs(300));
    assert_eq!(reconnect_delay(&ConnectOutcome::IpLimitOrVpn, &mut bo), Some(Delay::from_secs(3600)));
}

#[test]
fn metadata_error_returns_one_minute() {
    let mut bo = ExponentialBackoff::new(Delay::from_secs(1), Delay::from_secs(300));
    assert_eq!(reconnect_delay(&ConnectOutcome::MetadataError, &mut bo), Some(Delay::from_secs(60)));
}

#[test]
fn server_terminating_returns_zero() {
    let mut bo = ExponentialBackoff::new(Delay::from_secs(1), Delay::from_secs(300));
    assert_eq!(reconnect_delay(&ConnectOutcome::ServerTerminating, &mut bo), Some(Delay::zero()));
}

#[test]
fn transient_uses_backoff() {
    let mut bo = ExponentialBackoff::new(Delay::from_secs(1), Delay::from_secs(300));
    assert_eq!(reconnect_delay(&ConnectOutcome::Transient, &mut bo), Some(Delay::from_secs(1)));
    assert_eq!(reconnect_delay(&ConnectOutcome::Transient, &mut bo), Some(Delay::from_secs(2)));
    assert_eq!(reconnect_delay(&ConnectOutcome::Transient, &mut bo), Some(Delay::from_secs(4)));
}

// ── ExponentialBackoff ────────────────────────────────────────────────────

#[test]
fn backoff_doubles_each_call() {
    let mut bo = ExponentialBackoff::new(Delay::from_secs(1), Delay::from_secs(300));
    assert_eq!(bo.next(), Delay::from_secs(1));
    assert_eq!(bo.next(), Delay::from_secs(2));
    assert_eq!(bo.next(), Delay::from_secs(4));
    assert_eq!(bo.next(), Delay::from_secs(8));
}

#[test]
fn backoff_clamps_at_max() {
    let mut bo = ExponentialBackoff::new(Delay::from_secs(128), Delay::from_secs(300));
    bo.next(); // 128
    bo.next(); // 256
    bo.next(); // would be 512, clamped to 300
    assert_eq!(bo.next(), Delay::from_secs(300));
}

#[test]
fn backoff_resets_to_min() {
    let mut bo = ExponentialBackoff::new(Delay::from_secs(1), Delay::from_secs(300));
    bo.next(); bo.next(); bo.next(); // advance a few times
    bo.reset();
    assert_eq!(bo.next(), Delay::from_secs(1));
}



#[test]
fn initial_counts_are_zero() {
    let mut s = MeasurementStats::new();
    assert_eq!(s.started(), 0);
    assert_eq!(s.finished(), 0);
}

#[test]
fn record_start_increments() {
    let mut s = MeasurementStats::new();
    s.record_start();
    s.record_start();
    assert_eq!(s.started(), 2);
    assert_eq!(s.finished(), 0);
}

#[test]
fn record_finish_increments() {
    let mut s = MeasurementStats::new();
    s.record_start();
    s.record_finish();
    assert_eq!(s.started(), 1);
    assert_eq!(s.finished(), 1);
}

#[test]
fn take_returns_snapshot_and_resets() {
    let mut s = MeasurementStats::new();
    s.record_start();
    s.record_start();
    s.record_finish();
    let (started, finished) = s.take();
    assert_eq!(started, 2);
    assert_eq!(finished, 1);
    // counters reset after take
    assert_eq!(s.started(), 0);
    assert_eq!(s.finished(), 0);
}

#[test]
fn take_on_zero_returns_zeros() {
    let mut s = MeasurementStats::new();
    let (a, b) = s.take();
    assert_eq!(a, 0);
    assert_eq!(b, 0);
}

#[test]
fn second_take_after_new_activity() {
    let mut s = MeasurementStats::new();
    s.record_start();
    s.take(); // clears to 0
    s.record_start();
    s.record_start();
    let (started, _) = s.take();
    assert_eq!(started, 2);
}



const MEMINFO: &str = "MemTotal:       16282616 kB\n\
MemFree:         8192000 kB\n\
MemAvailable:   12000000 kB\n";

#[test]
fn parses_mem_total_from_meminfo() {
    let bytes = parse_meminfo_total(MEMINFO);
    assert_eq!(bytes, 16_282_616 * 1024);
}

#[test]
fn returns_zero_when_meminfo_missing_key() {
    let bytes = parse_meminfo_total("SomethingElse: 1234 kB\n");
    assert_eq!(bytes, 0);
}

#[test]
fn returns_zero_on_empty_meminfo() {
    assert_eq!(parse_meminfo_total(""), 0);
}

const DF_OUTPUT: &str = "1M-blocks Avail\n    50000 30000\n";

#[test]
fn parses_df_output_total_and_avail() {
    let (total, avail) = parse_df_output(DF_OUTPUT);
    assert_eq!(total, 50_000);
    assert_eq!(avail, 30_000);
}

#[test]
fn parses_df_output_with_m_suffix() {
    let (total, avail) = parse_df_output("Size Avail\n 50000M 30000M\n");
    assert_eq!(total, 50_000);
    assert_eq!(avail, 30_000);
}

#[test]
fn returns_zeros_on_empty_df_output() {
    let (total, avail) = parse_df_output("");
    assert_eq!(total, 0);
    assert_eq!(avail, 0);
}


// ── Sysinfo ───────────────────────────────────────────────────────────────────

#[test]
fn meminfo_parse_standard_format() {
    let input = "MemTotal:        8000000 kB\nMemFree: 4000000 kB\n";
    assert_eq!(parse_meminfo_total(input), 8_000_000 * 1024);
}

#[test]
fn meminfo_parse_returns_zero_when_key_absent() {
    assert_eq!(parse_meminfo_total("MemFree: 1234 kB\n"), 0);
}

#[test]
fn df_parse_numeric_columns() {
    let out = "1M-blocks Avail\n    100000 60000\n";
    let (t, a) = parse_df_output(out);
    assert_eq!(t, 100_000);
    assert_eq!(a, 60_000);
}

#[test]
fn df_parse_with_m_suffix() {
    let out = "Size Avail\n 200000M 80000M\n";
    let (t, a) = parse_df_output(out);
    assert_eq!(t, 200_000);
    assert_eq!(a, 80_000);
}

#[test]
fn df_parse_empty_returns_zeros() {
    let (t, a) = parse_df_output("");
    assert_eq!((t, a), (0, 0));
}


// ── Client URL ──

fn test_cfg() -> ClientConfig {
    ClientConfig {
        api_host: "https://api.globalping.io".into(),
        uuid: "integ-uuid-0000".into(),
        ping_target: "api.globalping.io".into(),
        adoption_token: None,
    }
}

#[test]
fn client_url_has_all_required_params() {
    let url = connection_url(&test_cfg(), 0, 0, 0);
    for param in &[
        "version=", "nodeVersion=v22.22.3", "totalMemory=",
        "totalDiskSize=", "availableDiskSpace=", "uuid=integ-uuid-0000",
    ] {
        assert!(url.contains(param), "missing {param} in: {url}");
    }
}

#[test]
fn client_url_starts_with_api_host() {
    let url = connection_url(&test_cfg(), 0, 0, 0);
    assert!(url.starts_with("https://api.globalping.io?"), "url: {url}");
}

#[test]
fn client_url_version_matches_crate() {
    let url = connection_url(&test_cfg(), 0, 0, 0);
    assert!(url.contains(&format!("version={VERSION}")), "url: {url}");
}


// ── Reconnect logic ───────────────────────────────────────────────────────────

#[test]
fn reconnect_classify_ip_limit() {
    assert_eq!(classify_error("ip limit"), ConnectOutcome::IpLimitOrVpn);
}

#[test]
fn reconnect_classify_vpn() {
    assert_eq!(classify_error("VPN detected"), ConnectOutcome::IpLimitOrVpn);
}

#[test]
fn reconnect_classify_geoip() {
    assert_eq!(classify_error("geoip error"), ConnectOutcome::IpLimitOrVpn);
}

#[test]
fn reconnect_classify_metadata() {
    assert_eq!(classify_error("metadata error"), ConnectOutcome::MetadataError);
}

#[test]
fn reconnect_classify_invalid_version() {
    // Matches what the API actually sends
    assert_eq!(classify_error("invalid probe version (0.1.0)"), ConnectOutcome::InvalidVersion);
}

#[test]
fn reconnect_classify_server_terminating() {
    assert_eq!(classify_error("server-terminating"), ConnectOutcome::ServerTerminating);
}

#[test]
fn reconnect_classify_unknown_is_transient() {
    assert_eq!(classify_error("connection reset"), ConnectOutcome::Transient);
    assert_eq!(classify_error(""), ConnectOutcome::Transient);
}

#[test]
fn reconnect_delay_ip_limit_is_one_hour() {
    let mut bo = ExponentialBackoff::new(Delay::from_secs(1), Delay::from_secs(300));
    assert_eq!(
        reconnect_delay(&ConnectOutcome::IpLimitOrVpn, &mut bo),
        Some(Delay::from_secs(3600))
    );
}

#[test]
fn reconnect_delay_metadata_is_one_minute() {
    let mut bo = ExponentialBackoff::new(Delay::from_secs(1), Delay::from_secs(300));
    assert_eq!(
        reconnect_delay(&ConnectOutcome::MetadataError, &mut bo),
        Some(Delay::from_secs(60))
    );
}

#[test]
fn reconnect_delay_clean_shutdown_is_none() {
    let mut bo = ExponentialBackoff::new(Delay::from_secs(1), Delay::from_secs(300));
    assert_eq!(reconnect_delay(&ConnectOutcome::CleanShutdown, &mut bo), None);
}

#[test]
fn reconnect_delay_invalid_version_is_none() {
    let mut bo = ExponentialBackoff::new(Delay::from_secs(1), Delay::from_secs(300));
    assert_eq!(reconnect_delay(&ConnectOutcome::InvalidVersion, &mut bo), None);
}

#[test]
fn reconnect_delay_server_terminating_is_zero() {
    let mut bo = ExponentialBackoff::new(Delay::from_secs(1), Delay::from_secs(300));
    assert_eq!(
        reconnect_delay(&ConnectOutcome::ServerTerminating, &mut bo),
        Some(Delay::zero())
    );
}

#[test]
fn reconnect_backoff_doubles_and_caps() {
    let mut bo = ExponentialBackoff::new(Delay::from_secs(1), Delay::from_secs(300));
    let d1 = reconnect_delay(&ConnectOutcome::Transient, &mut bo).unwrap();
    let d2 = reconnect_delay(&ConnectOutcome::Transient, &mut bo).unwrap();
    let d3 = reconnect_delay(&ConnectOutcome::Transient, &mut bo).unwrap();
    assert_eq!(d1, Delay::from_secs(1));
    assert_eq!(d2, Delay::from_secs(2));
    assert_eq!(d3, Delay::from_secs(4));
}

#[test]
fn reconnect_backoff_resets_after_policy_error() {
    let mut bo = ExponentialBackoff::new(Delay::from_secs(1), Delay::from_secs(300));
    reconnect_delay(&ConnectOutcome::Transient, &mut bo); // advance
    reconnect_delay(&ConnectOutcome::Transient, &mut bo); // now at 2s
    bo.reset();
    let d = reconnect_delay(&ConnectOutcome::Transient, &mut bo).unwrap();
    assert_eq!(d, Delay::from_secs(1));
}

#[test]
fn reconnect_classifies_real_api_error_envelope() {
    // The API wraps errors: {"message":"ip limit","data":{"ipAddress":"..."}}
    // The client extracts the "message" field before classifying.
    let msg = "ip limit"; // as extracted from the JSON envelope
    assert_eq!(classify_error(msg), ConnectOutcome::IpLimitOrVpn);

    let msg2 = "\"nodeVersion\" with value \"rust-probe\" fails to match the required pattern";
    assert_eq!(classify_error(msg2), ConnectOutcome::Transient); // treated as transient (version fixed separately)
}


#[test]
fn measurement_type_discriminator_covers_all_known_types() {
    for ty in &["ping", "dns", "traceroute", "mtr", "http"] {
        assert!(measurement_type(ty).is_some(), "type {ty} not handled");
    }
    assert_eq!(measurement_type("http"), Some(MeasurementType::Http));
    assert_eq!(measurement_type("nslookup"), None);
}

// ── resolv.conf ──


#[test]
fn dns_parse_public_servers() {
    let conf = "nameserver 8.8.8.8\nnameserver 1.1.1.1\n";
    assert_eq!(parse_resolv_conf(conf, &[]), vec!["8.8.8.8", "1.1.1.1"]);
}

#[test]
fn dns_parse_private_servers_masked() {
    let conf = "nameserver 192.168.1.1\nnameserver 8.8.8.8\n";
    assert_eq!(parse_resolv_conf(conf, &[]), vec!["private", "8.8.8.8"]);
}

#[test]
fn dns_parse_ipv6_server() {
    let conf = "nameserver 2606:4700:4700::1111\n";
    assert_eq!(parse_resolv_conf(conf, &[]), vec!["2606:4700:4700::1111"]);
}

#[test]
fn dns_parse_private_ipv6_masked() {
    let conf = "nameserver ::1\n";
    assert_eq!(parse_resolv_conf(conf, &[]), vec!["private"]);
}

#[test]
fn dns_parse_skips_non_nameserver_lines() {
    let conf = "# comment\nsearch example.com\nnameserver 9.9.9.9\n";
    assert_eq!(parse_resolv_conf(conf, &[]), vec!["9.9.9.9"]);
}

#[test]
fn dns_parse_strips_port_suffix() {
    let conf = "nameserver 8.8.8.8#53\n";
    assert_eq!(parse_resolv_conf(conf, &[]), vec!["8.8.8.8"]);
}

// ── job payloads ──

fn object(pairs: Vec<(&str, serde_json::Value)>) -> serde_json::Value {
    let mut m = serde_json::Map::new();
    for (k, v) in pairs {
        m.insert(k.to_string(), v);
    }
    serde_json::Value::Object(m)
}

#[test]
fn dispatch_selects_correct_command_by_type() {
    for ty in &["ping", "dns", "traceroute", "mtr", "http"] {
        let v = object(vec![("type", serde_json::Value::String(ty.to_string()))]);
        let mtype = v["type"].as_str().unwrap_or("");
        assert!(measurement_type(mtype).is_some(), "{ty}");
    }
    let v = object(vec![("type", serde_json::Value::String("unknown".to_string()))]);
    let mtype = v["type"].as_str().unwrap_or("");
    assert!(measurement_type(mtype).is_none());
}

#[test]
fn error_message_json_envelope_is_parsed() {
    let data = object(vec![("ipAddress", serde_json::Value::String("1.2.3.4".to_string()))]);
    let envelope = object(vec![
        ("message", serde_json::Value::String("ip limit".to_string())),
        ("data", data),
    ]);
    let raw = envelope.get("message").and_then(|m| m.as_str()).unwrap_or("");
    assert_eq!(classify_error(raw), ConnectOutcome::IpLimitOrVpn);
}

// ── connect errors ──

#[test]
fn connect_error_plain_text_is_kept() {
    let (message, ip) = globalping_probe::probe::client::parse_connect_error("websocket error");
    assert_eq!(message, "websocket error");
    assert_eq!(ip, None);
}

#[test]
fn connect_error_json_envelope_gives_message_and_ip() {
    let outer = "xhr poll error {\"message\":\"ip limit\",\"data\":{\"ipAddress\":\"1.2.3.4\"}}";
    let (message, ip) = globalping_probe::probe::client::parse_connect_error(outer);
    assert_eq!(message, "ip limit");
    assert_eq!(ip.as_deref(), Some("1.2.3.4"));
    assert_eq!(classify_error(&message), ConnectOutcome::IpLimitOrVpn);
}

#[test]
fn connect_error_envelope_without_message_keeps_outer_text() {
    let outer = "error {\"data\":{\"ipAddress\":\"1.2.3.4\"}}";
    let (message, ip) = globalping_probe::probe::client::parse_connect_error(outer);
    assert_eq!(message, outer);
    assert_eq!(ip.as_deref(), Some("1.2.3.4"));
}

#[test]
fn connect_error_broken_json_keeps_outer_text() {
    let outer = "bad {not json";
    let (message, ip) = globalping_probe::probe::client::parse_connect_error(outer);
    assert_eq!(message, outer);
    assert_eq!(ip, None);
}

#[test]
fn connect_error_parts_from_read_envelope() {
    let (m, ip) = globalping_probe::probe::client::connect_error_parts("outer", Some((Some("inner".to_string()), None)));
    assert_eq!((m.as_str(), ip), ("inner", None));
    let (m, ip) = globalping_probe::probe::client::connect_error_parts("outer", Some((None, Some("9.9.9.9".to_string()))));
    assert_eq!((m.as_str(), ip.as_deref()), ("outer", Some("9.9.9.9")));
    let (m, ip) = globalping_probe::probe::client::connect_error_parts("outer", None);
    assert_eq!((m.as_str(), ip), ("outer", None));
}
