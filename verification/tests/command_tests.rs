use globalping_probe::command::mtr::{self, MtrOptions};
use globalping_probe::command::ping::{self, PingOptions};
use globalping_probe::command::traceroute::{self, TracerouteOptions};

// ── mtr ───────────────────────────────────────────────────────────────────────

#[test]
fn build_args_icmp_no_protocol_flag() {
    let args = mtr::build_args(&MtrOptions {
        target: "1.1.1.1".into(), protocol: "ICMP".into(),
        port: 80, packets: 3, ip_version: 4, in_progress_updates: false,
    });
    assert!(args.contains(&"-4".to_string()));
    assert!(!args.contains(&"--icmp".to_string()));
    assert!(args.contains(&"--raw".to_string()));
    assert!(args.contains(&"-c".to_string()));
    assert!(args.contains(&"3".to_string()));
}

#[test]
fn build_args_tcp_adds_flag_and_port() {
    let args = mtr::build_args(&MtrOptions {
        target: "1.1.1.1".into(), protocol: "TCP".into(),
        port: 443, packets: 3, ip_version: 4, in_progress_updates: false,
    });
    assert!(args.contains(&"--tcp".to_string()));
    assert!(args.contains(&"-P".to_string()));
    assert!(args.contains(&"443".to_string()));
}

#[test]
fn build_args_udp_flag() {
    let args = mtr::build_args(&MtrOptions {
        target: "1.1.1.1".into(), protocol: "UDP".into(),
        port: 80, packets: 3, ip_version: 6, in_progress_updates: false,
    });
    assert!(args.contains(&"-6".to_string()));
    assert!(args.contains(&"--udp".to_string()));
}

#[test]
fn mtr_validate_rejects_private_ip() {
    let opts = MtrOptions {
        target: "10.0.0.1".into(), protocol: "ICMP".into(),
        port: 80, packets: 3, ip_version: 4, in_progress_updates: false,
    };
    assert!(mtr::validate(&opts, &[]).is_err());
}

#[test]
fn validate_rejects_bad_packets() {
    let opts = MtrOptions {
        target: "1.1.1.1".into(), protocol: "ICMP".into(),
        port: 80, packets: 0, ip_version: 4, in_progress_updates: false,
    };
    assert!(mtr::validate(&opts, &[]).is_err());
}

#[test]
fn validate_accepts_valid() {
    for proto in &["ICMP", "TCP", "UDP"] {
        for ver in &[4u8, 6u8] {
            let opts = MtrOptions {
                target: "1.1.1.1".into(), protocol: proto.to_string(),
                port: 80, packets: 3, ip_version: *ver, in_progress_updates: false,
            };
            assert!(mtr::validate(&opts, &[]).is_ok(), "expected ok for {} v{}", proto, ver);
        }
    }
}

// ── ping ──────────────────────────────────────────────────────────────────────


#[test]
fn build_args_ipv4() {
    let opts = PingOptions {
        target: "1.1.1.1".into(),
        packets: 3,
        protocol: "ICMP".into(),
        port: 80,
        ip_version: 4,
        in_progress_updates: false,
    };
    let args = ping::build_args(&opts);
    assert_eq!(args[0], "-4");
    assert!(args.contains(&"-O".to_string()));
    assert!(args.contains(&"-c".to_string()));
    assert!(args.contains(&"3".to_string()));
    assert_eq!(args.last().unwrap(), "1.1.1.1");
}

#[test]
fn build_args_ipv6() {
    let opts = PingOptions {
        target: "2606:4700:4700::1111".into(),
        packets: 5,
        protocol: "ICMP".into(),
        port: 80,
        ip_version: 6,
        in_progress_updates: false,
    };
    let args = ping::build_args(&opts);
    assert_eq!(args[0], "-6");
    assert!(args.contains(&"-c".to_string()));
    assert!(args.contains(&"5".to_string()));
    assert_eq!(args.last().unwrap(), "2606:4700:4700::1111");
}

#[test]
fn validate_rejects_invalid_packet_count() {
    let mut opts = PingOptions {
        target: "1.1.1.1".into(),
        packets: 0,
        protocol: "ICMP".into(),
        port: 80,
        ip_version: 4,
        in_progress_updates: false,
    };
    assert!(ping::validate(&opts, &[]).is_err());
    opts.packets = 17;
    assert!(ping::validate(&opts, &[]).is_err());
    opts.packets = 3;
    assert!(ping::validate(&opts, &[]).is_ok());
}

#[test]
fn validate_rejects_private_ip_target() {
    let opts = PingOptions {
        target: "10.0.0.1".into(),
        packets: 3,
        protocol: "ICMP".into(),
        port: 80,
        ip_version: 4,
        in_progress_updates: false,
    };
    let err = ping::validate(&opts, &[]).unwrap_err();
    assert!(err.message().contains("Private IP"));
}

#[test]
fn validate_accepts_public_ip() {
    let opts = PingOptions {
        target: "1.1.1.1".into(),
        packets: 3,
        protocol: "ICMP".into(),
        port: 80,
        ip_version: 4,
        in_progress_updates: false,
    };
    assert!(ping::validate(&opts, &[]).is_ok());
}

// ── traceroute ────────────────────────────────────────────────────────────────


fn make_opts(protocol: &str, ip_version: u8) -> TracerouteOptions {
    TracerouteOptions {
        target: "1.1.1.1".into(),
        protocol: protocol.into(),
        port: 80,
        ip_version,
        in_progress_updates: false,
    }
}

#[test]
fn build_args_icmp_ipv4() {
    let args = traceroute::build_args(&make_opts("ICMP", 4));
    assert!(args.contains(&"-4".to_string()));
    assert!(args.contains(&"--icmp".to_string()));
    assert!(args.contains(&"-m".to_string()));
    assert!(args.contains(&"20".to_string()));
    assert!(args.contains(&"-w".to_string()));
    assert!(args.contains(&"2".to_string()));
    assert!(args.contains(&"-q".to_string()));
    assert!(args.contains(&"-N".to_string()));
    assert!(!args.contains(&"-p".to_string()));
    assert_eq!(args.last().unwrap(), "1.1.1.1");
}

#[test]
fn build_args_tcp_adds_port() {
    let args = traceroute::build_args(&make_opts("TCP", 4));
    assert!(args.contains(&"--tcp".to_string()));
    assert!(args.contains(&"-p".to_string()));
    assert!(args.contains(&"80".to_string()));
}

#[test]
fn build_args_udp_ipv6() {
    let args = traceroute::build_args(&make_opts("UDP", 6));
    assert!(args.contains(&"-6".to_string()));
    assert!(args.contains(&"--udp".to_string()));
}

#[test]
fn mod_validate_rejects_private_ip() {
    let mut opts = make_opts("ICMP", 4);
    opts.target = "192.168.1.1".into();
    assert!(traceroute::validate(&opts, &[]).is_err());
}

#[test]
fn validate_rejects_bad_ip_version() {
    let mut opts = make_opts("ICMP", 4);
    opts.ip_version = 5;
    assert!(traceroute::validate(&opts, &[]).is_err());
}

#[test]
fn validate_rejects_unknown_protocol() {
    let mut opts = make_opts("SCTP", 4);
    opts.protocol = "SCTP".into();
    assert!(traceroute::validate(&opts, &[]).is_err());
}

#[test]
fn validate_accepts_valid_opts() {
    for proto in &["ICMP", "TCP", "UDP"] {
        for ver in &[4u8, 6u8] {
            let opts = make_opts(proto, *ver);
            assert!(traceroute::validate(&opts, &[]).is_ok(), "expected ok for {} v{}", proto, ver);
        }
    }
}

#[test]
fn traceroute_lowercase_protocol_is_read_case_blind() {
    let opts = make_opts("tcp", 4);
    assert!(traceroute::validate(&opts, &[]).is_ok());
    let args = traceroute::build_args(&opts);
    assert!(args.contains(&"--tcp".to_string()));
    assert!(args.contains(&"-p".to_string()));
}
