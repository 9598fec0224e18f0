use firecracker_sdk::machine::{
    abort_error, balloon_request, boot_source_request, cleanup_result, ctrl_alt_del_action,
    default_net_ns_path, firecracker_command, join_errors, logger_request, metrics_request,
    mmds_config_request, network_interface_request, partial_drive_request, rate_limit_request,
    snapshot_create_request, snapshot_load_request, start_action, vsock_request,
};
use firecracker_sdk::{
    Balloon, CommandStdio, Config, Error, MMDSVersion, MemoryBackend, RateLimiter, RateLimiterSet,
    SeccompConfig, SnapshotConfig, StartGuard, TokenBucket,
};

#[test]
fn firecracker_command_without_jailer() {
    let cmd = firecracker_command("vm1", "/tmp/fc.sock", &SeccompConfig { enabled: false, filter: None });
    assert_eq!(cmd.bin, "firecracker");
    assert_eq!(cmd.args, vec!["--api-sock", "/tmp/fc.sock", "--id", "vm1", "--no-seccomp"]);
    assert_eq!(cmd.stdin, CommandStdio::Inherit);
    let cmd = firecracker_command(
        "vm1",
        "/s",
        &SeccompConfig { enabled: true, filter: Some("/f.bpf".to_string()) },
    );
    assert_eq!(cmd.args, vec!["--api-sock", "/s", "--id", "vm1", "--seccomp-filter", "/f.bpf"]);
    let cmd = firecracker_command("vm1", "/s", &SeccompConfig { enabled: true, filter: Some(String::new()) });
    assert_eq!(cmd.args, vec!["--api-sock", "/s", "--id", "vm1"]);
}

#[test]
fn net_ns_path_is_under_default_dir() {
    assert_eq!(default_net_ns_path("abc"), "/var/run/netns/abc");
}

#[test]
fn logger_and_metrics_prefer_fifos() {
    let mut cfg = Config::default();
    assert!(logger_request(&cfg).is_none());
    assert!(metrics_request(&cfg).is_none());
    cfg.log_path = Some("/log".to_string());
    cfg.log_level = Some("Debug".to_string());
    let logger = logger_request(&cfg).unwrap();
    assert_eq!(logger.log_path.as_deref(), Some("/log"));
    assert_eq!(logger.level.as_deref(), Some("Debug"));
    assert_eq!(logger.show_level, Some(true));
    assert_eq!(logger.show_log_origin, Some(false));
    cfg.log_fifo = Some("/fifo".to_string());
    assert_eq!(logger_request(&cfg).unwrap().log_path.as_deref(), Some("/fifo"));
    cfg.metrics_path = Some("/m".to_string());
    assert_eq!(metrics_request(&cfg).unwrap().metrics_path.as_deref(), Some("/m"));
    cfg.metrics_fifo = Some("/mf".to_string());
    assert_eq!(metrics_request(&cfg).unwrap().metrics_path.as_deref(), Some("/mf"));
}

#[test]
fn request_bodies() {
    let b = boot_source_request("/k", None, Some("console=ttyS0"));
    assert_eq!(b.kernel_image_path.as_deref(), Some("/k"));
    assert_eq!(b.initrd_path, None);
    assert_eq!(b.boot_args.as_deref(), Some("console=ttyS0"));
    let limiter = RateLimiter { bandwidth: None, ops: Some(TokenBucket { size: Some(1), one_time_burst: None, refill_time: None }) };
    let set = RateLimiterSet { in_rate_limiter: Some(limiter), out_rate_limiter: None };
    let n = network_interface_request(12, Some("aa:bb"), "tap0", set);
    assert_eq!(n.iface_id.as_deref(), Some("12"));
    assert_eq!(n.guest_mac.as_deref(), Some("aa:bb"));
    assert_eq!(n.host_dev_name.as_deref(), Some("tap0"));
    assert_eq!(n.rx_rate_limiter, Some(limiter));
    assert_eq!(n.tx_rate_limiter, None);
    let p = rate_limit_request("3", set);
    assert_eq!(p.iface_id.as_deref(), Some("3"));
    assert_eq!(p.rx_rate_limiter, Some(limiter));
    let d = partial_drive_request("1", "/new.img");
    assert_eq!(d.drive_id.as_deref(), Some("1"));
    assert_eq!(d.path_on_host.as_deref(), Some("/new.img"));
    let s = snapshot_create_request("/mem", "/snap");
    assert_eq!(s.mem_file_path.as_deref(), Some("/mem"));
    assert_eq!(s.snapshot_path.as_deref(), Some("/snap"));
    assert_eq!(
        balloon_request(64, true, 5),
        Balloon { amount_mib: Some(64), deflate_on_oom: Some(true), stats_polling_intervals: 5 },
    );
    let v = vsock_request("v", 3, "/v.sock");
    assert_eq!(v.guest_cid, Some(3));
    assert_eq!(v.uds_path.as_deref(), Some("/v.sock"));
    assert_eq!(start_action(true), None);
    assert_eq!(start_action(false).unwrap().action_type.as_deref(), Some("InstanceStart"));
    assert_eq!(ctrl_alt_del_action().action_type.as_deref(), Some("SendCtrlAltDel"));
}

#[test]
fn snapshot_load_request_copies_the_snapshot() {
    let snap = SnapshotConfig {
        mem_file_path: None,
        mem_backend: Some(MemoryBackend { backend_type: Some("File".to_string()), backend_path: Some("/m".to_string()) }),
        snapshot_path: Some("/s".to_string()),
        enable_diff_snapshots: true,
        resume_vm: false,
    };
    let r = snapshot_load_request(&snap);
    assert_eq!(r.mem_backend, snap.mem_backend);
    assert_eq!(r.snapshot_path.as_deref(), Some("/s"));
    assert!(r.enable_diff_snapshots);
    assert!(!r.resume_vm);
}

#[test]
fn mmds_config_lists_allowed_interfaces() {
    assert!(mmds_config_request(None, &vec![false, false], MMDSVersion::V1).is_none());
    let c = mmds_config_request(
        Some(u32::from_be_bytes([169, 254, 169, 254])),
        &vec![false, true, false, true],
        MMDSVersion::V2,
    )
    .unwrap();
    assert_eq!(c.network_interfaces, vec!["2", "4"]);
    assert_eq!(c.ipv4_address.as_deref(), Some("169.254.169.254"));
    assert_eq!(c.version.as_deref(), Some("V2"));
}

#[test]
fn machine_starts_once() {
    let mut guard = StartGuard::new();
    assert!(!guard.is_started());
    assert_eq!(guard.begin_start(), Ok(()));
    assert!(guard.is_started());
    assert_eq!(guard.begin_start(), Err(Error::AlreadyStarted));
    assert_eq!(guard.begin_start(), Err(Error::AlreadyStarted));
}

#[test]
fn error_messages_and_joining() {
    assert_eq!(Error::InvalidConfig("x".to_string()).message(), "invalid configuration: x");
    assert_eq!(Error::Process("p".to_string()).message(), "process error: p");
    assert_eq!(Error::Api { status: 404, body: "nf".to_string() }.message(), "api error (status 404): nf");
    assert_eq!(Error::AlreadyStarted.message(), "machine already started");
    let e = Error::Process("boom".to_string());
    assert_eq!(abort_error(e.clone(), None, None, None), e);
    assert_eq!(
        abort_error(e.clone(), Some("s".to_string()), None, Some("c".to_string())),
        Error::Process("process error: boom; stop error: s; cleanup error: c".to_string()),
    );
    assert_eq!(join_errors(e.clone(), None), e);
    assert_eq!(
        join_errors(e, Some(Error::AlreadyStarted)),
        Error::Process("process error: boom; cleanup error: machine already started".to_string()),
    );
    assert_eq!(cleanup_result(&vec![]), Ok(()));
    assert_eq!(
        cleanup_result(&vec!["a".to_string(), "b".to_string()]),
        Err(Error::Process("cleanup failed: a; b".to_string())),
    );
}
