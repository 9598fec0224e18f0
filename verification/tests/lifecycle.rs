use firecracker_sdk::fifo::{FifoAction, FifoCapture, FifoEvent};
use firecracker_sdk::machine::{
    env_value_or_default_int, log_output, machine_command, netns_to_enter, readiness_step,
    resolve_net_ns, resolve_vmid, vmid_from, LogOutput, ReadinessStep, READINESS_POLL_INTERVAL_MS,
};
use firecracker_sdk::signals::{forward_targets, is_forwardable, SignalRefs};
use firecracker_sdk::{Error, JailerConfig, NaiveChrootStrategy, SeccompConfig};

#[test]
fn vmid_is_kept_or_generated() {
    assert_eq!(resolve_vmid("my-vm").unwrap(), "my-vm");
    let id = resolve_vmid("").unwrap();
    assert_eq!(id.len(), 36);
    let chars: Vec<char> = id.chars().collect();
    for (i, c) in chars.iter().enumerate() {
        if [8, 13, 18, 23].contains(&i) {
            assert_eq!(*c, '-');
        } else {
            assert!(c.is_ascii_hexdigit() && !c.is_ascii_uppercase());
        }
    }
    assert_eq!(chars[14], '4');
    assert!(['8', '9', 'a', 'b'].contains(&chars[19]));
    assert_ne!(resolve_vmid("").unwrap(), id);
}

#[test]
fn vmid_from_random_bytes() {
    let bytes: [u8; 16] = [0, 1, 2, 3, 4, 5, 6, 7, 8, 9, 10, 11, 12, 13, 14, 15];
    assert_eq!(vmid_from("", Some(bytes)).unwrap(), "00010203-0405-4607-8809-0a0b0c0d0e0f");
    let high: [u8; 16] = [0xff; 16];
    assert_eq!(vmid_from("", Some(high)).unwrap(), "ffffffff-ffff-4fff-bfff-ffffffffffff");
    assert_eq!(vmid_from("vm7", Some(bytes)).unwrap(), "vm7");
    assert_eq!(vmid_from("vm7", None).unwrap(), "vm7");
    match vmid_from("", None) {
        Err(Error::Process(m)) => assert_eq!(m, "could not retrieve random bytes for uuid"),
        other => panic!("unexpected {:?}", other),
    }
}

#[test]
fn net_ns_defaults_only_for_cni() {
    assert_eq!(resolve_net_ns(Some("/ns"), true, "vm"), Some("/ns".to_string()));
    assert_eq!(resolve_net_ns(None, true, "vm"), Some("/var/run/netns/vm".to_string()));
    assert_eq!(resolve_net_ns(None, false, "vm"), None);
    assert_eq!(netns_to_enter(Some("/ns"), false), Some("/ns".to_string()));
    assert_eq!(netns_to_enter(Some("/ns"), true), None);
}

#[test]
fn machine_command_with_and_without_jailer() {
    let seccomp = SeccompConfig { enabled: true, filter: None };
    let (socket, cmd) = machine_command::<NaiveChrootStrategy>("vm", "/s.sock", &seccomp, None, None, "").unwrap();
    assert_eq!(socket, "/s.sock");
    assert_eq!(cmd.args, vec!["--api-sock", "/s.sock", "--id", "vm"]);
    let j: JailerConfig<NaiveChrootStrategy> = JailerConfig {
        id: "vm".to_string(),
        exec_file: "/bin/firecracker".to_string(),
        ..JailerConfig::default()
    };
    let (socket, cmd) = machine_command("vm", "/s.sock", &seccomp, Some(&j), Some("/ns"), "").unwrap();
    assert_eq!(socket, "/srv/jailer/firecracker/vm/root/s.sock");
    assert_eq!(cmd.bin, "jailer");
    assert_eq!(
        cmd.args,
        vec!["--id", "vm", "--uid", "0", "--gid", "0", "--exec-file", "/bin/firecracker", "--netns", "/ns", "--", "--api-sock", "/s.sock"],
    );
}

#[test]
fn integer_settings_fall_back_to_default() {
    assert_eq!(env_value_or_default_int(None, 500), 500);
    assert_eq!(env_value_or_default_int(Some("250"), 500), 250);
    assert_eq!(env_value_or_default_int(Some("-3"), 500), -3);
    assert_eq!(env_value_or_default_int(Some(" 250"), 500), 500);
    assert_eq!(env_value_or_default_int(Some("x"), 500), 500);
}

#[test]
fn log_outputs_prefer_nonempty_fifo() {
    assert_eq!(log_output(Some("/f"), Some("/l")), LogOutput::Fifo("/f".to_string()));
    assert_eq!(log_output(Some(""), Some("/l")), LogOutput::File("/l".to_string()));
    assert_eq!(log_output(None, Some("")), LogOutput::Nothing);
    assert_eq!(log_output(None, None), LogOutput::Nothing);
}

#[test]
fn signal_refs_count_registrations() {
    let mut refs = SignalRefs::new();
    assert_eq!(refs.register(&[2, 15, 2]), Ok(vec![2, 15]));
    assert_eq!(refs.count(2), 2);
    assert_eq!(refs.register(&[15, 1]), Ok(vec![1]));
    assert_eq!(refs.count(15), 2);
    assert_eq!(
        refs.register(&[3, 0]),
        Err(Error::Process("signal 0 cannot be forwarded".to_string())),
    );
    assert_eq!(refs.count(3), 0);
    assert_eq!(
        refs.register(&[256]),
        Err(Error::Process("signal 256 cannot be forwarded".to_string())),
    );
    assert_eq!(refs.unregister(&[15, 1]), vec![1]);
    assert_eq!(refs.unregister(&[2, 15, 2]), vec![15, 2]);
    assert_eq!(refs.count(2), 0);
    assert_eq!(refs.count(15), 0);
    assert_eq!(refs.unregister(&[9]), Vec::<i32>::new());
    assert!(is_forwardable(255));
    assert!(!is_forwardable(-1));
}

#[test]
fn signals_go_to_registered_processes() {
    let regs = vec![(10, vec![2, 15]), (20, vec![1]), (30, vec![15])];
    assert_eq!(forward_targets(&regs, 15), vec![10, 30]);
    assert_eq!(forward_targets(&regs, 9), Vec::<u32>::new());
}

#[test]
fn fifo_capture_stops_after_idle_limit() {
    let mut c = FifoCapture::new();
    assert_eq!(c.on_event(FifoEvent::NoData, 0), FifoAction::Wait);
    assert_eq!(c.on_event(FifoEvent::NoData, 5000), FifoAction::Wait);
    assert_eq!(c.on_event(FifoEvent::Data, 5010), FifoAction::Write);
    assert_eq!(c.on_event(FifoEvent::NoData, 5020), FifoAction::Wait);
    assert_eq!(c.on_event(FifoEvent::NoData, 5100), FifoAction::Wait);
    assert_eq!(c.on_event(FifoEvent::Data, 5110), FifoAction::Write);
    assert_eq!(c.on_event(FifoEvent::NoData, 5120), FifoAction::Wait);
    assert_eq!(c.on_event(FifoEvent::NoData, 5220), FifoAction::Finish);
    let mut c = FifoCapture::new();
    assert_eq!(c.on_event(FifoEvent::ExitRequested, 1), FifoAction::Finish);
    assert_eq!(c.on_event(FifoEvent::ReadFailed, 1), FifoAction::Abort);
}

#[test]
fn readiness_poll_decisions() {
    assert_eq!(readiness_step(true, true, true), ReadinessStep::Exited);
    assert_eq!(readiness_step(false, true, true), ReadinessStep::Ready);
    assert_eq!(readiness_step(false, false, true), ReadinessStep::TimedOut);
    assert_eq!(readiness_step(false, false, false), ReadinessStep::Retry);
    assert_eq!(READINESS_POLL_INTERVAL_MS, 10);
}
