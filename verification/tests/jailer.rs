use firecracker_sdk::jailer::{join_chroot_path, link_files_plan, trim_cpulist, validate_jailer_config, LinkStep};
use firecracker_sdk::{
    jail, CommandStdio, Error, Handler, HandlerList, Handlers, JailerCommandBuilder, JailerConfig,
    NaiveChrootStrategy, SeccompConfig, CREATE_LOG_FILES_HANDLER_NAME,
};

fn cfg() -> JailerConfig<NaiveChrootStrategy> {
    JailerConfig {
        id: "vm1".to_string(),
        uid: Some(1000),
        gid: Some(100),
        numa_node: Some(0),
        exec_file: "/usr/bin/firecracker".to_string(),
        chroot_strategy: Some(NaiveChrootStrategy::new("/images/vmlinux".to_string())),
        ..JailerConfig::default()
    }
}

#[test]
fn jail_builds_jailer_command_and_socket() {
    let j = cfg();
    let (socket, cmd) = jail(Some(&j), "", &SeccompConfig { enabled: false, filter: None }, None, "").unwrap();
    assert_eq!(socket, "/srv/jailer/firecracker/vm1/root/run/firecracker.socket");
    assert_eq!(cmd.bin, "jailer");
    assert_eq!(
        cmd.args,
        vec![
            "--id", "vm1", "--uid", "1000", "--gid", "100", "--exec-file", "/usr/bin/firecracker",
            "--", "--no-seccomp", "--api-sock", "/run/firecracker.socket",
        ],
    );
}

#[test]
fn jail_passes_optional_settings() {
    let mut j = cfg();
    j.chroot_base_dir = Some("/base".to_string());
    j.jailer_binary = Some("/opt/jailer".to_string());
    j.cgroup_version = Some("2".to_string());
    j.cgroup_args = vec!["cpu.shares=10".to_string()];
    j.daemonize = true;
    let (socket, cmd) = jail(
        Some(&j),
        "/api.sock",
        &SeccompConfig { enabled: true, filter: None },
        Some("/var/run/netns/x"),
        "0-3",
    )
    .unwrap();
    assert_eq!(socket, "/base/firecracker/vm1/root/api.sock");
    assert_eq!(cmd.bin, "/opt/jailer");
    assert_eq!(
        cmd.args,
        vec![
            "--id", "vm1", "--uid", "1000", "--gid", "100", "--exec-file", "/usr/bin/firecracker",
            "--cgroup", "cpuset.mems=0", "--cgroup", "cpuset.cpus=0-3", "--cgroup", "cpu.shares=10",
            "--cgroup-version", "2", "--chroot-base-dir", "/base", "--netns", "/var/run/netns/x",
            "--daemonize", "--", "--api-sock", "/api.sock",
        ],
    );
}

#[test]
fn jail_without_config_fails() {
    assert_eq!(
        jail::<NaiveChrootStrategy>(None, "", &SeccompConfig::default(), None, "").unwrap_err(),
        Error::InvalidConfig("jailer config was not set for use".to_string()),
    );
}

#[test]
fn jailer_config_validation_errors() {
    let mut j = cfg();
    assert_eq!(validate_jailer_config(Some(&j), true), Ok(()));
    assert_eq!(validate_jailer_config::<NaiveChrootStrategy>(None, false), Ok(()));
    assert_eq!(
        validate_jailer_config(Some(&j), false),
        Err(Error::InvalidConfig("A root drive must be present in the drive list".to_string())),
    );
    j.numa_node = None;
    assert_eq!(
        validate_jailer_config(Some(&j), true),
        Err(Error::InvalidConfig("NUMA node must be specified when using jailer mode".to_string())),
    );
    j.exec_file = String::new();
    assert_eq!(
        validate_jailer_config(Some(&j), true),
        Err(Error::InvalidConfig("exec file must be specified when using jailer mode".to_string())),
    );
    j.chroot_strategy = None;
    assert_eq!(
        validate_jailer_config(Some(&j), true),
        Err(Error::InvalidConfig("ChrootStrategy cannot be nil".to_string())),
    );
}

#[test]
fn jailer_builder_defaults_and_cpulist() {
    let b = JailerCommandBuilder::new().with_id("x".to_string()).with_stdout(CommandStdio::Null);
    assert_eq!(b.bin(), "jailer");
    let cmd = b.build("");
    assert_eq!(cmd.args, vec!["--id", "x", "--uid", "0", "--gid", "0", "--exec-file", ""]);
    assert_eq!(cmd.stdout, CommandStdio::Null);
    assert_eq!(trim_cpulist("0-7\n\n"), "0-7");
}

#[test]
fn naive_strategy_links_after_log_files() {
    let s = NaiveChrootStrategy::new("/images/vmlinux.bin".to_string());
    assert_eq!(s.kernel_file_name(), "vmlinux.bin");
    let mut handlers: Handlers<u32> = Handlers {
        validation: HandlerList::new(),
        fc_init: HandlerList::new().append(vec![
            Handler::new("fcinit.StartVMM".to_string(), 1),
            Handler::new(CREATE_LOG_FILES_HANDLER_NAME.to_string(), 2),
            Handler::new("fcinit.BootstrapLogging".to_string(), 3),
        ]),
    };
    s.adapt_handlers(&mut handlers, Handler::new("fcinit.LinkFilesToRootFS".to_string(), 9)).unwrap();
    let names: Vec<String> = handlers.fc_init.list.iter().map(|h| h.name.clone()).collect();
    assert_eq!(
        names,
        vec!["fcinit.StartVMM", CREATE_LOG_FILES_HANDLER_NAME, "fcinit.LinkFilesToRootFS", "fcinit.BootstrapLogging"],
    );
    let mut empty: Handlers<u32> = Handlers { validation: HandlerList::new(), fc_init: HandlerList::new() };
    assert_eq!(
        s.adapt_handlers(&mut empty, Handler::new("x".to_string(), 0)),
        Err(Error::InvalidConfig("required handler is missing from FcInit's list".to_string())),
    );
}

#[test]
fn link_plan_moves_files_into_the_chroot() {
    let j = cfg();
    let steps = link_files_plan(
        Some(&j),
        "vmlinux",
        "/images/vmlinux",
        &None,
        &vec![Some("/disks/root.ext4".to_string()), None],
        &Some("/tmp/log.fifo".to_string()),
        &None,
    )
    .unwrap();
    assert_eq!(
        steps,
        vec![
            LinkStep::HardLink {
                source: "/images/vmlinux".to_string(),
                destination: "/srv/jailer/firecracker/vm1/root/vmlinux".to_string(),
            },
            LinkStep::HardLink {
                source: "/disks/root.ext4".to_string(),
                destination: "/srv/jailer/firecracker/vm1/root/root.ext4".to_string(),
            },
            LinkStep::SetDrivePath { index: 0, path: "root.ext4".to_string() },
            LinkStep::SetKernelImagePath("vmlinux".to_string()),
            LinkStep::HardLink {
                source: "/tmp/log.fifo".to_string(),
                destination: "/srv/jailer/firecracker/vm1/root/log.fifo".to_string(),
            },
            LinkStep::Chown { path: "/srv/jailer/firecracker/vm1/root/log.fifo".to_string(), uid: 1000, gid: 100 },
            LinkStep::SetLogFifo("log.fifo".to_string()),
        ],
    );
}

#[test]
fn jail_socket_stays_under_rootfs() {
    let root = "/srv/jailer/firecracker/vm1/root";
    assert_eq!(join_chroot_path(root, "//run/fc.sock"), "/srv/jailer/firecracker/vm1/root/run/fc.sock");
    assert_eq!(join_chroot_path("/jail/", "api.sock"), "/jail/api.sock");
    assert_eq!(join_chroot_path(root, "/"), "/srv/jailer/firecracker/vm1/root/");
}
