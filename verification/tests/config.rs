use firecracker_sdk::config::socket_exists_error;
use firecracker_sdk::{
    Config, ConfigCheck, Drive, DrivesBuilder, Error, MachineConfiguration, MemoryBackend,
    SnapshotConfig,
};

fn path_check(kind: &str, path: &str) -> ConfigCheck {
    ConfigCheck::PathExists { kind: kind.to_string(), path: path.to_string() }
}

#[test]
fn boot_validation_checks_in_order() {
    let mut cfg = Config::sample("/rootfs.img");
    cfg.kernel_image_path = "/vmlinux".to_string();
    cfg.socket_path = "/tmp/fc.sock".to_string();
    cfg.initrd_path = Some("/initrd".to_string());
    assert_eq!(
        cfg.validation_checks(),
        vec![
            path_check("kernel image path", "/vmlinux"),
            path_check("initrd image path", "/initrd"),
            path_check("host drive path", "/rootfs.img"),
            ConfigCheck::SocketAbsent { path: "/tmp/fc.sock".to_string() },
        ],
    );
    cfg.disable_validation = true;
    assert!(cfg.validation_checks().is_empty());
}

#[test]
fn only_first_root_drive_is_checked() {
    let mut cfg = Config::default();
    cfg.drives = vec![
        Drive { path_on_host: Some("/a".to_string()), is_root_device: Some(false), ..Drive::default() },
        Drive { path_on_host: None, is_root_device: Some(true), ..Drive::default() },
        Drive { path_on_host: Some("/c".to_string()), is_root_device: Some(true), ..Drive::default() },
    ];
    let checks = cfg.validation_checks();
    assert_eq!(checks.len(), 3);
    assert_eq!(checks[1], path_check("host drive path", ""));
    assert!(cfg.root_drive_present());
    cfg.drives.clear();
    assert!(!cfg.root_drive_present());
    cfg.initrd_path = Some("/i".to_string());
    assert!(cfg.root_drive_present());
}

#[test]
fn machine_size_must_be_nonzero() {
    let mut cfg = Config::default();
    assert_eq!(
        cfg.validate_machine_cfg(),
        Err(Error::InvalidConfig("machine needs a nonzero VcpuCount".to_string())),
    );
    cfg.machine_cfg = MachineConfiguration::new(2, 0);
    assert_eq!(
        cfg.validate_machine_cfg(),
        Err(Error::InvalidConfig("machine needs a nonzero amount of memory".to_string())),
    );
    cfg.machine_cfg = MachineConfiguration::new(2, 256);
    assert_eq!(cfg.validate_machine_cfg(), Ok(()));
    cfg.machine_cfg = MachineConfiguration::new(0, 0);
    cfg.disable_validation = true;
    assert_eq!(cfg.validate_machine_cfg(), Ok(()));
}

#[test]
fn snapshot_validation() {
    let mut cfg = Config::default();
    assert!(!cfg.has_snapshot());
    assert_eq!(
        cfg.check_snapshot_paths(),
        Err(Error::InvalidConfig("snapshot load requires both memory backend and snapshot path".to_string())),
    );
    cfg.snapshot = SnapshotConfig {
        mem_file_path: Some("/mem-file".to_string()),
        mem_backend: Some(MemoryBackend { backend_type: None, backend_path: Some("/backend".to_string()) }),
        snapshot_path: Some("/snap".to_string()),
        enable_diff_snapshots: false,
        resume_vm: true,
    };
    assert!(cfg.has_snapshot());
    assert_eq!(cfg.snapshot.get_mem_backend_path().as_deref(), Some("/backend"));
    assert_eq!(cfg.check_snapshot_paths(), Ok(()));
    cfg.socket_path = "/s".to_string();
    cfg.drives = DrivesBuilder::new("/r".to_string()).build();
    assert_eq!(
        cfg.load_snapshot_validation_checks(),
        vec![
            path_check("drive path", "/r"),
            ConfigCheck::SocketAbsent { path: "/s".to_string() },
            path_check("snapshot memory path", "/backend"),
            path_check("snapshot path", "/snap"),
        ],
    );
    cfg.snapshot.mem_backend = None;
    assert_eq!(cfg.snapshot.get_mem_backend_path().as_deref(), Some("/mem-file"));
}

#[test]
fn sample_and_signals() {
    let cfg = Config::sample("/root.img");
    assert_eq!(cfg.drives.len(), 1);
    assert_eq!(cfg.drives[0].is_root_device, Some(true));
    assert_eq!(cfg.machine_cfg.vcpu_count, Some(1));
    assert_eq!(cfg.machine_cfg.mem_size_mib, Some(128));
    assert_eq!(cfg.normalized_forward_signals(), vec![2, 3, 15, 1, 6]);
    let cfg = Config { forward_signals: Some(vec![]), ..Config::default() };
    assert!(cfg.normalized_forward_signals().is_empty());
    assert_eq!(
        socket_exists_error("/tmp/x"),
        Error::InvalidConfig("socket /tmp/x already exists".to_string()),
    );
}
