//! Machine configuration and its validation rules.

use vstd::prelude::*;

use crate::drives::{drive_views, root_drive_spec, DrivesBuilder};
use crate::error::{Error, ErrorView};
use crate::models::{Drive, DriveView, MachineConfiguration, MemoryBackend};
use crate::text::{copy_opt_string, text_or_empty};

verus! {

/// Directory of named network namespaces.
pub const DEFAULT_NET_NS_DIR: &'static str = "/var/run/netns";
/// Environment variable that overrides the initialization timeout.
pub const FIRECRACKER_INIT_TIMEOUT_ENV: &'static str = "FIRECRACKER_GO_SDK_INIT_TIMEOUT_SECONDS";
/// Seconds to wait for the Firecracker API by default.
pub const DEFAULT_FIRECRACKER_INIT_TIMEOUT_SECONDS: u64 = 3;

/// Whether seccomp filtering is on, and the custom filter if any.
#[derive(Debug, Clone, Default, PartialEq, Eq)]
pub struct SeccompConfig {
    pub enabled: bool,
    pub filter: Option<String>,
}

/// Version of the microVM metadata service protocol.
#[derive(Debug, Clone, Copy, Default, PartialEq, Eq)]
pub enum MMDSVersion {
    #[default]
    V1,
    V2,
}

/// Signals forwarded to the Firecracker process unless the configuration
/// names others: SIGINT, SIGQUIT, SIGTERM, SIGHUP and SIGABRT.
pub open spec fn default_forward_signals() -> Seq<i32> {
    seq![2i32, 3i32, 15i32, 1i32, 6i32]
}

/// A snapshot to restore the microVM from.
#[derive(Debug, Clone, PartialEq, Eq, Default)]
pub struct SnapshotConfig {
    pub mem_file_path: Option<String>,
    pub mem_backend: Option<MemoryBackend>,
    pub snapshot_path: Option<String>,
    pub enable_diff_snapshots: bool,
    pub resume_vm: bool,
}

/// Where the snapshot's memory comes from: the backend's path when a backend
/// is given, else the memory file.
pub open spec fn mem_backend_path_spec(s: SnapshotConfig) -> Option<Seq<char>> {
    match s.mem_backend {
        Some(b) => b.backend_path.deep_view(),
        None => s.mem_file_path.deep_view(),
    }
}

impl SnapshotConfig {
    /// Where the snapshot's memory comes from: the backend's path when a
    /// backend is given, else the memory file.
    pub fn get_mem_backend_path(&self) -> (r: Option<String>)
        ensures
            r.deep_view() == mem_backend_path_spec(*self),
    {
        match &self.mem_backend {
            Some(b) => copy_opt_string(&b.backend_path),
            None => copy_opt_string(&self.mem_file_path),
        }
    }
}

/// Configuration of a microVM.
#[derive(Debug, Default)]
pub struct Config {
    pub socket_path: String,
    pub log_path: Option<String>,
    pub log_fifo: Option<String>,
    pub log_level: Option<String>,
    pub metrics_path: Option<String>,
    pub metrics_fifo: Option<String>,
    pub kernel_image_path: String,
    pub initrd_path: Option<String>,
    pub kernel_args: String,
    pub drives: Vec<Drive>,
    pub machine_cfg: MachineConfiguration,
    pub disable_validation: bool,
    pub vmid: String,
    pub net_ns: Option<String>,
    pub forward_signals: Option<Vec<i32>>,
    pub seccomp: SeccompConfig,
    pub mmds_address: Option<u32>,
    pub mmds_version: MMDSVersion,
    pub snapshot: SnapshotConfig,
}

/// A check that validation makes on the host's file system.
#[derive(Debug, Clone, PartialEq, Eq)]
pub enum ConfigCheck {
    /// The file `path`, described as `kind` in the error, must exist.
    PathExists { kind: String, path: String },
    /// The API socket `path` must not exist yet.
    SocketAbsent { path: String },
}

/// Mathematical value of a [`ConfigCheck`].
pub enum ConfigCheckView {
    PathExists { kind: Seq<char>, path: Seq<char> },
    SocketAbsent { path: Seq<char> },
}

impl View for ConfigCheck {
    type V = ConfigCheckView;

    open spec fn view(&self) -> ConfigCheckView {
        match self {
            ConfigCheck::PathExists { kind, path } => ConfigCheckView::PathExists {
                kind: kind@,
                path: path@,
            },
            ConfigCheck::SocketAbsent { path } => ConfigCheckView::SocketAbsent { path: path@ },
        }
    }
}

/// The views of a list of checks.
pub open spec fn check_views(s: Seq<ConfigCheck>) -> Seq<ConfigCheckView> {
    s.map_values(|c: ConfigCheck| c@)
}

/// The first drive marked as the root device.
pub open spec fn first_root_drive(drives: Seq<DriveView>) -> Option<DriveView>
    decreases drives.len(),
{
    if drives.len() == 0 {
        None
    } else if drives[0].is_root_device == Some(true) {
        Some(drives[0])
    } else {
        first_root_drive(drives.drop_first())
    }
}

/// The file-system checks that validation makes before a boot, in order: the
/// kernel image, the initrd if any, the first root drive if any, and the
/// absence of the API socket; none when validation is disabled.
pub open spec fn validation_checks_spec(cfg: Config) -> Seq<ConfigCheckView> {
    if cfg.disable_validation {
        Seq::empty()
    } else {
        seq![ConfigCheckView::PathExists { kind: "kernel image path"@, path: cfg.kernel_image_path@ }]
            + match cfg.initrd_path {
            Some(p) => seq![ConfigCheckView::PathExists { kind: "initrd image path"@, path: p@ }],
            None => Seq::empty(),
        } + match first_root_drive(drive_views(cfg.drives@)) {
            Some(d) => seq![
                ConfigCheckView::PathExists {
                    kind: "host drive path"@,
                    path: text_or_empty(d.path_on_host),
                },
            ],
            None => Seq::empty(),
        } + seq![ConfigCheckView::SocketAbsent { path: cfg.socket_path@ }]
    }
}

/// The check that a drive's file exists.
pub open spec fn drive_check(d: DriveView) -> ConfigCheckView {
    ConfigCheckView::PathExists { kind: "drive path"@, path: text_or_empty(d.path_on_host) }
}

/// The checks that the drives' files exist, in the drives' order.
pub open spec fn drive_checks(ds: Seq<DriveView>) -> Seq<ConfigCheckView> {
    ds.map_values(|d: DriveView| drive_check(d))
}

/// The file-system checks that validation makes before restoring a snapshot,
/// in order: every drive's file, the absence of the API socket, the
/// snapshot's memory and the snapshot file; none when validation is
/// disabled.
pub open spec fn load_snapshot_checks_spec(cfg: Config) -> Seq<ConfigCheckView> {
    if cfg.disable_validation {
        Seq::empty()
    } else {
        drive_checks(drive_views(cfg.drives@)) + seq![
            ConfigCheckView::SocketAbsent { path: cfg.socket_path@ },
            ConfigCheckView::PathExists {
                kind: "snapshot memory path"@,
                path: text_or_empty(mem_backend_path_spec(cfg.snapshot)),
            },
            ConfigCheckView::PathExists {
                kind: "snapshot path"@,
                path: text_or_empty(cfg.snapshot.snapshot_path.deep_view()),
            },
        ]
    }
}

/// What validation says of the machine's size: a vCPU count and a memory
/// size of at least one are required, in that order; an unset value counts
/// as zero.
pub open spec fn machine_cfg_check_spec(cfg: Config) -> Result<(), ErrorView> {
    if cfg.disable_validation {
        Ok(())
    } else if (match cfg.machine_cfg.vcpu_count {
        Some(v) => v,
        None => 0,
    }) < 1 {
        Err(ErrorView::InvalidConfig("machine needs a nonzero VcpuCount"@))
    } else if (match cfg.machine_cfg.mem_size_mib {
        Some(v) => v,
        None => 0,
    }) < 1 {
        Err(ErrorView::InvalidConfig("machine needs a nonzero amount of memory"@))
    } else {
        Ok(())
    }
}

fn path_exists_check(kind: &str, path: &str) -> (r: ConfigCheck)
    ensures
        r@ == (ConfigCheckView::PathExists { kind: kind@, path: path@ }),
{
    ConfigCheck::PathExists { kind: kind.to_string(), path: path.to_string() }
}

fn opt_text(s: &Option<String>) -> (r: String)
    ensures
        r@ == text_or_empty(s.deep_view()),
{
    match s {
        Some(t) => t.clone(),
        None => String::new(),
    }
}

impl Config {
    /// Whether the microVM is restored from a snapshot rather than booted.
    pub fn has_snapshot(&self) -> (r: bool)
        ensures
            r == (mem_backend_path_spec(self.snapshot) is Some || self.snapshot.snapshot_path is Some),
    {
        self.snapshot.get_mem_backend_path().is_some() || self.snapshot.snapshot_path.is_some()
    }

    /// The file-system checks to make before a boot, in the order in which
    /// they are made; the first that fails makes the configuration invalid.
    pub fn validation_checks(&self) -> (r: Vec<ConfigCheck>)
        ensures
            check_views(r@) == validation_checks_spec(*self),
    {
        proof {
            reveal_strlit("kernel image path");
            reveal_strlit("initrd image path");
            reveal_strlit("host drive path");
        }
        let mut checks: Vec<ConfigCheck> = Vec::new();
        if self.disable_validation {
            assert(check_views(checks@) =~= validation_checks_spec(*self));
            return checks;
        }
        let ghost mut expected: Seq<ConfigCheckView> = seq![
            ConfigCheckView::PathExists { kind: "kernel image path"@, path: self.kernel_image_path@ },
        ];
        checks.push(path_exists_check("kernel image path", self.kernel_image_path.as_str()));
        assert(check_views(checks@) =~= expected);
        if let Some(p) = &self.initrd_path {
            let c = path_exists_check("initrd image path", p.as_str());
            proof {
                expected = expected.push(c@);
            }
            checks.push(c);
        }
        assert(check_views(checks@) =~= expected);
        let ghost views = drive_views(self.drives@);
        let mut i: usize = 0;
        assert(views.skip(0) =~= views);
        while i < self.drives.len()
            invariant
                i <= self.drives.len(),
                views == drive_views(self.drives@),
                first_root_drive(views) == first_root_drive(views.skip(i as int)),
            ensures
                i <= self.drives.len(),
                first_root_drive(views) == first_root_drive(views.skip(i as int)),
                i < self.drives.len() ==> self.drives@[i as int].is_root_device == Some(true),
            decreases self.drives.len() - i,
        {
            assert(views.skip(i as int)[0] == self.drives@[i as int]@);
            assert(views.skip(i as int).drop_first() =~= views.skip(i as int + 1));
            if self.drives[i].is_root_device == Some(true) {
                break;
            }
            i = i + 1;
        }
        if i < self.drives.len() {
            assert(views.skip(i as int)[0] == self.drives@[i as int]@);
            let path = opt_text(&self.drives[i].path_on_host);
            let c = path_exists_check("host drive path", path.as_str());
            proof {
                expected = expected.push(c@);
            }
            checks.push(c);
        } else {
            assert(views.skip(i as int).len() == 0);
        }
        assert(check_views(checks@) =~= expected);
        let c = ConfigCheck::SocketAbsent { path: self.socket_path.clone() };
        checks.push(c);
        assert(check_views(checks@) =~= validation_checks_spec(*self));
        checks
    }

    /// The file-system checks to make before restoring a snapshot, in the
    /// order in which they are made.
    pub fn load_snapshot_validation_checks(&self) -> (r: Vec<ConfigCheck>)
        ensures
            check_views(r@) == load_snapshot_checks_spec(*self),
    {
        proof {
            reveal_strlit("drive path");
            reveal_strlit("snapshot memory path");
            reveal_strlit("snapshot path");
        }
        let mut checks: Vec<ConfigCheck> = Vec::new();
        if self.disable_validation {
            assert(check_views(checks@) =~= load_snapshot_checks_spec(*self));
            return checks;
        }
        let ghost per_drive = drive_checks(drive_views(self.drives@));
        let mut i: usize = 0;
        while i < self.drives.len()
            invariant
                i <= self.drives.len(),
                per_drive == drive_checks(drive_views(self.drives@)),
                check_views(checks@) == per_drive.take(i as int),
            decreases self.drives.len() - i,
        {
            let path = opt_text(&self.drives[i].path_on_host);
            let c = path_exists_check("drive path", path.as_str());
            assert(drive_views(self.drives@)[i as int] == self.drives@[i as int]@);
            assert(c@ == per_drive[i as int]);
            let ghost before = checks@;
            checks.push(c);
            assert(checks@ == before.push(c));
            assert(check_views(checks@) =~= check_views(before).push(c@));
            assert(check_views(checks@) =~= per_drive.take(i as int + 1));
            i = i + 1;
        }
        assert(per_drive.take(i as int) =~= per_drive);
        checks.push(ConfigCheck::SocketAbsent { path: self.socket_path.clone() });
        let mem = self.snapshot.get_mem_backend_path();
        let mem_path = opt_text(&mem);
        checks.push(path_exists_check("snapshot memory path", mem_path.as_str()));
        let snap_path = opt_text(&self.snapshot.snapshot_path);
        checks.push(path_exists_check("snapshot path", snap_path.as_str()));
        assert(check_views(checks@) =~= load_snapshot_checks_spec(*self));
        checks
    }

    /// Checks that a snapshot load has both its memory source and its
    /// snapshot file.
    pub fn check_snapshot_paths(&self) -> (r: Result<(), Error>)
        ensures
            r is Ok <==> (mem_backend_path_spec(self.snapshot) is Some && self.snapshot.snapshot_path is Some),
            r matches Err(e) ==> e@ == ErrorView::InvalidConfig(
                "snapshot load requires both memory backend and snapshot path"@,
            ),
    {
        if self.snapshot.get_mem_backend_path().is_none() || self.snapshot.snapshot_path.is_none() {
            return Err(
                Error::InvalidConfig("snapshot load requires both memory backend and snapshot path".to_string()),
            );
        }
        Ok(())
    }

    /// Checks the machine's size: a vCPU count and a memory size of at least
    /// one are required.
    pub fn validate_machine_cfg(&self) -> (r: Result<(), Error>)
        ensures
            match r {
                Ok(()) => machine_cfg_check_spec(*self) is Ok,
                Err(e) => machine_cfg_check_spec(*self) == Err::<(), ErrorView>(e@),
            },
    {
        if self.disable_validation {
            return Ok(());
        }
        let vcpus: i64 = match self.machine_cfg.vcpu_count {
            Some(v) => v,
            None => 0,
        };
        if vcpus < 1 {
            return Err(Error::InvalidConfig("machine needs a nonzero VcpuCount".to_string()));
        }
        let mem: i64 = match self.machine_cfg.mem_size_mib {
            Some(v) => v,
            None => 0,
        };
        if mem < 1 {
            return Err(Error::InvalidConfig("machine needs a nonzero amount of memory".to_string()));
        }
        Ok(())
    }

    /// Whether the guest has something to boot from: an initrd or a drive
    /// marked as root device.
    pub fn root_drive_present(&self) -> (r: bool)
        ensures
            r == (self.initrd_path is Some || first_root_drive(drive_views(self.drives@)) is Some),
    {
        if self.initrd_path.is_some() {
            return true;
        }
        let ghost views = drive_views(self.drives@);
        let mut i: usize = 0;
        assert(views.skip(0) =~= views);
        while i < self.drives.len()
            invariant
                i <= self.drives.len(),
                views == drive_views(self.drives@),
                first_root_drive(views) == first_root_drive(views.skip(i as int)),
            decreases self.drives.len() - i,
        {
            assert(views.skip(i as int)[0] == self.drives@[i as int]@);
            assert(views.skip(i as int).drop_first() =~= views.skip(i as int + 1));
            if self.drives[i].is_root_device == Some(true) {
                return true;
            }
            i = i + 1;
        }
        assert(views.skip(i as int).len() == 0);
        false
    }

    /// A configuration that boots from the root drive at `root_drive_path`
    /// with one vCPU and 128 MiB of memory, and defaults elsewhere.
    pub fn sample(root_drive_path: &str) -> (r: Config)
        ensures
            drive_views(r.drives@) == seq![root_drive_spec(root_drive_path@)],
            r.machine_cfg.vcpu_count == Some(1i64),
            r.machine_cfg.mem_size_mib == Some(128i64),
            r.socket_path@.len() == 0,
            r.kernel_image_path@.len() == 0,
            r.initrd_path is None,
            !r.disable_validation,
            r.vmid@.len() == 0,
            r.forward_signals is None,
            r.snapshot.mem_file_path is None && r.snapshot.mem_backend is None
                && r.snapshot.snapshot_path is None,
    {
        Config {
            socket_path: String::new(),
            log_path: None,
            log_fifo: None,
            log_level: None,
            metrics_path: None,
            metrics_fifo: None,
            kernel_image_path: String::new(),
            initrd_path: None,
            kernel_args: String::new(),
            drives: DrivesBuilder::new(root_drive_path.to_string()).build(),
            machine_cfg: MachineConfiguration::new(1, 128),
            disable_validation: false,
            vmid: String::new(),
            net_ns: None,
            forward_signals: None,
            seccomp: SeccompConfig { enabled: false, filter: None },
            mmds_address: None,
            mmds_version: MMDSVersion::V1,
            snapshot: SnapshotConfig {
                mem_file_path: None,
                mem_backend: None,
                snapshot_path: None,
                enable_diff_snapshots: false,
                resume_vm: false,
            },
        }
    }

    /// The signals to forward to the Firecracker process: those configured,
    /// or the default set.
    pub fn normalized_forward_signals(&self) -> (r: Vec<i32>)
        ensures
            r@ == match self.forward_signals {
                Some(s) => s@,
                None => default_forward_signals(),
            },
    {
        match &self.forward_signals {
            Some(s) => s.clone(),
            None => {
                let v: Vec<i32> = vec![2, 3, 15, 1, 6];
                assert(v@ =~= default_forward_signals());
                v
            },
        }
    }
}

/// The error for an API socket that already exists.
pub fn socket_exists_error(socket_path: &str) -> (e: Error)
    ensures
        e@ == ErrorView::InvalidConfig("socket "@ + socket_path@ + " already exists"@),
{
    let mut m = String::from_str("socket ");
    m.append(socket_path);
    m.append(" already exists");
    Error::InvalidConfig(m)
}

} // verus!
