//! Request and response bodies of the Firecracker API.

use vstd::prelude::*;

use crate::text::copy_opt_string;

verus! {

/// Cache type that flushes guest writes to the host lazily.
pub const DRIVE_CACHE_TYPE_WRITEBACK: &'static str = "Writeback";
/// Asynchronous block I/O engine.
pub const DRIVE_IO_ENGINE_ASYNC: &'static str = "Async";
/// Action that boots the guest.
pub const INSTANCE_ACTION_INSTANCE_START: &'static str = "InstanceStart";
/// Action that sends Ctrl+Alt+Del to the guest.
pub const INSTANCE_ACTION_SEND_CTRL_ALT_DEL: &'static str = "SendCtrlAltDel";
/// Version string of the first metadata service protocol.
pub const MMDS_VERSION_V1: &'static str = "V1";
/// Version string of the second metadata service protocol.
pub const MMDS_VERSION_V2: &'static str = "V2";
/// State of a paused microVM.
pub const VM_STATE_PAUSED: &'static str = "Paused";
/// State of a running microVM.
pub const VM_STATE_RESUMED: &'static str = "Resumed";

/// Name of a CPU template.
pub type CpuTemplate = String;

/// A token bucket: its size, a one-time burst and the refill time in
/// milliseconds.
#[derive(Debug, Clone, Copy, PartialEq, Eq, Default)]
pub struct TokenBucket {
    pub size: Option<i64>,
    pub one_time_burst: Option<i64>,
    pub refill_time: Option<i64>,
}

/// Bandwidth and operation-rate limits of a device.
#[derive(Debug, Clone, Copy, PartialEq, Eq, Default)]
pub struct RateLimiter {
    pub bandwidth: Option<TokenBucket>,
    pub ops: Option<TokenBucket>,
}

/// Balloon device configuration.
#[derive(Debug, Clone, Copy, PartialEq, Eq, Default)]
pub struct Balloon {
    pub amount_mib: Option<i64>,
    pub deflate_on_oom: Option<bool>,
    pub stats_polling_intervals: i64,
}

/// Update of the balloon statistics polling interval.
#[derive(Debug, Clone, Copy, PartialEq, Eq, Default)]
pub struct BalloonStatsUpdate {
    pub stats_polling_intervals: Option<i64>,
}

/// Update of the balloon target size.
#[derive(Debug, Clone, Copy, PartialEq, Eq, Default)]
pub struct BalloonUpdate {
    pub amount_mib: Option<i64>,
}

/// Kernel, initrd and kernel command line of the guest.
#[derive(Debug, Clone, PartialEq, Eq, Default)]
pub struct BootSource {
    pub kernel_image_path: Option<String>,
    pub initrd_path: Option<String>,
    pub boot_args: Option<String>,
}

/// A block device of the guest.
#[derive(Debug, PartialEq, Eq, Default)]
pub struct Drive {
    pub drive_id: Option<String>,
    pub path_on_host: Option<String>,
    pub is_root_device: Option<bool>,
    pub is_read_only: Option<bool>,
    pub partuuid: Option<String>,
    pub rate_limiter: Option<RateLimiter>,
    pub cache_type: Option<String>,
    pub io_engine: Option<String>,
}

/// Mathematical value of a [`Drive`], with strings by their characters.
pub struct DriveView {
    pub drive_id: Option<Seq<char>>,
    pub path_on_host: Option<Seq<char>>,
    pub is_root_device: Option<bool>,
    pub is_read_only: Option<bool>,
    pub partuuid: Option<Seq<char>>,
    pub rate_limiter: Option<RateLimiter>,
    pub cache_type: Option<Seq<char>>,
    pub io_engine: Option<Seq<char>>,
}

impl View for Drive {
    type V = DriveView;

    open spec fn view(&self) -> DriveView {
        DriveView {
            drive_id: self.drive_id.deep_view(),
            path_on_host: self.path_on_host.deep_view(),
            is_root_device: self.is_root_device,
            is_read_only: self.is_read_only,
            partuuid: self.partuuid.deep_view(),
            rate_limiter: self.rate_limiter,
            cache_type: self.cache_type.deep_view(),
            io_engine: self.io_engine.deep_view(),
        }
    }
}

impl Drive {
    /// A copy of this drive.
    pub fn duplicate(&self) -> (r: Drive)
        ensures
            r@ == self@,
    {
        Drive {
            drive_id: copy_opt_string(&self.drive_id),
            path_on_host: copy_opt_string(&self.path_on_host),
            is_root_device: self.is_root_device,
            is_read_only: self.is_read_only,
            partuuid: copy_opt_string(&self.partuuid),
            rate_limiter: self.rate_limiter,
            cache_type: copy_opt_string(&self.cache_type),
            io_engine: copy_opt_string(&self.io_engine),
        }
    }
}

impl Clone for Drive {
    fn clone(&self) -> (r: Self)
        ensures
            r@ == self@,
    {
        self.duplicate()
    }
}

/// The entropy device of the guest.
#[derive(Debug, Clone, Copy, PartialEq, Eq, Default)]
pub struct EntropyDevice {
    pub rate_limiter: Option<RateLimiter>,
}

/// An error body returned by the Firecracker API.
#[derive(Debug, Clone, PartialEq, Eq, Default)]
pub struct Error {
    pub fault_message: Option<String>,
}

/// The version that the Firecracker process reports.
#[derive(Debug, Clone, PartialEq, Eq, Default)]
pub struct FirecrackerVersion {
    pub firecracker_version: String,
}

/// An action on the running instance.
#[derive(Debug, Clone, PartialEq, Eq, Default)]
pub struct InstanceActionInfo {
    pub action_type: Option<String>,
}

/// Logger configuration.
#[derive(Debug, Clone, PartialEq, Eq, Default)]
pub struct Logger {
    pub log_path: Option<String>,
    pub level: Option<String>,
    pub show_level: Option<bool>,
    pub show_log_origin: Option<bool>,
}

/// Number of vCPUs, memory size and CPU features of the guest.
#[derive(Debug, Clone, PartialEq, Eq, Default)]
pub struct MachineConfiguration {
    pub vcpu_count: Option<i64>,
    pub mem_size_mib: Option<i64>,
    pub smt: Option<bool>,
    pub track_dirty_pages: Option<bool>,
    pub cpu_template: Option<CpuTemplate>,
}

impl MachineConfiguration {
    /// A configuration with the given vCPU count and memory size, and
    /// nothing else set.
    pub fn new(vcpu_count: i64, mem_size_mib: i64) -> (r: Self)
        ensures
            r.vcpu_count == Some(vcpu_count),
            r.mem_size_mib == Some(mem_size_mib),
            r.smt is None,
            r.track_dirty_pages is None,
            r.cpu_template is None,
    {
        MachineConfiguration {
            vcpu_count: Some(vcpu_count),
            mem_size_mib: Some(mem_size_mib),
            smt: None,
            track_dirty_pages: None,
            cpu_template: None,
        }
    }
}

/// Backend from which snapshot memory is loaded.
#[derive(Debug, Clone, PartialEq, Eq, Default)]
pub struct MemoryBackend {
    pub backend_type: Option<String>,
    pub backend_path: Option<String>,
}

/// Mathematical value of an optional [`MemoryBackend`]: its type and path by
/// their characters.
pub open spec fn mem_backend_view(b: Option<MemoryBackend>) -> Option<(Option<Seq<char>>, Option<Seq<char>>)> {
    match b {
        Some(x) => Some((x.backend_type.deep_view(), x.backend_path.deep_view())),
        None => None,
    }
}

impl MemoryBackend {
    /// A copy of this backend.
    pub fn duplicate(&self) -> (r: MemoryBackend)
        ensures
            r.backend_type.deep_view() == self.backend_type.deep_view(),
            r.backend_path.deep_view() == self.backend_path.deep_view(),
    {
        MemoryBackend {
            backend_type: copy_opt_string(&self.backend_type),
            backend_path: copy_opt_string(&self.backend_path),
        }
    }
}

/// Metrics configuration.
#[derive(Debug, Clone, PartialEq, Eq, Default)]
pub struct Metrics {
    pub metrics_path: Option<String>,
}

/// Configuration of the microVM metadata service.
#[derive(Debug, Clone, PartialEq, Eq, Default)]
pub struct MmdsConfig {
    pub ipv4_address: Option<String>,
    pub network_interfaces: Vec<String>,
    pub version: Option<String>,
}

/// A network interface of the guest.
#[derive(Debug, Clone, PartialEq, Eq, Default)]
pub struct NetworkInterfaceModel {
    pub iface_id: Option<String>,
    pub guest_mac: Option<String>,
    pub host_dev_name: Option<String>,
    pub rx_rate_limiter: Option<RateLimiter>,
    pub tx_rate_limiter: Option<RateLimiter>,
}

/// Update of a drive's backing file.
#[derive(Debug, Clone, PartialEq, Eq, Default)]
pub struct PartialDrive {
    pub drive_id: Option<String>,
    pub path_on_host: Option<String>,
}

/// Update of a network interface's rate limits.
#[derive(Debug, Clone, PartialEq, Eq, Default)]
pub struct PartialNetworkInterface {
    pub iface_id: Option<String>,
    pub rx_rate_limiter: Option<RateLimiter>,
    pub tx_rate_limiter: Option<RateLimiter>,
}

/// Where a snapshot is written.
#[derive(Debug, Clone, PartialEq, Eq, Default)]
pub struct SnapshotCreateParams {
    pub mem_file_path: Option<String>,
    pub snapshot_path: Option<String>,
}

/// Where a snapshot is loaded from, and how.
#[derive(Debug, Clone, PartialEq, Eq, Default)]
pub struct SnapshotLoadParams {
    pub mem_file_path: Option<String>,
    pub mem_backend: Option<MemoryBackend>,
    pub snapshot_path: Option<String>,
    pub enable_diff_snapshots: bool,
    pub resume_vm: bool,
}

/// The run state of the microVM.
#[derive(Debug, Clone, PartialEq, Eq, Default)]
pub struct Vm {
    pub state: Option<String>,
}

impl Vm {
    /// The paused state.
    pub fn paused() -> (r: Self)
        ensures
            r.state.deep_view() == Some(VM_STATE_PAUSED@),
    {
        Vm { state: Some(VM_STATE_PAUSED.to_string()) }
    }

    /// The running state.
    pub fn resumed() -> (r: Self)
        ensures
            r.state.deep_view() == Some(VM_STATE_RESUMED@),
    {
        Vm { state: Some(VM_STATE_RESUMED.to_string()) }
    }
}

/// The vsock device of the guest.
#[derive(Debug, Clone, PartialEq, Eq, Default)]
pub struct VsockModel {
    pub vsock_id: Option<String>,
    pub guest_cid: Option<i64>,
    pub uds_path: Option<String>,
}

/// The full configuration that the Firecracker process reports.
#[derive(Debug, Clone, PartialEq, Eq, Default)]
pub struct FullVmConfiguration {
    pub balloon: Option<Balloon>,
    pub drives: Vec<Drive>,
    pub boot_source: Option<BootSource>,
    pub logger: Option<Logger>,
    pub machine_config: Option<MachineConfiguration>,
    pub metrics: Option<Metrics>,
    pub mmds_config: Option<MmdsConfig>,
    pub network_interfaces: Vec<NetworkInterfaceModel>,
    pub vsock: Option<VsockModel>,
}

} // verus!
