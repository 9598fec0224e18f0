//! Firecracker SDK: configuration builders, command-line construction and the
//! protocol logic that drives a Firecracker microVM, with machine-checked
//! contracts.

pub mod api;
pub mod balloon;
pub mod client;
pub mod cni;
pub mod command_builder;
pub mod config;
pub mod cpu_template;
pub mod drives;
pub mod error;
pub mod fctesting;
pub mod fifo;
pub mod handlers;
pub mod http;
pub mod jailer;
pub mod kernelargs;
pub mod laws;
pub mod machine;
pub mod models;
pub mod path;
pub mod seqs;
pub mod signals;
pub mod text;

pub use api::ApiCall;
pub use balloon::{with_stats_polling_intervals, BalloonDevice, BalloonOpt};
pub use client::{
    client_timeouts, new_unix_socket_transport, with_init_timeout, with_read_timeout, with_request_timeout,
    with_unix_socket_transport, with_write_timeout, without_read_timeout, without_write_timeout,
    ApplyClientOpt, ApplyRequestOpt, Client, ClientOpt, NoopClient, RequestOpt, RequestOptions,
    UnixSocketTransport, DEFAULT_FIRECRACKER_REQUEST_TIMEOUT, FIRECRACKER_REQUEST_TIMEOUT_ENV,
};
pub use cni::internal::{
    filter_by_sandbox, ifaces_with_name, interface_ips, vm_tap_pair, CniUtilError, Link,
    LinkNotFoundError, MockNetlinkOps, NetlinkOps, UnsupportedNetlinkOps,
};
pub use cni::vmconf::{mtu_of, static_network_conf_from, StaticNetworkConf, VmConfError};
pub use cni::{CniDnsConfig, CniInterface, CniIpConfig, CniResult, CniRoute, Ipv4Net};
pub use command_builder::{seccomp_args, CommandStdio, VMCommand, VMCommandBuilder, DEFAULT_FC_BIN};
pub use config::{
    Config, ConfigCheck, MMDSVersion, SeccompConfig, SnapshotConfig,
    DEFAULT_FIRECRACKER_INIT_TIMEOUT_SECONDS, DEFAULT_NET_NS_DIR, FIRECRACKER_INIT_TIMEOUT_ENV,
};
pub use cpu_template::{find_first_vendor_id, support_cpu_template, CpuTemplateMemo, CpuTemplateStep};
pub use drives::{
    with_cache_type, with_drive_id, with_io_engine, with_partuuid, with_rate_limiter, with_read_only,
    DriveOpt, DrivesBuilder, ROOT_DRIVE_NAME,
};
pub use error::Error;
pub use fctesting::parse_log_level;
pub use handlers::{
    adapt_handlers_for_snapshot, version_to_model, Handler, HandlerList, Handlers,
    ADD_VSOCKS_HANDLER_NAME, ATTACH_DRIVES_HANDLER_NAME, BOOTSTRAP_LOGGING_HANDLER_NAME,
    CONFIG_MMDS_HANDLER_NAME, CREATE_BOOT_SOURCE_HANDLER_NAME, CREATE_LOG_FILES_HANDLER_NAME,
    CREATE_MACHINE_HANDLER_NAME, CREATE_NETWORK_INTERFACES_HANDLER_NAME,
    LINK_FILES_TO_ROOTFS_HANDLER_NAME, LOAD_SNAPSHOT_HANDLER_NAME, NEW_SET_METADATA_HANDLER_NAME,
};
pub use jailer::{
    jail, JailerCommandBuilder, JailerConfig, NaiveChrootStrategy, DEFAULT_JAILER_BIN,
    DEFAULT_JAILER_PATH, DEFAULT_SOCKET_PATH, LINK_FILES_HANDLER_NAME, ROOTFS_FOLDER_NAME,
};
pub use kernelargs::{parse_kernel_args, KernelArgs};
pub use machine::{readiness_step, RateLimiterSet, ReadinessStep, StartGuard, READINESS_POLL_INTERVAL_MS};
pub use models::Error as ApiError;
pub use models::{
    Balloon, BalloonStatsUpdate, BalloonUpdate, BootSource, CpuTemplate, Drive, EntropyDevice,
    FirecrackerVersion, FullVmConfiguration, InstanceActionInfo, Logger, MachineConfiguration,
    MemoryBackend, Metrics, MmdsConfig, NetworkInterfaceModel, PartialDrive, PartialNetworkInterface,
    RateLimiter, SnapshotCreateParams, SnapshotLoadParams, TokenBucket, Vm, VsockModel,
    DRIVE_CACHE_TYPE_WRITEBACK, DRIVE_IO_ENGINE_ASYNC, INSTANCE_ACTION_INSTANCE_START,
    INSTANCE_ACTION_SEND_CTRL_ALT_DEL, MMDS_VERSION_V1, MMDS_VERSION_V2, VM_STATE_PAUSED,
    VM_STATE_RESUMED,
};
