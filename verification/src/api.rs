//! The calls of the Firecracker API: the HTTP method and path of each, and
//! the timeouts its request gets.

use std::time::Duration;

use vstd::prelude::*;

use crate::client::RequestOptions;

verus! {

/// A call of the Firecracker API; calls on one device carry its id.
#[derive(Debug, Clone, Copy, PartialEq, Eq)]
pub enum ApiCall<'a> {
    GetFirecrackerVersion,
    PutLogger,
    PutMetrics,
    PutMachineConfiguration,
    PatchMachineConfiguration,
    GetMachineConfiguration,
    PutGuestBootSource,
    PutCpuConfiguration,
    PutEntropyDevice,
    PutGuestDrive(&'a str),
    PatchGuestDrive(&'a str),
    PutGuestNetworkInterface(&'a str),
    PatchGuestNetworkInterface(&'a str),
    PutGuestVsock,
    PatchVm,
    CreateSnapshot,
    LoadSnapshot,
    CreateSyncAction,
    PutMmds,
    GetMmds,
    PatchMmds,
    PutMmdsConfig,
    DescribeInstance,
    PutBalloon,
    GetBalloonConfig,
    PatchBalloon,
    GetBalloonStats,
    PatchBalloonStatsInterval,
    GetExportVmConfig,
}

/// The HTTP method of a call.
pub open spec fn method_spec(c: ApiCall) -> Seq<char> {
    match c {
        ApiCall::GetFirecrackerVersion | ApiCall::GetMachineConfiguration | ApiCall::GetMmds
        | ApiCall::DescribeInstance | ApiCall::GetBalloonConfig | ApiCall::GetBalloonStats
        | ApiCall::GetExportVmConfig => "GET"@,
        ApiCall::PatchMachineConfiguration | ApiCall::PatchGuestDrive(_)
        | ApiCall::PatchGuestNetworkInterface(_) | ApiCall::PatchVm | ApiCall::PatchMmds
        | ApiCall::PatchBalloon | ApiCall::PatchBalloonStatsInterval => "PATCH"@,
        _ => "PUT"@,
    }
}

/// The path of a call.
pub open spec fn path_spec(c: ApiCall) -> Seq<char> {
    match c {
        ApiCall::GetFirecrackerVersion => "/version"@,
        ApiCall::PutLogger => "/logger"@,
        ApiCall::PutMetrics => "/metrics"@,
        ApiCall::PutMachineConfiguration | ApiCall::PatchMachineConfiguration
        | ApiCall::GetMachineConfiguration => "/machine-config"@,
        ApiCall::PutGuestBootSource => "/boot-source"@,
        ApiCall::PutCpuConfiguration => "/cpu-config"@,
        ApiCall::PutEntropyDevice => "/entropy"@,
        ApiCall::PutGuestDrive(id) | ApiCall::PatchGuestDrive(id) => "/drives/"@ + id@,
        ApiCall::PutGuestNetworkInterface(id) | ApiCall::PatchGuestNetworkInterface(id) =>
            "/network-interfaces/"@ + id@,
        ApiCall::PutGuestVsock => "/vsock"@,
        ApiCall::PatchVm => "/vm"@,
        ApiCall::CreateSnapshot => "/snapshot/create"@,
        ApiCall::LoadSnapshot => "/snapshot/load"@,
        ApiCall::CreateSyncAction => "/actions"@,
        ApiCall::PutMmds | ApiCall::GetMmds | ApiCall::PatchMmds => "/mmds"@,
        ApiCall::PutMmdsConfig => "/mmds/config"@,
        ApiCall::DescribeInstance => "/"@,
        ApiCall::PutBalloon | ApiCall::GetBalloonConfig | ApiCall::PatchBalloon => "/balloon"@,
        ApiCall::GetBalloonStats | ApiCall::PatchBalloonStatsInterval => "/balloon/statistics"@,
        ApiCall::GetExportVmConfig => "/vm/config"@,
    }
}

/// The read timeout a call gets unless its options override it: none for
/// snapshots, which take as long as they take; the drive timeout for
/// attaching a drive; the request timeout otherwise.
pub open spec fn default_read_timeout(c: ApiCall, request_timeout: Duration, drive_timeout: Duration) -> Option<
    Duration,
> {
    match c {
        ApiCall::CreateSnapshot | ApiCall::LoadSnapshot => None,
        ApiCall::PutGuestDrive(_) => Some(drive_timeout),
        _ => Some(request_timeout),
    }
}

/// The write timeout a call gets unless its options override it: the drive
/// timeout for attaching a drive, the request timeout otherwise.
pub open spec fn default_write_timeout(c: ApiCall, request_timeout: Duration, drive_timeout: Duration) -> Option<
    Duration,
> {
    match c {
        ApiCall::PutGuestDrive(_) => Some(drive_timeout),
        _ => Some(request_timeout),
    }
}

/// The timeouts of call `c`: its defaults, each replaced by its override in
/// `options` when there is one.
pub open spec fn timeouts_spec(
    c: ApiCall,
    request_timeout: Duration,
    drive_timeout: Duration,
    options: RequestOptions,
) -> (Option<Duration>, Option<Duration>) {
    (
        match options.read_override() {
            Some(t) => t,
            None => default_read_timeout(c, request_timeout, drive_timeout),
        },
        match options.write_override() {
            Some(t) => t,
            None => default_write_timeout(c, request_timeout, drive_timeout),
        },
    )
}

/// Half of `d`, as `Duration / 2` computes it (rounded down to the
/// nanosecond).
pub uninterp spec fn halved(d: Duration) -> Duration;

/// Half of a duration.
///
/// Calls `Duration / u32` with 2, which never panics (the divisor is not
/// zero). Verus sees no value inside a `Duration`, so the result is named:
/// it is [`halved`] of `d`, the same for the same `d`.
#[verifier::external_body]
fn half_duration(d: Duration) -> (r: Duration)
    ensures
        r == halved(d),
{
    d / 2
}

impl<'a> ApiCall<'a> {
    /// The HTTP method of this call.
    pub fn method(&self) -> (r: &'static str)
        ensures
            r@ == method_spec(*self),
    {
        match self {
            ApiCall::GetFirecrackerVersion | ApiCall::GetMachineConfiguration | ApiCall::GetMmds
            | ApiCall::DescribeInstance | ApiCall::GetBalloonConfig | ApiCall::GetBalloonStats
            | ApiCall::GetExportVmConfig => "GET",
            ApiCall::PatchMachineConfiguration | ApiCall::PatchGuestDrive(_)
            | ApiCall::PatchGuestNetworkInterface(_) | ApiCall::PatchVm | ApiCall::PatchMmds
            | ApiCall::PatchBalloon | ApiCall::PatchBalloonStatsInterval => "PATCH",
            _ => "PUT",
        }
    }

    /// The path of this call.
    pub fn path(&self) -> (r: String)
        ensures
            r@ == path_spec(*self),
    {
        match self {
            ApiCall::GetFirecrackerVersion => "/version".to_string(),
            ApiCall::PutLogger => "/logger".to_string(),
            ApiCall::PutMetrics => "/metrics".to_string(),
            ApiCall::PutMachineConfiguration | ApiCall::PatchMachineConfiguration
            | ApiCall::GetMachineConfiguration => "/machine-config".to_string(),
            ApiCall::PutGuestBootSource => "/boot-source".to_string(),
            ApiCall::PutCpuConfiguration => "/cpu-config".to_string(),
            ApiCall::PutEntropyDevice => "/entropy".to_string(),
            ApiCall::PutGuestDrive(id) | ApiCall::PatchGuestDrive(id) => {
                let mut p = String::from_str("/drives/");
                p.append(id);
                p
            },
            ApiCall::PutGuestNetworkInterface(id) | ApiCall::PatchGuestNetworkInterface(id) => {
                let mut p = String::from_str("/network-interfaces/");
                p.append(id);
                p
            },
            ApiCall::PutGuestVsock => "/vsock".to_string(),
            ApiCall::PatchVm => "/vm".to_string(),
            ApiCall::CreateSnapshot => "/snapshot/create".to_string(),
            ApiCall::LoadSnapshot => "/snapshot/load".to_string(),
            ApiCall::CreateSyncAction => "/actions".to_string(),
            ApiCall::PutMmds | ApiCall::GetMmds | ApiCall::PatchMmds => "/mmds".to_string(),
            ApiCall::PutMmdsConfig => "/mmds/config".to_string(),
            ApiCall::DescribeInstance => "/".to_string(),
            ApiCall::PutBalloon | ApiCall::GetBalloonConfig | ApiCall::PatchBalloon => "/balloon".to_string(),
            ApiCall::GetBalloonStats | ApiCall::PatchBalloonStatsInterval => "/balloon/statistics".to_string(),
            ApiCall::GetExportVmConfig => "/vm/config".to_string(),
        }
    }

    /// The read and write timeouts of this call for a client whose request
    /// timeout is `request_timeout` and whose drive timeout is
    /// `drive_timeout`: the call's defaults, each replaced by its override in
    /// `options` when there is one.
    pub fn timeouts_with(&self, request_timeout: Duration, drive_timeout: Duration, options: RequestOptions) -> (r: (
        Option<Duration>,
        Option<Duration>,
    ))
        ensures
            r == timeouts_spec(*self, request_timeout, drive_timeout, options),
    {
        let read = match self {
            ApiCall::CreateSnapshot | ApiCall::LoadSnapshot => None,
            ApiCall::PutGuestDrive(_) => Some(drive_timeout),
            _ => Some(request_timeout),
        };
        let write = match self {
            ApiCall::PutGuestDrive(_) => Some(drive_timeout),
            _ => Some(request_timeout),
        };
        options.resolve(read, write)
    }

    /// The read and write timeouts of this call for a client whose request
    /// timeout is `request_timeout`; drives are attached with half of it.
    pub fn timeouts(&self, request_timeout: Duration, options: RequestOptions) -> (r: (
        Option<Duration>,
        Option<Duration>,
    ))
        ensures
            r == timeouts_spec(*self, request_timeout, halved(request_timeout), options),
    {
        let drive_timeout = half_duration(request_timeout);
        self.timeouts_with(request_timeout, drive_timeout, options)
    }
}

} // verus!
