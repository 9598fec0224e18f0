//! The decisions a microVM makes over its life: the command that starts
//! Firecracker, the bodies of the API requests it sends, the guard against a
//! second start, and how failures are reported together.

use vstd::prelude::*;

use crate::cni::vmconf::{dotted_quad, dotted_quad_string};
use crate::command_builder::{spec_seccomp_args, seccomp_args, StdioView, VMCommand, VMCommandBuilder, DEFAULT_FC_BIN};
use crate::config::{mem_backend_path_spec, Config, MMDSVersion, SeccompConfig, SnapshotConfig, DEFAULT_NET_NS_DIR};
use crate::error::{Error, ErrorView};
use crate::models::{
    Balloon, BalloonStatsUpdate, BalloonUpdate, BootSource, InstanceActionInfo, Logger, Metrics,
    MmdsConfig, mem_backend_view, NetworkInterfaceModel, PartialDrive, PartialNetworkInterface, RateLimiter,
    SnapshotCreateParams, SnapshotLoadParams, VsockModel, INSTANCE_ACTION_INSTANCE_START,
    INSTANCE_ACTION_SEND_CTRL_ALT_DEL, MMDS_VERSION_V1, MMDS_VERSION_V2,
};
use crate::kernelargs::{parse_kernel_args, parse_spec, render_map};
use crate::jailer::{jail, jail_builder_spec, jailer_args, jailer_bin, machine_socket_spec, chroot_path, rootfs_spec, JailerConfig};
use crate::text::{copy_opt_string, decimal, parse_i32_chars, parse_i32_spec, u64_to_decimal, chars_of};

verus! {

/// The receive and transmit rate limits of a network interface.
#[derive(Debug, Clone, Copy, PartialEq, Eq, Default)]
pub struct RateLimiterSet {
    pub in_rate_limiter: Option<RateLimiter>,
    pub out_rate_limiter: Option<RateLimiter>,
}

/// Arguments of a Firecracker process started without the jailer: the API
/// socket, the microVM's id, then the seccomp arguments.
pub open spec fn firecracker_args_spec(
    vmid: Seq<char>,
    socket_path: Seq<char>,
    seccomp_enabled: bool,
    seccomp_filter: Option<Seq<char>>,
) -> Seq<Seq<char>> {
    seq!["--api-sock"@, socket_path, "--id"@, vmid] + spec_seccomp_args(seccomp_enabled, seccomp_filter)
}

/// The command that starts Firecracker without the jailer, for the microVM
/// `vmid` serving its API on `socket_path`.
pub fn firecracker_command(vmid: &str, socket_path: &str, seccomp: &SeccompConfig) -> (cmd: VMCommand)
    ensures
        cmd.bin@ == DEFAULT_FC_BIN@,
        cmd.args.deep_view() == firecracker_args_spec(
            vmid@,
            socket_path@,
            seccomp.enabled,
            seccomp.filter.deep_view(),
        ),
        cmd.stdin.spec_view() == StdioView::Inherit,
        cmd.stdout.spec_view() == StdioView::Inherit,
        cmd.stderr.spec_view() == StdioView::Inherit,
{
    let mut args: Vec<String> = Vec::new();
    args.push("--id".to_string());
    args.push(vmid.to_string());
    let filter: Option<&str> = match &seccomp.filter {
        Some(f) => Some(f.as_str()),
        None => None,
    };
    let mut extra = seccomp_args(seccomp.enabled, filter);
    let ghost head = args.deep_view();
    args.append(&mut extra);
    assert(args.deep_view() =~= head + spec_seccomp_args(seccomp.enabled, seccomp.filter.deep_view()));
    let ghost built_args = args.deep_view();
    let builder = VMCommandBuilder::new().with_bin(DEFAULT_FC_BIN.to_string()).with_socket_path(
        socket_path.to_string(),
    ).with_args(args);
    let cmd = builder.build();
    assert(cmd.args.deep_view() =~= seq!["--api-sock"@, socket_path@] + built_args);
    assert(cmd.args.deep_view() =~= firecracker_args_spec(
        vmid@,
        socket_path@,
        seccomp.enabled,
        seccomp.filter.deep_view(),
    ));
    cmd
}

/// A lowercase hexadecimal digit.
pub open spec fn is_lower_hex(c: char) -> bool {
    (48 <= (c as u32) <= 57) || (97 <= (c as u32) <= 102)
}

/// Text of a random (version 4) UUID in hyphenated lowercase form:
/// `xxxxxxxx-xxxx-4xxx-yxxx-xxxxxxxxxxxx` with `y` one of `8`, `9`, `a`, `b`.
pub open spec fn is_v4_uuid_text(s: Seq<char>) -> bool {
    &&& s.len() == 36
    &&& forall|i: int|
        0 <= i < 36 ==> if i == 8 || i == 13 || i == 18 || i == 23 {
            #[trigger] s[i] == '-'
        } else {
            is_lower_hex(s[i])
        }
    &&& s[14] == '4'
    &&& (s[19] == '8' || s[19] == '9' || s[19] == 'a' || s[19] == 'b')
}

/// A lowercase hexadecimal digit for `n` in `0..16`.
pub open spec fn hex_digit(n: int) -> char {
    if n < 10 {
        (48 + n) as char
    } else {
        (87 + n) as char
    }
}

/// The bytes of a random (version 4) UUID made from `b`: byte 6 carries the
/// version `4` in its high nibble, byte 8 the RFC 4122 variant in its two
/// high bits, and every other bit comes from `b`.
pub open spec fn v4_bytes(b: Seq<u8>) -> Seq<u8> {
    b.update(6, ((b[6] & 0x0f) | 0x40) as u8).update(8, ((b[8] & 0x3f) | 0x80) as u8)
}

/// Nibble `j` of `b`, two to a byte, the high one first.
pub open spec fn nibble(b: Seq<u8>, j: int) -> int {
    if j % 2 == 0 {
        b[j / 2] as int / 16
    } else {
        b[j / 2] as int % 16
    }
}

/// How many hyphens come before position `i` of the hyphenated form.
pub open spec fn hyphens_before(i: int) -> int {
    if i < 8 {
        0
    } else if i < 13 {
        1
    } else if i < 18 {
        2
    } else if i < 23 {
        3
    } else {
        4
    }
}

/// The hyphenated lowercase text of the version 4 UUID made from the random
/// bytes `b`: the 32 hex digits of [`v4_bytes`] in groups of 8, 4, 4, 4 and
/// 12, separated by hyphens.
pub open spec fn uuid_v4_text(b: Seq<u8>) -> Seq<char> {
    Seq::new(
        36,
        |i: int|
            if i == 8 || i == 13 || i == 18 || i == 23 {
                '-'
            } else {
                hex_digit(nibble(v4_bytes(b), i - hyphens_before(i)))
            },
    )
}

proof fn lemma_hex_digit(n: int)
    requires
        0 <= n < 16,
    ensures
        is_lower_hex(hex_digit(n)),
        n == 4 ==> hex_digit(n) == '4',
        n == 8 ==> hex_digit(n) == '8',
        n == 9 ==> hex_digit(n) == '9',
        n == 10 ==> hex_digit(n) == 'a',
        n == 11 ==> hex_digit(n) == 'b',
{
}

/// The text made from any sixteen bytes has the form of a version 4 UUID.
pub proof fn lemma_uuid_v4_text_shape(b: Seq<u8>)
    requires
        b.len() == 16,
    ensures
        is_v4_uuid_text(uuid_v4_text(b)),
{
    let s = uuid_v4_text(b);
    let v = v4_bytes(b);
    assert forall|i: int| 0 <= i < 36 && !(i == 8 || i == 13 || i == 18 || i == 23) implies is_lower_hex(
        #[trigger] s[i],
    ) by {
        let j = i - hyphens_before(i);
        assert(0 <= j < 32);
        assert(0 <= j / 2 < 16);
        lemma_hex_digit(nibble(v, j));
    }
    let b6 = b[6];
    let b8 = b[8];
    assert((((b6 & 0x0f) | 0x40) as u8) / 16 == 4) by (bit_vector);
    assert(8 <= (((b8 & 0x3f) | 0x80) as u8) / 16 <= 11) by (bit_vector);
    assert(v[6] == ((b6 & 0x0f) | 0x40) as u8);
    assert(v[8] == ((b8 & 0x3f) | 0x80) as u8);
    assert(nibble(v, 12) == v[6] / 16);
    assert(nibble(v, 16) == v[8] / 16);
    lemma_hex_digit(nibble(v, 12));
    lemma_hex_digit(nibble(v, 16));
    assert(s[14] == hex_digit(nibble(v, 12)));
    assert(s[19] == hex_digit(nibble(v, 16)));
}

/// Sixteen random bytes from the operating system, or `None` when it cannot
/// supply them.
///
/// Calls `getrandom::fill`, which reports every failure as an error and does
/// not panic. Nothing is claimed of the bytes: they come by chance.
#[verifier::external_body]
fn random_bytes() -> (r: Option<[u8; 16]>) {
    let mut bytes = [0u8; 16];
    match getrandom::fill(&mut bytes) {
        Ok(()) => Some(bytes),
        Err(_) => None,
    }
}

/// The text of the version 4 UUID made from `bytes`.
///
/// Calls `uuid::Builder::from_random_bytes`, which sets the version and
/// variant bits as [`v4_bytes`] says, and renders the UUID with
/// `to_string`, which gives the hyphenated lowercase form.
#[verifier::external_body]
fn v4_uuid_text(bytes: [u8; 16]) -> (s: String)
    ensures
        s@ == uuid_v4_text(bytes@),
{
    uuid::Builder::from_random_bytes(bytes).into_uuid().to_string()
}

/// Why a VM id could not be generated.
pub open spec fn no_random_vmid_message() -> Seq<char> {
    "could not retrieve random bytes for uuid"@
}

/// The identifier of a new microVM from the configured one and, for when it
/// is empty, random bytes if the operating system supplied them: the
/// configured id; else the version 4 UUID made from the bytes; else a
/// process error.
pub fn vmid_from(vmid: &str, random: Option<[u8; 16]>) -> (r: Result<String, Error>)
    ensures
        vmid@.len() > 0 ==> (r matches Ok(s) && s@ == vmid@),
        vmid@.len() == 0 ==> match random {
            Some(b) => r matches Ok(s) && s@ == uuid_v4_text(b@),
            None => r matches Err(e) && e@ == ErrorView::Process(no_random_vmid_message()),
        },
{
    if !vmid.is_empty() {
        return Ok(vmid.to_string());
    }
    match random {
        Some(b) => Ok(v4_uuid_text(b)),
        None => {
            proof {
                reveal_strlit("could not retrieve random bytes for uuid");
            }
            Err(Error::Process("could not retrieve random bytes for uuid".to_string()))
        },
    }
}

/// The identifier of a new microVM: the configured one, or a fresh random
/// version 4 UUID when none is configured. Random bytes are asked for only
/// then; when the operating system cannot supply them the result is a
/// process error.
pub fn resolve_vmid(vmid: &str) -> (r: Result<String, Error>)
    ensures
        vmid@.len() > 0 ==> (r matches Ok(s) && s@ == vmid@),
        vmid@.len() == 0 ==> match r {
            Ok(s) => is_v4_uuid_text(s@) && exists|b: Seq<u8>| b.len() == 16 && s@ == uuid_v4_text(b),
            Err(e) => e@ == ErrorView::Process(no_random_vmid_message()),
        },
{
    if !vmid.is_empty() {
        return vmid_from(vmid, None);
    }
    let random = random_bytes();
    let r = vmid_from(vmid, random);
    proof {
        if let Some(b) = random {
            lemma_uuid_v4_text_shape(b@);
        }
    }
    r
}

/// The network namespace of a new microVM: the configured one; else, when
/// a CNI interface needs one, the default namespace of the microVM; else
/// none.
pub fn resolve_net_ns(net_ns: Option<&str>, has_cni_interface: bool, vmid: &str) -> (r: Option<String>)
    ensures
        net_ns matches Some(n) ==> r.deep_view() == Some(n@),
        net_ns is None && has_cni_interface ==> r.deep_view() == Some(net_ns_path_spec(vmid@)),
        net_ns is None && !has_cni_interface ==> r is None,
{
    match net_ns {
        Some(n) => Some(n.to_string()),
        None => if has_cni_interface {
            Some(default_net_ns_path(vmid))
        } else {
            None
        },
    }
}

/// The network namespace that the Firecracker process must enter itself:
/// the configured one, unless the jailer enters it.
pub fn netns_to_enter(net_ns: Option<&str>, jailed: bool) -> (r: Option<String>)
    ensures
        jailed ==> r is None,
        !jailed ==> r.deep_view() == opt_str_view(net_ns),
{
    if jailed {
        None
    } else {
        opt_str_to_string(net_ns)
    }
}

/// The command that starts a new microVM and the API socket path on the
/// host: through the jailer when a jailer configuration is given (the
/// socket then lies in the chroot), else Firecracker itself with the
/// configured socket.
pub fn machine_command<S>(
    vmid: &str,
    socket_path: &str,
    seccomp: &SeccompConfig,
    jailer_cfg: Option<&JailerConfig<S>>,
    net_ns: Option<&str>,
    numa_cpuset: &str,
) -> (r: Result<(String, VMCommand), Error>)
    ensures
        jailer_cfg is None ==> (r matches Ok((host_socket, cmd)) && host_socket@ == socket_path@
            && cmd.bin@ == DEFAULT_FC_BIN@ && cmd.args.deep_view() == firecracker_args_spec(
            vmid@,
            socket_path@,
            seccomp.enabled,
            seccomp.filter.deep_view(),
        ) && cmd.stdin.spec_view() == StdioView::Inherit && cmd.stdout.spec_view()
            == StdioView::Inherit && cmd.stderr.spec_view() == StdioView::Inherit),
        jailer_cfg matches Some(j) ==> (r matches Ok((host_socket, cmd)) && {
            let b = jail_builder_spec(
                *j,
                socket_path@,
                seccomp.enabled,
                seccomp.filter.deep_view(),
                opt_str_view(net_ns),
            );
            &&& host_socket@ == chroot_path(
                rootfs_spec(j.chroot_base_dir.deep_view(), j.exec_file@, j.id@),
                machine_socket_spec(socket_path@),
            )
            &&& cmd.bin@ == jailer_bin(b)
            &&& cmd.args.deep_view() == jailer_args(b, numa_cpuset@)
            &&& cmd.stdin.spec_view() == b.stdin
            &&& cmd.stdout.spec_view() == b.stdout
            &&& cmd.stderr.spec_view() == b.stderr
        }),
{
    match jailer_cfg {
        Some(_) => {
            let r = jail(jailer_cfg, socket_path, seccomp, net_ns, numa_cpuset);
            assert(opt_str_view(net_ns) == match net_ns {
                Some(n) => Some(n@),
                None => None,
            });
            r
        },
        None => Ok((socket_path.to_string(), firecracker_command(vmid, socket_path, seccomp))),
    }
}

/// An integer setting read from its text (an environment variable's value,
/// when it is set): the text as `str::parse::<i32>` reads it, else the
/// default.
pub fn env_value_or_default_int(value: Option<&str>, default: i32) -> (r: i32)
    ensures
        r as int == match value {
            Some(t) => match parse_i32_spec(t@) {
                Some(v) => v,
                None => default as int,
            },
            None => default as int,
        },
{
    match value {
        Some(t) => {
            let c = chars_of(t);
            match parse_i32_chars(c.as_slice()) {
                Some(v) => v,
                None => default,
            }
        },
        None => default,
    }
}

/// Where a log or metrics output goes.
#[derive(Debug, Clone, PartialEq, Eq)]
pub enum LogOutput {
    /// A FIFO to create at this path.
    Fifo(String),
    /// A file to create (or append to) at this path.
    File(String),
    /// Nowhere.
    Nothing,
}

/// Mathematical value of a [`LogOutput`].
pub enum LogOutputView {
    Fifo(Seq<char>),
    File(Seq<char>),
    Nothing,
}

impl View for LogOutput {
    type V = LogOutputView;

    open spec fn view(&self) -> LogOutputView {
        match self {
            LogOutput::Fifo(p) => LogOutputView::Fifo(p@),
            LogOutput::File(p) => LogOutputView::File(p@),
            LogOutput::Nothing => LogOutputView::Nothing,
        }
    }
}

/// Where an output goes: to the FIFO when its path is set and nonempty,
/// else to the file when its path is set and nonempty, else nowhere.
pub open spec fn log_output_spec(fifo_path: Option<Seq<char>>, file_path: Option<Seq<char>>) -> LogOutputView {
    match fifo_path {
        Some(f) if f.len() > 0 => LogOutputView::Fifo(f),
        _ => match file_path {
            Some(p) if p.len() > 0 => LogOutputView::File(p),
            _ => LogOutputView::Nothing,
        },
    }
}

/// Where an output goes: to the FIFO when its path is set and nonempty,
/// else to the file when its path is set and nonempty, else nowhere.
pub fn log_output(fifo_path: Option<&str>, file_path: Option<&str>) -> (r: LogOutput)
    ensures
        r@ == log_output_spec(opt_str_view(fifo_path), opt_str_view(file_path)),
{
    match fifo_path {
        Some(f) => if !f.is_empty() {
            return LogOutput::Fifo(f.to_string());
        },
        None => {},
    }
    match file_path {
        Some(p) => if !p.is_empty() {
            LogOutput::File(p.to_string())
        } else {
            LogOutput::Nothing
        },
        None => LogOutput::Nothing,
    }
}

/// The network namespace that a microVM gets by default.
pub open spec fn net_ns_path_spec(vmid: Seq<char>) -> Seq<char> {
    DEFAULT_NET_NS_DIR@ + seq!['/'] + vmid
}

/// The path of the network namespace that the microVM `vmid` gets by
/// default.
pub fn default_net_ns_path(vmid: &str) -> (r: String)
    ensures
        r@ == net_ns_path_spec(vmid@),
{
    proof {
        reveal_strlit("/");
    }
    let mut s = DEFAULT_NET_NS_DIR.to_string();
    s.append("/");
    s.append(vmid);
    s
}

/// The kernel command line of a guest: the arguments of `kernel_args`, with
/// `ip` set to `ip_boot_param` when the guest has a static address, rendered
/// in key order.
pub fn kernel_args_with_ip(kernel_args: &str, ip_boot_param: Option<&str>) -> (r: String)
    ensures
        r@ == render_map(
            match ip_boot_param {
                Some(p) => parse_spec(kernel_args@).insert("ip"@, Some(p@)),
                None => parse_spec(kernel_args@),
            },
        ),
{
    let mut args = parse_kernel_args(kernel_args);
    match ip_boot_param {
        Some(p) => args.insert("ip".to_string(), Some(p.to_string())),
        None => {},
    }
    args.to_string()
}

/// The first of two optional texts that is set.
pub open spec fn first_set(a: Option<Seq<char>>, b: Option<Seq<char>>) -> Option<Seq<char>> {
    match a {
        Some(x) => Some(x),
        None => b,
    }
}

/// The logger that a microVM configures: output to the log FIFO, else to
/// the log file, at the configured level, with levels shown and origins
/// hidden; none when there is neither FIFO nor file.
pub fn logger_request(cfg: &Config) -> (r: Option<Logger>)
    ensures
        match first_set(cfg.log_fifo.deep_view(), cfg.log_path.deep_view()) {
            None => r is None,
            Some(path) => r matches Some(l) && l.log_path.deep_view() == Some(path)
                && l.level.deep_view() == cfg.log_level.deep_view() && l.show_level == Some(true)
                && l.show_log_origin == Some(false),
        },
{
    let path = match &cfg.log_fifo {
        Some(p) => p.clone(),
        None => match &cfg.log_path {
            Some(p) => p.clone(),
            None => {
                return None;
            },
        },
    };
    Some(
        Logger {
            log_path: Some(path),
            level: copy_opt_string(&cfg.log_level),
            show_level: Some(true),
            show_log_origin: Some(false),
        },
    )
}

/// The metrics output that a microVM configures: the metrics FIFO, else the
/// metrics file; none when there is neither.
pub fn metrics_request(cfg: &Config) -> (r: Option<Metrics>)
    ensures
        match first_set(cfg.metrics_fifo.deep_view(), cfg.metrics_path.deep_view()) {
            None => r is None,
            Some(path) => r matches Some(m) && m.metrics_path.deep_view() == Some(path),
        },
{
    let path = match &cfg.metrics_fifo {
        Some(p) => p.clone(),
        None => match &cfg.metrics_path {
            Some(p) => p.clone(),
            None => {
                return None;
            },
        },
    };
    Some(Metrics { metrics_path: Some(path) })
}

/// Mathematical value of an optional text argument.
pub open spec fn opt_str_view(s: Option<&str>) -> Option<Seq<char>> {
    match s {
        Some(t) => Some(t@),
        None => None,
    }
}

fn opt_str_to_string(s: Option<&str>) -> (r: Option<String>)
    ensures
        r.deep_view() == opt_str_view(s),
{
    match s {
        Some(t) => Some(t.to_string()),
        None => None,
    }
}

/// The boot source: the kernel image, the initrd and the kernel command
/// line, as given.
pub fn boot_source_request(image_path: &str, initrd_path: Option<&str>, kernel_args: Option<&str>) -> (r:
    BootSource)
    ensures
        r.kernel_image_path.deep_view() == Some(image_path@),
        r.initrd_path.deep_view() == opt_str_view(initrd_path),
        r.boot_args.deep_view() == opt_str_view(kernel_args),
{
    BootSource {
        kernel_image_path: Some(image_path.to_string()),
        initrd_path: opt_str_to_string(initrd_path),
        boot_args: opt_str_to_string(kernel_args),
    }
}

/// The network interface numbered `index`, backed by the host device
/// `host_dev_name`; its id is the number in decimal.
pub fn network_interface_request(
    index: usize,
    guest_mac: Option<&str>,
    host_dev_name: &str,
    rate_limiters: RateLimiterSet,
) -> (r: NetworkInterfaceModel)
    ensures
        r.iface_id.deep_view() == Some(decimal(index as nat)),
        r.guest_mac.deep_view() == opt_str_view(guest_mac),
        r.host_dev_name.deep_view() == Some(host_dev_name@),
        r.rx_rate_limiter == rate_limiters.in_rate_limiter,
        r.tx_rate_limiter == rate_limiters.out_rate_limiter,
{
    NetworkInterfaceModel {
        iface_id: Some(u64_to_decimal(index as u64)),
        guest_mac: opt_str_to_string(guest_mac),
        host_dev_name: Some(host_dev_name.to_string()),
        rx_rate_limiter: rate_limiters.in_rate_limiter,
        tx_rate_limiter: rate_limiters.out_rate_limiter,
    }
}

/// The ids of the interfaces that may reach the metadata service: the
/// one-based positions, in decimal, of the interfaces that allow it.
pub open spec fn mmds_interface_ids(allow: Seq<bool>) -> Seq<Seq<char>>
    decreases allow.len(),
{
    if allow.len() == 0 {
        Seq::empty()
    } else {
        let rest = mmds_interface_ids(allow.drop_last());
        if allow.last() {
            rest.push(decimal(allow.len() as nat))
        } else {
            rest
        }
    }
}

/// The version string of a metadata service protocol.
pub open spec fn mmds_version_spec(v: MMDSVersion) -> Seq<char> {
    match v {
        MMDSVersion::V1 => MMDS_VERSION_V1@,
        MMDSVersion::V2 => MMDS_VERSION_V2@,
    }
}

/// The metadata service configuration for interfaces whose permission to
/// reach it is `allow_mmds` (in interface order): the allowed interfaces'
/// ids, the address in dotted-decimal notation, and the protocol version;
/// none when no interface is allowed.
pub fn mmds_config_request(address: Option<u32>, allow_mmds: &Vec<bool>, version: MMDSVersion) -> (r:
    Option<MmdsConfig>)
    ensures
        mmds_interface_ids(allow_mmds@).len() == 0 ==> r is None,
        mmds_interface_ids(allow_mmds@).len() > 0 ==> (r matches Some(c)
            && c.network_interfaces.deep_view() == mmds_interface_ids(allow_mmds@)
            && c.ipv4_address.deep_view() == (match address {
            Some(a) => Some(dotted_quad(a)),
            None => None,
        }) && c.version.deep_view() == Some(mmds_version_spec(version))),
{
    let mut ids: Vec<String> = Vec::new();
    let mut i: usize = 0;
    while i < allow_mmds.len()
        invariant
            i <= allow_mmds.len(),
            ids.deep_view() == mmds_interface_ids(allow_mmds@.take(i as int)),
        decreases allow_mmds.len() - i,
    {
        assert(allow_mmds@.take(i as int + 1).drop_last() =~= allow_mmds@.take(i as int));
        if allow_mmds[i] {
            let id = u64_to_decimal((i + 1) as u64);
            let ghost before = ids.deep_view();
            ids.push(id);
            assert(ids.deep_view() =~= before.push(id@));
        }
        i = i + 1;
    }
    assert(allow_mmds@.take(allow_mmds.len() as int) =~= allow_mmds@);
    if ids.len() == 0 {
        return None;
    }
    let ipv4_address = match address {
        Some(a) => Some(dotted_quad_string(a)),
        None => None,
    };
    let version_name = match version {
        MMDSVersion::V1 => MMDS_VERSION_V1.to_string(),
        MMDSVersion::V2 => MMDS_VERSION_V2.to_string(),
    };
    Some(MmdsConfig { ipv4_address, network_interfaces: ids, version: Some(version_name) })
}

/// The update that points drive `drive_id` at the file `path_on_host`.
pub fn partial_drive_request(drive_id: &str, path_on_host: &str) -> (r: PartialDrive)
    ensures
        r.drive_id.deep_view() == Some(drive_id@),
        r.path_on_host.deep_view() == Some(path_on_host@),
{
    PartialDrive { drive_id: Some(drive_id.to_string()), path_on_host: Some(path_on_host.to_string()) }
}

/// The update that sets the rate limits of interface `iface_id`: the
/// receive limit from the inbound one, the transmit limit from the outbound
/// one.
pub fn rate_limit_request(iface_id: &str, rate_limiters: RateLimiterSet) -> (r: PartialNetworkInterface)
    ensures
        r.iface_id.deep_view() == Some(iface_id@),
        r.rx_rate_limiter == rate_limiters.in_rate_limiter,
        r.tx_rate_limiter == rate_limiters.out_rate_limiter,
{
    PartialNetworkInterface {
        iface_id: Some(iface_id.to_string()),
        rx_rate_limiter: rate_limiters.in_rate_limiter,
        tx_rate_limiter: rate_limiters.out_rate_limiter,
    }
}

/// Where a new snapshot is written.
pub fn snapshot_create_request(mem_file_path: &str, snapshot_path: &str) -> (r: SnapshotCreateParams)
    ensures
        r.mem_file_path.deep_view() == Some(mem_file_path@),
        r.snapshot_path.deep_view() == Some(snapshot_path@),
{
    SnapshotCreateParams {
        mem_file_path: Some(mem_file_path.to_string()),
        snapshot_path: Some(snapshot_path.to_string()),
    }
}

/// The request that restores the configured snapshot, field by field.
pub fn snapshot_load_request(snapshot: &SnapshotConfig) -> (r: SnapshotLoadParams)
    ensures
        r.mem_file_path.deep_view() == snapshot.mem_file_path.deep_view(),
        mem_backend_view(r.mem_backend) == mem_backend_view(snapshot.mem_backend),
        r.snapshot_path.deep_view() == snapshot.snapshot_path.deep_view(),
        r.enable_diff_snapshots == snapshot.enable_diff_snapshots,
        r.resume_vm == snapshot.resume_vm,
{
    SnapshotLoadParams {
        mem_file_path: copy_opt_string(&snapshot.mem_file_path),
        mem_backend: match &snapshot.mem_backend {
            Some(b) => Some(b.duplicate()),
            None => None,
        },
        snapshot_path: copy_opt_string(&snapshot.snapshot_path),
        enable_diff_snapshots: snapshot.enable_diff_snapshots,
        resume_vm: snapshot.resume_vm,
    }
}

/// A balloon of `amount_mib` MiB.
pub fn balloon_request(amount_mib: i64, deflate_on_oom: bool, stats_polling_intervals: i64) -> (r: Balloon)
    ensures
        r == (Balloon {
            amount_mib: Some(amount_mib),
            deflate_on_oom: Some(deflate_on_oom),
            stats_polling_intervals: stats_polling_intervals,
        }),
{
    Balloon { amount_mib: Some(amount_mib), deflate_on_oom: Some(deflate_on_oom), stats_polling_intervals }
}

/// The update that resizes the balloon to `amount_mib` MiB.
pub fn balloon_update_request(amount_mib: i64) -> (r: BalloonUpdate)
    ensures
        r == (BalloonUpdate { amount_mib: Some(amount_mib) }),
{
    BalloonUpdate { amount_mib: Some(amount_mib) }
}

/// The update that sets the balloon's statistics interval.
pub fn balloon_stats_update_request(stats_polling_intervals: i64) -> (r: BalloonStatsUpdate)
    ensures
        r == (BalloonStatsUpdate { stats_polling_intervals: Some(stats_polling_intervals) }),
{
    BalloonStatsUpdate { stats_polling_intervals: Some(stats_polling_intervals) }
}

/// The vsock device `id` with guest context id `cid`, listening on the Unix
/// socket `path`.
pub fn vsock_request(id: &str, cid: u32, path: &str) -> (r: VsockModel)
    ensures
        r.vsock_id.deep_view() == Some(id@),
        r.guest_cid == Some(cid as i64),
        r.uds_path.deep_view() == Some(path@),
{
    VsockModel {
        vsock_id: Some(id.to_string()),
        guest_cid: Some(cid as i64),
        uds_path: Some(path.to_string()),
    }
}

/// The action that boots the guest, unless it is restored from a snapshot,
/// which needs none.
pub fn start_action(has_snapshot: bool) -> (r: Option<InstanceActionInfo>)
    ensures
        has_snapshot <==> r is None,
        r matches Some(a) ==> a.action_type.deep_view() == Some(INSTANCE_ACTION_INSTANCE_START@),
{
    if has_snapshot {
        None
    } else {
        Some(InstanceActionInfo { action_type: Some(INSTANCE_ACTION_INSTANCE_START.to_string()) })
    }
}

/// The action that asks the guest to shut down: Ctrl+Alt+Del.
pub fn ctrl_alt_del_action() -> (r: InstanceActionInfo)
    ensures
        r.action_type.deep_view() == Some(INSTANCE_ACTION_SEND_CTRL_ALT_DEL@),
{
    InstanceActionInfo { action_type: Some(INSTANCE_ACTION_SEND_CTRL_ALT_DEL.to_string()) }
}

/// What an attempt to start does to a machine whose start sequence has
/// (`started`) or has not begun: afterwards it has begun, and the attempt is
/// accepted only if it had not.
pub open spec fn begin_start_spec(started: bool) -> (bool, bool) {
    (true, !started)
}

/// Whether a microVM's start sequence has begun. A machine starts at most
/// once.
#[derive(Debug, Default)]
pub struct StartGuard {
    started: bool,
}

impl View for StartGuard {
    type V = bool;

    closed spec fn view(&self) -> bool {
        self.started
    }
}

impl StartGuard {
    /// A guard of a machine that has not started.
    pub fn new() -> (r: Self)
        ensures
            !r@,
    {
        StartGuard { started: false }
    }

    /// Whether the start sequence has begun.
    pub fn is_started(&self) -> (r: bool)
        ensures
            r == self@,
    {
        self.started
    }

    /// Begins the start sequence; refused when it has begun before.
    pub fn begin_start(&mut self) -> (r: Result<(), Error>)
        ensures
            (final(self)@, r is Ok) == begin_start_spec(old(self)@),
            r matches Err(e) ==> e@ == ErrorView::AlreadyStarted,
    {
        if self.started {
            return Err(Error::AlreadyStarted);
        }
        self.started = true;
        Ok(())
    }
}

/// How long a wait for a starting VMM pauses between two polls.
pub const READINESS_POLL_INTERVAL_MS: u64 = 10;

/// What one poll of a starting VMM decides.
#[derive(Debug, Clone, Copy, PartialEq, Eq)]
pub enum ReadinessStep {
    /// The process exited, or its exit was reported, before the API answered:
    /// the wait fails.
    Exited,
    /// The API socket exists and answers: the VMM is ready.
    Ready,
    /// The deadline has passed: the wait fails with a timeout.
    TimedOut,
    /// Nothing decided yet: pause and poll again.
    Retry,
}

/// One poll of a starting VMM, from what it observed in the order it looks:
/// whether the process has exited, whether the API answers, and whether the
/// deadline has passed. An exit wins over everything, an answer over the
/// deadline.
pub open spec fn readiness_step_spec(exited: bool, reachable: bool, deadline_passed: bool) -> ReadinessStep {
    if exited {
        ReadinessStep::Exited
    } else if reachable {
        ReadinessStep::Ready
    } else if deadline_passed {
        ReadinessStep::TimedOut
    } else {
        ReadinessStep::Retry
    }
}

/// Decides one poll of a starting VMM (see [`readiness_step_spec`]). The
/// caller observes the process, probes the API and reads the clock, and
/// performs what comes back: it need not probe once the process has exited,
/// nor read the clock once the API has answered.
pub fn readiness_step(exited: bool, reachable: bool, deadline_passed: bool) -> (r: ReadinessStep)
    ensures
        r == readiness_step_spec(exited, reachable, deadline_passed),
{
    if exited {
        ReadinessStep::Exited
    } else if reachable {
        ReadinessStep::Ready
    } else if deadline_passed {
        ReadinessStep::TimedOut
    } else {
        ReadinessStep::Retry
    }
}

/// The message of a start that failed with `primary` and whose clean-up
/// failed too: the failure, then each clean-up failure with what it was.
pub open spec fn abort_message_spec(
    primary: Seq<char>,
    stop: Option<Seq<char>>,
    wait: Option<Seq<char>>,
    cleanup: Option<Seq<char>>,
) -> Seq<char> {
    primary + match stop {
        Some(m) => "; stop error: "@ + m,
        None => Seq::empty(),
    } + match wait {
        Some(m) => "; wait error: "@ + m,
        None => Seq::empty(),
    } + match cleanup {
        Some(m) => "; cleanup error: "@ + m,
        None => Seq::empty(),
    }
}

/// What a failed start reports: the original failure when stopping, waiting
/// and cleaning up all went well; else a process error whose message joins
/// the failure's message with those of the clean-up steps that failed.
pub fn abort_error(error: Error, stop: Option<String>, wait: Option<String>, cleanup: Option<String>) -> (r:
    Error)
    ensures
        stop is None && wait is None && cleanup is None ==> r == error,
        !(stop is None && wait is None && cleanup is None) ==> r@ == ErrorView::Process(
            abort_message_spec(
                crate::error::message_spec(error@),
                stop.deep_view(),
                wait.deep_view(),
                cleanup.deep_view(),
            ),
        ),
{
    if stop.is_none() && wait.is_none() && cleanup.is_none() {
        return error;
    }
    let mut m = error.message();
    let ghost base = m@;
    match &stop {
        Some(s) => {
            m.append("; stop error: ");
            m.append(s.as_str());
        },
        None => {},
    }
    let ghost after_stop = m@;
    assert(after_stop =~= base + match stop.deep_view() {
        Some(t) => "; stop error: "@ + t,
        None => Seq::empty(),
    });
    match &wait {
        Some(s) => {
            m.append("; wait error: ");
            m.append(s.as_str());
        },
        None => {},
    }
    let ghost after_wait = m@;
    assert(after_wait =~= after_stop + match wait.deep_view() {
        Some(t) => "; wait error: "@ + t,
        None => Seq::empty(),
    });
    match &cleanup {
        Some(s) => {
            m.append("; cleanup error: ");
            m.append(s.as_str());
        },
        None => {},
    }
    assert(m@ =~= after_wait + match cleanup.deep_view() {
        Some(t) => "; cleanup error: "@ + t,
        None => Seq::empty(),
    });
    Error::Process(m)
}

/// What an exit reports when it failed with `primary` and the clean-up after
/// it failed with `secondary`: both, in one process error.
pub fn join_errors(primary: Error, secondary: Option<Error>) -> (r: Error)
    ensures
        secondary is None ==> r == primary,
        secondary matches Some(s) ==> r@ == ErrorView::Process(
            crate::error::message_spec(primary@) + "; cleanup error: "@ + crate::error::message_spec(s@),
        ),
{
    match secondary {
        None => primary,
        Some(s) => {
            let mut m = primary.message();
            m.append("; cleanup error: ");
            m.append(s.message().as_str());
            Error::Process(m)
        },
    }
}

/// `parts` joined with `sep` between each two of them.
pub open spec fn join_with(parts: Seq<Seq<char>>, sep: Seq<char>) -> Seq<char>
    decreases parts.len(),
{
    if parts.len() == 0 {
        Seq::empty()
    } else if parts.len() == 1 {
        parts[0]
    } else {
        join_with(parts.drop_last(), sep) + sep + parts.last()
    }
}

/// The result of running clean-up steps whose failures are `errors`, in the
/// order they ran: success when none failed, else one process error that
/// lists them.
pub fn cleanup_result(errors: &Vec<String>) -> (r: Result<(), Error>)
    ensures
        errors.len() == 0 <==> r is Ok,
        r matches Err(e) ==> e@ == ErrorView::Process(
            "cleanup failed: "@ + join_with(errors.deep_view(), "; "@),
        ),
{
    if errors.len() == 0 {
        return Ok(());
    }
    let mut joined = errors[0].clone();
    let mut i: usize = 1;
    assert(errors.deep_view().take(1) =~= seq![errors@[0]@]);
    while i < errors.len()
        invariant
            1 <= i <= errors.len(),
            joined@ == join_with(errors.deep_view().take(i as int), "; "@),
        decreases errors.len() - i,
    {
        assert(errors.deep_view().take(i as int + 1).drop_last() =~= errors.deep_view().take(i as int));
        joined.append("; ");
        joined.append(errors[i].as_str());
        i = i + 1;
    }
    assert(errors.deep_view().take(errors.len() as int) =~= errors.deep_view());
    let mut m = String::from_str("cleanup failed: ");
    m.append(joined.as_str());
    Err(Error::Process(m))
}

} // verus!
