//! Running Firecracker under the jailer: its command line, the chroot layout
//! and the validation of the jailer configuration.

use vstd::prelude::*;

use crate::command_builder::{CommandStdio, StdioView, VMCommand, VMCommandBuilder, seccomp_args, spec_seccomp_args};
use crate::config::SeccompConfig;
use crate::error::{Error, ErrorView, invalid_config};
use crate::handlers::{names, inserted_after, Handler, Handlers, CREATE_LOG_FILES_HANDLER_NAME};
use crate::path::{file_name, join_path, leading_slashes, path_file_name, path_join, trim_leading_slashes};
use crate::text::{copy_opt_string, copy_string, copy_strings, i32_to_decimal, signed_decimal};

verus! {

/// Base directory of the chroots when none is configured.
pub const DEFAULT_JAILER_PATH: &'static str = "/srv/jailer";
/// Jailer binary that is started when none is configured.
pub const DEFAULT_JAILER_BIN: &'static str = "jailer";
/// Name of the chroot's root directory.
pub const ROOTFS_FOLDER_NAME: &'static str = "root";
/// API socket path inside the chroot when none is configured.
pub const DEFAULT_SOCKET_PATH: &'static str = "/run/firecracker.socket";
/// Name of the handler that links the guest's files into the chroot.
pub const LINK_FILES_HANDLER_NAME: &'static str = "fcinit.LinkFilesToRootFS";

/// Jailer settings. `S` is the chroot strategy, which adapts the machine's
/// handlers to the chroot.
#[derive(Debug, Clone)]
pub struct JailerConfig<S> {
    pub gid: Option<i32>,
    pub uid: Option<i32>,
    pub id: String,
    pub numa_node: Option<i32>,
    pub exec_file: String,
    pub jailer_binary: Option<String>,
    pub chroot_base_dir: Option<String>,
    pub daemonize: bool,
    pub chroot_strategy: Option<S>,
    pub cgroup_version: Option<String>,
    pub cgroup_args: Vec<String>,
    pub parent_cgroup: Option<String>,
    pub stdin: CommandStdio,
    pub stdout: CommandStdio,
    pub stderr: CommandStdio,
}

impl<S> Default for JailerConfig<S> {
    fn default() -> (r: Self)
        ensures
            r.gid is None && r.uid is None && r.id@.len() == 0 && r.numa_node is None,
            r.exec_file@.len() == 0 && r.jailer_binary is None && r.chroot_base_dir is None,
            !r.daemonize && r.chroot_strategy is None && r.cgroup_version is None,
            r.cgroup_args@.len() == 0 && r.parent_cgroup is None,
            r.stdin == CommandStdio::Inherit && r.stdout == CommandStdio::Inherit && r.stderr == CommandStdio::Inherit,
    {
        JailerConfig {
            gid: None,
            uid: None,
            id: String::new(),
            numa_node: None,
            exec_file: String::new(),
            jailer_binary: None,
            chroot_base_dir: None,
            daemonize: false,
            chroot_strategy: None,
            cgroup_version: None,
            cgroup_args: Vec::new(),
            parent_cgroup: None,
            stdin: CommandStdio::Inherit,
            stdout: CommandStdio::Inherit,
            stderr: CommandStdio::Inherit,
        }
    }
}

/// Builder of the jailer's command line.
#[derive(Debug, Clone, Default, PartialEq, Eq)]
pub struct JailerCommandBuilder {
    bin: Option<String>,
    id: String,
    uid: i32,
    gid: i32,
    exec_file: String,
    node: i32,
    chroot_base_dir: Option<String>,
    netns: Option<String>,
    daemonize: bool,
    firecracker_args: Vec<String>,
    cgroup_version: Option<String>,
    cgroup_args: Vec<String>,
    parent_cgroup: Option<String>,
    stdin: CommandStdio,
    stdout: CommandStdio,
    stderr: CommandStdio,
}

/// Mathematical value of a [`JailerCommandBuilder`].
pub struct JailerCommandBuilderView {
    pub bin: Option<Seq<char>>,
    pub id: Seq<char>,
    pub uid: i32,
    pub gid: i32,
    pub exec_file: Seq<char>,
    pub node: i32,
    pub chroot_base_dir: Option<Seq<char>>,
    pub netns: Option<Seq<char>>,
    pub daemonize: bool,
    pub firecracker_args: Seq<Seq<char>>,
    pub cgroup_version: Option<Seq<char>>,
    pub cgroup_args: Seq<Seq<char>>,
    pub parent_cgroup: Option<Seq<char>>,
    pub stdin: StdioView,
    pub stdout: StdioView,
    pub stderr: StdioView,
}

impl View for JailerCommandBuilder {
    type V = JailerCommandBuilderView;

    closed spec fn view(&self) -> JailerCommandBuilderView {
        JailerCommandBuilderView {
            bin: self.bin.deep_view(),
            id: self.id@,
            uid: self.uid,
            gid: self.gid,
            exec_file: self.exec_file@,
            node: self.node,
            chroot_base_dir: self.chroot_base_dir.deep_view(),
            netns: self.netns.deep_view(),
            daemonize: self.daemonize,
            firecracker_args: self.firecracker_args.deep_view(),
            cgroup_version: self.cgroup_version.deep_view(),
            cgroup_args: self.cgroup_args.deep_view(),
            parent_cgroup: self.parent_cgroup.deep_view(),
            stdin: self.stdin.spec_view(),
            stdout: self.stdout.spec_view(),
            stderr: self.stderr.spec_view(),
        }
    }
}

/// `flag value` when the value is set, nothing otherwise.
pub open spec fn flag_pair(flag: Seq<char>, v: Option<Seq<char>>) -> Seq<Seq<char>> {
    match v {
        Some(x) => seq![flag, x],
        None => Seq::empty(),
    }
}

/// `--cgroup arg` for each argument, in order.
pub open spec fn cgroup_pairs(args: Seq<Seq<char>>) -> Seq<Seq<char>>
    decreases args.len(),
{
    if args.len() == 0 {
        Seq::empty()
    } else {
        cgroup_pairs(args.drop_last()) + seq!["--cgroup"@, args.last()]
    }
}

/// The cgroup arguments that pin the jail to a NUMA node whose CPU list is
/// `cpuset`; none when the CPU list is empty.
pub open spec fn numa_args(node: i32, cpuset: Seq<char>) -> Seq<Seq<char>> {
    if cpuset.len() > 0 {
        seq![
            "--cgroup"@,
            "cpuset.mems="@ + signed_decimal(node as int),
            "--cgroup"@,
            "cpuset.cpus="@ + cpuset,
        ]
    } else {
        Seq::empty()
    }
}

/// The jailer's arguments for a builder in state `b`, when the CPU list of
/// its NUMA node is `cpuset`.
pub open spec fn jailer_args(b: JailerCommandBuilderView, cpuset: Seq<char>) -> Seq<Seq<char>> {
    seq![
        "--id"@,
        b.id,
        "--uid"@,
        signed_decimal(b.uid as int),
        "--gid"@,
        signed_decimal(b.gid as int),
        "--exec-file"@,
        b.exec_file,
    ] + numa_args(b.node, cpuset) + cgroup_pairs(b.cgroup_args) + flag_pair(
        "--cgroup-version"@,
        b.cgroup_version,
    ) + flag_pair("--parent-cgroup"@, b.parent_cgroup) + flag_pair(
        "--chroot-base-dir"@,
        b.chroot_base_dir,
    ) + flag_pair("--netns"@, b.netns) + (if b.daemonize {
        seq!["--daemonize"@]
    } else {
        Seq::empty()
    }) + (if b.firecracker_args.len() > 0 {
        seq!["--"@] + b.firecracker_args
    } else {
        Seq::empty()
    })
}

/// The jailer binary that a builder in state `b` starts.
pub open spec fn jailer_bin(b: JailerCommandBuilderView) -> Seq<char> {
    match b.bin {
        Some(bin) => bin,
        None => DEFAULT_JAILER_BIN@,
    }
}

fn push_flag_pair(v: &mut Vec<String>, flag: &str, value: &Option<String>)
    ensures
        final(v).deep_view() == old(v).deep_view() + flag_pair(flag@, value.deep_view()),
{
    match value {
        Some(x) => {
            let ghost before = v.deep_view();
            v.push(flag.to_string());
            v.push(copy_string(x));
            assert(v.deep_view() =~= before + seq![flag@, x@]);
        },
        None => {
            assert(v.deep_view() =~= old(v).deep_view() + Seq::<Seq<char>>::empty());
        },
    }
}

impl JailerCommandBuilder {
    /// A builder that starts the default jailer binary with nothing else set.
    pub fn new() -> (r: Self)
        ensures
            r@.bin == Some(DEFAULT_JAILER_BIN@),
            r@.id.len() == 0 && r@.uid == 0 && r@.gid == 0 && r@.exec_file.len() == 0 && r@.node == 0,
            r@.chroot_base_dir is None && r@.netns is None && !r@.daemonize,
            r@.firecracker_args.len() == 0 && r@.cgroup_version is None,
            r@.cgroup_args.len() == 0 && r@.parent_cgroup is None,
            r@.stdin == StdioView::Inherit && r@.stdout == StdioView::Inherit && r@.stderr == StdioView::Inherit,
    {
        JailerCommandBuilder {
            bin: Some(DEFAULT_JAILER_BIN.to_string()),
            id: String::new(),
            uid: 0,
            gid: 0,
            exec_file: String::new(),
            node: 0,
            chroot_base_dir: None,
            netns: None,
            daemonize: false,
            firecracker_args: Vec::new(),
            cgroup_version: None,
            cgroup_args: Vec::new(),
            parent_cgroup: None,
            stdin: CommandStdio::Inherit,
            stdout: CommandStdio::Inherit,
            stderr: CommandStdio::Inherit,
        }
    }

    /// The jailer's arguments. `numa_cpuset` is the CPU list of the
    /// configured NUMA node, as [`trim_cpulist`] gives it from
    /// `/sys/devices/system/node/node<N>/cpulist` (empty when it cannot be
    /// read).
    pub fn args(&self, numa_cpuset: &str) -> (r: Vec<String>)
        ensures
            r.deep_view() == jailer_args(self@, numa_cpuset@),
    {
        let mut args: Vec<String> = Vec::new();
        args.push("--id".to_string());
        args.push(copy_string(&self.id));
        args.push("--uid".to_string());
        args.push(i32_to_decimal(self.uid));
        args.push("--gid".to_string());
        args.push(i32_to_decimal(self.gid));
        args.push("--exec-file".to_string());
        args.push(copy_string(&self.exec_file));
        let ghost a0 = args.deep_view();
        assert(a0 =~= seq![
            "--id"@,
            self@.id,
            "--uid"@,
            signed_decimal(self.uid as int),
            "--gid"@,
            signed_decimal(self.gid as int),
            "--exec-file"@,
            self@.exec_file,
        ]);
        if !numa_cpuset.is_empty() {
            args.push("--cgroup".to_string());
            let mems = "cpuset.mems=".to_string().concat(i32_to_decimal(self.node).as_str());
            args.push(mems);
            args.push("--cgroup".to_string());
            let cpus = "cpuset.cpus=".to_string().concat(numa_cpuset);
            args.push(cpus);
        }
        let ghost a1 = args.deep_view();
        assert(a1 =~= a0 + numa_args(self.node, numa_cpuset@));
        let mut i: usize = 0;
        while i < self.cgroup_args.len()
            invariant
                i <= self.cgroup_args.len(),
                args.deep_view() == a1 + cgroup_pairs(self.cgroup_args.deep_view().take(i as int)),
            decreases self.cgroup_args.len() - i,
        {
            let ghost before = args.deep_view();
            args.push("--cgroup".to_string());
            args.push(copy_string(&self.cgroup_args[i]));
            let ghost ca = self.cgroup_args.deep_view();
            assert(ca.take(i as int + 1).drop_last() =~= ca.take(i as int));
            assert(ca.take(i as int + 1).last() == self.cgroup_args@[i as int]@);
            assert(args.deep_view() =~= before + seq!["--cgroup"@, self.cgroup_args@[i as int]@]);
            i = i + 1;
        }
        assert(self.cgroup_args.deep_view().take(self.cgroup_args.len() as int) =~= self.cgroup_args.deep_view());
        let ghost a2 = args.deep_view();
        push_flag_pair(&mut args, "--cgroup-version", &self.cgroup_version);
        push_flag_pair(&mut args, "--parent-cgroup", &self.parent_cgroup);
        push_flag_pair(&mut args, "--chroot-base-dir", &self.chroot_base_dir);
        push_flag_pair(&mut args, "--netns", &self.netns);
        let ghost a3 = args.deep_view();
        if self.daemonize {
            args.push("--daemonize".to_string());
        }
        let ghost a4 = args.deep_view();
        assert(a4 =~= a3 + (if self.daemonize { seq!["--daemonize"@] } else { Seq::<Seq<char>>::empty() }));
        if self.firecracker_args.len() > 0 {
            args.push("--".to_string());
            let mut rest = copy_strings(&self.firecracker_args);
            args.append(&mut rest);
        }
        assert(args.deep_view() =~= a4 + (if self@.firecracker_args.len() > 0 {
            seq!["--"@] + self@.firecracker_args
        } else {
            Seq::<Seq<char>>::empty()
        }));
        assert(args.deep_view() =~= jailer_args(self@, numa_cpuset@));
        args
    }

    /// The jailer binary that will be started.
    pub fn bin(&self) -> (r: &str)
        ensures
            r@ == jailer_bin(self@),
    {
        match &self.bin {
            Some(bin) => bin.as_str(),
            None => DEFAULT_JAILER_BIN,
        }
    }

    /// Sets the jailer binary.
    pub fn with_bin(self, bin: String) -> (r: Self)
        ensures
            r@ == (JailerCommandBuilderView { bin: Some(bin@), ..self@ }),
    {
        JailerCommandBuilder { bin: Some(bin), ..self }
    }

    /// Sets the identifier of the jail.
    pub fn with_id(self, id: String) -> (r: Self)
        ensures
            r@ == (JailerCommandBuilderView { id: id@, ..self@ }),
    {
        JailerCommandBuilder { id, ..self }
    }

    /// Sets the user that Firecracker runs as.
    pub fn with_uid(self, uid: i32) -> (r: Self)
        ensures
            r@ == (JailerCommandBuilderView { uid, ..self@ }),
    {
        JailerCommandBuilder { uid, ..self }
    }

    /// Sets the group that Firecracker runs as.
    pub fn with_gid(self, gid: i32) -> (r: Self)
        ensures
            r@ == (JailerCommandBuilderView { gid, ..self@ }),
    {
        JailerCommandBuilder { gid, ..self }
    }

    /// Sets the Firecracker binary that the jailer starts.
    pub fn with_exec_file(self, exec_file: String) -> (r: Self)
        ensures
            r@ == (JailerCommandBuilderView { exec_file: exec_file@, ..self@ }),
    {
        JailerCommandBuilder { exec_file, ..self }
    }

    /// Sets the NUMA node that the jail is pinned to.
    pub fn with_numa_node(self, node: i32) -> (r: Self)
        ensures
            r@ == (JailerCommandBuilderView { node, ..self@ }),
    {
        JailerCommandBuilder { node, ..self }
    }

    /// Replaces the extra cgroup settings.
    pub fn with_cgroup_args(self, cgroup_args: Vec<String>) -> (r: Self)
        ensures
            r@ == (JailerCommandBuilderView { cgroup_args: cgroup_args.deep_view(), ..self@ }),
    {
        JailerCommandBuilder { cgroup_args, ..self }
    }

    /// Sets the parent cgroup.
    pub fn with_parent_cgroup(self, parent_cgroup: String) -> (r: Self)
        ensures
            r@ == (JailerCommandBuilderView { parent_cgroup: Some(parent_cgroup@), ..self@ }),
    {
        JailerCommandBuilder { parent_cgroup: Some(parent_cgroup), ..self }
    }

    /// Sets the base directory of the chroot.
    pub fn with_chroot_base_dir(self, path: String) -> (r: Self)
        ensures
            r@ == (JailerCommandBuilderView { chroot_base_dir: Some(path@), ..self@ }),
    {
        JailerCommandBuilder { chroot_base_dir: Some(path), ..self }
    }

    /// Sets the network namespace to join.
    pub fn with_netns(self, path: String) -> (r: Self)
        ensures
            r@ == (JailerCommandBuilderView { netns: Some(path@), ..self@ }),
    {
        JailerCommandBuilder { netns: Some(path), ..self }
    }

    /// Sets whether the jailer daemonizes.
    pub fn with_daemonize(self, daemonize: bool) -> (r: Self)
        ensures
            r@ == (JailerCommandBuilderView { daemonize, ..self@ }),
    {
        JailerCommandBuilder { daemonize, ..self }
    }

    /// Replaces the arguments passed through to Firecracker.
    pub fn with_firecracker_args(self, args: Vec<String>) -> (r: Self)
        ensures
            r@ == (JailerCommandBuilderView { firecracker_args: args.deep_view(), ..self@ }),
    {
        JailerCommandBuilder { firecracker_args: args, ..self }
    }

    /// Sets the cgroup version.
    pub fn with_cgroup_version(self, version: String) -> (r: Self)
        ensures
            r@ == (JailerCommandBuilderView { cgroup_version: Some(version@), ..self@ }),
    {
        JailerCommandBuilder { cgroup_version: Some(version), ..self }
    }

    /// Sets where standard input comes from.
    pub fn with_stdin(self, stdin: CommandStdio) -> (r: Self)
        ensures
            r@ == (JailerCommandBuilderView { stdin: stdin.spec_view(), ..self@ }),
    {
        JailerCommandBuilder { stdin, ..self }
    }

    /// Sets where standard output goes.
    pub fn with_stdout(self, stdout: CommandStdio) -> (r: Self)
        ensures
            r@ == (JailerCommandBuilderView { stdout: stdout.spec_view(), ..self@ }),
    {
        JailerCommandBuilder { stdout, ..self }
    }

    /// Sets where standard error goes.
    pub fn with_stderr(self, stderr: CommandStdio) -> (r: Self)
        ensures
            r@ == (JailerCommandBuilderView { stderr: stderr.spec_view(), ..self@ }),
    {
        JailerCommandBuilder { stderr, ..self }
    }

    /// The command that starts the jailer; `numa_cpuset` is as for
    /// [`JailerCommandBuilder::args`].
    pub fn build(&self, numa_cpuset: &str) -> (c: VMCommand)
        ensures
            c.bin@ == jailer_bin(self@),
            c.args.deep_view() == jailer_args(self@, numa_cpuset@),
            c.stdin.spec_view() == self@.stdin,
            c.stdout.spec_view() == self@.stdout,
            c.stderr.spec_view() == self@.stderr,
    {
        let b = VMCommandBuilder::new()
            .with_bin(self.bin().to_string())
            .with_args(self.args(numa_cpuset))
            .with_stdin(self.stdin.duplicate())
            .with_stdout(self.stdout.duplicate())
            .with_stderr(self.stderr.duplicate());
        b.build()
    }
}

/// Number of trailing newlines of `s`.
pub open spec fn trailing_newlines(s: Seq<char>) -> nat
    decreases s.len(),
{
    if s.len() > 0 && s.last() == '\n' {
        1 + trailing_newlines(s.drop_last())
    } else {
        0
    }
}

/// The CPU list read from a NUMA node's `cpulist` file, without its
/// trailing newlines.
pub fn trim_cpulist(raw: &str) -> (r: String)
    ensures
        r@ == raw@.take(raw@.len() - trailing_newlines(raw@)),
{
    let c = crate::text::chars_of(raw);
    let mut end: usize = c.len();
    assert(raw@.take(end as int) =~= raw@);
    while end > 0 && c[end - 1] == '\n'
        invariant
            c@ == raw@,
            end <= c.len(),
            end - trailing_newlines(raw@.take(end as int)) == raw@.len() - trailing_newlines(raw@),
        decreases end,
    {
        assert(raw@.take(end as int).drop_last() =~= raw@.take(end as int - 1));
        end = end - 1;
    }
    assert(raw@.take(end as int) =~= raw@.subrange(0, end as int));
    raw.substring_char(0, end).to_string()
}

/// The chroot path of a socket: the socket path, without leading slashes,
/// joined onto the chroot's root.
pub open spec fn chroot_path(rootfs: Seq<char>, socket_path: Seq<char>) -> Seq<char> {
    join_path(rootfs, socket_path.skip(leading_slashes(socket_path) as int))
}

/// Where a path inside the chroot lies on the host.
pub fn join_chroot_path(rootfs: &str, socket_path: &str) -> (r: String)
    ensures
        r@ == chroot_path(rootfs@, socket_path@),
{
    let sanitized = trim_leading_slashes(socket_path);
    path_join(rootfs, sanitized.as_str())
}

/// `file_name(p)`, or `default` when `p` has no final component.
pub open spec fn file_name_or(p: Seq<char>, default: Seq<char>) -> Seq<char> {
    match file_name(p) {
        Some(f) => f,
        None => default,
    }
}

/// The root of the chroot: `<base>/<exec file name>/<id>/root`, where the
/// base defaults to [`DEFAULT_JAILER_PATH`] and the exec file name to
/// `firecracker`.
pub open spec fn rootfs_spec(chroot_base: Option<Seq<char>>, exec_file: Seq<char>, id: Seq<char>) -> Seq<char> {
    let base = match chroot_base {
        Some(b) => b,
        None => DEFAULT_JAILER_PATH@,
    };
    join_path(join_path(join_path(base, file_name_or(exec_file, "firecracker"@)), id), ROOTFS_FOLDER_NAME@)
}

fn file_name_or_default(p: &str, default: &str) -> (r: String)
    ensures
        r@ == file_name_or(p@, default@),
{
    match path_file_name(p) {
        Some(f) => f,
        None => default.to_string(),
    }
}

/// The root directory of the chroot of a jailer configuration.
pub fn jailer_rootfs<S>(jailer_cfg: &JailerConfig<S>) -> (r: String)
    ensures
        r@ == rootfs_spec(jailer_cfg.chroot_base_dir.deep_view(), jailer_cfg.exec_file@, jailer_cfg.id@),
{
    let base = match &jailer_cfg.chroot_base_dir {
        Some(b) => copy_string(b),
        None => DEFAULT_JAILER_PATH.to_string(),
    };
    let exec_name = file_name_or_default(jailer_cfg.exec_file.as_str(), "firecracker");
    let p1 = path_join(base.as_str(), exec_name.as_str());
    let p2 = path_join(p1.as_str(), jailer_cfg.id.as_str());
    path_join(p2.as_str(), ROOTFS_FOLDER_NAME)
}

/// The value of an optional number, or zero.
pub open spec fn or_zero(v: Option<i32>) -> i32 {
    match v {
        Some(x) => x,
        None => 0,
    }
}

/// The socket that Firecracker listens on inside the jail: the configured
/// one, or [`DEFAULT_SOCKET_PATH`] when it is empty.
pub open spec fn machine_socket_spec(socket_path: Seq<char>) -> Seq<char> {
    if socket_path.len() == 0 { DEFAULT_SOCKET_PATH@ } else { socket_path }
}

/// The state of the jailer command builder for a configuration.
pub open spec fn jail_builder_spec<S>(
    jailer_cfg: JailerConfig<S>,
    socket_path: Seq<char>,
    seccomp_enabled: bool,
    seccomp_filter: Option<Seq<char>>,
    net_ns: Option<Seq<char>>,
) -> JailerCommandBuilderView {
    JailerCommandBuilderView {
        bin: match jailer_cfg.jailer_binary {
            Some(b) => Some(b@),
            None => Some(DEFAULT_JAILER_BIN@),
        },
        id: jailer_cfg.id@,
        uid: or_zero(jailer_cfg.uid),
        gid: or_zero(jailer_cfg.gid),
        exec_file: jailer_cfg.exec_file@,
        node: or_zero(jailer_cfg.numa_node),
        chroot_base_dir: jailer_cfg.chroot_base_dir.deep_view(),
        netns: net_ns,
        daemonize: jailer_cfg.daemonize,
        firecracker_args: spec_seccomp_args(seccomp_enabled, seccomp_filter) + seq![
            "--api-sock"@,
            machine_socket_spec(socket_path),
        ],
        cgroup_version: jailer_cfg.cgroup_version.deep_view(),
        cgroup_args: jailer_cfg.cgroup_args.deep_view(),
        parent_cgroup: jailer_cfg.parent_cgroup.deep_view(),
        stdin: jailer_cfg.stdin.spec_view(),
        stdout: jailer_cfg.stdout.spec_view(),
        stderr: jailer_cfg.stderr.spec_view(),
    }
}

/// Puts a machine in a jail: the API socket path on the host, which lies in
/// the chroot, and the command that starts the jailer. The jailer passes the
/// seccomp arguments and `--api-sock <socket>` on to Firecracker.
/// `numa_cpuset` is the CPU list of the configured NUMA node.
pub fn jail<S>(
    jailer_cfg: Option<&JailerConfig<S>>,
    socket_path: &str,
    seccomp: &SeccompConfig,
    net_ns: Option<&str>,
    numa_cpuset: &str,
) -> (r: Result<(String, VMCommand), Error>)
    ensures
        jailer_cfg is None <==> r is Err,
        r matches Err(e) ==> e@ == ErrorView::InvalidConfig("jailer config was not set for use"@),
        r matches Ok((host_socket, cmd)) ==> {
            let j = *jailer_cfg.unwrap();
            let b = jail_builder_spec(
                j,
                socket_path@,
                seccomp.enabled,
                seccomp.filter.deep_view(),
                match net_ns { Some(n) => Some(n@), None => None },
            );
            &&& host_socket@ == chroot_path(
                rootfs_spec(j.chroot_base_dir.deep_view(), j.exec_file@, j.id@),
                machine_socket_spec(socket_path@),
            )
            &&& cmd.bin@ == jailer_bin(b)
            &&& cmd.args.deep_view() == jailer_args(b, numa_cpuset@)
            &&& cmd.stdin.spec_view() == b.stdin
            &&& cmd.stdout.spec_view() == b.stdout
            &&& cmd.stderr.spec_view() == b.stderr
        },
{
    let j = match jailer_cfg {
        Some(j) => j,
        None => {
            let e = invalid_config("jailer config was not set for use");
            proof {
                reveal_strlit("jailer config was not set for use");
            }
            return Err(e);
        },
    };
    let rootfs = jailer_rootfs(j);
    let machine_socket = if socket_path.is_empty() {
        DEFAULT_SOCKET_PATH.to_string()
    } else {
        socket_path.to_string()
    };
    let host_socket = join_chroot_path(rootfs.as_str(), machine_socket.as_str());
    let filter = match &seccomp.filter {
        Some(f) => Some(f.as_str()),
        None => None,
    };
    let mut fc_args = seccomp_args(seccomp.enabled, filter);
    let ghost sa = fc_args.deep_view();
    fc_args.push("--api-sock".to_string());
    fc_args.push(machine_socket);
    assert(fc_args.deep_view() =~= sa + seq!["--api-sock"@, machine_socket_spec(socket_path@)]);
    let mut builder = JailerCommandBuilder::new()
        .with_id(copy_string(&j.id))
        .with_uid(match j.uid { Some(u) => u, None => 0 })
        .with_gid(match j.gid { Some(g) => g, None => 0 })
        .with_numa_node(match j.numa_node { Some(n) => n, None => 0 })
        .with_exec_file(copy_string(&j.exec_file))
        .with_cgroup_args(copy_strings(&j.cgroup_args))
        .with_firecracker_args(fc_args)
        .with_daemonize(j.daemonize)
        .with_stdin(j.stdin.duplicate())
        .with_stdout(j.stdout.duplicate())
        .with_stderr(j.stderr.duplicate());
    match &j.jailer_binary {
        Some(bin) => {
            builder = builder.with_bin(copy_string(bin));
        },
        None => {},
    }
    match &j.chroot_base_dir {
        Some(dir) => {
            builder = builder.with_chroot_base_dir(copy_string(dir));
        },
        None => {},
    }
    match &j.cgroup_version {
        Some(v) => {
            builder = builder.with_cgroup_version(copy_string(v));
        },
        None => {},
    }
    match &j.parent_cgroup {
        Some(p) => {
            builder = builder.with_parent_cgroup(copy_string(p));
        },
        None => {},
    }
    match net_ns {
        Some(n) => {
            builder = builder.with_netns(n.to_string());
        },
        None => {},
    }
    let cmd = builder.build(numa_cpuset);
    Ok((host_socket, cmd))
}

/// Why a jailer configuration is refused, in the order the checks run;
/// `None` when it is accepted or when there is none.
pub open spec fn jailer_config_error<S>(jailer_cfg: Option<JailerConfig<S>>, root_drive_present: bool) -> Option<Seq<char>> {
    match jailer_cfg {
        None => None,
        Some(j) => if !root_drive_present {
            Some("A root drive must be present in the drive list"@)
        } else if j.chroot_strategy is None {
            Some("ChrootStrategy cannot be nil"@)
        } else if j.exec_file@.len() == 0 {
            Some("exec file must be specified when using jailer mode"@)
        } else if j.id@.len() == 0 {
            Some("id must be specified when using jailer mode"@)
        } else if j.gid is None {
            Some("GID must be specified when using jailer mode"@)
        } else if j.uid is None {
            Some("UID must be specified when using jailer mode"@)
        } else if j.numa_node is None {
            Some("NUMA node must be specified when using jailer mode"@)
        } else {
            None
        },
    }
}

/// Validates the jailer configuration of a machine; `root_drive_present`
/// tells whether the machine has an initrd or a root drive.
pub fn validate_jailer_config<S>(jailer_cfg: Option<&JailerConfig<S>>, root_drive_present: bool) -> (r: Result<(), Error>)
    ensures
        r is Ok <==> jailer_config_error(
            match jailer_cfg { Some(j) => Some(*j), None => None },
            root_drive_present,
        ) is None,
        r matches Err(e) ==> e@ == ErrorView::InvalidConfig(jailer_config_error(
            match jailer_cfg { Some(j) => Some(*j), None => None },
            root_drive_present,
        ).unwrap()),
{
    let j = match jailer_cfg {
        Some(j) => j,
        None => return Ok(()),
    };
    if !root_drive_present {
        return Err(invalid_config("A root drive must be present in the drive list"));
    }
    if j.chroot_strategy.is_none() {
        return Err(invalid_config("ChrootStrategy cannot be nil"));
    }
    if j.exec_file.as_str().is_empty() {
        return Err(invalid_config("exec file must be specified when using jailer mode"));
    }
    if j.id.as_str().is_empty() {
        return Err(invalid_config("id must be specified when using jailer mode"));
    }
    if j.gid.is_none() {
        return Err(invalid_config("GID must be specified when using jailer mode"));
    }
    if j.uid.is_none() {
        return Err(invalid_config("UID must be specified when using jailer mode"));
    }
    if j.numa_node.is_none() {
        return Err(invalid_config("NUMA node must be specified when using jailer mode"));
    }
    Ok(())
}

/// Chroot strategy that hard-links the guest's files into the chroot.
#[derive(Debug, Clone, Default, PartialEq, Eq)]
pub struct NaiveChrootStrategy {
    pub kernel_image_path: String,
}

impl NaiveChrootStrategy {
    /// The strategy for the given kernel image.
    pub fn new(kernel_image_path: String) -> (r: Self)
        ensures
            r.kernel_image_path == kernel_image_path,
    {
        NaiveChrootStrategy { kernel_image_path }
    }

    /// Name of the kernel image inside the chroot: the image's file name, or
    /// `vmlinux`.
    pub fn kernel_file_name(&self) -> (r: String)
        ensures
            r@ == file_name_or(self.kernel_image_path@, "vmlinux"@),
    {
        file_name_or_default(self.kernel_image_path.as_str(), "vmlinux")
    }

    /// Adds `link_files`, the step that links the guest's files into the
    /// chroot, right after the step that creates the log files; that step
    /// must be among the initialization handlers.
    pub fn adapt_handlers<F: Clone>(&self, handlers: &mut Handlers<F>, link_files: Handler<F>) -> (r: Result<(), Error>)
        ensures
            r is Ok <==> names(old(handlers).fc_init.list@).contains(CREATE_LOG_FILES_HANDLER_NAME@),
            r matches Err(e) ==> e@ == ErrorView::InvalidConfig("required handler is missing from FcInit's list"@),
            r is Err ==> *final(handlers) == *old(handlers),
            r is Ok ==> final(handlers).validation == old(handlers).validation
                && inserted_after(old(handlers).fc_init.list@, final(handlers).fc_init.list@, CREATE_LOG_FILES_HANDLER_NAME@, link_files),
    {
        if !handlers.fc_init.has(CREATE_LOG_FILES_HANDLER_NAME) {
            let e = invalid_config("required handler is missing from FcInit's list");
            proof {
                reveal_strlit("required handler is missing from FcInit's list");
            }
            return Err(e);
        }
        let mut fc_init = crate::handlers::HandlerList::new();
        std::mem::swap(&mut fc_init, &mut handlers.fc_init);
        handlers.fc_init = fc_init.append_after(CREATE_LOG_FILES_HANDLER_NAME, link_files);
        Ok(())
    }
}


/// One step of linking the guest's files into the chroot.
#[derive(Debug, Clone, PartialEq, Eq)]
pub enum LinkStep {
    /// Hard-link `source` to `destination`.
    HardLink { source: String, destination: String },
    /// Hand `path` to the jailed user and group.
    Chown { path: String, uid: u32, gid: u32 },
    /// The kernel image is now at this path inside the chroot.
    SetKernelImagePath(String),
    /// The initrd is now at this path inside the chroot.
    SetInitrdPath(String),
    /// The drive at `index` is now backed by this path inside the chroot.
    SetDrivePath { index: usize, path: String },
    /// The log FIFO is now at this path inside the chroot.
    SetLogFifo(String),
    /// The metrics FIFO is now at this path inside the chroot.
    SetMetricsFifo(String),
}

/// Mathematical value of a [`LinkStep`].
pub enum LinkStepView {
    HardLink { source: Seq<char>, destination: Seq<char> },
    Chown { path: Seq<char>, uid: u32, gid: u32 },
    SetKernelImagePath(Seq<char>),
    SetInitrdPath(Seq<char>),
    SetDrivePath { index: usize, path: Seq<char> },
    SetLogFifo(Seq<char>),
    SetMetricsFifo(Seq<char>),
}

impl View for LinkStep {
    type V = LinkStepView;

    open spec fn view(&self) -> LinkStepView {
        match self {
            LinkStep::HardLink { source, destination } => LinkStepView::HardLink { source: source@, destination: destination@ },
            LinkStep::Chown { path, uid, gid } => LinkStepView::Chown { path: path@, uid: *uid, gid: *gid },
            LinkStep::SetKernelImagePath(p) => LinkStepView::SetKernelImagePath(p@),
            LinkStep::SetInitrdPath(p) => LinkStepView::SetInitrdPath(p@),
            LinkStep::SetDrivePath { index, path } => LinkStepView::SetDrivePath { index: *index, path: path@ },
            LinkStep::SetLogFifo(p) => LinkStepView::SetLogFifo(p@),
            LinkStep::SetMetricsFifo(p) => LinkStepView::SetMetricsFifo(p@),
        }
    }
}

/// The steps of a sequence, each by its view.
pub open spec fn step_views(s: Seq<LinkStep>) -> Seq<LinkStepView> {
    s.map_values(|x: LinkStep| x@)
}

/// A path that is set and not empty.
pub open spec fn nonempty_path(p: Option<Seq<char>>) -> Option<Seq<char>> {
    match p {
        Some(x) => if x.len() > 0 { Some(x) } else { None },
        None => None,
    }
}

/// Linking the initrd, when there is one.
pub open spec fn initrd_link_steps(rootfs: Seq<char>, initrd: Option<Seq<char>>) -> Seq<LinkStepView> {
    match nonempty_path(initrd) {
        Some(p) => seq![LinkStepView::HardLink { source: p, destination: join_path(rootfs, file_name_or(p, "initrd"@)) }],
        None => Seq::empty(),
    }
}

/// Linking each drive that has a backing file, and moving it to the link.
pub open spec fn drive_link_steps(rootfs: Seq<char>, drives: Seq<Option<Seq<char>>>) -> Seq<LinkStepView>
    decreases drives.len(),
{
    if drives.len() == 0 {
        Seq::empty()
    } else {
        let i = (drives.len() - 1) as usize;
        drive_link_steps(rootfs, drives.drop_last()) + match nonempty_path(drives.last()) {
            Some(p) => seq![
                LinkStepView::HardLink { source: p, destination: join_path(rootfs, file_name_or(p, "drive"@)) },
                LinkStepView::SetDrivePath { index: i, path: file_name_or(p, "drive"@) },
            ],
            None => Seq::empty(),
        }
    }
}

/// Linking a FIFO into the chroot and handing it to the jailed user.
pub open spec fn fifo_link_steps(rootfs: Seq<char>, fifo: Option<Seq<char>>, uid: u32, gid: u32, is_log: bool) -> Seq<LinkStepView> {
    match nonempty_path(fifo) {
        Some(p) => {
            let name = file_name_or(p, "fifo"@);
            let dest = join_path(rootfs, name);
            seq![
                LinkStepView::HardLink { source: p, destination: dest },
                LinkStepView::Chown { path: dest, uid, gid },
                if is_log { LinkStepView::SetLogFifo(name) } else { LinkStepView::SetMetricsFifo(name) },
            ]
        },
        None => Seq::empty(),
    }
}

/// All steps of linking the guest's files into the chroot whose root is
/// `rootfs`, in the order they are taken.
pub open spec fn link_steps(
    rootfs: Seq<char>,
    kernel_image_file_name: Seq<char>,
    kernel_image_path: Seq<char>,
    initrd: Option<Seq<char>>,
    drives: Seq<Option<Seq<char>>>,
    log_fifo: Option<Seq<char>>,
    metrics_fifo: Option<Seq<char>>,
    uid: u32,
    gid: u32,
) -> Seq<LinkStepView> {
    seq![LinkStepView::HardLink { source: kernel_image_path, destination: join_path(rootfs, kernel_image_file_name) }]
        + initrd_link_steps(rootfs, initrd)
        + drive_link_steps(rootfs, drives)
        + seq![LinkStepView::SetKernelImagePath(kernel_image_file_name)]
        + (match nonempty_path(initrd) {
            Some(p) => seq![LinkStepView::SetInitrdPath(file_name_or(p, "initrd"@))],
            None => Seq::empty(),
        })
        + fifo_link_steps(rootfs, log_fifo, uid, gid, true)
        + fifo_link_steps(rootfs, metrics_fifo, uid, gid, false)
}

fn opt_str_view(p: Option<&str>) -> (r: Option<String>)
    ensures
        r.deep_view() == match p { Some(x) => Some(x@), None => None },
{
    match p {
        Some(x) => Some(x.to_string()),
        None => None,
    }
}

fn nonempty(p: &Option<String>) -> (r: Option<&String>)
    ensures
        match r { Some(x) => Some(x@), None => None } == nonempty_path(p.deep_view()),
{
    match p {
        Some(x) => if x.as_str().is_empty() { None } else { Some(x) },
        None => None,
    }
}

fn push_fifo_steps(steps: &mut Vec<LinkStep>, rootfs: &str, fifo: &Option<String>, uid: u32, gid: u32, is_log: bool)
    ensures
        step_views(final(steps)@) == step_views(old(steps)@) + fifo_link_steps(rootfs@, fifo.deep_view(), uid, gid, is_log),
{
    let ghost before = step_views(steps@);
    match nonempty(fifo) {
        Some(p) => {
            let name = file_name_or_default(p.as_str(), "fifo");
            let dest = path_join(rootfs, name.as_str());
            steps.push(LinkStep::HardLink { source: copy_string(p), destination: copy_string(&dest) });
            steps.push(LinkStep::Chown { path: dest, uid, gid });
            if is_log {
                steps.push(LinkStep::SetLogFifo(name));
            } else {
                steps.push(LinkStep::SetMetricsFifo(name));
            }
            assert(step_views(steps@) =~= before + fifo_link_steps(rootfs@, fifo.deep_view(), uid, gid, is_log));
        },
        None => {
            assert(step_views(steps@) =~= before + fifo_link_steps(rootfs@, fifo.deep_view(), uid, gid, is_log));
        },
    }
}

/// The steps that link the guest's files into the chroot of the jailer
/// configuration: the kernel image (under `kernel_image_file_name`), the
/// initrd, each drive's backing file and the log and metrics FIFOs, each
/// under its file name; the FIFOs are then handed to the jailed user and
/// group. Fails when there is no jailer configuration.
pub fn link_files_plan<S>(
    jailer_cfg: Option<&JailerConfig<S>>,
    kernel_image_file_name: &str,
    kernel_image_path: &str,
    initrd_path: &Option<String>,
    drive_paths: &Vec<Option<String>>,
    log_fifo: &Option<String>,
    metrics_fifo: &Option<String>,
) -> (r: Result<Vec<LinkStep>, Error>)
    ensures
        jailer_cfg is None <==> r is Err,
        r matches Err(e) ==> e@ == ErrorView::InvalidConfig("jailer config was not set for use"@),
        r matches Ok(steps) ==> {
            let j = *jailer_cfg.unwrap();
            step_views(steps@) == link_steps(
                rootfs_spec(j.chroot_base_dir.deep_view(), j.exec_file@, j.id@),
                kernel_image_file_name@,
                kernel_image_path@,
                initrd_path.deep_view(),
                drive_paths.deep_view(),
                log_fifo.deep_view(),
                metrics_fifo.deep_view(),
                #[verifier::truncate] (or_zero(j.uid) as u32),
                #[verifier::truncate] (or_zero(j.gid) as u32),
            )
        },
{
    let j = match jailer_cfg {
        Some(j) => j,
        None => {
            let e = invalid_config("jailer config was not set for use");
            proof {
                reveal_strlit("jailer config was not set for use");
            }
            return Err(e);
        },
    };
    let rootfs = jailer_rootfs(j);
    let uid_i: i32 = match j.uid { Some(u) => u, None => 0 };
    let gid_i: i32 = match j.gid { Some(g) => g, None => 0 };
    #[verifier::truncate]
    let uid: u32 = uid_i as u32;
    #[verifier::truncate]
    let gid: u32 = gid_i as u32;
    let mut steps: Vec<LinkStep> = Vec::new();
    steps.push(LinkStep::HardLink {
        source: kernel_image_path.to_string(),
        destination: path_join(rootfs.as_str(), kernel_image_file_name),
    });
    let ghost s0 = step_views(steps@);
    assert(s0 =~= seq![LinkStepView::HardLink {
        source: kernel_image_path@,
        destination: join_path(rootfs@, kernel_image_file_name@),
    }]);
    match nonempty(initrd_path) {
        Some(p) => {
            let name = file_name_or_default(p.as_str(), "initrd");
            steps.push(LinkStep::HardLink { source: copy_string(p), destination: path_join(rootfs.as_str(), name.as_str()) });
        },
        None => {},
    }
    let ghost s1 = step_views(steps@);
    assert(s1 =~= s0 + initrd_link_steps(rootfs@, initrd_path.deep_view()));
    let mut i: usize = 0;
    while i < drive_paths.len()
        invariant
            i <= drive_paths.len(),
            step_views(steps@) == s1 + drive_link_steps(rootfs@, drive_paths.deep_view().take(i as int)),
        decreases drive_paths.len() - i,
    {
        let ghost before = step_views(steps@);
        let ghost dv = drive_paths.deep_view();
        assert(dv.take(i as int + 1).drop_last() =~= dv.take(i as int));
        assert(dv.take(i as int + 1).last() == drive_paths@[i as int].deep_view());
        let ghost t = dv.take(i as int + 1);
        assert(t.len() == i + 1);
        assert(drive_link_steps(rootfs@, t) == drive_link_steps(rootfs@, t.drop_last()) + match nonempty_path(t.last()) {
            Some(p) => seq![
                LinkStepView::HardLink { source: p, destination: join_path(rootfs@, file_name_or(p, "drive"@)) },
                LinkStepView::SetDrivePath { index: i, path: file_name_or(p, "drive"@) },
            ],
            None => Seq::<LinkStepView>::empty(),
        });
        match nonempty(&drive_paths[i]) {
            Some(p) => {
                let name = file_name_or_default(p.as_str(), "drive");
                steps.push(LinkStep::HardLink { source: copy_string(p), destination: path_join(rootfs.as_str(), name.as_str()) });
                steps.push(LinkStep::SetDrivePath { index: i, path: name });
                assert(step_views(steps@) =~= before + seq![
                    LinkStepView::HardLink { source: p@, destination: join_path(rootfs@, file_name_or(p@, "drive"@)) },
                    LinkStepView::SetDrivePath { index: i, path: file_name_or(p@, "drive"@) },
                ]);
            },
            None => {
                assert(step_views(steps@) =~= before + Seq::<LinkStepView>::empty());
            },
        }
        assert(step_views(steps@) =~= s1 + drive_link_steps(rootfs@, dv.take(i as int + 1)));
        i = i + 1;
    }
    assert(drive_paths.deep_view().take(drive_paths.len() as int) =~= drive_paths.deep_view());
    let ghost s2 = step_views(steps@);
    steps.push(LinkStep::SetKernelImagePath(kernel_image_file_name.to_string()));
    match nonempty(initrd_path) {
        Some(p) => {
            steps.push(LinkStep::SetInitrdPath(file_name_or_default(p.as_str(), "initrd")));
        },
        None => {},
    }
    assert(step_views(steps@) =~= s2 + seq![LinkStepView::SetKernelImagePath(kernel_image_file_name@)] + (match nonempty_path(initrd_path.deep_view()) {
        Some(p) => seq![LinkStepView::SetInitrdPath(file_name_or(p, "initrd"@))],
        None => Seq::<LinkStepView>::empty(),
    }));
    push_fifo_steps(&mut steps, rootfs.as_str(), log_fifo, uid, gid, true);
    push_fifo_steps(&mut steps, rootfs.as_str(), metrics_fifo, uid, gid, false);
    Ok(steps)
}

} // verus!
