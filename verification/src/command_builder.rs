//! Building the command line that starts the Firecracker binary.

use vstd::prelude::*;

use crate::text::{copy_string, copy_strings};

verus! {

/// Binary that is started when no other one was set.
pub const DEFAULT_FC_BIN: &'static str = "firecracker";

/// Where a standard stream of the started process goes.
#[derive(Debug, PartialEq, Eq, Default)]
pub enum CommandStdio {
    #[default]
    Inherit,
    Null,
    Path(String),
}

impl CommandStdio {
    /// Contents of the stream setting, with the path by its characters.
    pub open spec fn spec_view(&self) -> StdioView {
        match self {
            CommandStdio::Inherit => StdioView::Inherit,
            CommandStdio::Null => StdioView::Null,
            CommandStdio::Path(p) => StdioView::Path(p@),
        }
    }

    /// A copy of this setting.
    pub fn duplicate(&self) -> (r: CommandStdio)
        ensures
            r.spec_view() == self.spec_view(),
    {
        match self {
            CommandStdio::Inherit => CommandStdio::Inherit,
            CommandStdio::Null => CommandStdio::Null,
            CommandStdio::Path(p) => CommandStdio::Path(copy_string(p)),
        }
    }
}

/// Mathematical value of a [`CommandStdio`].
pub enum StdioView {
    Inherit,
    Null,
    Path(Seq<char>),
}

impl Clone for CommandStdio {
    fn clone(&self) -> (r: Self)
        ensures
            r.spec_view() == self.spec_view(),
    {
        self.duplicate()
    }
}


/// A fully resolved command: the binary, its arguments and where its standard
/// streams go.
#[derive(Debug, PartialEq, Eq, Default)]
pub struct VMCommand {
    pub bin: String,
    pub args: Vec<String>,
    pub stdin: CommandStdio,
    pub stdout: CommandStdio,
    pub stderr: CommandStdio,
}

impl VMCommand {
    /// The binary followed by its arguments.
    pub fn argv(&self) -> (argv: Vec<String>)
        ensures
            argv.deep_view() == seq![self.bin@] + self.args.deep_view(),
    {
        let mut argv: Vec<String> = Vec::new();
        argv.push(copy_string(&self.bin));
        let mut rest = copy_strings(&self.args);
        argv.append(&mut rest);
        assert(argv.deep_view() =~= seq![self.bin@] + self.args.deep_view());
        argv
    }
}

/// Builder of a [`VMCommand`] for the Firecracker binary.
#[derive(Debug, PartialEq, Eq, Default)]
pub struct VMCommandBuilder {
    bin: Option<String>,
    args: Vec<String>,
    socket_path: Option<String>,
    stdin: CommandStdio,
    stdout: CommandStdio,
    stderr: CommandStdio,
}

/// Mathematical value of a [`VMCommandBuilder`].
pub struct VMCommandBuilderView {
    pub bin: Option<Seq<char>>,
    pub args: Seq<Seq<char>>,
    pub socket_path: Option<Seq<char>>,
    pub stdin: StdioView,
    pub stdout: StdioView,
    pub stderr: StdioView,
}

impl View for VMCommandBuilder {
    type V = VMCommandBuilderView;

    closed spec fn view(&self) -> VMCommandBuilderView {
        VMCommandBuilderView {
            bin: self.bin.deep_view(),
            args: self.args.deep_view(),
            socket_path: self.socket_path.deep_view(),
            stdin: self.stdin.spec_view(),
            stdout: self.stdout.spec_view(),
            stderr: self.stderr.spec_view(),
        }
    }
}

/// The binary that a builder in state `b` starts.
pub open spec fn spec_bin(b: VMCommandBuilderView) -> Seq<char> {
    match b.bin {
        Some(bin) => bin,
        None => DEFAULT_FC_BIN@,
    }
}

/// The arguments that select the API socket, when one was set.
pub open spec fn spec_socket_path_args(b: VMCommandBuilderView) -> Option<Seq<Seq<char>>> {
    match b.socket_path {
        Some(path) => Some(seq!["--api-sock"@, path]),
        None => None,
    }
}

/// All arguments of the built command: the socket arguments, then the rest.
pub open spec fn spec_build_args(b: VMCommandBuilderView) -> Seq<Seq<char>> {
    match spec_socket_path_args(b) {
        Some(socket_args) => socket_args + b.args,
        None => b.args,
    }
}

impl VMCommandBuilder {
    /// A builder with nothing set: the default binary, no arguments, no
    /// socket, and inherited standard streams.
    pub fn new() -> (r: Self)
        ensures
            r@ == (VMCommandBuilderView {
                bin: None,
                args: Seq::empty(),
                socket_path: None,
                stdin: StdioView::Inherit,
                stdout: StdioView::Inherit,
                stderr: StdioView::Inherit,
            }),
    {
        let r = VMCommandBuilder {
            bin: None,
            args: Vec::new(),
            socket_path: None,
            stdin: CommandStdio::Inherit,
            stdout: CommandStdio::Inherit,
            stderr: CommandStdio::Inherit,
        };
        assert(r@.args =~= Seq::<Seq<char>>::empty());
        r
    }

    /// The extra arguments, or `None` when there are none.
    pub fn args(&self) -> (r: Option<&[String]>)
        ensures
            match r {
                Some(a) => self@.args.len() > 0 && a@.map_values(|s: String| s@) == self@.args,
                None => self@.args.len() == 0,
            },
    {
        if self.args.len() == 0 {
            None
        } else {
            let a = self.args.as_slice();
            assert(a@.map_values(|s: String| s@) =~= self@.args);
            Some(a)
        }
    }

    /// Replaces the extra arguments.
    pub fn with_args(self, args: Vec<String>) -> (r: Self)
        ensures
            r@ == (VMCommandBuilderView { args: args.deep_view(), ..self@ }),
    {
        VMCommandBuilder { args, ..self }
    }

    /// Appends to the extra arguments.
    pub fn add_args(self, args: Vec<String>) -> (r: Self)
        ensures
            r@ == (VMCommandBuilderView { args: self@.args + args.deep_view(), ..self@ }),
    {
        let mut me = self;
        let mut more = args;
        let ghost before = me.args.deep_view();
        let ghost added = more.deep_view();
        me.args.append(&mut more);
        assert(me.args.deep_view() =~= before + added);
        me
    }

    /// The binary that will be started.
    pub fn bin(&self) -> (r: &str)
        ensures
            r@ == spec_bin(self@),
    {
        match &self.bin {
            Some(bin) => bin.as_str(),
            None => DEFAULT_FC_BIN,
        }
    }

    /// Sets the binary.
    pub fn with_bin(self, bin: String) -> (r: Self)
        ensures
            r@ == (VMCommandBuilderView { bin: Some(bin@), ..self@ }),
    {
        VMCommandBuilder { bin: Some(bin), ..self }
    }

    /// `--api-sock <path>` when a socket path was set.
    pub fn socket_path_args(&self) -> (r: Option<Vec<String>>)
        ensures
            r.deep_view() == spec_socket_path_args(self@),
    {
        match &self.socket_path {
            Some(path) => {
                let mut v: Vec<String> = Vec::new();
                v.push("--api-sock".to_string());
                v.push(copy_string(path));
                assert(v.deep_view() =~= seq!["--api-sock"@, path@]);
                Some(v)
            },
            None => None,
        }
    }

    /// Sets the API socket path.
    pub fn with_socket_path(self, path: String) -> (r: Self)
        ensures
            r@ == (VMCommandBuilderView { socket_path: Some(path@), ..self@ }),
    {
        VMCommandBuilder { socket_path: Some(path), ..self }
    }

    /// Sets where standard input comes from.
    pub fn with_stdin(self, stdin: CommandStdio) -> (r: Self)
        ensures
            r@ == (VMCommandBuilderView { stdin: stdin.spec_view(), ..self@ }),
    {
        VMCommandBuilder { stdin, ..self }
    }

    /// Reads standard input from a file.
    pub fn with_stdin_path(self, path: String) -> (r: Self)
        ensures
            r@ == (VMCommandBuilderView { stdin: StdioView::Path(path@), ..self@ }),
    {
        VMCommandBuilder { stdin: CommandStdio::Path(path), ..self }
    }

    /// Sets where standard output goes.
    pub fn with_stdout(self, stdout: CommandStdio) -> (r: Self)
        ensures
            r@ == (VMCommandBuilderView { stdout: stdout.spec_view(), ..self@ }),
    {
        VMCommandBuilder { stdout, ..self }
    }

    /// Writes standard output to a file.
    pub fn with_stdout_path(self, path: String) -> (r: Self)
        ensures
            r@ == (VMCommandBuilderView { stdout: StdioView::Path(path@), ..self@ }),
    {
        VMCommandBuilder { stdout: CommandStdio::Path(path), ..self }
    }

    /// Sets where standard error goes.
    pub fn with_stderr(self, stderr: CommandStdio) -> (r: Self)
        ensures
            r@ == (VMCommandBuilderView { stderr: stderr.spec_view(), ..self@ }),
    {
        VMCommandBuilder { stderr, ..self }
    }

    /// Writes standard error to a file.
    pub fn with_stderr_path(self, path: String) -> (r: Self)
        ensures
            r@ == (VMCommandBuilderView { stderr: StdioView::Path(path@), ..self@ }),
    {
        VMCommandBuilder { stderr: CommandStdio::Path(path), ..self }
    }

    /// The command: the chosen binary, the socket arguments followed by the
    /// extra arguments, and the stream settings.
    pub fn build(&self) -> (c: VMCommand)
        ensures
            c.bin@ == spec_bin(self@),
            c.args.deep_view() == spec_build_args(self@),
            c.stdin.spec_view() == self@.stdin,
            c.stdout.spec_view() == self@.stdout,
            c.stderr.spec_view() == self@.stderr,
    {
        let mut args: Vec<String> = Vec::new();
        match self.socket_path_args() {
            Some(socket_args) => {
                let mut socket_args = socket_args;
                args.append(&mut socket_args);
            },
            None => {},
        }
        let ghost prefix = args.deep_view();
        let mut rest = copy_strings(&self.args);
        args.append(&mut rest);
        assert(args.deep_view() =~= prefix + self@.args);
        assert(args.deep_view() =~= spec_build_args(self@));
        let bin = self.bin().to_string();
        VMCommand {
            bin,
            args,
            stdin: self.stdin.duplicate(),
            stdout: self.stdout.duplicate(),
            stderr: self.stderr.duplicate(),
        }
    }
}

/// The seccomp arguments that Firecracker takes: `--no-seccomp` when it is
/// disabled, `--seccomp-filter <filter>` for a nonempty custom filter, and
/// nothing otherwise.
pub open spec fn spec_seccomp_args(enabled: bool, filter: Option<Seq<char>>) -> Seq<Seq<char>> {
    if !enabled {
        seq!["--no-seccomp"@]
    } else {
        match filter {
            Some(f) => if f.len() > 0 { seq!["--seccomp-filter"@, f] } else { Seq::empty() },
            None => Seq::empty(),
        }
    }
}

/// Firecracker's seccomp arguments for the given setting.
pub fn seccomp_args(enabled: bool, filter: Option<&str>) -> (r: Vec<String>)
    ensures
        r.deep_view() == spec_seccomp_args(enabled, match filter { Some(f) => Some(f@), None => None }),
{
    let mut r: Vec<String> = Vec::new();
    if !enabled {
        r.push("--no-seccomp".to_string());
        assert(r.deep_view() =~= seq!["--no-seccomp"@]);
    } else {
        match filter {
            Some(f) => {
                if !f.is_empty() {
                    r.push("--seccomp-filter".to_string());
                    r.push(f.to_string());
                    assert(r.deep_view() =~= seq!["--seccomp-filter"@, f@]);
                } else {
                    assert(r.deep_view() =~= Seq::<Seq<char>>::empty());
                }
            },
            None => {
                assert(r.deep_view() =~= Seq::<Seq<char>>::empty());
            },
        }
    }
    r
}

} // verus!
