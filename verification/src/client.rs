//! Settings of the Firecracker API client: where it connects, its timeouts,
//! and per-request timeout overrides.

use std::time::Duration;

use vstd::prelude::*;

use crate::config::DEFAULT_FIRECRACKER_INIT_TIMEOUT_SECONDS;
use crate::machine::env_value_or_default_int;
use crate::text::{copy_string, parse_i32_spec};

verus! {

/// Environment variable that overrides the request timeout, in milliseconds.
pub const FIRECRACKER_REQUEST_TIMEOUT_ENV: &'static str = "FIRECRACKER_GO_SDK_REQUEST_TIMEOUT_MILLISECONDS";
/// Request timeout in milliseconds when none is configured.
pub const DEFAULT_FIRECRACKER_REQUEST_TIMEOUT: i32 = 500;

/// The `Duration` of `ms` milliseconds that `Duration::from_millis` makes.
pub uninterp spec fn millis_duration(ms: u64) -> Duration;

/// The `Duration` of `secs` seconds that `Duration::from_secs` makes.
pub uninterp spec fn secs_duration(secs: u64) -> Duration;

/// A duration of `ms` milliseconds.
///
/// Calls `Duration::from_millis`, which cannot fail or panic; Verus sees no
/// value inside a `Duration`, so the result is named: [`millis_duration`]
/// of `ms`.
#[verifier::external_body]
fn duration_from_millis(ms: u64) -> (d: Duration)
    ensures
        d == millis_duration(ms),
{
    Duration::from_millis(ms)
}

/// A duration of `secs` seconds.
///
/// Calls `Duration::from_secs`, which cannot fail or panic; the result is
/// named: [`secs_duration`] of `secs`.
#[verifier::external_body]
fn duration_from_secs(secs: u64) -> (d: Duration)
    ensures
        d == secs_duration(secs),
{
    Duration::from_secs(secs)
}

/// An integer setting from the text of its environment variable, when it is
/// set: the text read as an `i32`, else `default`.
pub open spec fn env_int_spec(value: Option<Seq<char>>, default: i32) -> int {
    match value {
        Some(t) => match parse_i32_spec(t) {
            Some(v) => v,
            None => default as int,
        },
        None => default as int,
    }
}

/// The request timeout in milliseconds for the value of
/// [`FIRECRACKER_REQUEST_TIMEOUT_ENV`]: the value read as an `i32`, else
/// [`DEFAULT_FIRECRACKER_REQUEST_TIMEOUT`], converted to `u64` as `as`
/// converts (a negative value wraps around).
pub open spec fn request_timeout_ms_spec(env: Option<Seq<char>>) -> u64 {
    env_int_spec(env, DEFAULT_FIRECRACKER_REQUEST_TIMEOUT) as u64
}

/// The initialization timeout in seconds for the value of
/// [`crate::config::FIRECRACKER_INIT_TIMEOUT_ENV`]: the value read as an
/// `i32`, else [`DEFAULT_FIRECRACKER_INIT_TIMEOUT_SECONDS`], converted to
/// `u64` as `as` converts.
pub open spec fn init_timeout_secs_spec(env: Option<Seq<char>>) -> u64 {
    env_int_spec(env, DEFAULT_FIRECRACKER_INIT_TIMEOUT_SECONDS as i32) as u64
}

/// The request timeout in milliseconds and the initialization timeout in
/// seconds of a client, from the values of their environment variables
/// (`None` where unset).
pub fn client_timeouts(request_env: Option<&str>, init_env: Option<&str>) -> (r: (u64, u64))
    ensures
        r.0 == request_timeout_ms_spec(opt_text(request_env)),
        r.1 == init_timeout_secs_spec(opt_text(init_env)),
        request_env is None ==> r.0 == 500,
        init_env is None ==> r.1 == 3,
{
    let request_ms = env_value_or_default_int(request_env, DEFAULT_FIRECRACKER_REQUEST_TIMEOUT);
    let init_secs = env_value_or_default_int(init_env, DEFAULT_FIRECRACKER_INIT_TIMEOUT_SECONDS as i32);
    (request_ms as u64, init_secs as u64)
}

/// The view of an optional text.
pub open spec fn opt_text(t: Option<&str>) -> Option<Seq<char>> {
    match t {
        Some(s) => Some(s@),
        None => None,
    }
}

/// HTTP over a Unix domain socket: the socket path and the timeout of a
/// request.
#[derive(Debug)]
pub struct UnixSocketTransport {
    socket_path: String,
    request_timeout: Duration,
}

impl Clone for UnixSocketTransport {
    fn clone(&self) -> (r: Self)
        ensures
            r.spec_socket_path() == self.spec_socket_path(),
            r.spec_request_timeout() == self.spec_request_timeout(),
    {
        UnixSocketTransport { socket_path: copy_string(&self.socket_path), request_timeout: self.request_timeout }
    }
}

impl UnixSocketTransport {
    /// The socket path.
    pub closed spec fn spec_socket_path(&self) -> Seq<char> {
        self.socket_path@
    }

    /// The request timeout.
    pub closed spec fn spec_request_timeout(&self) -> Duration {
        self.request_timeout
    }

    /// A transport to `socket_path` whose requests time out after
    /// `request_timeout`.
    pub fn new(socket_path: String, request_timeout: Duration) -> (r: Self)
        ensures
            r.spec_socket_path() == socket_path@,
            r.spec_request_timeout() == request_timeout,
    {
        UnixSocketTransport { socket_path, request_timeout }
    }

    /// The socket path.
    pub fn socket_path(&self) -> (r: &str)
        ensures
            r@ == self.spec_socket_path(),
    {
        self.socket_path.as_str()
    }

    /// The request timeout.
    pub fn request_timeout(&self) -> (r: Duration)
        ensures
            r == self.spec_request_timeout(),
    {
        self.request_timeout
    }
}

/// A transport to `socket_path` whose requests time out after
/// `request_timeout`.
pub fn new_unix_socket_transport(socket_path: String, request_timeout: Duration) -> (r: UnixSocketTransport)
    ensures
        r.spec_socket_path() == socket_path@,
        r.spec_request_timeout() == request_timeout,
{
    UnixSocketTransport::new(socket_path, request_timeout)
}

/// An override of one timeout of a request: a new timeout, or none at all.
#[derive(Debug, Clone, Copy, PartialEq, Eq)]
pub enum RequestOpt {
    ReadTimeout(Option<Duration>),
    WriteTimeout(Option<Duration>),
}

/// Timeout overrides of a request; an override of `None` disables the
/// timeout.
#[derive(Debug, Clone, Copy, Default, PartialEq, Eq)]
pub struct RequestOptions {
    read_timeout_override: Option<Option<Duration>>,
    write_timeout_override: Option<Option<Duration>>,
}

impl RequestOptions {
    /// The read timeout override, if any.
    pub closed spec fn read_override(&self) -> Option<Option<Duration>> {
        self.read_timeout_override
    }

    /// The write timeout override, if any.
    pub closed spec fn write_override(&self) -> Option<Option<Duration>> {
        self.write_timeout_override
    }

    /// No overrides.
    pub fn new() -> (r: Self)
        ensures
            r.read_override() is None,
            r.write_override() is None,
    {
        RequestOptions { read_timeout_override: None, write_timeout_override: None }
    }

    /// The overrides after `opt` was applied to `o`.
    pub open spec fn apply_spec(o: (Option<Option<Duration>>, Option<Option<Duration>>), opt: RequestOpt) -> (
        Option<Option<Duration>>,
        Option<Option<Duration>>,
    ) {
        match opt {
            RequestOpt::ReadTimeout(t) => (Some(t), o.1),
            RequestOpt::WriteTimeout(t) => (o.0, Some(t)),
        }
    }

    /// The overrides after the options were applied in order to none.
    pub open spec fn opts_spec(opts: Seq<RequestOpt>) -> (Option<Option<Duration>>, Option<Option<Duration>>)
        decreases opts.len(),
    {
        if opts.len() == 0 {
            (None, None)
        } else {
            Self::apply_spec(Self::opts_spec(opts.drop_last()), opts.last())
        }
    }

    /// The overrides that the options set, applied in order.
    pub fn from_opts(opts: Vec<RequestOpt>) -> (r: Self)
        ensures
            (r.read_override(), r.write_override()) == Self::opts_spec(opts@),
    {
        let mut r = RequestOptions::new();
        let mut i: usize = 0;
        while i < opts.len()
            invariant
                i <= opts.len(),
                (r.read_timeout_override, r.write_timeout_override) == Self::opts_spec(opts@.take(i as int)),
            decreases opts.len() - i,
        {
            let opt = opts[i];
            opt.apply(&mut r);
            assert(opts@.take(i as int + 1).drop_last() =~= opts@.take(i as int));
            i = i + 1;
        }
        assert(opts@.take(opts.len() as int) =~= opts@);
        r
    }

    /// The read and write timeouts of a request: each override replaces its
    /// default, independently of the other.
    pub fn resolve(self, default_read_timeout: Option<Duration>, default_write_timeout: Option<Duration>) -> (r: (
        Option<Duration>,
        Option<Duration>,
    ))
        ensures
            r.0 == match self.read_override() {
                Some(t) => t,
                None => default_read_timeout,
            },
            r.1 == match self.write_override() {
                Some(t) => t,
                None => default_write_timeout,
            },
    {
        let read = match self.read_timeout_override {
            Some(t) => t,
            None => default_read_timeout,
        };
        let write = match self.write_timeout_override {
            Some(t) => t,
            None => default_write_timeout,
        };
        (read, write)
    }
}

/// An option that adjusts the timeouts of one request.
pub trait ApplyRequestOpt: Sized {
    /// Applies this option to `options`.
    fn apply(self, options: &mut RequestOptions);
}

impl ApplyRequestOpt for RequestOpt {
    fn apply(self, options: &mut RequestOptions)
        ensures
            (final(options).read_override(), final(options).write_override())
                == RequestOptions::apply_spec(
                (old(options).read_override(), old(options).write_override()),
                self,
            ),
    {
        match self {
            RequestOpt::ReadTimeout(t) => options.read_timeout_override = Some(t),
            RequestOpt::WriteTimeout(t) => options.write_timeout_override = Some(t),
        }
    }
}

/// Overrides the read timeout of a request.
pub fn with_read_timeout(read_timeout: Duration) -> (r: RequestOpt)
    ensures
        r == RequestOpt::ReadTimeout(Some(read_timeout)),
{
    RequestOpt::ReadTimeout(Some(read_timeout))
}

/// Disables the read timeout of a request.
pub fn without_read_timeout() -> (r: RequestOpt)
    ensures
        r == RequestOpt::ReadTimeout(None),
{
    RequestOpt::ReadTimeout(None)
}

/// Overrides the write timeout of a request.
pub fn with_write_timeout(write_timeout: Duration) -> (r: RequestOpt)
    ensures
        r == RequestOpt::WriteTimeout(Some(write_timeout)),
{
    RequestOpt::WriteTimeout(Some(write_timeout))
}

/// Disables the write timeout of a request.
pub fn without_write_timeout() -> (r: RequestOpt)
    ensures
        r == RequestOpt::WriteTimeout(None),
{
    RequestOpt::WriteTimeout(None)
}

/// An option of the client.
#[derive(Debug)]
pub enum ClientOpt {
    /// Requests time out after this long.
    RequestTimeout(Duration),
    /// The API must answer within this long after the process starts.
    InitTimeout(Duration),
    /// Use this transport.
    UnixSocketTransport(UnixSocketTransport),
}

/// Sets the request timeout, keeping the socket path.
pub fn with_request_timeout(request_timeout: Duration) -> (r: ClientOpt)
    ensures
        r == ClientOpt::RequestTimeout(request_timeout),
{
    ClientOpt::RequestTimeout(request_timeout)
}

/// Sets the initialization timeout.
pub fn with_init_timeout(init_timeout: Duration) -> (r: ClientOpt)
    ensures
        r == ClientOpt::InitTimeout(init_timeout),
{
    ClientOpt::InitTimeout(init_timeout)
}

/// Replaces the transport.
pub fn with_unix_socket_transport(transport: UnixSocketTransport) -> (r: ClientOpt)
    ensures
        r == ClientOpt::UnixSocketTransport(transport),
{
    ClientOpt::UnixSocketTransport(transport)
}

/// A client of the Firecracker API: its transport and how long to wait for
/// the API after the process starts.
#[derive(Debug)]
pub struct Client {
    transport: UnixSocketTransport,
    init_timeout: Duration,
}

impl Clone for Client {
    fn clone(&self) -> (r: Self)
        ensures
            r@ == self@,
    {
        Client { transport: self.transport.clone(), init_timeout: self.init_timeout }
    }
}

/// Mathematical value of a [`Client`].
pub struct ClientView {
    pub socket_path: Seq<char>,
    pub request_timeout: Duration,
    pub init_timeout: Duration,
}

impl View for Client {
    type V = ClientView;

    closed spec fn view(&self) -> ClientView {
        ClientView {
            socket_path: self.transport.spec_socket_path(),
            request_timeout: self.transport.spec_request_timeout(),
            init_timeout: self.init_timeout,
        }
    }
}

/// The client after `opt` was applied to `c`.
pub open spec fn apply_client_opt(c: ClientView, opt: ClientOpt) -> ClientView {
    match opt {
        ClientOpt::RequestTimeout(t) => ClientView { request_timeout: t, ..c },
        ClientOpt::InitTimeout(t) => ClientView { init_timeout: t, ..c },
        ClientOpt::UnixSocketTransport(tr) => ClientView {
            socket_path: tr.spec_socket_path(),
            request_timeout: tr.spec_request_timeout(),
            ..c
        },
    }
}

/// The client after the options were applied to `c` in order.
pub open spec fn apply_client_opts(c: ClientView, opts: Seq<ClientOpt>) -> ClientView
    decreases opts.len(),
{
    if opts.len() == 0 {
        c
    } else {
        apply_client_opt(apply_client_opts(c, opts.drop_last()), opts.last())
    }
}

/// An option that adjusts a client.
pub trait ApplyClientOpt: Sized {
    /// Applies this option to `client`.
    fn apply(self, client: &mut Client);
}

impl ApplyClientOpt for ClientOpt {
    fn apply(self, client: &mut Client)
        ensures
            final(client)@ == apply_client_opt(old(client)@, self),
    {
        match self {
            ClientOpt::RequestTimeout(t) => {
                let path = copy_string(&client.transport.socket_path);
                client.transport = new_unix_socket_transport(path, t);
            },
            ClientOpt::InitTimeout(t) => client.init_timeout = t,
            ClientOpt::UnixSocketTransport(tr) => client.transport = tr,
        }
    }
}

impl Client {
    /// A client of the API at `socket_path`. The caller chooses the
    /// timeouts: by default [`DEFAULT_FIRECRACKER_REQUEST_TIMEOUT`]
    /// milliseconds for requests and
    /// [`crate::config::DEFAULT_FIRECRACKER_INIT_TIMEOUT_SECONDS`] for the
    /// initialization, unless the environment overrides them.
    pub fn new(socket_path: String, request_timeout: Duration, init_timeout: Duration) -> (r: Self)
        ensures
            r@ == (ClientView { socket_path: socket_path@, request_timeout, init_timeout }),
    {
        Client { transport: new_unix_socket_transport(socket_path, request_timeout), init_timeout }
    }

    /// A client of the API at `socket_path` whose timeouts come from the
    /// values of [`FIRECRACKER_REQUEST_TIMEOUT_ENV`] and
    /// [`crate::config::FIRECRACKER_INIT_TIMEOUT_ENV`] (`None` where unset),
    /// as [`client_timeouts`] reads them: 500 ms and 3 s when both are unset.
    pub fn from_env_values(socket_path: String, request_env: Option<&str>, init_env: Option<&str>) -> (r: Self)
        ensures
            r@ == (ClientView {
                socket_path: socket_path@,
                request_timeout: millis_duration(request_timeout_ms_spec(opt_text(request_env))),
                init_timeout: secs_duration(init_timeout_secs_spec(opt_text(init_env))),
            }),
            request_env is None ==> r@.request_timeout == millis_duration(500),
            init_env is None ==> r@.init_timeout == secs_duration(3),
    {
        let (request_ms, init_secs) = client_timeouts(request_env, init_env);
        Client::new(socket_path, duration_from_millis(request_ms), duration_from_secs(init_secs))
    }

    /// A client as [`Client::new`] makes it, with the options applied in
    /// order.
    pub fn new_with_opts(
        socket_path: String,
        request_timeout: Duration,
        init_timeout: Duration,
        opts: Vec<ClientOpt>,
    ) -> (r: Self)
        ensures
            r@ == apply_client_opts(ClientView { socket_path: socket_path@, request_timeout, init_timeout }, opts@),
    {
        let mut client = Client::new(socket_path, request_timeout, init_timeout);
        let ghost start = client@;
        let mut rest = opts;
        let ghost all = rest@;
        let n = rest.len();
        let mut i: usize = 0;
        while rest.len() > 0
            invariant
                rest.len() + i == n,
                all.len() == n,
                forall|j: int| 0 <= j < rest.len() ==> #[trigger] rest@[j] == all[i + j],
                client@ == apply_client_opts(start, all.take(i as int)),
            decreases rest.len(),
        {
            let ghost prev = rest@;
            let opt = rest.remove(0);
            assert forall|j: int| 0 <= j < rest.len() implies #[trigger] rest@[j] == all[i + 1 + j] by {
                assert(rest@[j] == prev[j + 1]);
            }
            assert(all.take(i as int + 1).drop_last() =~= all.take(i as int));
            assert(all.take(i as int + 1).last() == opt);
            opt.apply(&mut client);
            i = i + 1;
        }
        assert(all.take(n as int) =~= all);
        client
    }

    /// The socket path.
    pub fn socket_path(&self) -> (r: &str)
        ensures
            r@ == self@.socket_path,
    {
        self.transport.socket_path()
    }

    /// The request timeout.
    pub fn request_timeout(&self) -> (r: Duration)
        ensures
            r == self@.request_timeout,
    {
        self.transport.request_timeout()
    }

    /// How long to wait for the API after the process starts.
    pub fn init_timeout(&self) -> (r: Duration)
        ensures
            r == self@.init_timeout,
    {
        self.init_timeout
    }

    /// The transport.
    pub fn transport(&self) -> (r: &UnixSocketTransport)
        ensures
            r.spec_socket_path() == self@.socket_path,
            r.spec_request_timeout() == self@.request_timeout,
    {
        &self.transport
    }
}

/// A client that answers every request with success and default values.
#[derive(Debug, Default)]
pub struct NoopClient;

} // verus!
