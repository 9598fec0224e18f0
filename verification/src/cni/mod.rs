//! Results of a CNI plugin run: the interfaces it created, the addresses and
//! routes it assigned, and the DNS settings it reported.

pub mod internal;
pub mod vmconf;

use vstd::prelude::*;

use crate::text::{copy_opt_string, copy_strings};

verus! {

/// An IPv4 address, as the big-endian number `u32::from(Ipv4Addr)` gives.
pub type Ipv4Address = u32;

/// An IPv4 network: an address and a prefix length of at most 32.
#[derive(Debug, Clone, Copy, PartialEq, Eq)]
pub struct Ipv4Net {
    addr: u32,
    prefix_len: u8,
}

/// Mathematical value of an [`Ipv4Net`].
pub struct Ipv4NetView {
    pub addr: u32,
    pub prefix_len: u8,
}

impl View for Ipv4Net {
    type V = Ipv4NetView;

    closed spec fn view(&self) -> Ipv4NetView {
        Ipv4NetView { addr: self.addr, prefix_len: self.prefix_len }
    }
}

impl Ipv4Net {
    #[verifier::type_invariant]
    spec fn prefix_fits(self) -> bool {
        self.prefix_len <= 32
    }

    /// The network of `addr` with `prefix_len` bits of prefix; `None` when
    /// the prefix is longer than 32 bits.
    pub fn new(addr: u32, prefix_len: u8) -> (r: Option<Ipv4Net>)
        ensures
            prefix_len <= 32 <==> r is Some,
            r matches Some(n) ==> n@.addr == addr && n@.prefix_len == prefix_len,
    {
        if prefix_len <= 32 {
            Some(Ipv4Net { addr, prefix_len })
        } else {
            None
        }
    }

    /// The address the network was written with.
    pub fn addr(&self) -> (r: u32)
        ensures
            r == self@.addr,
    {
        self.addr
    }

    /// The length of the prefix, at most 32.
    pub fn prefix_len(&self) -> (r: u8)
        ensures
            r == self@.prefix_len,
            r <= 32,
    {
        proof {
            use_type_invariant(self);
        }
        self.prefix_len
    }
}

/// An interface that a CNI plugin created, and the network namespace
/// (sandbox) it lives in.
#[derive(Debug, PartialEq, Eq, Default)]
pub struct CniInterface {
    pub name: String,
    pub sandbox: String,
    pub mac: Option<String>,
}

/// Mathematical value of a [`CniInterface`].
pub struct CniInterfaceView {
    pub name: Seq<char>,
    pub sandbox: Seq<char>,
    pub mac: Option<Seq<char>>,
}

impl View for CniInterface {
    type V = CniInterfaceView;

    open spec fn view(&self) -> CniInterfaceView {
        CniInterfaceView { name: self.name@, sandbox: self.sandbox@, mac: self.mac.deep_view() }
    }
}

impl CniInterface {
    /// A copy of this interface.
    pub fn duplicate(&self) -> (r: CniInterface)
        ensures
            r@ == self@,
    {
        CniInterface {
            name: self.name.clone(),
            sandbox: self.sandbox.clone(),
            mac: copy_opt_string(&self.mac),
        }
    }
}

impl Clone for CniInterface {
    fn clone(&self) -> (r: Self)
        ensures
            r@ == self@,
    {
        self.duplicate()
    }
}

/// The views of a list of interfaces.
pub open spec fn iface_views(s: Seq<CniInterface>) -> Seq<CniInterfaceView> {
    s.map_values(|i: CniInterface| i@)
}

/// An address that a CNI plugin assigned, the index of its interface in the
/// result's interface list, and its gateway.
#[derive(Debug, Clone, Copy, PartialEq, Eq)]
pub struct CniIpConfig {
    pub interface: Option<usize>,
    pub address: Ipv4Net,
    pub gateway: Ipv4Address,
}

/// A route that a CNI plugin reported.
#[derive(Debug, Clone, Copy, PartialEq, Eq)]
pub struct CniRoute {
    pub dst: Ipv4Net,
    pub gw: Ipv4Address,
}

/// DNS settings that a CNI plugin reported.
#[derive(Debug, PartialEq, Eq, Default)]
pub struct CniDnsConfig {
    pub nameservers: Vec<String>,
    pub domain: Option<String>,
    pub search: Vec<String>,
    pub options: Vec<String>,
}

/// Mathematical value of a [`CniDnsConfig`].
pub struct CniDnsConfigView {
    pub nameservers: Seq<Seq<char>>,
    pub domain: Option<Seq<char>>,
    pub search: Seq<Seq<char>>,
    pub options: Seq<Seq<char>>,
}

impl View for CniDnsConfig {
    type V = CniDnsConfigView;

    open spec fn view(&self) -> CniDnsConfigView {
        CniDnsConfigView {
            nameservers: self.nameservers.deep_view(),
            domain: self.domain.deep_view(),
            search: self.search.deep_view(),
            options: self.options.deep_view(),
        }
    }
}

impl CniDnsConfig {
    /// A copy of these settings.
    pub fn duplicate(&self) -> (r: CniDnsConfig)
        ensures
            r@ == self@,
    {
        CniDnsConfig {
            nameservers: copy_strings(&self.nameservers),
            domain: copy_opt_string(&self.domain),
            search: copy_strings(&self.search),
            options: copy_strings(&self.options),
        }
    }
}

impl Clone for CniDnsConfig {
    fn clone(&self) -> (r: Self)
        ensures
            r@ == self@,
    {
        self.duplicate()
    }
}

/// The whole result of a CNI plugin run.
#[derive(Debug, PartialEq, Eq, Default)]
pub struct CniResult {
    pub interfaces: Vec<CniInterface>,
    pub ips: Vec<CniIpConfig>,
    pub routes: Vec<CniRoute>,
    pub dns: CniDnsConfig,
}

} // verus!
