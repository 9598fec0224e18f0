//! Guest network configuration derived from a CNI result: which tap serves
//! the microVM, the address the guest gets, and the kernel `ip=` parameter
//! that configures it at boot.

use vstd::prelude::*;

use crate::cni::internal::{
    interface_ips, ip_on, vm_tap_pair, vm_tap_pair_spec, CniUtilError, CniUtilErrorView, Link,
    LinkNotFoundError, NetlinkOps,
};
use crate::cni::{iface_views, CniInterface, CniInterfaceView, CniIpConfig, CniResult, CniRoute};
use crate::text::{copy_opt_string, copy_strings, decimal, text_or_empty, u64_to_decimal};

verus! {

/// The octet of `a` that starts `shift` bits from the right.
pub open spec fn octet(a: u32, shift: u32) -> nat {
    ((a >> shift) & 0xffu32) as nat
}

/// Dotted-decimal notation of an IPv4 address, most significant octet first.
pub open spec fn dotted_quad(a: u32) -> Seq<char> {
    decimal(octet(a, 24)) + seq!['.'] + decimal(octet(a, 16)) + seq!['.'] + decimal(octet(a, 8))
        + seq!['.'] + decimal(octet(a, 0))
}

/// Renders an IPv4 address in dotted-decimal notation.
pub fn dotted_quad_string(a: u32) -> (s: String)
    ensures
        s@ == dotted_quad(a),
{
    proof {
        reveal_strlit(".");
    }
    let mut s = u64_to_decimal(((a >> 24u32) & 0xffu32) as u64);
    s.append(".");
    s.append(u64_to_decimal(((a >> 16u32) & 0xffu32) as u64).as_str());
    s.append(".");
    s.append(u64_to_decimal(((a >> 8u32) & 0xffu32) as u64).as_str());
    s.append(".");
    s.append(u64_to_decimal((a & 0xffu32) as u64).as_str());
    assert((a >> 0u32) == a) by (bit_vector);
    s
}

/// The network mask of a prefix of `prefix_len` bits: that many one bits
/// from the left, then zeros.
pub open spec fn netmask_bits(prefix_len: u8) -> u32 {
    if prefix_len == 0 {
        0
    } else {
        0xffff_ffffu32 << ((32 - prefix_len) as u32)
    }
}

/// The mask of the network `addr/prefix_len`.
///
/// Calls `ipnet::Ipv4Net::netmask`, which shifts an all-ones word left by
/// `32 - prefix_len` bits and gives zero when the shift is the full width;
/// the contract claims exactly that.
#[verifier::external_body]
fn ipv4_netmask(addr: u32, prefix_len: u8) -> (mask: u32)
    requires
        prefix_len <= 32,
    ensures
        mask == netmask_bits(prefix_len),
{
    u32::from(ipnet::Ipv4Net::new(addr.into(), prefix_len).unwrap().netmask())
}

/// `s[i]`, or nothing when `s` is shorter.
pub open spec fn nth_or_empty(s: Seq<Seq<char>>, i: int) -> Seq<char> {
    if 0 <= i < s.len() {
        s[i]
    } else {
        Seq::empty()
    }
}

/// The kernel `ip=` parameter for a guest with address configuration `ip`:
/// `client::gateway:netmask::device:off:dns0:dns1:`, or nothing without an
/// address.
pub open spec fn ip_boot_param_spec(
    ip: Option<CniIpConfig>,
    if_name: Option<Seq<char>>,
    nameservers: Seq<Seq<char>>,
) -> Seq<char> {
    match ip {
        None => Seq::empty(),
        Some(c) => dotted_quad(c.address@.addr) + seq![':', ':'] + dotted_quad(c.gateway) + seq![':']
            + dotted_quad(netmask_bits(c.address@.prefix_len)) + seq![':', ':'] + text_or_empty(
            if_name,
        ) + seq![':', 'o', 'f', 'f', ':'] + nth_or_empty(nameservers, 0) + seq![':']
            + nth_or_empty(nameservers, 1) + seq![':'],
    }
}

/// Static network configuration of a guest, as read from a CNI result.
#[derive(Debug, PartialEq, Eq, Default)]
pub struct StaticNetworkConf {
    pub tap_name: String,
    pub netns_path: String,
    pub vm_if_name: Option<String>,
    pub vm_mac_addr: Option<String>,
    pub vm_mtu: i32,
    pub vm_ip_config: Option<CniIpConfig>,
    pub vm_routes: Vec<CniRoute>,
    pub vm_nameservers: Vec<String>,
    pub vm_domain: Option<String>,
    pub vm_search_domains: Vec<String>,
    pub vm_resolver_options: Vec<String>,
}

/// Mathematical value of a [`StaticNetworkConf`].
pub struct StaticNetworkConfView {
    pub tap_name: Seq<char>,
    pub netns_path: Seq<char>,
    pub vm_if_name: Option<Seq<char>>,
    pub vm_mac_addr: Option<Seq<char>>,
    pub vm_mtu: i32,
    pub vm_ip_config: Option<CniIpConfig>,
    pub vm_routes: Seq<CniRoute>,
    pub vm_nameservers: Seq<Seq<char>>,
    pub vm_domain: Option<Seq<char>>,
    pub vm_search_domains: Seq<Seq<char>>,
    pub vm_resolver_options: Seq<Seq<char>>,
}

impl View for StaticNetworkConf {
    type V = StaticNetworkConfView;

    open spec fn view(&self) -> StaticNetworkConfView {
        StaticNetworkConfView {
            tap_name: self.tap_name@,
            netns_path: self.netns_path@,
            vm_if_name: self.vm_if_name.deep_view(),
            vm_mac_addr: self.vm_mac_addr.deep_view(),
            vm_mtu: self.vm_mtu,
            vm_ip_config: self.vm_ip_config,
            vm_routes: self.vm_routes@,
            vm_nameservers: self.vm_nameservers.deep_view(),
            vm_domain: self.vm_domain.deep_view(),
            vm_search_domains: self.vm_search_domains.deep_view(),
            vm_resolver_options: self.vm_resolver_options.deep_view(),
        }
    }
}

impl StaticNetworkConf {
    /// The kernel `ip=` parameter that configures this guest's address at
    /// boot; empty when the guest has no address configuration. The first
    /// two nameservers are passed, missing ones are left empty.
    pub fn ip_boot_param(&self) -> (r: String)
        ensures
            r@ == ip_boot_param_spec(
                self.vm_ip_config,
                self.vm_if_name.deep_view(),
                self.vm_nameservers.deep_view(),
            ),
    {
        proof {
            reveal_strlit("::");
            reveal_strlit(":");
            reveal_strlit(":off:");
        }
        match self.vm_ip_config {
            None => String::new(),
            Some(c) => {
                let mask = ipv4_netmask(c.address.addr(), c.address.prefix_len());
                let mut s = dotted_quad_string(c.address.addr());
                s.append("::");
                s.append(dotted_quad_string(c.gateway).as_str());
                s.append(":");
                s.append(dotted_quad_string(mask).as_str());
                s.append("::");
                match &self.vm_if_name {
                    Some(n) => s.append(n.as_str()),
                    None => {},
                }
                s.append(":off:");
                if self.vm_nameservers.len() > 0 {
                    s.append(self.vm_nameservers[0].as_str());
                }
                s.append(":");
                if self.vm_nameservers.len() > 1 {
                    s.append(self.vm_nameservers[1].as_str());
                }
                s.append(":");
                s
            },
        }
    }
}

/// Why no guest network configuration could be derived.
#[derive(Debug, PartialEq, Eq)]
pub enum VmConfError {
    CniUtil(CniUtilError),
    UnexpectedVmIpCount { iface_name: String, ips: Vec<CniIpConfig> },
    LinkLookup { iface_name: String, netns_path: String, source: LinkNotFoundError },
}

/// Mathematical value of a [`VmConfError`].
pub enum VmConfErrorView {
    CniUtil(CniUtilErrorView),
    UnexpectedVmIpCount { iface_name: Seq<char>, ips: Seq<CniIpConfig> },
    LinkLookup { iface_name: Seq<char>, netns_path: Seq<char>, source: Seq<char> },
}

impl View for VmConfError {
    type V = VmConfErrorView;

    open spec fn view(&self) -> VmConfErrorView {
        match self {
            VmConfError::CniUtil(e) => VmConfErrorView::CniUtil(e@),
            VmConfError::UnexpectedVmIpCount { iface_name, ips } =>
                VmConfErrorView::UnexpectedVmIpCount { iface_name: iface_name@, ips: ips@ },
            VmConfError::LinkLookup { iface_name, netns_path, source } =>
                VmConfErrorView::LinkLookup {
                    iface_name: iface_name@,
                    netns_path: netns_path@,
                    source: source@,
                },
        }
    }
}

/// What a link lookup gives for the MTU: the link's MTU, or an error that
/// names the interface and namespace that were searched.
pub open spec fn mtu_spec(
    iface_name: Seq<char>,
    netns_path: Seq<char>,
    lookup: Result<crate::cni::internal::LinkView, Seq<char>>,
) -> Result<i32, VmConfErrorView> {
    match lookup {
        Ok(l) => Ok(l.mtu),
        Err(e) => Err(
            VmConfErrorView::LinkLookup { iface_name: iface_name, netns_path: netns_path, source: e },
        ),
    }
}

/// Mathematical value of an MTU result.
pub open spec fn mtu_result_view(r: Result<i32, VmConfError>) -> Result<i32, VmConfErrorView> {
    match r {
        Ok(m) => Ok(m),
        Err(e) => Err(e@),
    }
}

/// The MTU of `iface_name` in `netns_path`, given the outcome of looking the
/// link up.
pub fn mtu_from_link(iface_name: &str, netns_path: &str, lookup: Result<Link, LinkNotFoundError>) -> (r:
    Result<i32, VmConfError>)
    ensures
        mtu_result_view(r) == mtu_spec(
            iface_name@,
            netns_path@,
            crate::cni::internal::link_result_view(lookup),
        ),
{
    match lookup {
        Ok(link) => Ok(link.mtu),
        Err(error) => Err(
            VmConfError::LinkLookup {
                iface_name: iface_name.to_string(),
                netns_path: netns_path.to_string(),
                source: error,
            },
        ),
    }
}

/// The MTU of the link `iface_name` in the namespace `netns_path`, looked up
/// through `netlink_ops`: the lookup is asked for exactly that namespace and
/// that name, and its outcome decides the result as [`mtu_spec`] says.
pub fn mtu_of<N: NetlinkOps>(iface_name: &str, netns_path: &str, netlink_ops: &N) -> (r: Result<
    i32,
    VmConfError,
>)
    ensures
        exists|lookup: Result<Link, LinkNotFoundError>|
            call_ensures(N::get_link, (netlink_ops, netns_path, iface_name), lookup)
                && mtu_result_view(r) == mtu_spec(
                iface_name@,
                netns_path@,
                crate::cni::internal::link_result_view(lookup),
            ),
{
    let lookup = netlink_ops.get_link(netns_path, iface_name);
    let r = mtu_from_link(iface_name, netns_path, lookup);
    r
}

/// The microVM's interface, its tap and the guest's single address, or why
/// they cannot be found.
pub open spec fn plan_spec(result: CniResult, container_id: Seq<char>) -> Result<
    (CniInterfaceView, CniInterfaceView, CniIpConfig),
    VmConfErrorView,
> {
    let ifaces = iface_views(result.interfaces@);
    match vm_tap_pair_spec(ifaces, container_id) {
        Err(e) => Err(VmConfErrorView::CniUtil(e)),
        Ok((vm, tap)) => {
            let ips = result.ips@.filter(ip_on(ifaces, vm.name, vm.sandbox));
            if ips.len() != 1 {
                Err(VmConfErrorView::UnexpectedVmIpCount { iface_name: vm.name, ips: ips })
            } else {
                Ok((vm, tap, ips[0]))
            }
        },
    }
}

/// The configuration of a guest whose interface is `vm`, served by the tap
/// `tap` of MTU `mtu`, with address `ip` and the routes and DNS settings of
/// `result`.
pub open spec fn conf_spec(
    result: CniResult,
    vm: CniInterfaceView,
    tap: CniInterfaceView,
    ip: CniIpConfig,
    mtu: i32,
) -> StaticNetworkConfView {
    StaticNetworkConfView {
        tap_name: tap.name,
        netns_path: tap.sandbox,
        vm_if_name: None,
        vm_mac_addr: vm.mac,
        vm_mtu: mtu,
        vm_ip_config: Some(ip),
        vm_routes: result.routes@,
        vm_nameservers: result.dns@.nameservers,
        vm_domain: result.dns@.domain,
        vm_search_domains: result.dns@.search,
        vm_resolver_options: result.dns@.options,
    }
}

/// Mathematical value of a planning result.
pub open spec fn plan_result_view(
    r: Result<(CniInterface, CniInterface, CniIpConfig), VmConfError>,
) -> Result<(CniInterfaceView, CniInterfaceView, CniIpConfig), VmConfErrorView> {
    match r {
        Ok((vm, tap, ip)) => Ok((vm@, tap@, ip)),
        Err(e) => Err(e@),
    }
}

/// Finds the microVM's interface, its tap and the guest's single address in
/// `result`.
pub fn vm_network_plan(result: &CniResult, container_id: &str) -> (r: Result<
    (CniInterface, CniInterface, CniIpConfig),
    VmConfError,
>)
    ensures
        plan_result_view(r) == plan_spec(*result, container_id@),
{
    let (vm_iface, tap_iface) = match vm_tap_pair(result, container_id) {
        Ok(pair) => pair,
        Err(e) => {
            return Err(VmConfError::CniUtil(e));
        },
    };
    let vm_ips = interface_ips(result, vm_iface.name.as_str(), vm_iface.sandbox.as_str());
    if vm_ips.len() != 1 {
        return Err(VmConfError::UnexpectedVmIpCount { iface_name: vm_iface.name, ips: vm_ips });
    }
    let ip = vm_ips[0];
    Ok((vm_iface, tap_iface, ip))
}

fn copy_routes(v: &Vec<CniRoute>) -> (r: Vec<CniRoute>)
    ensures
        r@ == v@,
{
    let mut r: Vec<CniRoute> = Vec::new();
    let mut i: usize = 0;
    while i < v.len()
        invariant
            i <= v.len(),
            r@ == v@.take(i as int),
        decreases v.len() - i,
    {
        assert(v@.take(i as int + 1) =~= v@.take(i as int).push(v@[i as int]));
        r.push(v[i]);
        i = i + 1;
    }
    assert(v@.take(v.len() as int) =~= v@);
    r
}

/// The configuration of a guest whose interface is `vm_iface`, served by the
/// tap `tap_iface` of MTU `tap_mtu`, with address `ip` and the routes and DNS
/// settings of `result`.
pub fn assemble_conf(
    result: &CniResult,
    vm_iface: &CniInterface,
    tap_iface: &CniInterface,
    ip: CniIpConfig,
    tap_mtu: i32,
) -> (r: StaticNetworkConf)
    ensures
        r@ == conf_spec(*result, vm_iface@, tap_iface@, ip, tap_mtu),
{
    StaticNetworkConf {
        tap_name: tap_iface.name.clone(),
        netns_path: tap_iface.sandbox.clone(),
        vm_if_name: None,
        vm_mac_addr: copy_opt_string(&vm_iface.mac),
        vm_mtu: tap_mtu,
        vm_ip_config: Some(ip),
        vm_routes: copy_routes(&result.routes),
        vm_nameservers: copy_strings(&result.dns.nameservers),
        vm_domain: copy_opt_string(&result.dns.domain),
        vm_search_domains: copy_strings(&result.dns.search),
        vm_resolver_options: copy_strings(&result.dns.options),
    }
}

/// Mathematical value of a configuration result.
pub open spec fn conf_result_view(r: Result<StaticNetworkConf, VmConfError>) -> Result<
    StaticNetworkConfView,
    VmConfErrorView,
> {
    match r {
        Ok(c) => Ok(c@),
        Err(e) => Err(e@),
    }
}

/// The configuration of the guest planned as `vm`, `tap` and `ip`, given
/// the outcome of looking the tap up: built with the tap's MTU, or the
/// lookup error naming the tap and its namespace.
pub open spec fn conf_from_lookup_spec(
    result: CniResult,
    vm: CniInterfaceView,
    tap: CniInterfaceView,
    ip: CniIpConfig,
    lookup: Result<crate::cni::internal::LinkView, Seq<char>>,
) -> Result<StaticNetworkConfView, VmConfErrorView> {
    match lookup {
        Ok(l) => Ok(conf_spec(result, vm, tap, ip, l.mtu)),
        Err(m) => Err(VmConfErrorView::LinkLookup { iface_name: tap.name, netns_path: tap.sandbox, source: m }),
    }
}

/// Derives the guest network configuration of the microVM `container_id`
/// from a CNI result, looking up the MTU of its tap through `netlink_ops`.
pub fn static_network_conf_from<N: NetlinkOps>(
    result: &CniResult,
    container_id: &str,
    netlink_ops: &N,
) -> (r: Result<StaticNetworkConf, VmConfError>)
    ensures
        match plan_spec(*result, container_id@) {
            Err(e) => r matches Err(x) && x@ == e,
            Ok((vm, tap, ip)) => exists|ns: &str, name: &str, lookup: Result<Link, LinkNotFoundError>|
                ns@ == tap.sandbox && name@ == tap.name
                    && call_ensures(N::get_link, (netlink_ops, ns, name), lookup)
                    && conf_result_view(r) == conf_from_lookup_spec(
                    *result,
                    vm,
                    tap,
                    ip,
                    crate::cni::internal::link_result_view(lookup),
                ),
        },
{
    let (vm_iface, tap_iface, ip) = vm_network_plan(result, container_id)?;
    let tap_mtu = mtu_of(tap_iface.name.as_str(), tap_iface.sandbox.as_str(), netlink_ops)?;
    Ok(assemble_conf(result, &vm_iface, &tap_iface, ip, tap_mtu))
}

} // verus!
