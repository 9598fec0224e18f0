//! Selection of interfaces and addresses out of a CNI result, and the lookup
//! of host network links.

use vstd::prelude::*;

use crate::cni::{iface_views, CniInterface, CniInterfaceView, CniIpConfig, CniResult};
use crate::seqs::lemma_filter_push;
use crate::text::{chars_of, copy_opt_string, parse_i32_chars, parse_i32_spec, str_eq, trim, trim_bounds};

verus! {

/// Interfaces that live in `sandbox`.
pub open spec fn sandbox_is(sandbox: Seq<char>) -> spec_fn(CniInterfaceView) -> bool {
    |i: CniInterfaceView| i.sandbox == sandbox
}

/// Interfaces that live anywhere but in `sandbox`.
pub open spec fn sandbox_is_not(sandbox: Seq<char>) -> spec_fn(CniInterfaceView) -> bool {
    |i: CniInterfaceView| i.sandbox != sandbox
}

/// Interfaces called `name`.
pub open spec fn name_is(name: Seq<char>) -> spec_fn(CniInterfaceView) -> bool {
    |i: CniInterfaceView| i.name == name
}

/// Addresses whose interface index points, within `ifaces`, at the interface
/// `name` in `sandbox`.
pub open spec fn ip_on(ifaces: Seq<CniInterfaceView>, name: Seq<char>, sandbox: Seq<char>) -> spec_fn(
    CniIpConfig,
) -> bool {
    |c: CniIpConfig|
        match c.interface {
            Some(k) => k < ifaces.len() && ifaces[k as int].name == name && ifaces[k as int].sandbox
                == sandbox,
            None => false,
        }
}

proof fn lemma_iface_views_step(s: Seq<CniInterface>, i: int)
    requires
        0 <= i < s.len(),
    ensures
        iface_views(s.take(i + 1)) == iface_views(s.take(i)).push(s[i]@),
{
    assert(iface_views(s.take(i + 1)) =~= iface_views(s.take(i)).push(s[i]@));
}

proof fn lemma_iface_views_push(s: Seq<CniInterface>, a: CniInterface)
    ensures
        iface_views(s.push(a)) == iface_views(s).push(a@),
{
    assert(iface_views(s.push(a)) =~= iface_views(s).push(a@));
}

/// Splits `ifaces` into those that live in `sandbox` and the others, each
/// list in its original order.
pub fn filter_by_sandbox(sandbox: &str, ifaces: &[CniInterface]) -> (r: (
    Vec<CniInterface>,
    Vec<CniInterface>,
))
    ensures
        iface_views(r.0@) == iface_views(ifaces@).filter(sandbox_is(sandbox@)),
        iface_views(r.1@) == iface_views(ifaces@).filter(sandbox_is_not(sandbox@)),
{
    let mut inside: Vec<CniInterface> = Vec::new();
    let mut outside: Vec<CniInterface> = Vec::new();
    let mut i: usize = 0;
    while i < ifaces.len()
        invariant
            i <= ifaces.len(),
            iface_views(inside@) == iface_views(ifaces@.take(i as int)).filter(
                sandbox_is(sandbox@),
            ),
            iface_views(outside@) == iface_views(ifaces@.take(i as int)).filter(
                sandbox_is_not(sandbox@),
            ),
        decreases ifaces.len() - i,
    {
        let d = ifaces[i].duplicate();
        proof {
            let pre = iface_views(ifaces@.take(i as int));
            lemma_iface_views_step(ifaces@, i as int);
            lemma_filter_push(pre, ifaces@[i as int]@, sandbox_is(sandbox@));
            lemma_filter_push(pre, ifaces@[i as int]@, sandbox_is_not(sandbox@));
            lemma_iface_views_push(inside@, d);
            lemma_iface_views_push(outside@, d);
        }
        if str_eq(ifaces[i].sandbox.as_str(), sandbox) {
            inside.push(d);
        } else {
            outside.push(d);
        }
        i = i + 1;
    }
    assert(ifaces@.take(ifaces.len() as int) =~= ifaces@);
    (inside, outside)
}

/// The interfaces of `ifaces` called `name`, in their original order.
pub fn ifaces_with_name(name: &str, ifaces: &[CniInterface]) -> (r: Vec<CniInterface>)
    ensures
        iface_views(r@) == iface_views(ifaces@).filter(name_is(name@)),
{
    let mut found: Vec<CniInterface> = Vec::new();
    let mut i: usize = 0;
    while i < ifaces.len()
        invariant
            i <= ifaces.len(),
            iface_views(found@) == iface_views(ifaces@.take(i as int)).filter(name_is(name@)),
        decreases ifaces.len() - i,
    {
        proof {
            let pre = iface_views(ifaces@.take(i as int));
            lemma_iface_views_step(ifaces@, i as int);
            lemma_filter_push(pre, ifaces@[i as int]@, name_is(name@));
        }
        if str_eq(ifaces[i].name.as_str(), name) {
            let d = ifaces[i].duplicate();
            proof {
                lemma_iface_views_push(found@, d);
            }
            found.push(d);
        }
        i = i + 1;
    }
    assert(ifaces@.take(ifaces.len() as int) =~= ifaces@);
    found
}

/// The addresses of `result` that belong to the interface `iface_name` in
/// `sandbox`, in their original order.
pub fn interface_ips(result: &CniResult, iface_name: &str, sandbox: &str) -> (r: Vec<CniIpConfig>)
    ensures
        r@ == result.ips@.filter(ip_on(iface_views(result.interfaces@), iface_name@, sandbox@)),
{
    let ghost p = ip_on(iface_views(result.interfaces@), iface_name@, sandbox@);
    let mut found: Vec<CniIpConfig> = Vec::new();
    let mut i: usize = 0;
    while i < result.ips.len()
        invariant
            i <= result.ips.len(),
            p == ip_on(iface_views(result.interfaces@), iface_name@, sandbox@),
            found@ == result.ips@.take(i as int).filter(p),
        decreases result.ips.len() - i,
    {
        let c = result.ips[i];
        proof {
            assert(result.ips@.take(i as int + 1) =~= result.ips@.take(i as int).push(c));
            lemma_filter_push(result.ips@.take(i as int), c, p);
        }
        let keep = match c.interface {
            Some(k) => {
                if k < result.interfaces.len() {
                    let iface = &result.interfaces[k];
                    str_eq(iface.name.as_str(), iface_name) && str_eq(
                        iface.sandbox.as_str(),
                        sandbox,
                    )
                } else {
                    false
                }
            },
            None => false,
        };
        assert(keep == p(c));
        if keep {
            found.push(c);
        }
        i = i + 1;
    }
    assert(result.ips@.take(result.ips.len() as int) =~= result.ips@);
    found
}

/// A link that the host could not find.
#[derive(Debug, PartialEq, Eq)]
pub struct LinkNotFoundError {
    pub device: String,
}

impl View for LinkNotFoundError {
    type V = Seq<char>;

    open spec fn view(&self) -> Seq<char> {
        self.device@
    }
}

impl LinkNotFoundError {
    /// A copy of this error.
    pub fn duplicate(&self) -> (r: LinkNotFoundError)
        ensures
            r@ == self@,
    {
        LinkNotFoundError { device: self.device.clone() }
    }
}

impl Clone for LinkNotFoundError {
    fn clone(&self) -> (r: Self)
        ensures
            r@ == self@,
    {
        self.duplicate()
    }
}

/// Why a microVM's interface and its tap could not be told apart.
#[derive(Debug, PartialEq, Eq)]
pub enum CniUtilError {
    MultipleInterfacesInSandbox { sandbox: String, count: usize },
    MultipleInterfacesWithName { name: String, count: usize },
    LinkNotFound(LinkNotFoundError),
}

/// Mathematical value of a [`CniUtilError`].
pub enum CniUtilErrorView {
    MultipleInterfacesInSandbox { sandbox: Seq<char>, count: nat },
    MultipleInterfacesWithName { name: Seq<char>, count: nat },
    LinkNotFound { device: Seq<char> },
}

impl View for CniUtilError {
    type V = CniUtilErrorView;

    open spec fn view(&self) -> CniUtilErrorView {
        match self {
            CniUtilError::MultipleInterfacesInSandbox { sandbox, count } =>
                CniUtilErrorView::MultipleInterfacesInSandbox { sandbox: sandbox@, count: *count as nat },
            CniUtilError::MultipleInterfacesWithName { name, count } =>
                CniUtilErrorView::MultipleInterfacesWithName { name: name@, count: *count as nat },
            CniUtilError::LinkNotFound(e) => CniUtilErrorView::LinkNotFound { device: e@ },
        }
    }
}

impl CniUtilError {
    /// A copy of this error.
    pub fn duplicate(&self) -> (r: CniUtilError)
        ensures
            r@ == self@,
    {
        match self {
            CniUtilError::MultipleInterfacesInSandbox { sandbox, count } =>
                CniUtilError::MultipleInterfacesInSandbox { sandbox: sandbox.clone(), count: *count },
            CniUtilError::MultipleInterfacesWithName { name, count } =>
                CniUtilError::MultipleInterfacesWithName { name: name.clone(), count: *count },
            CniUtilError::LinkNotFound(e) => CniUtilError::LinkNotFound(e.duplicate()),
        }
    }
}

impl Clone for CniUtilError {
    fn clone(&self) -> (r: Self)
        ensures
            r@ == self@,
    {
        self.duplicate()
    }
}

/// The interface of the microVM (the only one in sandbox `vm_id`) and its tap
/// (the only other interface of the same name), or why there is no such
/// pair.
pub open spec fn vm_tap_pair_spec(ifaces: Seq<CniInterfaceView>, vm_id: Seq<char>) -> Result<
    (CniInterfaceView, CniInterfaceView),
    CniUtilErrorView,
> {
    let vm = ifaces.filter(sandbox_is(vm_id));
    let others = ifaces.filter(sandbox_is_not(vm_id));
    if vm.len() > 1 {
        Err(CniUtilErrorView::MultipleInterfacesInSandbox { sandbox: vm_id, count: vm.len() })
    } else if vm.len() == 0 {
        Err(CniUtilErrorView::LinkNotFound { device: "pseudo-device for "@ + vm_id })
    } else {
        let taps = others.filter(name_is(vm[0].name));
        if taps.len() > 1 {
            Err(CniUtilErrorView::MultipleInterfacesWithName { name: vm[0].name, count: taps.len() })
        } else if taps.len() == 0 {
            Err(CniUtilErrorView::LinkNotFound { device: vm[0].name })
        } else {
            Ok((vm[0], taps[0]))
        }
    }
}

/// Mathematical value of the result of [`vm_tap_pair`].
pub open spec fn pair_result_view(r: Result<(CniInterface, CniInterface), CniUtilError>) -> Result<
    (CniInterfaceView, CniInterfaceView),
    CniUtilErrorView,
> {
    match r {
        Ok((a, b)) => Ok((a@, b@)),
        Err(e) => Err(e@),
    }
}

/// Finds the microVM's interface in `result` (the one in sandbox `vm_id`)
/// and its tap on the host (the one interface elsewhere with the same name).
pub fn vm_tap_pair(result: &CniResult, vm_id: &str) -> (r: Result<
    (CniInterface, CniInterface),
    CniUtilError,
>)
    ensures
        pair_result_view(r) == vm_tap_pair_spec(iface_views(result.interfaces@), vm_id@),
{
    let (vm_ifaces, other_ifaces) = filter_by_sandbox(vm_id, result.interfaces.as_slice());
    proof {
        assert(iface_views(vm_ifaces@).len() == vm_ifaces@.len());
    }
    if vm_ifaces.len() > 1 {
        return Err(
            CniUtilError::MultipleInterfacesInSandbox {
                sandbox: vm_id.to_string(),
                count: vm_ifaces.len(),
            },
        );
    }
    if vm_ifaces.len() == 0 {
        let mut device = String::from_str("pseudo-device for ");
        device.append(vm_id);
        return Err(CniUtilError::LinkNotFound(LinkNotFoundError { device }));
    }
    let vm_iface = vm_ifaces[0].duplicate();
    assert(vm_iface@ == iface_views(vm_ifaces@)[0]);
    let tap_ifaces = ifaces_with_name(vm_iface.name.as_str(), other_ifaces.as_slice());
    proof {
        assert(iface_views(tap_ifaces@).len() == tap_ifaces@.len());
    }
    if tap_ifaces.len() > 1 {
        return Err(
            CniUtilError::MultipleInterfacesWithName {
                name: vm_iface.name.clone(),
                count: tap_ifaces.len(),
            },
        );
    }
    if tap_ifaces.len() == 0 {
        return Err(
            CniUtilError::LinkNotFound(LinkNotFoundError { device: vm_iface.name.clone() }),
        );
    }
    let tap_iface = tap_ifaces[0].duplicate();
    assert(tap_iface@ == iface_views(tap_ifaces@)[0]);
    Ok((vm_iface, tap_iface))
}

/// A network link of the host: its name, hardware address and MTU.
#[derive(Debug, PartialEq, Eq)]
pub struct Link {
    pub name: String,
    pub mac_address: Option<String>,
    pub mtu: i32,
}

/// Mathematical value of a [`Link`].
pub struct LinkView {
    pub name: Seq<char>,
    pub mac_address: Option<Seq<char>>,
    pub mtu: i32,
}

impl View for Link {
    type V = LinkView;

    open spec fn view(&self) -> LinkView {
        LinkView { name: self.name@, mac_address: self.mac_address.deep_view(), mtu: self.mtu }
    }
}

impl Link {
    /// A copy of this link.
    pub fn duplicate(&self) -> (r: Link)
        ensures
            r@ == self@,
    {
        Link {
            name: self.name.clone(),
            mac_address: copy_opt_string(&self.mac_address),
            mtu: self.mtu,
        }
    }
}

impl Clone for Link {
    fn clone(&self) -> (r: Self)
        ensures
            r@ == self@,
    {
        self.duplicate()
    }
}

/// Mathematical value of the result of a link lookup.
pub open spec fn link_result_view(r: Result<Link, LinkNotFoundError>) -> Result<LinkView, Seq<char>> {
    match r {
        Ok(l) => Ok(l@),
        Err(e) => Err(e@),
    }
}

/// Lookup of host network links, as the caller's environment provides it.
pub trait NetlinkOps {
    /// The link `name` in the network namespace at `namespace_path`.
    fn get_link(&self, namespace_path: &str, name: &str) -> Result<Link, LinkNotFoundError>;
}

/// The views of a list of links.
pub open spec fn link_views(s: Seq<Link>) -> Seq<LinkView> {
    s.map_values(|l: Link| l@)
}

/// The first link of `links` called `name`.
pub open spec fn first_link_named(links: Seq<LinkView>, name: Seq<char>) -> Option<LinkView>
    decreases links.len(),
{
    if links.len() == 0 {
        None
    } else if links[0].name == name {
        Some(links[0])
    } else {
        first_link_named(links.drop_first(), name)
    }
}

/// What [`MockNetlinkOps`] answers: its preset error if any, else the first
/// of its links with the name asked for.
pub open spec fn mock_lookup(links: Seq<LinkView>, err: Option<Seq<char>>, name: Seq<char>) -> Result<
    LinkView,
    Seq<char>,
> {
    match err {
        Some(e) => Err(e),
        None => match first_link_named(links, name) {
            Some(l) => Ok(l),
            None => Err(name),
        },
    }
}

/// A link lookup over a fixed list of links, for tests.
#[derive(Debug, Clone, Default)]
pub struct MockNetlinkOps {
    pub links: Vec<Link>,
    pub get_link_err: Option<LinkNotFoundError>,
}

/// Mathematical value of an optional error.
pub open spec fn opt_err_view(e: Option<LinkNotFoundError>) -> Option<Seq<char>> {
    match e {
        Some(x) => Some(x@),
        None => None,
    }
}

impl NetlinkOps for MockNetlinkOps {
    fn get_link(&self, namespace_path: &str, name: &str) -> (r: Result<Link, LinkNotFoundError>)
        ensures
            link_result_view(r) == mock_lookup(
                link_views(self.links@),
                opt_err_view(self.get_link_err),
                name@,
            ),
    {
        if let Some(error) = &self.get_link_err {
            return Err(error.duplicate());
        }
        let ghost all = link_views(self.links@);
        assert(all.skip(0) =~= all);
        let mut i: usize = 0;
        while i < self.links.len()
            invariant
                i <= self.links.len(),
                all == link_views(self.links@),
                self.get_link_err is None,
                first_link_named(all, name@) == first_link_named(all.skip(i as int), name@),
            decreases self.links.len() - i,
        {
            assert(all.skip(i as int).drop_first() =~= all.skip(i as int + 1));
            assert(all.skip(i as int)[0] == self.links@[i as int]@);
            if str_eq(self.links[i].name.as_str(), name) {
                let found = self.links[i].duplicate();
                assert(first_link_named(all.skip(i as int), name@) == Some(found@));
                return Ok(found);
            }
            i = i + 1;
        }
        assert(all.skip(i as int).len() == 0);
        Err(LinkNotFoundError { device: name.to_string() })
    }
}

/// The trimmed text of a file, when it could be read and is not blank.
pub open spec fn nonblank(text: Option<Seq<char>>) -> Option<Seq<char>> {
    match text {
        Some(t) => if trim(t).len() > 0 {
            Some(trim(t))
        } else {
            None
        },
        None => None,
    }
}

/// The link `name` as the host's `/sys/class/net/<name>` directory describes
/// it, given the text of its `mtu` and `address` files (`None` where the
/// file could not be read): the link is missing unless the trimmed `mtu`
/// text is an `i32`; the hardware address is the trimmed `address` text
/// unless that is blank.
pub open spec fn sysfs_link_spec(
    name: Seq<char>,
    mtu_text: Option<Seq<char>>,
    address_text: Option<Seq<char>>,
) -> Result<LinkView, Seq<char>> {
    match mtu_text {
        None => Err(name),
        Some(m) => match parse_i32_spec(trim(m)) {
            None => Err(name),
            Some(v) => Ok(LinkView { name: name, mac_address: nonblank(address_text), mtu: v as i32 }),
        },
    }
}

fn trimmed(text: &str) -> (r: String)
    ensures
        r@ == trim(text@),
{
    let c = chars_of(text);
    let (a, b) = trim_bounds(c.as_slice(), 0, c.len());
    assert(text@.subrange(0, text@.len() as int) =~= text@);
    text.substring_char(a, b).to_string()
}

/// The link `name` as described by the text of its `mtu` and `address`
/// files in `/sys/class/net/<name>`.
pub fn link_from_sysfs(name: &str, mtu_text: Option<&str>, address_text: Option<&str>) -> (r: Result<
    Link,
    LinkNotFoundError,
>)
    ensures
        link_result_view(r) == sysfs_link_spec(
            name@,
            match mtu_text {
                Some(t) => Some(t@),
                None => None,
            },
            match address_text {
                Some(t) => Some(t@),
                None => None,
            },
        ),
{
    let m = match mtu_text {
        Some(t) => t,
        None => {
            return Err(LinkNotFoundError { device: name.to_string() });
        },
    };
    let mt = trimmed(m);
    let mc = chars_of(mt.as_str());
    let mtu = match parse_i32_chars(mc.as_slice()) {
        Some(v) => v,
        None => {
            return Err(LinkNotFoundError { device: name.to_string() });
        },
    };
    let mac_address = match address_text {
        Some(t) => {
            let at = trimmed(t);
            if at.as_str().unicode_len() > 0 {
                Some(at)
            } else {
                None
            }
        },
        None => None,
    };
    Ok(Link { name: name.to_string(), mac_address, mtu })
}

/// A link lookup for hosts where none is possible: every link is missing.
#[derive(Debug, Default, Clone, Copy)]
pub struct UnsupportedNetlinkOps;

impl NetlinkOps for UnsupportedNetlinkOps {
    fn get_link(&self, namespace_path: &str, name: &str) -> (r: Result<Link, LinkNotFoundError>)
        ensures
            link_result_view(r) == Err::<LinkView, Seq<char>>(name@),
    {
        Err(LinkNotFoundError { device: name.to_string() })
    }
}

} // verus!
