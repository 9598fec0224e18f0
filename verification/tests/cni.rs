use firecracker_sdk::cni::internal::link_from_sysfs;
use firecracker_sdk::{
    filter_by_sandbox, ifaces_with_name, interface_ips, mtu_of, static_network_conf_from,
    vm_tap_pair, CniDnsConfig, CniInterface, CniIpConfig, CniResult, CniRoute, CniUtilError, Ipv4Net,
    Link, LinkNotFoundError, MockNetlinkOps, NetlinkOps, StaticNetworkConf, UnsupportedNetlinkOps,
    VmConfError,
};

fn iface(name: &str, sandbox: &str) -> CniInterface {
    CniInterface { name: name.to_string(), sandbox: sandbox.to_string(), mac: None }
}

fn addr(a: u8, b: u8, c: u8, d: u8) -> u32 {
    u32::from_be_bytes([a, b, c, d])
}

fn sample_result() -> CniResult {
    CniResult {
        interfaces: vec![
            CniInterface { name: "eth0".to_string(), sandbox: "vm1".to_string(), mac: Some("aa:bb".to_string()) },
            iface("eth0", "/var/run/netns/vm1"),
            iface("lo", "/var/run/netns/vm1"),
        ],
        ips: vec![
            CniIpConfig {
                interface: Some(0),
                address: Ipv4Net::new(addr(10, 0, 0, 2), 24).unwrap(),
                gateway: addr(10, 0, 0, 1),
            },
            CniIpConfig {
                interface: Some(7),
                address: Ipv4Net::new(addr(10, 9, 9, 9), 8).unwrap(),
                gateway: addr(10, 0, 0, 1),
            },
            CniIpConfig { interface: None, address: Ipv4Net::new(0, 0).unwrap(), gateway: 0 },
        ],
        routes: vec![CniRoute { dst: Ipv4Net::new(0, 0).unwrap(), gw: addr(10, 0, 0, 1) }],
        dns: CniDnsConfig {
            nameservers: vec!["1.1.1.1".to_string(), "8.8.8.8".to_string(), "9.9.9.9".to_string()],
            domain: Some("example.com".to_string()),
            search: vec!["corp".to_string()],
            options: vec![],
        },
    }
}

#[test]
fn ipv4_net_rejects_long_prefix() {
    assert!(Ipv4Net::new(0, 33).is_none());
    let net = Ipv4Net::new(7, 32).unwrap();
    assert_eq!(net.addr(), 7);
    assert_eq!(net.prefix_len(), 32);
}

#[test]
fn filter_by_sandbox_partitions_in_order() {
    let ifaces = vec![iface("a", "x"), iface("b", "y"), iface("c", "x")];
    let (inside, outside) = filter_by_sandbox("x", &ifaces);
    assert_eq!(inside, vec![iface("a", "x"), iface("c", "x")]);
    assert_eq!(outside, vec![iface("b", "y")]);
    assert_eq!(ifaces_with_name("b", &ifaces), vec![iface("b", "y")]);
    assert!(ifaces_with_name("zz", &ifaces).is_empty());
}

#[test]
fn interface_ips_follow_the_interface_index() {
    let result = sample_result();
    let ips = interface_ips(&result, "eth0", "vm1");
    assert_eq!(ips.len(), 1);
    assert_eq!(ips[0].interface, Some(0));
    assert!(interface_ips(&result, "eth0", "other").is_empty());
}

#[test]
fn vm_tap_pair_finds_vm_interface_and_tap() {
    let result = sample_result();
    let (vm, tap) = vm_tap_pair(&result, "vm1").unwrap();
    assert_eq!(vm.sandbox, "vm1");
    assert_eq!(tap.name, "eth0");
    assert_eq!(tap.sandbox, "/var/run/netns/vm1");
}

#[test]
fn vm_tap_pair_reports_each_error() {
    let result = sample_result();
    assert_eq!(
        vm_tap_pair(&result, "nope"),
        Err(CniUtilError::LinkNotFound(LinkNotFoundError { device: "pseudo-device for nope".to_string() })),
    );
    let two = CniResult { interfaces: vec![iface("a", "s"), iface("b", "s")], ..CniResult::default() };
    assert_eq!(
        vm_tap_pair(&two, "s"),
        Err(CniUtilError::MultipleInterfacesInSandbox { sandbox: "s".to_string(), count: 2 }),
    );
    let two_taps = CniResult {
        interfaces: vec![iface("a", "s"), iface("a", "t"), iface("a", "u")],
        ..CniResult::default()
    };
    assert_eq!(
        vm_tap_pair(&two_taps, "s"),
        Err(CniUtilError::MultipleInterfacesWithName { name: "a".to_string(), count: 2 }),
    );
    let no_tap = CniResult { interfaces: vec![iface("a", "s")], ..CniResult::default() };
    assert_eq!(
        vm_tap_pair(&no_tap, "s"),
        Err(CniUtilError::LinkNotFound(LinkNotFoundError { device: "a".to_string() })),
    );
}

#[test]
fn mock_and_unsupported_netlink_lookups() {
    let mock = MockNetlinkOps {
        links: vec![
            Link { name: "eth0".to_string(), mac_address: None, mtu: 1500 },
            Link { name: "eth0".to_string(), mac_address: None, mtu: 9000 },
        ],
        get_link_err: None,
    };
    assert_eq!(mock.get_link("/ns", "eth0").unwrap().mtu, 1500);
    assert_eq!(mock.get_link("/ns", "eth1"), Err(LinkNotFoundError { device: "eth1".to_string() }));
    let failing = MockNetlinkOps { links: vec![], get_link_err: Some(LinkNotFoundError { device: "x".to_string() }) };
    assert_eq!(failing.get_link("/ns", "eth0"), Err(LinkNotFoundError { device: "x".to_string() }));
    assert_eq!(
        UnsupportedNetlinkOps.get_link("/ns", "eth0"),
        Err(LinkNotFoundError { device: "eth0".to_string() }),
    );
}

#[test]
fn mtu_of_reports_lookup_failure() {
    assert_eq!(
        mtu_of("tap0", "/ns", &UnsupportedNetlinkOps),
        Err(VmConfError::LinkLookup {
            iface_name: "tap0".to_string(),
            netns_path: "/ns".to_string(),
            source: LinkNotFoundError { device: "tap0".to_string() },
        }),
    );
}

#[test]
fn static_network_conf_from_cni_result() {
    let result = sample_result();
    let ops = MockNetlinkOps {
        links: vec![Link { name: "eth0".to_string(), mac_address: None, mtu: 1400 }],
        get_link_err: None,
    };
    let conf = static_network_conf_from(&result, "vm1", &ops).unwrap();
    assert_eq!(conf.tap_name, "eth0");
    assert_eq!(conf.netns_path, "/var/run/netns/vm1");
    assert_eq!(conf.vm_mac_addr.as_deref(), Some("aa:bb"));
    assert_eq!(conf.vm_mtu, 1400);
    assert_eq!(conf.vm_ip_config, Some(result.ips[0]));
    assert_eq!(conf.vm_routes, result.routes);
    assert_eq!(conf.vm_domain.as_deref(), Some("example.com"));
    assert_eq!(conf.vm_if_name, None);
    assert_eq!(
        conf.ip_boot_param(),
        "10.0.0.2::10.0.0.1:255.255.255.0:::off:1.1.1.1:8.8.8.8:",
    );
}

#[test]
fn static_network_conf_needs_exactly_one_ip() {
    let mut result = sample_result();
    result.ips.push(result.ips[0]);
    let err = static_network_conf_from(&result, "vm1", &UnsupportedNetlinkOps).unwrap_err();
    match err {
        VmConfError::UnexpectedVmIpCount { iface_name, ips } => {
            assert_eq!(iface_name, "eth0");
            assert_eq!(ips.len(), 2);
        }
        other => panic!("unexpected error {other:?}"),
    }
}

#[test]
fn ip_boot_param_formats_masks_and_names() {
    let mut conf = StaticNetworkConf::default();
    assert_eq!(conf.ip_boot_param(), "");
    conf.vm_ip_config = Some(CniIpConfig {
        interface: None,
        address: Ipv4Net::new(addr(192, 168, 1, 10), 20).unwrap(),
        gateway: addr(192, 168, 0, 1),
    });
    conf.vm_if_name = Some("eth0".to_string());
    assert_eq!(conf.ip_boot_param(), "192.168.1.10::192.168.0.1:255.255.240.0::eth0:off:::");
    conf.vm_ip_config = Some(CniIpConfig {
        interface: None,
        address: Ipv4Net::new(addr(1, 2, 3, 4), 0).unwrap(),
        gateway: 0,
    });
    conf.vm_nameservers = vec!["9.9.9.9".to_string()];
    assert_eq!(conf.ip_boot_param(), "1.2.3.4::0.0.0.0:0.0.0.0::eth0:off:9.9.9.9::");
    conf.vm_ip_config = Some(CniIpConfig {
        interface: None,
        address: Ipv4Net::new(addr(255, 255, 255, 255), 32).unwrap(),
        gateway: 0,
    });
    conf.vm_if_name = None;
    conf.vm_nameservers = vec![];
    assert_eq!(conf.ip_boot_param(), "255.255.255.255::0.0.0.0:255.255.255.255:::off:::");
}

#[test]
fn sysfs_link_parsing() {
    let link = link_from_sysfs("eth0", Some(" 1500\n"), Some("aa:bb:cc\n")).unwrap();
    assert_eq!(link, Link { name: "eth0".to_string(), mac_address: Some("aa:bb:cc".to_string()), mtu: 1500 });
    let link = link_from_sysfs("eth0", Some("-7"), Some("  \n")).unwrap();
    assert_eq!(link.mtu, -7);
    assert_eq!(link.mac_address, None);
    assert_eq!(link_from_sysfs("eth0", Some("+9000"), None).unwrap().mtu, 9000);
    assert!(link_from_sysfs("eth0", Some("2147483648"), None).is_err());
    assert_eq!(link_from_sysfs("eth0", Some("-2147483648"), None).unwrap().mtu, i32::MIN);
    assert!(link_from_sysfs("eth0", Some("-+1"), None).is_err());
    assert!(link_from_sysfs("eth0", Some(""), None).is_err());
    assert_eq!(
        link_from_sysfs("eth0", None, Some("aa")),
        Err(LinkNotFoundError { device: "eth0".to_string() }),
    );
}
