use firecracker_sdk::kernelargs::KernelArgs;
use firecracker_sdk::machine::kernel_args_with_ip;
use firecracker_sdk::parse_kernel_args;

#[test]
fn parse_and_render_kernel_args_in_key_order() {
    let args = parse_kernel_args("console=ttyS0 reboot=k panic=1 pci=off ro");
    assert_eq!(args.len(), 5);
    assert_eq!(args.get("console"), Some(&Some("ttyS0".to_string())));
    assert_eq!(args.get("ro"), Some(&None));
    assert_eq!(args.get("missing"), None);
    assert_eq!(args.to_string(), "console=ttyS0 panic=1 pci=off reboot=k ro");
}

#[test]
fn later_kernel_arg_replaces_earlier_one() {
    let args = parse_kernel_args("  a=1   b a=2=3\tc=\n");
    assert_eq!(args.get("a"), Some(&Some("2=3".to_string())));
    assert_eq!(args.get("b"), Some(&None));
    assert_eq!(args.get("c"), Some(&Some(String::new())));
    assert_eq!(args.to_string(), "a=2=3 b c=");
}

#[test]
fn kernel_args_render_then_parse_round_trips() {
    let mut args = KernelArgs::new();
    args.insert_value("root".to_string(), "/dev/vda".to_string());
    args.insert_flag("quiet".to_string());
    args.insert_value("init".to_string(), "/sbin/init".to_string());
    let rendered = args.to_string();
    assert_eq!(rendered, "init=/sbin/init quiet root=/dev/vda");
    let back = parse_kernel_args(&rendered);
    assert_eq!(back, args);
}

#[test]
fn kernel_args_insert_get_remove() {
    let mut args = KernelArgs::new();
    assert!(args.is_empty());
    args.insert("ip".to_string(), Some("1".to_string()));
    args.insert("ip".to_string(), Some("2".to_string()));
    assert_eq!(args.len(), 1);
    assert!(args.contains_key("ip"));
    assert_eq!(args.remove("ip"), Some(Some("2".to_string())));
    assert_eq!(args.remove("ip"), None);
    assert!(!args.contains_key("ip"));
}

#[test]
fn kernel_args_from_pairs_keeps_last_value() {
    let args = KernelArgs::from_pairs(vec![
        ("b".to_string(), None),
        ("a".to_string(), Some("x".to_string())),
        ("b".to_string(), Some("y".to_string())),
    ]);
    assert_eq!(args.to_string(), "a=x b=y");
}

#[test]
fn kernel_args_get_the_static_ip_parameter() {
    let line = kernel_args_with_ip("console=ttyS0 panic=1", Some("10.0.0.2::10.0.0.1:255.255.255.0:::off::"));
    assert_eq!(line, "console=ttyS0 ip=10.0.0.2::10.0.0.1:255.255.255.0:::off:: panic=1");
    let line = kernel_args_with_ip("ip=old quiet", None);
    assert_eq!(line, "ip=old quiet");
    let line = kernel_args_with_ip("ip=old quiet", Some("new"));
    assert_eq!(line, "ip=new quiet");
}

#[test]
fn kernel_args_len_counts_distinct_keys() {
    let mut args = KernelArgs::new();
    args.insert_flag("ro".to_string());
    args.insert_value("ro".to_string(), "1".to_string());
    assert_eq!(args.len(), 1);
    args.insert_value("console".to_string(), "ttyS0".to_string());
    args.insert_flag("console".to_string());
    assert_eq!(args.len(), 2);
}
