use firecracker_sdk::path::{path_file_name, path_join, trim_leading_slashes};
use firecracker_sdk::{
    find_first_vendor_id, support_cpu_template, version_to_model, with_stats_polling_intervals,
    BalloonDevice, CpuTemplateMemo, CpuTemplateStep, MMDSVersion, VMCommandBuilder, Vm,
};

#[test]
fn balloon_device_updates() {
    let device = BalloonDevice::new(64, true, vec![with_stats_polling_intervals(5)]);
    let b = device.build();
    assert_eq!(b.amount_mib, Some(64));
    assert_eq!(b.deflate_on_oom, Some(true));
    assert_eq!(b.stats_polling_intervals, 5);
    let b = device.update_amount_mib(128).update_stats_polling_intervals(9).build();
    assert_eq!(b.amount_mib, Some(128));
    assert_eq!(b.deflate_on_oom, Some(true));
    assert_eq!(b.stats_polling_intervals, 9);
}

#[test]
fn vm_command_builder_places_socket_args_first() {
    let cmd = VMCommandBuilder::new()
        .with_bin("fc".to_string())
        .with_args(vec!["--id".to_string(), "a".to_string()])
        .add_args(vec!["--x".to_string()])
        .with_socket_path("/s".to_string())
        .with_stderr_path("/err".to_string())
        .build();
    assert_eq!(cmd.bin, "fc");
    assert_eq!(cmd.args, vec!["--api-sock", "/s", "--id", "a", "--x"]);
    assert_eq!(cmd.argv(), vec!["fc", "--api-sock", "/s", "--id", "a", "--x"]);
    assert_eq!(VMCommandBuilder::new().bin(), "firecracker");
}

#[test]
fn paths_join_and_name() {
    assert_eq!(path_join("/a", "b"), "/a/b");
    assert_eq!(path_join("/a/", "b"), "/a/b");
    assert_eq!(path_join("/a", "/b"), "/b");
    assert_eq!(path_join("", "b"), "b");
    assert_eq!(path_file_name("/a/b.img").as_deref(), Some("b.img"));
    assert_eq!(path_file_name("/a/b/").as_deref(), Some("b"));
    assert_eq!(path_file_name("/a/b/.").as_deref(), Some("b"));
    assert_eq!(path_file_name("/a/.."), None);
    assert_eq!(path_file_name("/"), None);
    assert_eq!(trim_leading_slashes("//run/x"), "run/x");
}

#[test]
fn cpu_vendor_detection() {
    let lines = vec![
        "processor\t: 0".to_string(),
        "vendor_id\t: GenuineIntel".to_string(),
        "vendor_id\t: AuthenticAMD".to_string(),
    ];
    assert_eq!(find_first_vendor_id(&lines).as_deref(), Some("GenuineIntel"));
    assert!(support_cpu_template(&lines));
    let amd = vec!["  vendor_id :  AuthenticAMD ".to_string()];
    assert_eq!(find_first_vendor_id(&amd).as_deref(), Some("AuthenticAMD"));
    assert!(!support_cpu_template(&amd));
    assert!(!support_cpu_template(&vec![]));
}

#[test]
fn vm_states_and_mmds_versions() {
    assert_eq!(Vm::paused().state.as_deref(), Some("Paused"));
    assert_eq!(Vm::resumed().state.as_deref(), Some("Resumed"));
    assert_eq!(version_to_model(MMDSVersion::V1), "V1");
    assert_eq!(version_to_model(MMDSVersion::V2), "V2");
}

#[test]
fn cpu_template_answer_is_read_once() {
    let intel: Vec<String> = vec!["processor\t: 0".to_string(), "vendor_id\t: GenuineIntel".to_string()];
    let amd: Vec<String> = vec!["vendor_id : AuthenticAMD".to_string()];
    let mut memo = CpuTemplateMemo::new();
    assert_eq!(memo.step(false), CpuTemplateStep::Answer(false));
    assert_eq!(memo.step(true), CpuTemplateStep::ReadCpuinfo);
    assert!(memo.answer_from_cpuinfo(&intel));
    assert_eq!(memo.step(true), CpuTemplateStep::Answer(true));
    assert!(!memo.answer_from_cpuinfo(&amd));
    assert_eq!(memo.step(true), CpuTemplateStep::Answer(true));
    assert_eq!(memo.step(false), CpuTemplateStep::Answer(false));
}
