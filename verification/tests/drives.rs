use firecracker_sdk::{
    with_cache_type, with_drive_id, with_io_engine, with_partuuid, with_rate_limiter, with_read_only,
    DrivesBuilder, RateLimiter, TokenBucket, ROOT_DRIVE_NAME,
};

#[test]
fn drives_builder_puts_root_drive_last() {
    let drives = DrivesBuilder::new("/path/to/rootfs".to_string())
        .add_drive("/first/path/drive.img".to_string(), true, vec![])
        .add_drive("/second/path/drive.img".to_string(), false, vec![])
        .build();
    assert_eq!(drives.len(), 3);
    assert_eq!(drives[0].drive_id.as_deref(), Some("0"));
    assert_eq!(drives[0].path_on_host.as_deref(), Some("/first/path/drive.img"));
    assert_eq!(drives[0].is_read_only, Some(true));
    assert_eq!(drives[0].is_root_device, Some(false));
    assert_eq!(drives[1].drive_id.as_deref(), Some("1"));
    assert_eq!(drives[1].is_read_only, Some(false));
    assert_eq!(drives[2].drive_id.as_deref(), Some(ROOT_DRIVE_NAME));
    assert_eq!(drives[2].path_on_host.as_deref(), Some("/path/to/rootfs"));
    assert_eq!(drives[2].is_root_device, Some(true));
    assert_eq!(drives[2].is_read_only, Some(false));
    assert_eq!(drives.iter().filter(|d| d.is_root_device == Some(true)).count(), 1);
}

#[test]
fn drive_options_apply_in_order() {
    let limiter = RateLimiter {
        bandwidth: Some(TokenBucket { size: Some(1024), one_time_burst: None, refill_time: Some(500) }),
        ops: None,
    };
    let drives = DrivesBuilder::new("/root.img".to_string())
        .with_root_drive(
            "/other-root.img".to_string(),
            vec![with_read_only(true), with_partuuid("abcd".to_string())],
        )
        .add_drive(
            "/data.img".to_string(),
            false,
            vec![
                with_drive_id("data".to_string()),
                with_rate_limiter(limiter),
                with_cache_type("Writeback".to_string()),
                with_io_engine("Async".to_string()),
                with_drive_id("data2".to_string()),
            ],
        )
        .build();
    assert_eq!(drives[0].drive_id.as_deref(), Some("data2"));
    assert_eq!(drives[0].rate_limiter, Some(limiter));
    assert_eq!(drives[0].cache_type.as_deref(), Some("Writeback"));
    assert_eq!(drives[0].io_engine.as_deref(), Some("Async"));
    assert_eq!(drives[1].drive_id.as_deref(), Some("root_drive"));
    assert_eq!(drives[1].path_on_host.as_deref(), Some("/other-root.img"));
    assert_eq!(drives[1].is_read_only, Some(true));
    assert_eq!(drives[1].partuuid.as_deref(), Some("abcd"));
}

#[test]
fn many_added_drives_get_distinct_decimal_ids() {
    let mut b = DrivesBuilder::new("/r".to_string());
    for i in 0..12 {
        b = b.add_drive(format!("/d{i}"), false, vec![]);
    }
    let drives = b.build();
    assert_eq!(drives[10].drive_id.as_deref(), Some("10"));
    assert_eq!(drives[11].drive_id.as_deref(), Some("11"));
    assert_eq!(drives[12].drive_id.as_deref(), Some("root_drive"));
}
