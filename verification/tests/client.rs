use std::time::Duration;

use firecracker_sdk::{
    client_timeouts, with_init_timeout, with_read_timeout, with_request_timeout, with_unix_socket_transport,
    with_write_timeout, without_read_timeout, without_write_timeout, ApiCall, Client,
    RequestOptions, UnixSocketTransport,
};

#[test]
fn request_options_override_and_disable_timeouts_independently() {
    let options = RequestOptions::from_opts(vec![
        without_read_timeout(),
        with_write_timeout(Duration::from_millis(75)),
    ]);
    assert_eq!(
        (None, Some(Duration::from_millis(75))),
        options.resolve(Some(Duration::from_secs(1)), Some(Duration::from_secs(2))),
    );

    let options = RequestOptions::from_opts(vec![
        with_read_timeout(Duration::from_millis(125)),
        without_write_timeout(),
    ]);
    assert_eq!(
        (Some(Duration::from_millis(125)), None),
        options.resolve(Some(Duration::from_secs(1)), Some(Duration::from_secs(2))),
    );
}

#[test]
fn request_options_last_override_of_each_kind_wins() {
    let options = RequestOptions::from_opts(vec![
        with_read_timeout(Duration::from_millis(10)),
        with_write_timeout(Duration::from_millis(20)),
        without_read_timeout(),
        with_read_timeout(Duration::from_millis(30)),
    ]);
    assert_eq!(
        (Some(Duration::from_millis(30)), Some(Duration::from_millis(20))),
        options.resolve(None, None),
    );
}

#[test]
fn request_options_without_overrides_keep_defaults() {
    let options = RequestOptions::from_opts(vec![]);
    assert_eq!(
        (Some(Duration::from_secs(1)), None),
        options.resolve(Some(Duration::from_secs(1)), None),
    );
}

#[test]
fn client_options_apply_in_order() {
    let client = Client::new_with_opts(
        "/tmp/a.sock".to_string(),
        Duration::from_millis(500),
        Duration::from_secs(3),
        vec![
            with_request_timeout(Duration::from_millis(900)),
            with_init_timeout(Duration::from_secs(7)),
        ],
    );
    assert_eq!(client.socket_path(), "/tmp/a.sock");
    assert_eq!(client.request_timeout(), Duration::from_millis(900));
    assert_eq!(client.init_timeout(), Duration::from_secs(7));

    let transport = UnixSocketTransport::new("/tmp/b.sock".to_string(), Duration::from_millis(42));
    let client = Client::new_with_opts(
        "/tmp/a.sock".to_string(),
        Duration::from_millis(500),
        Duration::from_secs(3),
        vec![with_unix_socket_transport(transport)],
    );
    assert_eq!(client.socket_path(), "/tmp/b.sock");
    assert_eq!(client.request_timeout(), Duration::from_millis(42));
    assert_eq!(client.init_timeout(), Duration::from_secs(3));
}

#[test]
fn api_calls_route_to_method_and_path() {
    assert_eq!(ApiCall::GetFirecrackerVersion.method(), "GET");
    assert_eq!(ApiCall::GetFirecrackerVersion.path(), "/version");
    assert_eq!(ApiCall::PutGuestDrive("rootfs").method(), "PUT");
    assert_eq!(ApiCall::PutGuestDrive("rootfs").path(), "/drives/rootfs");
    assert_eq!(ApiCall::PatchGuestNetworkInterface("1").method(), "PATCH");
    assert_eq!(ApiCall::PatchGuestNetworkInterface("1").path(), "/network-interfaces/1");
    assert_eq!(ApiCall::CreateSnapshot.path(), "/snapshot/create");
    assert_eq!(ApiCall::DescribeInstance.path(), "/");
    assert_eq!(ApiCall::PatchBalloonStatsInterval.path(), "/balloon/statistics");
    assert_eq!(ApiCall::GetExportVmConfig.path(), "/vm/config");
}

#[test]
fn api_call_timeouts_follow_each_call() {
    let rt = Duration::from_millis(500);
    let none = RequestOptions::from_opts(vec![]);
    assert_eq!(ApiCall::PutLogger.timeouts(rt, none), (Some(rt), Some(rt)));
    assert_eq!(
        ApiCall::PutGuestDrive("1").timeouts(rt, none),
        (Some(Duration::from_millis(250)), Some(Duration::from_millis(250))),
    );
    assert_eq!(ApiCall::LoadSnapshot.timeouts(rt, none), (None, Some(rt)));
    let opts = RequestOptions::from_opts(vec![with_read_timeout(Duration::from_secs(9))]);
    assert_eq!(
        ApiCall::CreateSnapshot.timeouts(rt, opts),
        (Some(Duration::from_secs(9)), Some(rt)),
    );
}

#[test]
fn client_timeouts_default_to_half_a_second_and_three_seconds() {
    let c = Client::from_env_values("/tmp/fc.sock".to_string(), None, None);
    assert_eq!(c.socket_path(), "/tmp/fc.sock");
    assert_eq!(c.request_timeout(), Duration::from_millis(500));
    assert_eq!(c.init_timeout(), Duration::from_secs(3));
    assert_eq!(client_timeouts(None, None), (500, 3));
    assert_eq!(client_timeouts(Some("1500"), Some("10")), (1500, 10));
    assert_eq!(client_timeouts(Some("soon"), Some(" 7")), (500, 3));
    assert_eq!(client_timeouts(Some("-1"), None), (u64::MAX, 3));
    let c = Client::from_env_values("/s".to_string(), Some("250"), Some("1"));
    assert_eq!(c.request_timeout(), Duration::from_millis(250));
    assert_eq!(c.init_timeout(), Duration::from_secs(1));
}
