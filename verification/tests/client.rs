use std::io::ErrorKind;

use qqmusic_lan_sync::models::ConnectionIssueKind;
use qqmusic_lan_sync::network::client::{connection_issue_from_io_error, parse_manual_host};
use qqmusic_lan_sync::network::WS_PORT;

#[test]
fn parses_manual_ip_and_optional_port() {
    let default_port = parse_manual_host("192.168.0.9").unwrap();
    assert_eq!(default_port.address, "192.168.0.9");
    assert_eq!(default_port.port, WS_PORT);

    let custom_port = parse_manual_host("ws://office-pc:18000/ws").unwrap();
    assert_eq!(custom_port.address, "office-pc");
    assert_eq!(custom_port.port, 18_000);
}

#[test]
fn rejects_manual_address_with_unexpected_path() {
    let error = parse_manual_host("192.168.0.9/not-sync").unwrap_err();
    assert!(error.contains("/ws"));
}

#[test]
fn classifies_refused_and_timeout_errors() {
    let refused = std::io::Error::from(ErrorKind::ConnectionRefused);
    assert_eq!(
        connection_issue_from_io_error("192.168.0.9:17636", &refused).kind,
        ConnectionIssueKind::ConnectionRefused
    );
    let timeout = std::io::Error::from(ErrorKind::TimedOut);
    assert_eq!(
        connection_issue_from_io_error("192.168.0.9:17636", &timeout).kind,
        ConnectionIssueKind::ConnectionTimeout
    );
}

use qqmusic_lan_sync::models::{AppRole, ConnectionState, HostInfo, RuntimeStatus};
use qqmusic_lan_sync::network::client::{
    adjust_snapshot_clock, adopt_remote_status, apply_client_event, classify_io_failure,
    clock_offset_from_pong, connection_issue_from_websocket_error, connection_timeout_issue,
    disconnected_issue, discovery_failed_issue, discovery_outcome, discovery_timeout_issue,
    format_endpoint, host_endpoint, protocol_issue, retry_delay_ms, websocket_url, ClientEvent,
    IoErrorKind, IoFailure, WebSocketFailure,
};

fn host(address: &str, port: u16) -> HostInfo {
    HostInfo {
        id: "id".into(),
        name: "name".into(),
        address: address.into(),
        port,
        latency_ms: None,
    }
}

fn failure(kind: IoErrorKind, code: Option<i32>) -> IoFailure {
    IoFailure { kind, os_code: code, detail: "boom".into() }
}

#[test]
fn endpoints_bracket_ipv6_addresses() {
    assert_eq!(format_endpoint("192.168.0.9", 17636), "192.168.0.9:17636");
    assert_eq!(format_endpoint("fe80::1", 80), "[fe80::1]:80");
    assert_eq!(format_endpoint("[::1]", 7), "[::1]:7");
    assert_eq!(host_endpoint(&host("pc", 0)), "pc:0");
    assert_eq!(websocket_url(&host("pc", 18000)), "ws://pc:18000/ws");
}

#[test]
fn manual_host_names_its_endpoint() {
    let host = parse_manual_host("  http://10.0.0.2:9000/  ").unwrap();
    assert_eq!(host.id, "manual:10.0.0.2:9000");
    assert_eq!(host.name, "手动主机 10.0.0.2:9000");
    assert_eq!(host.latency_ms, None);
    let typed_default = parse_manual_host("ws://pc:80").unwrap();
    assert_eq!(typed_default.port, 80);
    assert_eq!(typed_default.id, "manual:pc:80");
    let no_port = parse_manual_host("ws://pc/ws").unwrap();
    assert_eq!(no_port.port, WS_PORT);
}

#[test]
fn manual_host_keeps_a_typed_port_80() {
    let ip = parse_manual_host("192.168.0.9:80").unwrap();
    assert_eq!(ip.address, "192.168.0.9");
    assert_eq!(ip.port, 80);
    assert_eq!(parse_manual_host("http://pc:80/").unwrap().port, 80);
    assert_eq!(parse_manual_host("ws://pc:080/ws").unwrap().port, 80);
    assert_eq!(parse_manual_host("ws://[::1]:80").unwrap().port, 80);
    assert_eq!(parse_manual_host("ws://[::1]").unwrap().port, WS_PORT);
    assert_eq!(parse_manual_host("ws://pc:").unwrap().port, WS_PORT);
}

#[test]
fn manual_host_errors() {
    assert_eq!(
        parse_manual_host("   ").unwrap_err(),
        "请输入主机 IP 地址，例如 192.168.0.9"
    );
    assert_eq!(
        parse_manual_host("ftp://pc").unwrap_err(),
        "主机地址只支持 IP、计算机名或 ws:// 地址"
    );
    assert_eq!(
        parse_manual_host("ws://user@pc").unwrap_err(),
        "主机地址不能包含账号、查询参数或片段"
    );
    assert_eq!(
        parse_manual_host("pc/ws?x=1").unwrap_err(),
        "主机地址不能包含账号、查询参数或片段"
    );
    assert!(parse_manual_host("ws://pc:99999").unwrap_err().starts_with("主机地址格式不正确: "));
    assert!(parse_manual_host("[::1]").is_ok());
}

#[test]
fn io_failures_by_windows_code() {
    let refused = classify_io_failure("h:1", &failure(IoErrorKind::Other, Some(10061)));
    assert_eq!(refused.kind, ConnectionIssueKind::ConnectionRefused);
    assert_eq!(refused.message, "电脑 h:1 可以到达，但同步端口拒绝了连接。");
    assert_eq!(refused.detail.as_deref(), Some("boom"));
    assert_eq!(refused.endpoint.as_deref(), Some("h:1"));
    let unresolved = classify_io_failure("h:1", &failure(IoErrorKind::Other, Some(11001)));
    assert_eq!(unresolved.kind, ConnectionIssueKind::NetworkUnreachable);
    assert_eq!(unresolved.title, "无法解析主机名称");
    let unreachable = classify_io_failure("h:1", &failure(IoErrorKind::HostUnreachable, None));
    assert_eq!(unreachable.title, "找不到主机网络路径");
    let blocked = classify_io_failure("h:1", &failure(IoErrorKind::Other, Some(10013)));
    assert_eq!(blocked.kind, ConnectionIssueKind::FirewallOrSecurity);
    let other = classify_io_failure("h:1", &failure(IoErrorKind::Other, Some(5)));
    assert_eq!(other.kind, ConnectionIssueKind::Other);
    assert_eq!(other.message, "连接 h:1 时发生网络错误。");
    let denied = std::io::Error::from(ErrorKind::PermissionDenied);
    assert_eq!(
        connection_issue_from_io_error("h:1", &denied).kind,
        ConnectionIssueKind::FirewallOrSecurity
    );
}

#[test]
fn websocket_failures() {
    let http = connection_issue_from_websocket_error(
        "h:1",
        &WebSocketFailure::Http { status: "404 Not Found".into(), detail: "d".into() },
    );
    assert_eq!(http.kind, ConnectionIssueKind::ProtocolMismatch);
    assert_eq!(http.message, "h:1 返回了 HTTP 404 Not Found，但没有完成 WebSocket 握手。");
    let protocol =
        connection_issue_from_websocket_error("h:1", &WebSocketFailure::Protocol { detail: "p".into() });
    assert_eq!(protocol.title, "同步协议不兼容");
    let other =
        connection_issue_from_websocket_error("h:1", &WebSocketFailure::Other { detail: "o".into() });
    assert_eq!(other.message, "无法建立到 h:1 的同步连接。");
    let io = connection_issue_from_websocket_error(
        "h:1",
        &WebSocketFailure::Io(failure(IoErrorKind::TimedOut, None)),
    );
    assert_eq!(io.kind, ConnectionIssueKind::ConnectionTimeout);
}

#[test]
fn fixed_diagnoses() {
    let timeout = discovery_timeout_issue();
    assert_eq!(timeout.kind, ConnectionIssueKind::DiscoveryTimeout);
    assert!(timeout.endpoint.is_none());
    let failed = discovery_failed_issue("e".into());
    assert_eq!(failed.detail.as_deref(), Some("e"));
    let connect = connection_timeout_issue("h:1");
    assert_eq!(connect.message, "h:1 在 4 秒内没有响应 TCP 连接。");
    assert!(connect.detail.is_none());
    let protocol = protocol_issue("h:1", "bad".into());
    assert_eq!(protocol.detail.as_deref(), Some("bad"));
    let gone = disconnected_issue("h:1", None);
    assert_eq!(gone.kind, ConnectionIssueKind::Disconnected);
    assert_eq!(gone.message, "h:1 关闭了连接或网络发生了变化。");
}

#[test]
fn clock_offsets_move_observations() {
    assert_eq!(clock_offset_from_pong(1_100, 1_000, 5_000), 3_950);
    assert_eq!(clock_offset_from_pong(900, 1_000, 5_000), 4_000);
    let mut status = RuntimeStatus::initial(None, None);
    status.playback.observed_at_ms = 10_000;
    adjust_snapshot_clock(&mut status, 3_000);
    assert_eq!(status.playback.observed_at_ms, 7_000);
    adjust_snapshot_clock(&mut status, 20_000);
    assert_eq!(status.playback.observed_at_ms, 0);
    adjust_snapshot_clock(&mut status, -5);
    assert_eq!(status.playback.observed_at_ms, 5);
}

#[test]
fn client_events_change_the_status() {
    let mut status = RuntimeStatus::initial(Some("me".into()), None);
    apply_client_event(&mut status, ClientEvent::UsingPreferredHost(host("a", 1)));
    assert_eq!(status.connection, ConnectionState::Connecting);
    assert_eq!(status.hosts.len(), 1);
    apply_client_event(&mut status, ClientEvent::TryingHost("a:1".into()));
    assert_eq!(status.server_address.as_deref(), Some("a:1"));
    apply_client_event(&mut status, ClientEvent::Connected("a:1".into()));
    assert_eq!(status.connection, ConnectionState::Connected);
    apply_client_event(&mut status, ClientEvent::Disconnected(disconnected_issue("a:1", None)));
    assert_eq!(status.connection, ConnectionState::Offline);
    assert!(status.connection_error.is_some());
    apply_client_event(&mut status, ClientEvent::Discovering);
    assert_eq!(status.connection, ConnectionState::Discovering);
    assert!(status.server_address.is_none());
    apply_client_event(&mut status, ClientEvent::DiscoveryFailed(discovery_timeout_issue()));
    assert!(status.hosts.is_empty());
    apply_client_event(&mut status, ClientEvent::NoHostReachable(None));
    assert!(status.connection_error.is_none());
    assert_eq!(status.server_name, "me");
}

#[test]
fn discovery_outcomes_and_delays() {
    assert!(matches!(
        discovery_outcome(Ok(vec![host("a", 1)])),
        ClientEvent::HostsDiscovered(hosts) if hosts.len() == 1
    ));
    assert!(matches!(
        discovery_outcome(Ok(vec![])),
        ClientEvent::DiscoveryFailed(issue) if issue.kind == ConnectionIssueKind::DiscoveryTimeout
    ));
    assert!(matches!(
        discovery_outcome(Err("x".into())),
        ClientEvent::DiscoveryFailed(issue) if issue.kind == ConnectionIssueKind::DiscoveryFailed
    ));
    assert_eq!(retry_delay_ms(true, true), 3000);
    assert_eq!(retry_delay_ms(false, true), 700);
    assert_eq!(retry_delay_ms(false, false), 2000);
}

#[test]
fn remote_status_is_shown_as_a_client() {
    let mut remote = RuntimeStatus::initial(Some("host".into()), Some("10.0.0.2".into()));
    remote.playback.observed_at_ms = 1_000;
    let mut local = RuntimeStatus::initial(Some("me".into()), None);
    local.hosts.push(host("h", 2));
    local.preferred_server_address = Some("h:2".into());
    let shown = adopt_remote_status(remote, local, "h:2".into(), 400);
    assert_eq!(shown.role, AppRole::Client);
    assert_eq!(shown.connection, ConnectionState::Connected);
    assert_eq!(shown.server_name, "host");
    assert_eq!(shown.server_address.as_deref(), Some("h:2"));
    assert_eq!(shown.preferred_server_address.as_deref(), Some("h:2"));
    assert_eq!(shown.hosts.len(), 1);
    assert_eq!(shown.playback.observed_at_ms, 600);
}
