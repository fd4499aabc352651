use qqmusic_lan_sync::network::discovery::directed_broadcast;

#[test]
fn calculates_directed_broadcast_from_subnet_mask() {
    assert_eq!(
        directed_broadcast(
            u32::from_be_bytes([192, 168, 0, 9]),
            u32::from_be_bytes([255, 255, 255, 0])
        ),
        u32::from_be_bytes([192, 168, 0, 255])
    );
    assert_eq!(
        directed_broadcast(
            u32::from_be_bytes([10, 12, 35, 9]),
            u32::from_be_bytes([255, 255, 240, 0])
        ),
        u32::from_be_bytes([10, 12, 47, 255])
    );
}

use qqmusic_lan_sync::models::HostInfo;
use qqmusic_lan_sync::network::discovery::{
    add_discovered_host, all_sends_failed_message, broadcast_targets, discovery_response,
    is_usable_ipv4, InterfaceV4,
};
use qqmusic_lan_sync::network::protocol::{DiscoveryRequest, PROTOCOL_VERSION};

fn ip(a: u8, b: u8, c: u8, d: u8) -> u32 {
    u32::from_be_bytes([a, b, c, d])
}

#[test]
fn usable_interface_addresses() {
    assert!(is_usable_ipv4(ip(192, 168, 0, 9)));
    assert!(!is_usable_ipv4(ip(127, 0, 0, 1)));
    assert!(!is_usable_ipv4(0));
    assert!(!is_usable_ipv4(ip(224, 0, 0, 251)));
    assert!(!is_usable_ipv4(ip(169, 254, 3, 4)));
    assert!(is_usable_ipv4(ip(169, 253, 3, 4)));
}

#[test]
fn broadcast_targets_are_sorted_and_distinct() {
    let interfaces = vec![
        InterfaceV4 { ip: ip(192, 168, 0, 9), netmask: ip(255, 255, 255, 0), broadcast: None },
        InterfaceV4 { ip: ip(127, 0, 0, 1), netmask: ip(255, 0, 0, 0), broadcast: None },
        InterfaceV4 {
            ip: ip(10, 0, 0, 2),
            netmask: ip(255, 0, 0, 0),
            broadcast: Some(ip(10, 255, 255, 255)),
        },
        InterfaceV4 { ip: ip(192, 168, 0, 20), netmask: ip(255, 255, 255, 0), broadcast: None },
    ];
    assert_eq!(
        broadcast_targets(&interfaces),
        vec![ip(10, 255, 255, 255), ip(192, 168, 0, 255), ip(255, 255, 255, 255)]
    );
    assert_eq!(broadcast_targets(&Vec::new()), vec![u32::MAX]);
}

#[test]
fn discovered_hosts_are_kept_once() {
    let mut hosts = Vec::new();
    let make = |id: &str, address: &str| HostInfo {
        id: id.into(),
        name: "n".into(),
        address: address.into(),
        port: 1,
        latency_ms: Some(3),
    };
    add_discovered_host(&mut hosts, make("a", "1"));
    add_discovered_host(&mut hosts, make("b", "2"));
    add_discovered_host(&mut hosts, make("a", "3"));
    assert_eq!(hosts.len(), 2);
    assert_eq!(hosts[0].address, "1");
}

#[test]
fn discovery_messages() {
    assert_eq!(all_sends_failed_message(None), "所有局域网广播发送均失败");
    assert_eq!(
        all_sends_failed_message(Some("x:1: nope".into())),
        "所有局域网广播发送均失败: x:1: nope"
    );
    let response = discovery_response("id".into(), "pc".into(), "10.0.0.2".into());
    assert_eq!(response.protocol_version, PROTOCOL_VERSION);
    assert_eq!(response.host.port, 17636);
    assert!(response.is_compatible());
    let request = DiscoveryRequest { protocol_version: 2, client_name: "c".into() };
    assert!(!request.is_compatible());
}
