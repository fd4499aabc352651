use qqmusic_lan_sync::models::{
    AppRole, ConnectionState, HostInfo, LyricsDocument, LyricsTrack, PlaybackSnapshot,
    PlayerCommand, RuntimeStatus,
};
use qqmusic_lan_sync::network::discovery::DiscoveryRound;
use qqmusic_lan_sync::network::protocol::{ClientMessage, DiscoveryResponse, ServerMessage};
use qqmusic_lan_sync::player::PlayerService;
use qqmusic_lan_sync::runtime::{
    add_peer, answer_client_message, apply_allow_control, lyrics_arrived, player_polled,
    prepare_manual_host, remove_peer, LyricsMonitor,
};

#[test]
fn manual_host_preparation_keeps_status_on_error() {
    let mut status = RuntimeStatus::initial(Some("pc".to_string()), None);
    let error = prepare_manual_host(&mut status, "ftp://pc").unwrap_err();
    assert_eq!(error, "主机地址只支持 IP、计算机名或 ws:// 地址");
    assert_eq!(status.role, AppRole::Host);
    assert_eq!(status.connection, ConnectionState::Idle);
    let host = prepare_manual_host(&mut status, "192.168.0.9:18000").unwrap();
    assert_eq!(host.port, 18000);
    assert_eq!(status.role, AppRole::Client);
    assert_eq!(status.connection, ConnectionState::Discovering);
    assert_eq!(status.hosts, vec![host]);
    assert_eq!(status.preferred_server_address.as_deref(), Some("192.168.0.9:18000"));
    assert_eq!(status.server_address.as_deref(), Some("192.168.0.9:18000"));
}

#[test]
fn poll_steps_sequence_and_clear_lyrics_on_track_change() {
    let mut status = RuntimeStatus::initial(None, None);
    let mut monitor = LyricsMonitor::new(0);
    let mut reading = PlaybackSnapshot::blank_with_error("x".to_string());
    reading.track_key = Some("a".to_string());
    assert!(player_polled(&mut status, &mut monitor, reading.clone(), 5));
    assert_eq!(status.playback.sequence, 1);
    assert!(monitor.wants_lyrics(5));
    let document = LyricsDocument {
        track_key: "a".to_string(),
        source: "s".to_string(),
        offset_ms: 0,
        original: LyricsTrack { lines: vec![] },
        translation: None,
        romanization: None,
    };
    lyrics_arrived(&mut status, &mut monitor, document.clone());
    assert_eq!(status.lyrics, Some(document.clone()));
    assert!(!monitor.wants_lyrics(100));
    assert!(!player_polled(&mut status, &mut monitor, reading.clone(), 6));
    assert_eq!(status.playback.sequence, 2);
    assert_eq!(status.lyrics, Some(document));
    reading.track_key = Some("b".to_string());
    assert!(player_polled(&mut status, &mut monitor, reading, 7));
    assert_eq!(status.playback.sequence, 3);
    assert_eq!(status.lyrics, None);
    assert_eq!(monitor.active_track.as_deref(), Some("b"));
}

#[test]
fn host_answers_client_messages() {
    let player = PlayerService::default();
    let mut status = RuntimeStatus::initial(None, None);
    add_peer(&mut status, "p1".to_string(), "10.0.0.3".to_string(), 9);
    let hello = ClientMessage::Hello { client_name: "laptop".to_string() };
    assert!(answer_client_message(&mut status, "p1", &player, hello, 1).is_none());
    assert_eq!(status.peers[0].name, "laptop");
    match answer_client_message(&mut status, "p1", &player, ClientMessage::Ping { client_time_ms: 4 }, 10) {
        Some(ServerMessage::Pong { client_time_ms, server_time_ms }) => {
            assert_eq!((client_time_ms, server_time_ms), (4, 10));
        }
        other => panic!("unexpected {other:?}"),
    }
    let command = ClientMessage::Command { request_id: "r1".to_string(), command: PlayerCommand::Next };
    match answer_client_message(&mut status, "p1", &player, command, 1) {
        Some(ServerMessage::CommandResult { request_id, accepted, error }) => {
            assert_eq!(request_id, "r1");
            assert!(!accepted);
            assert_eq!(error.as_deref(), Some("播放器控制当前仅支持 Windows"));
        }
        other => panic!("unexpected {other:?}"),
    }
    apply_allow_control(&mut status, false);
    let command = ClientMessage::Command { request_id: "r2".to_string(), command: PlayerCommand::Next };
    match answer_client_message(&mut status, "p1", &player, command, 1) {
        Some(ServerMessage::CommandResult { error, .. }) => {
            assert_eq!(error.as_deref(), Some("主机已关闭客户端控制权限"));
        }
        other => panic!("unexpected {other:?}"),
    }
    remove_peer(&mut status, "p1");
    assert!(status.peers.is_empty());
}

fn response(version: u16, id: &str) -> DiscoveryResponse {
    DiscoveryResponse {
        protocol_version: version,
        host: HostInfo {
            id: id.to_string(),
            name: "host".to_string(),
            address: "10.0.0.1".to_string(),
            port: 17636,
            latency_ms: None,
        },
    }
}

#[test]
fn discovery_round_keeps_first_answer_per_host() {
    let mut round = DiscoveryRound::new();
    round.broadcast_failed("255.255.255.255:17635: denied".to_string());
    round.broadcast_sent();
    round.response_received(response(1, "a"), 12);
    round.response_received(response(2, "b"), 13);
    round.response_received(response(1, "a"), 40);
    round.response_received(response(1, "c"), 50);
    let hosts = round.finish().unwrap();
    let ids: Vec<&str> = hosts.iter().map(|h| h.id.as_str()).collect();
    assert_eq!(ids, vec!["a", "c"]);
    assert_eq!(hosts[0].latency_ms, Some(12));
    assert_eq!(hosts[1].latency_ms, Some(50));
}

#[test]
fn discovery_round_fails_when_nothing_was_sent() {
    let mut round = DiscoveryRound::new();
    assert_eq!(round_error(DiscoveryRound::new()), "所有局域网广播发送均失败");
    round.broadcast_failed("10.0.0.255:17635: unreachable".to_string());
    assert_eq!(round_error(round), "所有局域网广播发送均失败: 10.0.0.255:17635: unreachable");
}

fn round_error(round: DiscoveryRound) -> String {
    round.finish().unwrap_err()
}
