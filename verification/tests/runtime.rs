use qqmusic_lan_sync::models::{
    now_ms, AppRole, ConnectionIssue, ConnectionIssueKind, ConnectionState, HostInfo,
    PlaybackSnapshot, RuntimeStatus,
};
use qqmusic_lan_sync::network::protocol::{command_result_message, ServerMessage};
use qqmusic_lan_sync::runtime::{
    add_peer, apply_allow_control, client_failure_issue, command_refusal, host_failure_issue,
    host_started, is_position_visible, lyrics_key, mark_offline, record_playback, remove_peer,
    rename_peer, reset_for_role, set_lyrics, LyricsMonitor, ScreenArea,
};

#[test]
fn initial_status_of_a_host() {
    let status = RuntimeStatus::initial(None, Some("10.0.0.2".into()));
    assert_eq!(status.role, AppRole::Host);
    assert_eq!(status.connection, ConnectionState::Idle);
    assert_eq!(status.server_name, "Windows 播放电脑");
    assert_eq!(status.server_address.as_deref(), Some("10.0.0.2:17636"));
    assert!(status.allow_control);
    assert_eq!(status.playback.error.as_deref(), Some("等待 QQ 音乐媒体会话"));
    assert_eq!(PlaybackSnapshot::default().sequence, 0);
}

#[test]
fn connection_issue_is_stamped() {
    let before = now_ms();
    let issue = ConnectionIssue::new(
        ConnectionIssueKind::Other,
        "t".into(),
        "m".into(),
        "s".into(),
        None,
        Some("e".into()),
    );
    assert!(issue.occurred_at_ms >= before);
    assert!(before > 1_600_000_000_000);
    assert_eq!(issue.title, "t");
}

#[test]
fn switching_roles_resets_the_status() {
    let mut status = RuntimeStatus::initial(Some("me".into()), None);
    add_peer(&mut status, "p".into(), "10.0.0.3".into(), 5);
    mark_offline(&mut status, host_failure_issue("bind".into(), None));
    let preferred = HostInfo {
        id: "manual:h:1".into(),
        name: "n".into(),
        address: "h".into(),
        port: 1,
        latency_ms: None,
    };
    reset_for_role(&mut status, AppRole::Client, Some(preferred));
    assert_eq!(status.role, AppRole::Client);
    assert_eq!(status.connection, ConnectionState::Discovering);
    assert!(status.connection_error.is_none());
    assert!(status.peers.is_empty());
    assert_eq!(status.hosts.len(), 1);
    assert_eq!(status.preferred_server_address.as_deref(), Some("h:1"));
    assert_eq!(status.server_address.as_deref(), Some("h:1"));
    reset_for_role(&mut status, AppRole::Host, None);
    assert_eq!(status.connection, ConnectionState::Connecting);
    assert!(status.hosts.is_empty());
    assert!(status.server_address.is_none());
}

#[test]
fn peers_follow_the_control_permission() {
    let mut status = RuntimeStatus::initial(None, None);
    add_peer(&mut status, "a".into(), "1".into(), 1);
    apply_allow_control(&mut status, false);
    add_peer(&mut status, "b".into(), "2".into(), 2);
    assert!(status.peers.iter().all(|peer| !peer.can_control));
    apply_allow_control(&mut status, true);
    assert!(status.peers.iter().all(|peer| peer.can_control));
    assert_eq!(status.peers[0].name, "局域网客户端");
    rename_peer(&mut status, "b", "Laptop".into());
    assert_eq!(status.peers[1].name, "Laptop");
    rename_peer(&mut status, "zzz", "Nobody".into());
    remove_peer(&mut status, "a");
    assert_eq!(status.peers.len(), 1);
    assert_eq!(status.peers[0].id, "b");
}

#[test]
fn host_updates() {
    let mut status = RuntimeStatus::initial(None, None);
    host_started(&mut status, Some("192.168.0.9".into()));
    assert_eq!(status.connection, ConnectionState::Connected);
    assert_eq!(status.server_address.as_deref(), Some("192.168.0.9:17636"));
    let mut snapshot = PlaybackSnapshot::default();
    snapshot.sequence = 77;
    snapshot.title = Some("Song".into());
    record_playback(&mut status, snapshot.clone());
    record_playback(&mut status, snapshot);
    assert_eq!(status.playback.sequence, 2);
    assert_eq!(status.playback.title.as_deref(), Some("Song"));
    set_lyrics(&mut status, None);
    assert!(status.lyrics.is_none());
    let issue = client_failure_issue("boom".into(), Some("h:1".into()));
    assert_eq!(issue.title, "客户端连接任务已停止");
    mark_offline(&mut status, issue);
    assert_eq!(status.connection, ConnectionState::Offline);
}

#[test]
fn lyrics_follow_the_track() {
    let mut monitor = LyricsMonitor::new(0);
    assert!(!monitor.wants_lyrics(0));
    assert!(monitor.observe(Some("a".into()), 100));
    assert!(monitor.wants_lyrics(100));
    monitor.lyrics_failed(100);
    assert!(!monitor.wants_lyrics(5_000));
    assert!(monitor.wants_lyrics(10_100));
    monitor.lyrics_loaded();
    assert!(!monitor.wants_lyrics(20_000));
    assert!(!monitor.observe(Some("a".into()), 30_000));
    assert!(monitor.observe(None, 30_000));
    assert!(!monitor.wants_lyrics(30_000));
}

#[test]
fn lyrics_are_keyed_by_track() {
    let mut playback = PlaybackSnapshot::default();
    assert_eq!(lyrics_key(&playback).unwrap_err(), "当前歌曲缺少稳定标识");
    playback.track_key = Some("smtc:a|b|1".into());
    assert_eq!(lyrics_key(&playback).unwrap(), "smtc:a|b|1");
}

#[test]
fn client_commands_follow_the_permission() {
    assert!(command_refusal(true).is_none());
    assert_eq!(command_refusal(false).unwrap(), "主机已关闭客户端控制权限");
    match command_result_message("r".into(), Err("no".into())) {
        ServerMessage::CommandResult { request_id, accepted, error } => {
            assert_eq!(request_id, "r");
            assert!(!accepted);
            assert_eq!(error.as_deref(), Some("no"));
        }
        _ => panic!("unexpected message"),
    }
}

#[test]
fn saved_window_position_must_stay_visible() {
    let monitors = vec![ScreenArea { x: 0, y: 0, width: 1920, height: 1080 }];
    assert!(is_position_visible(100, 100, 900, 190, &monitors));
    assert!(is_position_visible(1820, 1040, 900, 190, &monitors));
    assert!(!is_position_visible(1821, 100, 900, 190, &monitors));
    assert!(!is_position_visible(100, 1041, 900, 190, &monitors));
    assert!(!is_position_visible(-5000, -5000, 900, 190, &monitors));
    assert!(!is_position_visible(0, 0, 900, 190, &Vec::new()));
}

