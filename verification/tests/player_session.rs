use qqmusic_lan_sync::models::PlayerCommand;
use qqmusic_lan_sync::player::{
    find_qq_music_session, MediaProperties, SessionControls, SessionStep, SessionTracker, TimelineReading,
    SESSION_RETRY_INTERVAL_MS,
};

fn found_tracker() -> SessionTracker {
    let mut tracker = SessionTracker::new();
    assert_eq!(tracker.session_step(1_000), SessionStep::Scan);
    tracker.session_found("QQMusic.exe".to_string());
    tracker
}

#[test]
fn session_scans_are_spaced_out() {
    let mut tracker = SessionTracker::new();
    assert_eq!(tracker.session_step(5_000), SessionStep::Scan);
    assert_eq!(tracker.last_session_scan_ms, Some(5_000));
    assert_eq!(tracker.session_step(5_000 + SESSION_RETRY_INTERVAL_MS - 1), SessionStep::Wait);
    assert_eq!(tracker.session_step(5_000 + SESSION_RETRY_INTERVAL_MS), SessionStep::Scan);
    tracker.session_found("QQMusic".to_string());
    assert_eq!(tracker.session_step(5_001), SessionStep::UseCurrent);
}

#[test]
fn finds_first_qq_music_session() {
    let sources = vec![
        "Spotify.exe".to_string(),
        "Tencent.QQMusic".to_string(),
        "QQMusic.exe".to_string(),
    ];
    assert_eq!(find_qq_music_session(&sources), Some(1));
    assert_eq!(find_qq_music_session(&vec!["chrome".to_string()]), None);
}

#[test]
fn new_session_reads_metadata_then_caches_it() {
    let mut tracker = found_tracker();
    let reading = tracker.read_timeline(300_000_000, 0, 1_800_000_000, 2_000);
    assert_eq!(
        reading,
        TimelineReading { position_ms: Some(30_000), duration_ms: Some(180_000), refresh_metadata: true }
    );
    tracker.metadata_read("  其实我不快乐 ".to_string(), "Jay  Chou".to_string(), "   ".to_string(), 2_000);
    assert_eq!(tracker.metadata.title.as_deref(), Some("其实我不快乐"));
    assert_eq!(tracker.metadata.album, None);
    let controls = SessionControls {
        play_pause_toggle: false,
        play: true,
        pause: false,
        previous: true,
        next: false,
        playback_position: true,
    };
    let snapshot = tracker.finish_snapshot(reading, true, controls, 77);
    assert_eq!(snapshot.track_key.as_deref(), Some("smtc:其实我不快乐|jay chou|180000"));
    assert_eq!(snapshot.source_app.as_deref(), Some("QQMusic.exe"));
    assert_eq!(snapshot.observed_at_ms, 77);
    assert!(snapshot.capabilities.play_pause && snapshot.capabilities.previous);
    assert!(!snapshot.capabilities.next && snapshot.capabilities.seek);
    assert_eq!(snapshot.error, None);
    assert_eq!(tracker.last_position_ms, Some(30_000));

    let next = tracker.read_timeline(310_000_000, 0, 1_800_000_000, 3_000);
    assert!(!next.refresh_metadata);
    let restarted = tracker.read_timeline(0, 0, 1_800_000_000, 3_500);
    assert!(restarted.refresh_metadata);
    let stale = tracker.read_timeline(310_000_000, 0, 1_800_000_000, 12_000);
    assert!(stale.refresh_metadata);
}

#[test]
fn negative_timeline_has_no_length() {
    let tracker = found_tracker();
    let reading = tracker.read_timeline(-1, 10, 0, 0);
    assert_eq!(reading.position_ms, None);
    assert_eq!(reading.duration_ms, None);
    let huge = tracker.read_timeline(0, i64::MIN, i64::MAX, 0);
    assert_eq!(huge.duration_ms, Some((i64::MAX / 10_000) as u64));
}

#[test]
fn command_outcomes() {
    let mut tracker = found_tracker();
    tracker.metadata_read("Song".to_string(), "Singer".to_string(), "Album".to_string(), 100);
    tracker.last_position_ms = Some(1);

    assert_eq!(tracker.command_finished(PlayerCommand::TogglePlayPause, Ok(true)), Ok(()));
    assert_eq!(tracker.last_metadata_refresh_ms, Some(100));

    assert_eq!(
        tracker.command_finished(PlayerCommand::Next, Ok(false)),
        Err("QQ 音乐拒绝了当前媒体控制命令".to_string())
    );
    assert_eq!(tracker.last_metadata_refresh_ms, Some(100));

    assert_eq!(tracker.command_finished(PlayerCommand::Next, Ok(true)), Ok(()));
    assert_eq!(tracker.last_metadata_refresh_ms, None);
    assert_eq!(tracker.last_position_ms, None);
    assert!(tracker.has_session);

    assert_eq!(
        tracker.command_finished(PlayerCommand::Previous, Err("gone".to_string())),
        Err("gone".to_string())
    );
    assert!(!tracker.has_session);
    assert_eq!(tracker.source_app, None);
    assert_eq!(tracker.metadata.title, None);
    assert_eq!(tracker.session_step(100), SessionStep::Scan);
}

#[test]
fn read_snapshot_composes_timeline_metadata_and_snapshot() {
    let mut tracker = found_tracker();
    let controls = SessionControls {
        play_pause_toggle: true,
        play: false,
        pause: false,
        previous: false,
        next: true,
        playback_position: false,
    };
    let media = MediaProperties {
        title: "Song".to_string(),
        artist: " The  Band ".to_string(),
        album: "".to_string(),
    };
    let first = tracker.read_snapshot(50_000_000, 10_000_000, 2_010_000_000, 1_000, Some(media), false, controls, 5);
    assert_eq!(first.position_ms, Some(5_000));
    assert_eq!(first.duration_ms, Some(200_000));
    assert_eq!(first.title.as_deref(), Some("Song"));
    assert_eq!(first.artist.as_deref(), Some("The  Band"));
    assert_eq!(first.album, None);
    assert_eq!(first.track_key.as_deref(), Some("smtc:song|the band|200000"));
    assert_eq!(tracker.last_metadata_refresh_ms, Some(1_000));
    let other = MediaProperties { title: "Other".to_string(), artist: String::new(), album: String::new() };
    let second = tracker.read_snapshot(60_000_000, 10_000_000, 2_010_000_000, 2_000, Some(other), true, controls, 6);
    assert_eq!(second.title.as_deref(), Some("Song"));
    assert_eq!(second.position_ms, Some(6_000));
    assert!(second.playing);
    assert_eq!(tracker.last_metadata_refresh_ms, Some(1_000));
}
