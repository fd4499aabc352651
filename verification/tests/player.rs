use std::time::Duration;

use qqmusic_lan_sync::player::{should_refresh_metadata, METADATA_REFRESH_INTERVAL_MS};

#[test]
fn refreshes_metadata_for_initial_and_periodic_reads() {
    assert!(should_refresh_metadata(false, None, None, None, None, None));
    assert!(should_refresh_metadata(
        true,
        Some(METADATA_REFRESH_INTERVAL_MS),
        Some(2_000),
        Some(2_500),
        Some(180_000),
        Some(180_000),
    ));
}

#[test]
fn refreshes_metadata_when_track_timeline_changes() {
    assert!(should_refresh_metadata(
        true,
        Some(Duration::from_secs(1).as_millis()),
        Some(120_000),
        Some(500),
        Some(180_000),
        Some(180_000),
    ));
    assert!(should_refresh_metadata(
        true,
        Some(Duration::from_secs(1).as_millis()),
        Some(30_000),
        Some(31_000),
        Some(180_000),
        Some(220_000),
    ));
}

#[test]
fn keeps_cached_metadata_during_normal_playback() {
    assert!(!should_refresh_metadata(
        true,
        Some(Duration::from_secs(1).as_millis()),
        Some(30_000),
        Some(31_000),
        Some(180_000),
        Some(180_000),
    ));
}

use qqmusic_lan_sync::models::PlayerCommand;
use qqmusic_lan_sync::player::{
    is_qq_music_source, no_session_error, non_empty, smtc_track_key, ticks_to_ms, PlayerService,
};

#[test]
fn position_jump_within_tolerance_keeps_metadata() {
    assert!(!should_refresh_metadata(true, Some(9_999), Some(5_000), Some(3_000), None, Some(1)));
    assert!(should_refresh_metadata(true, Some(9_999), Some(5_000), Some(2_999), None, Some(1)));
}

#[test]
fn qq_music_sources() {
    assert!(is_qq_music_source("QQMusic.exe"));
    assert!(is_qq_music_source("Tencent.QQ.Music"));
    assert!(is_qq_music_source("QQ Music"));
    assert!(!is_qq_music_source("Spotify.exe"));
}

#[test]
fn session_helpers() {
    assert!(no_session_error().starts_with("没有检测到 QQ 音乐"));
    assert_eq!(ticks_to_ms(25_000), Some(2));
    assert_eq!(ticks_to_ms(-1), None);
    assert_eq!(non_empty("  x ".into()).as_deref(), Some("x"));
    assert_eq!(non_empty(" \t ".into()), None);
    assert_eq!(
        smtc_track_key("  My  Song ", Some("ARTIST"), Some(180_000)),
        "smtc:my song|artist|180000"
    );
    assert_eq!(smtc_track_key("a", None, None), "smtc:a||0");
}

#[test]
fn player_service_without_media_session() {
    let service = PlayerService::default();
    let snapshot = service.snapshot();
    assert_eq!(snapshot.error.as_deref(), Some("播放器监听当前仅支持 Windows"));
    assert!(!snapshot.playing);
    assert_eq!(
        service.execute(PlayerCommand::Next).unwrap_err(),
        "播放器控制当前仅支持 Windows"
    );
}
