use qqmusic_lan_sync::lyrics::qqmusic::{is_hex, unwrap_cdata};

#[test]
fn unwraps_hex_lyrics_from_cdata() {
    let value = unwrap_cdata("<![CDATA[  9F0C07715EAB4E78  ]]>");
    assert_eq!(value, "9F0C07715EAB4E78");
    assert!(is_hex(value));
}

use qqmusic_lan_sync::lyrics::qqmusic::{
    extract_and_decrypt, extract_lyric_content, has_lyrics, legacy_lyrics_from_response,
    lyrics_attempts, normalize, search_words, simple_lyrics, usable_answer, LyricsFetch,
    LyricsSearch,
};

const SAMPLE_QRC: &str = "61EA2D770702AE2B2B52DA9EDDEC07BB35F01431C529E8AE46B70CD635C127867E1AB832ABFF18CF7AABF1313EF7EF537021F03A5E957206";

#[test]
fn other_text_is_left_as_it_is() {
    assert_eq!(unwrap_cdata("  plain  "), "  plain  ");
    assert_eq!(unwrap_cdata("<![CDATA[x]]"), "<![CDATA[x]]");
    assert_eq!(unwrap_cdata("<![CDATA[]]>"), "");
    assert!(!is_hex("ABC"));
    assert!(!is_hex("zz"));
    assert!(is_hex(""));
    assert!(is_hex("0aF9"));
}

#[test]
fn normalize_collapses_whitespace_and_lowercases() {
    assert_eq!(normalize("  Hello \t  WORLD  "), "hello world");
    assert_eq!(normalize(""), "");
    assert_eq!(normalize("ÄB"), "äb");
}

#[test]
fn lyric_content_attribute_is_decoded() {
    assert_eq!(
        extract_lyric_content("<Lyric_1 LyricType=\"1\" LyricContent=\"a &amp; b\"/>"),
        "a & b"
    );
    assert_eq!(extract_lyric_content("no attribute"), "no attribute");
    assert_eq!(extract_lyric_content("LyricContent=\"open"), "LyricContent=\"open");
}

#[test]
fn extracts_plain_and_missing_tags() {
    let xml = "<lyric><content attr=\"1\">  <![CDATA[ [0,10]hi(0,10) ]]>  </content><contentts></contentts></lyric>";
    assert_eq!(
        extract_and_decrypt(xml, "content").unwrap(),
        Some("[0,10]hi(0,10)".to_string())
    );
    assert_eq!(extract_and_decrypt(xml, "contentts").unwrap(), None);
    assert_eq!(extract_and_decrypt(xml, "contentroma").unwrap(), None);
}

#[test]
fn hex_content_is_decrypted() {
    let xml = format!("<content>{SAMPLE_QRC}</content>");
    let text = extract_and_decrypt(&xml, "content").unwrap().unwrap();
    assert!(!text.is_empty());
    assert_ne!(text, SAMPLE_QRC);
}

#[test]
fn undecryptable_hex_is_an_error() {
    let error = extract_and_decrypt("<content>00000000000000000000000000000000</content>", "content")
        .unwrap_err();
    assert_eq!(error, "QQ 音乐 QRC 解密或解压失败");
}

#[test]
fn legacy_response_needs_original_content() {
    let raw = legacy_lyrics_from_response(
        "<!--<?xml?>--><content>[0,10]a(0,10)</content><contentts>[00:00.00]A</contentts>",
    )
    .unwrap();
    assert_eq!(raw.source, "QQMusic QRC");
    assert_eq!(raw.original, "[0,10]a(0,10)");
    assert_eq!(raw.translation.as_deref(), Some("[00:00.00]A"));
    assert!(raw.romanization.is_none());
    assert!(has_lyrics(&raw));
    let error = legacy_lyrics_from_response("<contentts>x</contentts>").unwrap_err();
    assert_eq!(error, "QQ 音乐 QRC 原文解密失败");
}

#[test]
fn simple_answer_drops_blank_translation() {
    let raw = simple_lyrics(Some("[00:01.00]x".into()), Some("   ".into()));
    assert_eq!(raw.source, "QQMusic LRC");
    assert_eq!(raw.original, "[00:01.00]x");
    assert!(raw.translation.is_none());
    let raw = simple_lyrics(None, Some("t".into()));
    assert_eq!(raw.original, "");
    assert_eq!(raw.translation.as_deref(), Some("t"));
    assert!(!has_lyrics(&raw));
}

#[test]
fn search_needs_a_title() {
    assert_eq!(search_words(Some("Song"), Some("Singer")).unwrap(), "Song Singer");
    assert_eq!(search_words(Some("Song"), None).unwrap(), "Song ");
    assert_eq!(search_words(None, Some("Singer")).unwrap_err(), "当前歌曲缺少歌名");
}

#[test]
fn lyrics_are_asked_for_the_best_five_songs_in_turn() {
    let attempts = lyrics_attempts(7);
    assert_eq!(attempts.len(), 10);
    assert_eq!(attempts[0], (0, LyricsFetch::Legacy));
    assert_eq!(attempts[1], (0, LyricsFetch::Simple));
    assert_eq!(attempts[9], (4, LyricsFetch::Simple));
    assert_eq!(lyrics_attempts(1), vec![(0, LyricsFetch::Legacy), (0, LyricsFetch::Simple)]);
    assert!(lyrics_attempts(0).is_empty());
    assert!(usable_answer(Err("x".to_string())).is_none());
    assert!(usable_answer(Ok(simple_lyrics(Some("  ".to_string()), None))).is_none());
    let found = usable_answer(Ok(simple_lyrics(Some("[00:01]a".to_string()), None))).unwrap();
    assert_eq!(found.original, "[00:01]a");
}

#[test]
fn lyrics_search_stops_at_first_usable_answer() {
    let mut search = LyricsSearch::new(2);
    assert_eq!(search.nothing_to_ask(), None);
    assert_eq!(search.next_attempt(), Some((0, LyricsFetch::Legacy)));
    assert!(search.answered(Err("timeout".to_string())).is_none());
    assert_eq!(search.next_attempt(), Some((0, LyricsFetch::Simple)));
    assert!(search.answered(Ok(simple_lyrics(Some(" ".to_string()), None))).is_none());
    assert_eq!(search.next_attempt(), Some((1, LyricsFetch::Legacy)));
    let found = search.answered(Ok(simple_lyrics(Some("[00:01]a".to_string()), None)));
    assert_eq!(found.unwrap().unwrap().original, "[00:01]a");

    let empty = LyricsSearch::new(0);
    assert_eq!(empty.nothing_to_ask().as_deref(), Some("QQ 音乐没有返回可用的同步歌词"));
    assert_eq!(empty.next_attempt(), None);

    let mut one = LyricsSearch::new(1);
    assert!(one.answered(Err("a".to_string())).is_none());
    assert_eq!(
        one.answered(Err("b".to_string())).unwrap().unwrap_err(),
        "QQ 音乐没有返回可用的同步歌词"
    );
}
