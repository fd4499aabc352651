use qqmusic_lan_sync::lyrics::parser::parse_document;

#[test]
fn parses_lrc_and_qrc() {
    let lrc = parse_document(
        "track",
        "test",
        "[00:01.20]Hello\n[00:03.00]World",
        None,
        None,
    )
    .unwrap();
    assert_eq!(lrc.original.lines[0].start_ms, 1200);
    let qrc = parse_document(
        "track",
        "test",
        "[1000,2000]Hel(1000,800)lo(1800,1200)",
        None,
        None,
    )
    .unwrap();
    assert_eq!(qrc.original.lines[0].words.as_ref().unwrap().len(), 2);
}

#[test]
fn lrc_lines_are_sorted_and_end_where_the_next_starts() {
    let doc = parse_document(
        "k",
        "s",
        "[00:03.00]Second\n[00:01.5]First\n[01:00.123]Third",
        None,
        None,
    )
    .unwrap();
    let lines = &doc.original.lines;
    assert_eq!(lines.len(), 3);
    assert_eq!(lines[0].text, "First");
    assert_eq!(lines[0].start_ms, 1500);
    assert_eq!(lines[0].end_ms, Some(3000));
    assert_eq!(lines[1].text, "Second");
    assert_eq!(lines[1].end_ms, Some(60_123));
    assert_eq!(lines[2].start_ms, 60_123);
    assert_eq!(lines[2].end_ms, None);
    assert!(lines.iter().all(|line| line.words.is_none()));
}

#[test]
fn lrc_line_with_several_times_and_first_text_wins() {
    let doc = parse_document(
        "k",
        "s",
        "[00:02.00][00:04.00] Chorus \n[00:02.00]Other\n[00:03:50]Colon fraction",
        None,
        None,
    )
    .unwrap();
    let texts: Vec<(u64, &str)> = doc
        .original
        .lines
        .iter()
        .map(|line| (line.start_ms, line.text.as_str()))
        .collect();
    assert_eq!(
        texts,
        vec![(2000, "Chorus"), (3500, "Colon fraction"), (4000, "Chorus")]
    );
}

#[test]
fn lrc_tags_that_do_not_match_stay_in_the_text() {
    let doc = parse_document("k", "s", "[0000:01.00]x[00:07]Hi", None, None).unwrap();
    assert_eq!(doc.original.lines.len(), 1);
    assert_eq!(doc.original.lines[0].start_ms, 7000);
    assert_eq!(doc.original.lines[0].text, "[0000:01.00]xHi");
}

#[test]
fn lrc_tag_with_non_ascii_digits_is_removed_without_a_time() {
    let doc = parse_document("k", "s", "[00:05.00][\u{661}\u{660}:00]Hi", None, None).unwrap();
    assert_eq!(doc.original.lines.len(), 1);
    assert_eq!(doc.original.lines[0].start_ms, 5000);
    assert_eq!(doc.original.lines[0].text, "Hi");
}

#[test]
fn lrc_lines_without_text_or_time_are_skipped() {
    let doc = parse_document("k", "s", "[ti:Title]\n[00:01.00]   \nplain\n[00:02.0]Go", None, None)
        .unwrap();
    assert_eq!(doc.original.lines.len(), 1);
    assert_eq!(doc.original.lines[0].start_ms, 2000);
    assert_eq!(doc.original.lines[0].text, "Go");
}

#[test]
fn embedded_offset_is_read_from_its_own_line() {
    let doc = parse_document("k", "s", "[offset:abc]\n [offset:-250] \n[00:01.00]A", None, None)
        .unwrap();
    assert_eq!(doc.offset_ms, -250);
    let doc = parse_document("k", "s", "[00:01.00]A", None, None).unwrap();
    assert_eq!(doc.offset_ms, 0);
    let doc = parse_document("k", "s", "[offset:+40]\r\n[00:01.00]A", None, None).unwrap();
    assert_eq!(doc.offset_ms, 40);
}

#[test]
fn qrc_words_times_and_line_end() {
    let doc = parse_document(
        "k",
        "s",
        "[5000,1000]b(5000,500)c(5500,500)\n  [1000,2000]Hel(1000,800)lo(1800,1200)tail  ",
        None,
        None,
    )
    .unwrap();
    let lines = &doc.original.lines;
    assert_eq!(lines.len(), 2);
    assert_eq!(lines[0].text, "Hello");
    assert_eq!(lines[0].start_ms, 1000);
    assert_eq!(lines[0].end_ms, Some(3000));
    let words = lines[0].words.as_ref().unwrap();
    assert_eq!(words[0].text, "Hel");
    assert_eq!(words[0].start_ms, 1000);
    assert_eq!(words[0].end_ms, 1800);
    assert_eq!(words[1].text, "lo");
    assert_eq!(words[1].end_ms, 3000);
    assert_eq!(lines[1].text, "bc");
}

#[test]
fn qrc_line_without_words_keeps_its_text_and_end_saturates() {
    let doc = parse_document(
        "k",
        "s",
        "[18446744073709551615,10]  Plain text  \n[1,2](3,4)",
        None,
        None,
    )
    .unwrap();
    let lines = &doc.original.lines;
    assert_eq!(lines.len(), 2);
    assert_eq!(lines[0].start_ms, 1);
    assert_eq!(lines[0].text, "(3,4)");
    assert_eq!(lines[1].text, "Plain text");
    assert_eq!(lines[1].end_ms, Some(u64::MAX));
    assert!(lines[1].words.is_none());
}

#[test]
fn qrc_lines_with_equal_start_keep_their_order() {
    let doc = parse_document("k", "s", "[10,1]one\n[5,1]zero\n[10,1]two", None, None).unwrap();
    let texts: Vec<&str> = doc.original.lines.iter().map(|line| line.text.as_str()).collect();
    assert_eq!(texts, vec!["zero", "one", "two"]);
}

#[test]
fn document_without_timeline_is_refused() {
    let error = parse_document("k", "s", "just words\nno tags", None, None).unwrap_err();
    assert_eq!(error, "歌词内容中没有可用的时间轴");
}

#[test]
fn optional_tracks_are_kept_only_with_lines() {
    let doc = parse_document(
        "key",
        "source",
        "[00:01.00]A",
        Some("[00:01.00]Translated"),
        Some("no timeline"),
    )
    .unwrap();
    assert_eq!(doc.track_key, "key");
    assert_eq!(doc.source, "source");
    assert_eq!(doc.translation.as_ref().unwrap().lines[0].text, "Translated");
    assert!(doc.romanization.is_none());
}

#[test]
fn translation_never_makes_a_document_fail() {
    let error = parse_document("k", "s", "no timeline here", Some("[00:01.00]译文"), None).unwrap_err();
    assert_eq!(error, "歌词内容中没有可用的时间轴");
    let document =
        parse_document("k", "s", "[00:02.00]b\n[00:01.00]a\n[00:03]  ", Some("plain text"), Some("[1,2]")).unwrap();
    assert_eq!(document.translation, None);
    assert_eq!(document.romanization, None);
    assert_eq!(document.original.lines.len(), 2);
    for line in &document.original.lines {
        assert!(!line.text.is_empty());
        assert!(line.end_ms.map_or(true, |end| end >= line.start_ms));
    }
    assert_eq!(document.original.lines[0].end_ms, Some(2_000));
}
