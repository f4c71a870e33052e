use ttsvii::srt::{timestamp_to_duration, Cue, SrtError, SrtParser};

#[test]
fn test_parse_srt() {
    let content = r"1
00:00:00,000 --> 00:00:02,500
Hello world

2
00:00:02,500 --> 00:00:05,000
This is a test
";
    let entries = SrtParser::parse(content).unwrap();
    assert_eq!(entries.len(), 2);
    assert_eq!(entries[0].text.trim(), "Hello world");
    assert_eq!(entries[1].text.trim(), "This is a test");
}

#[test]
fn test_merge_and_reindex_short_segments() {
    let content = r"1
00:00:00,000 --> 00:00:00,400
Hi

2
00:00:00,400 --> 00:00:01,000
there

3
00:00:01,000 --> 00:00:02,000
Keep this line
";

    let entries = SrtParser::parse(content).unwrap();

    assert_eq!(entries.len(), 2);
    assert_eq!(entries[0].index, 1);
    assert_eq!(entries[1].index, 2);

    assert_eq!(entries[0].start_time, 0);
    assert_eq!(entries[0].end_time, 1000);
    assert_eq!(entries[0].text.trim(), "Hi, there");

    assert_eq!(entries[1].start_time, 1000);
    assert_eq!(entries[1].end_time, 2000);
    assert_eq!(entries[1].text.trim(), "Keep this line");
}

fn cue(num: usize, start: (u8, u8, u8, u16), end: (u8, u8, u8, u16), text: &str) -> Cue {
    Cue { num, start, end, text: text.to_string() }
}

fn at(s: u8, ms: u16) -> (u8, u8, u8, u16) {
    (0, 0, s, ms)
}

#[test]
fn broken_text_is_malformed() {
    match SrtParser::parse("one\ntwo\nthree\n") {
        Err(SrtError::Malformed(m)) => {
            assert!(!m.is_empty());
            let shown = SrtError::Malformed(m.clone()).message();
            assert_eq!(shown, format!("解析 SRT 文件失败: {}", m));
        }
        other => panic!("{:?}", other),
    }
}

#[test]
fn empty_text_has_no_entries() {
    let err = SrtParser::parse("").unwrap_err();
    assert!(matches!(err, SrtError::NoEntries));
    assert_eq!(err.message(), "未找到有效的 SRT 条目");
}

#[test]
fn a_file_that_cannot_be_read_is_malformed() {
    let err = SrtParser::parse_file(Err("gone".to_string())).unwrap_err();
    assert_eq!(err.message(), "解析 SRT 文件失败: gone");
    let text = "1\n00:00:01,000 --> 00:00:02,000\nhello\n".to_string();
    let entries = SrtParser::parse_file(Ok(text)).unwrap();
    assert_eq!(entries.len(), 1);
    assert_eq!((entries[0].start_time, entries[0].end_time), (1000, 2000));
}

#[test]
fn blank_entries_are_dropped() {
    let cues = vec![
        cue(1, at(0, 0), at(1, 0), "  \t"),
        cue(2, at(1, 0), at(2, 0), "said"),
        cue(3, at(2, 0), at(3, 0), "\u{3000}"),
    ];
    let entries = SrtParser::entries_of(Ok(cues)).unwrap();
    assert_eq!(entries.len(), 1);
    assert_eq!(entries[0].index, 1);
    assert_eq!(entries[0].text, "said");

    let silent = vec![cue(1, at(0, 0), at(1, 0), " ")];
    assert!(matches!(SrtParser::entries_of(Ok(silent)), Err(SrtError::NoEntries)));
}

#[test]
fn entries_are_sorted_and_ties_keep_their_order() {
    let cues = vec![
        cue(9, at(4, 0), at(5, 0), "c"),
        cue(8, at(1, 0), at(3, 0), "b"),
        cue(7, at(1, 0), at(2, 0), "a"),
        cue(6, at(4, 0), at(5, 0), "d"),
    ];
    let entries = SrtParser::entries_of(Ok(cues)).unwrap();
    let texts: Vec<&str> = entries.iter().map(|e| e.text.as_str()).collect();
    assert_eq!(texts, vec!["a", "b", "c", "d"]);
    let numbers: Vec<u32> = entries.iter().map(|e| e.index).collect();
    assert_eq!(numbers, vec![1, 2, 3, 4]);
}

#[test]
fn short_entries_join_until_long_enough() {
    let cues = vec![
        cue(1, at(0, 0), at(0, 100), " a "),
        cue(2, at(0, 100), at(0, 300), "b"),
        cue(3, at(0, 300), at(0, 500), "c\n"),
        cue(4, at(0, 600), at(0, 700), "d"),
    ];
    let entries = SrtParser::entries_of(Ok(cues)).unwrap();
    assert_eq!(entries.len(), 2);
    assert_eq!(entries[0].text, "a, b, c");
    assert_eq!((entries[0].start_time, entries[0].end_time), (0, 500));
    // The last one stays short: nothing follows it.
    assert_eq!(entries[1].text, "d");
    assert_eq!((entries[1].start_time, entries[1].end_time), (600, 700));
}

#[test]
fn half_a_second_is_long_enough() {
    let cues = vec![cue(1, at(0, 0), at(0, 500), "a"), cue(2, at(1, 0), at(2, 0), "b")];
    assert_eq!(SrtParser::entries_of(Ok(cues)).unwrap().len(), 2);
    let cues = vec![cue(1, at(0, 0), at(0, 499), "a"), cue(2, at(1, 0), at(2, 0), "b")];
    let entries = SrtParser::entries_of(Ok(cues)).unwrap();
    assert_eq!(entries.len(), 1);
    assert_eq!((entries[0].start_time, entries[0].end_time), (0, 2000));
}

#[test]
fn joining_keeps_the_later_end() {
    let cues = vec![
        cue(1, at(1, 0), at(1, 300), "a"),
        cue(2, at(1, 100), at(1, 200), "b"),
        cue(3, at(1, 150), at(4, 0), "c"),
    ];
    let entries = SrtParser::entries_of(Ok(cues)).unwrap();
    assert_eq!(entries.len(), 1);
    assert_eq!((entries[0].start_time, entries[0].end_time), (1000, 4000));
    assert_eq!(entries[0].text, "a, b, c");
}

#[test]
fn a_last_entry_that_ends_before_it_starts_is_refused() {
    let cues = vec![cue(1, at(0, 0), at(1, 0), "a"), cue(2, at(3, 0), at(2, 0), "b")];
    let err = SrtParser::entries_of(Ok(cues)).unwrap_err();
    assert!(matches!(err, SrtError::InvalidInterval));
    assert_eq!(err.message(), "字幕时间区间无效 (开始时间应早于结束时间)");
    // Before another entry it joins that one.
    let cues = vec![cue(1, at(3, 0), at(2, 0), "a"), cue(2, at(4, 0), at(5, 0), "b")];
    let entries = SrtParser::entries_of(Ok(cues)).unwrap();
    assert_eq!(entries.len(), 1);
    assert_eq!((entries[0].start_time, entries[0].end_time), (3000, 5000));
}

#[test]
fn normalizing_twice_changes_nothing() {
    let cues = vec![
        cue(5, at(2, 0), at(2, 100), "x"),
        cue(6, at(0, 0), at(1, 0), "y"),
        cue(7, at(3, 0), at(4, 0), "z"),
    ];
    let once = SrtParser::entries_of(Ok(cues)).unwrap();
    let copy: Vec<_> = once.iter().cloned().collect();
    let twice = SrtParser::normalize_entries(copy).unwrap();
    assert_eq!(once.len(), twice.len());
    for (a, b) in once.iter().zip(twice.iter()) {
        assert_eq!((a.index, a.start_time, a.end_time), (b.index, b.start_time, b.end_time));
        assert_eq!(a.text, b.text);
    }
}

#[test]
fn times_are_whole_milliseconds() {
    assert_eq!(timestamp_to_duration((0, 0, 6, 633)), 6633);
    assert_eq!(timestamp_to_duration((1, 2, 3, 4)), 3_723_004);
    assert_eq!(timestamp_to_duration((255, 59, 59, 999)), 921_599_999);
    // A part of a thousand or more is taken down.
    assert_eq!(timestamp_to_duration((0, 0, 0, 1000)), 1);
    assert_eq!(timestamp_to_duration((0, 0, 0, 65535)), 65);
}

#[test]
fn order_and_numbers_do_not_matter() {
    let texts = |cues: Vec<Cue>| {
        let entries = SrtParser::entries_of(Ok(cues)).unwrap();
        entries.iter().map(|e| (e.index, e.start_time, e.end_time, e.text.clone())).collect::<Vec<_>>()
    };
    let a = texts(vec![
        cue(1, at(0, 0), at(0, 300), "a"),
        cue(2, at(1, 0), at(3, 0), "b"),
        cue(3, at(4, 0), at(6, 0), "c"),
    ]);
    let b = texts(vec![
        cue(9, at(4, 0), at(6, 0), "c"),
        cue(9, at(2, 0), at(2, 500), "  "),
        cue(7, at(0, 0), at(0, 300), "a"),
        cue(0, at(1, 0), at(3, 0), "b"),
    ]);
    assert_eq!(a, b);
    assert_eq!(a.len(), 2);
    assert_eq!(a[0].3, "a, b");
}
