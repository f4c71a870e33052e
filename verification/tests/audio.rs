use ttsvii::audio::{AudioSplitter, CountMismatch, Cut, FileFault, SplitFault};
use ttsvii::srt::SrtEntry;
use ttsvii::timed_merge::{MergeAction, Outcome, Source, Stage};

#[test]
fn parts_end_with_the_recording() {
    assert_eq!(AudioSplitter::plan_cut(1000, 2500, None), Ok(Cut { start: 1000, micros: 1_500_000 }));
    assert_eq!(
        AudioSplitter::plan_cut(1000, 2500, Some(10_000_000)),
        Ok(Cut { start: 1000, micros: 1_500_000 })
    );
    assert_eq!(
        AudioSplitter::plan_cut(1000, 2500, Some(2_000_123)),
        Ok(Cut { start: 1000, micros: 1_000_123 })
    );
}

#[test]
fn parts_that_cannot_be_cut_are_told() {
    let e = AudioSplitter::plan_cut(-1500, 10, None).unwrap_err();
    assert_eq!(e, SplitFault::NegativeStart(-1500));
    assert_eq!(e.message(""), "起始时间不能为负数: -1.500 秒");
    let e = AudioSplitter::plan_cut(1000, 1000, None).unwrap_err();
    assert_eq!(e, SplitFault::NoDuration(0));
    assert_eq!(e.message(""), "音频时长无效: 0.000 秒");
    let e = AudioSplitter::plan_cut(1000, 1009, None).unwrap_err();
    assert_eq!(e, SplitFault::TooShort(9));
    assert_eq!(e.message(""), "音频时长太短（小于 0.01 秒），可能无效: 0.009 秒");
    let e = AudioSplitter::plan_cut(2500, 4000, Some(2_500_000)).unwrap_err();
    assert_eq!(e, SplitFault::StartsAfterEnd { start: 2500, actual: 2_500_000 });
    assert_eq!(e.message(""), "起始时间 2.5 超出音频时长 2.5");
    assert!(AudioSplitter::plan_cut(1000, 1010, None).is_ok());
}

#[test]
fn parts_that_were_cut_are_checked() {
    assert_eq!(AudioSplitter::check_segment(45, None), Ok(()));
    assert_eq!(AudioSplitter::check_segment(45, Some(10_000)), Ok(()));
    let e = AudioSplitter::check_segment(44, Some(10_000)).unwrap_err();
    assert_eq!(e.message(""), "切分的音频文件无效（文件大小: 44 字节，可能为空或只有文件头）");
    let e = AudioSplitter::check_segment(45, Some(9_999)).unwrap_err();
    assert_eq!(e, SplitFault::TooBrief(9_999));
    assert_eq!(e.message(""), "切分的音频文件无效（音频时长: 0.010 秒，可能为空）");
}

#[test]
fn sound_files_are_validated() {
    let fine = Outcome::Length(10_000);
    assert_eq!(AudioSplitter::validate_audio_file(Some(45), fine), Ok(()));
    let cases = vec![
        (None, fine, FileFault::Missing, "音频文件不存在: P"),
        (Some(0), fine, FileFault::Empty, "音频文件为空: P"),
        (Some(44), fine, FileFault::HeaderOnly(44), "音频文件无效（文件大小: 44 字节，可能只有文件头）: P"),
        (Some(45), Outcome::Failed, FileFault::ProbeFailed, "ffprobe 检查音频失败: R"),
        (Some(45), Outcome::Done, FileFault::Unreadable, "无法解析音频时长"),
        (Some(45), Outcome::Length(0), FileFault::NoLength, "音频时长为 0 或无效: P"),
        (Some(45), Outcome::Length(9_999), FileFault::TooBrief, "音频时长太短（小于 0.01 秒），可能无效: P"),
    ];
    for (size, probed, fault, text) in cases {
        let e = AudioSplitter::validate_audio_file(size, probed).unwrap_err();
        assert_eq!(e, fault);
        assert_eq!(e.message("P", "R"), text);
    }
}

#[test]
fn lists_of_files_are_quoted() {
    let files = vec!["/a/1.wav".to_string(), "/it's/2.wav".to_string()];
    assert_eq!(AudioSplitter::merge_audio(&files), "file '/a/1.wav'\nfile '/it'\\''s/2.wav'\n");
    assert_eq!(AudioSplitter::merge_audio(&vec![]), "");
}

fn entry(start_time: i64, end_time: i64) -> SrtEntry {
    SrtEntry { index: 1, start_time, end_time, text: "x".to_string() }
}

#[test]
fn clips_and_subtitles_must_be_as_many() {
    let e = AudioSplitter::merge_audio_with_timing(2, &vec![entry(0, 1000)]).unwrap_err();
    assert_eq!(e, CountMismatch { files: 2, entries: 1 });
    assert_eq!(e.message(), "音频文件数量 (2) 与 SRT 条目数量 (1) 不匹配");
    let (m, action) = AudioSplitter::merge_audio_with_timing(1, &vec![entry(0, 1000)]).unwrap();
    assert_eq!(m.state().times, vec![(0, 1000)]);
    assert_eq!(m.state().stage, Stage::ProbeOriginal);
    assert_eq!(action, MergeAction::Probe(Source::Original));
}

#[test]
fn only_subtitles_with_a_time_can_be_merged() {
    assert!(AudioSplitter::can_merge_with_timing(&vec![entry(0, 1000), entry(2000, 1500)]));
    assert!(!AudioSplitter::can_merge_with_timing(&vec![]));
    assert!(!AudioSplitter::can_merge_with_timing(&vec![entry(5, 5)]));
    assert!(!AudioSplitter::can_merge_with_timing(&vec![entry(0, i64::MAX)]));
}

#[test]
fn tools_that_answer_are_there() {
    assert_eq!(AudioSplitter::check_ffmpeg(Outcome::Done), Ok(()));
    assert_eq!(AudioSplitter::check_ffmpeg(Outcome::Length(1)), Ok(()));
    let e = AudioSplitter::check_ffmpeg(Outcome::Failed).unwrap_err();
    assert_eq!(e.message(), "ffmpeg 不可用");
}

#[test]
fn a_failed_join_is_told() {
    assert!(AudioSplitter::merge_result(Outcome::Done, "noise").is_ok());
    let e = AudioSplitter::merge_result(Outcome::Failed, "no such file").unwrap_err();
    assert_eq!(e.message(), "ffmpeg 合并失败: no such file");
}

#[test]
fn lengths_below_zero_keep_their_sign() {
    for (us, shown) in [(-1, "-0.000"), (-499, "-0.000"), (-1_500, "-0.002"), (0, "0.000"), (499, "0.000")] {
        let e = AudioSplitter::check_segment(45, Some(us)).unwrap_err();
        assert_eq!(e.message(""), format!("切分的音频文件无效（音频时长: {} 秒，可能为空）", shown));
        assert_eq!(shown, format!("{:.3}", us as f64 / 1e6));
    }
}
