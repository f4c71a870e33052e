use ttsvii::audio::AudioSplitter;
use ttsvii::display::{entry_line, fitting_line, progress_bar};
use ttsvii::pipeline::{
    collect_for_merge, new_run_id, pending_tasks, select_mode, skip_warning, Mode, ModeError, NothingToJoin,
    RunPaths,
};
use ttsvii::srt::SrtEntry;
use ttsvii::task::Task;

fn s(t: &str) -> Option<String> {
    Some(t.to_string())
}

#[test]
fn command_lines_select_what_to_do() {
    assert!(matches!(select_mode(None, false, None, None), Ok(Mode::WebUi)));
    assert!(matches!(select_mode(None, true, s("a"), s("b")), Ok(Mode::WebUi)));
    assert!(matches!(
        select_mode(None, false, s("a"), s("b")),
        Ok(Mode::Run { audio, srt }) if audio == "a" && srt == "b"
    ));
    assert!(matches!(
        select_mode(s("id"), true, None, s("b")),
        Ok(Mode::Resume { id, srt, recording: None }) if id == "id" && srt == "b"
    ));
    let e = select_mode(s("id"), false, s("a"), None).unwrap_err();
    assert_eq!(e, ModeError::ResumeWithoutSrt);
    assert_eq!(e.message(), "恢复任务必须提供 SRT 文件路径 (-s/--srt)");
    let e = select_mode(None, false, None, s("b")).unwrap_err();
    assert_eq!(e, ModeError::NoAudio);
    assert_eq!(e.message(), "必须提供音频文件路径 (-a/--audio)");
    let e = select_mode(None, false, s("a"), None).unwrap_err();
    assert_eq!(e, ModeError::NoSrt);
    assert_eq!(e.message(), "必须提供 SRT 文件路径 (-s/--srt)");
}

#[test]
fn runs_have_paths_of_their_own() {
    let p = RunPaths::new("/work", "./output", "abc");
    assert_eq!(p.tmp_dir, "/work/tmp/abc");
    assert_eq!(p.task_dir, "./output/abc");
    assert_eq!(p.joined, "./output/final_output.wav");
    assert_eq!(p.timed, "./output/abc_timed.wav");
}

#[test]
fn runs_have_random_identifiers() {
    let a = new_run_id();
    let b = new_run_id();
    assert_ne!(a, b);
    for id in [&a, &b] {
        let parsed = uuid::Uuid::parse_str(id).unwrap();
        assert_eq!(parsed.get_version_num(), 4);
        assert_eq!(&parsed.to_string(), id);
        assert_eq!(id.len(), 36);
        assert_eq!(id.as_bytes()[14], b'4');
        assert!(matches!(id.as_bytes()[19], b'8' | b'9' | b'a' | b'b'));
    }
}

#[test]
fn what_is_cut_and_has_no_result_is_pending() {
    let cut = vec![true, true, false, true, true];
    let sizes = vec![None, Some(0), None, Some(1), Some(100)];
    assert_eq!(pending_tasks(&cut, &sizes), vec![0, 1]);
}

fn task(index: u32) -> Task {
    Task {
        entry: SrtEntry { index, start_time: index as i64, end_time: 10, text: format!("t{}", index) },
        tmp_audio: String::new(),
        output_path: format!("o/{}.wav", index),
    }
}

#[test]
fn results_are_joined_in_the_order_of_their_subtitles() {
    let tasks = vec![task(3), task(1), task(5), task(2), task(4)];
    let sizes = vec![Some(45), Some(44), None, Some(1000), Some(0)];
    let c = collect_for_merge(&tasks, &sizes, 44).unwrap();
    assert_eq!(c.files, vec!["o/2.wav", "o/3.wav"]);
    assert_eq!(c.entries.iter().map(|e| e.index).collect::<Vec<u32>>(), vec![2, 3]);
    assert_eq!(c.entries[1].text, "t3");
    let c = collect_for_merge(&tasks, &sizes, 0).unwrap();
    assert_eq!(c.files, vec!["o/1.wav", "o/2.wav", "o/3.wav"]);
    // As many files as subtitles: they can be merged.
    assert!(AudioSplitter::merge_audio_with_timing(c.files.len(), &c.entries).is_ok());

    let e = collect_for_merge(&tasks, &vec![None; 5], 0).unwrap_err();
    assert_eq!(e, NothingToJoin);
    assert_eq!(e.message(), "没有有效的合成音频文件可以合并");
}

#[test]
fn equal_numbers_keep_their_order() {
    let mut tasks = vec![task(1), task(1), task(0)];
    tasks[1].output_path = "o/second.wav".to_string();
    let c = collect_for_merge(&tasks, &vec![Some(1); 3], 0).unwrap();
    assert_eq!(c.files, vec!["o/0.wav", "o/1.wav", "o/second.wav"]);
}

#[test]
fn results_that_are_not_joined_are_told() {
    assert!(skip_warning(4, Some(45), 44).is_none());
    assert_eq!(skip_warning(4, Some(44), 44).unwrap(), "警告: 任务 4 输出文件无效 (过小)，跳过合并");
    assert_eq!(skip_warning(4, None, 44).unwrap(), "警告: 任务 4 输出文件缺失，跳过合并");
}

#[test]
fn progress_is_shown() {
    assert_eq!(progress_bar(10, 1, 4), format!("[{}{}] 1/4", "=".repeat(10), " ".repeat(30)));
    assert_eq!(progress_bar(0, 0, 4), format!("[{}] 0/4", " ".repeat(40)));
    assert_eq!(progress_bar(50, 5, 4), format!("[{}] 5/4", "=".repeat(50)));
    assert_eq!(
        fitting_line(3, 10, "msg"),
        format!("\r变速处理: [{}{}] 3/10 - msg", "=".repeat(12), " ".repeat(28))
    );
    assert_eq!(
        fitting_line(1, 100, "m"),
        format!("\r变速处理: [{}{}] 1/100 - m", "=", " ".repeat(39))
    );
}

#[test]
fn subtitles_are_shown() {
    let e = SrtEntry { index: 2, start_time: 1500, end_time: 62_003, text: " 一二三四五六七八九十一二三四五六七八九十一二三四五六七八九十END ".to_string() };
    assert_eq!(
        entry_line(&e),
        "  条目 2: 开始=1500ms (1.500s), 结束=62003ms (62.003s), 时长=60503ms (60.503s), 文本=\"一二三四五六七八九十一二三四五六七八九十一二三四五六七八九十\""
    );
    let e = SrtEntry { index: 1, start_time: -5, end_time: i64::MIN + 4, text: "x".to_string() };
    assert!(entry_line(&e).starts_with("  条目 1: 开始=-5ms (-0.005s), 结束=-9223372036854775804ms"));
}
