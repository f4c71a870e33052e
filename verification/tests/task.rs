use ttsvii::audio::SplitFault;
use ttsvii::srt::SrtEntry;
use ttsvii::task::{classify_backoff_delay, PartVerdict, TaskManager};

#[test]
fn waits_double_up_to_a_limit() {
    let default: Vec<u64> = (1..=8).map(|a| classify_backoff_delay("发送 API 请求失败", a)).collect();
    assert_eq!(default, vec![1000, 2000, 4000, 8000, 16000, 32000, 32000, 32000]);
    let load: Vec<u64> = (1..=7).map(|a| classify_backoff_delay("x 503 y", a)).collect();
    assert_eq!(load, vec![2000, 4000, 8000, 16000, 30000, 30000, 30000]);
    let refused: Vec<u64> = (1..=3).map(|a| classify_backoff_delay("x 404 y", a)).collect();
    assert_eq!(refused, vec![500, 500, 500]);
    assert_eq!(classify_backoff_delay("code429", 1), 2000);
    assert_eq!(classify_backoff_delay("code404", 1), 1000);
    assert_eq!(classify_backoff_delay("", u32::MAX), 32000);
}

#[test]
fn overload_waits_longer_up_to_the_fifth_attempt() {
    for a in 1..=5 {
        assert!(classify_backoff_delay("429", a) > classify_backoff_delay("other", a));
    }
    assert!(classify_backoff_delay("429", 6) < classify_backoff_delay("other", 6));
}

fn entry(index: u32, text: &str) -> SrtEntry {
    SrtEntry { index, start_time: 100 * index as i64, end_time: 100 * index as i64 + 90, text: text.to_string() }
}

#[test]
fn tasks_are_made_of_what_is_said() {
    let entries = vec![entry(1, "a"), entry(2, " \n"), entry(3, "b ")];
    let manager = TaskManager::new(entries, "in.wav", "tmp/id", "out/");
    assert_eq!(manager.len(), 2);
    assert_eq!(manager.skipped, 1);
    let tasks = manager.get_tasks();
    assert_eq!(tasks[0].tmp_audio, "tmp/id/1.wav");
    assert_eq!(tasks[0].output_path, "out/synthesized_1.wav");
    assert_eq!(tasks[1].tmp_audio, "tmp/id/3.wav");
    assert_eq!(tasks[1].output_path, "out/synthesized_3.wav");
    assert_eq!(tasks[1].entry.text, "b ");
    assert_eq!(tasks[1].entry.index, 3);
    let copy = tasks[1].clone();
    assert_eq!(copy.output_path, tasks[1].output_path);
}

#[test]
fn every_task_has_a_part_of_the_recording() {
    let manager = TaskManager::new(vec![entry(4, "a"), entry(7, "b")], "", "t", "o");
    let jobs = manager.prepare_audio_segments();
    assert_eq!(jobs.len(), 2);
    assert_eq!((jobs[1].index, jobs[1].start_time, jobs[1].end_time), (7, 700, 790));
    assert_eq!(jobs[1].tmp_audio, "t/7.wav");
}

#[test]
fn parts_without_sound_are_kept_with_a_warning() {
    assert!(matches!(TaskManager::judge_part(7, Ok(())), PartVerdict::Keep));
    assert!(matches!(
        TaskManager::judge_part(7, Err(SplitFault::TooSmall(44))),
        PartVerdict::Warn(t) if t == "警告: 任务 7 的音频片段可能无效（文件大小: 44 字节）"
    ));
    for fault in [SplitFault::TooBrief(1), SplitFault::ToolFailed, SplitFault::TooShort(3)] {
        assert!(matches!(
            TaskManager::judge_part(7, Err(fault)),
            PartVerdict::Refuse(f) if f == fault
        ));
    }
}

#[test]
fn tasks_have_files_of_their_own() {
    let entries: Vec<SrtEntry> = (1..=300).map(|i| entry(i, "x")).collect();
    let manager = TaskManager::new(entries, "", "t", "o");
    let mut names: Vec<String> = manager.get_tasks().iter().map(|t| t.output_path.clone()).collect();
    names.sort();
    names.dedup();
    assert_eq!(names.len(), 300);
}
