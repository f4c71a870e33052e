use ttsvii::pipeline::collect_for_merge;
use ttsvii::report::report_failures;
use ttsvii::srt::SrtEntry;
use ttsvii::task::Task;

fn task(index: u32) -> Task {
    Task {
        entry: SrtEntry { index, start_time: 0, end_time: 10, text: "x".to_string() },
        tmp_audio: String::new(),
        output_path: format!("{}", index),
    }
}

#[test]
fn failed_tasks_are_counted_and_explained() {
    let tasks = vec![task(1), task(2), task(3), task(4)];
    let sizes = vec![None, Some(100), Some(44), None];
    let why = Some("发送 API 请求失败".to_string());
    let reasons = vec![why.clone(), why, None, None];
    assert_eq!(
        report_failures(&tasks, &sizes, 44, &reasons).unwrap(),
        "失败任务数: 3/4\n✗ 任务 1 失败: 发送 API 请求失败\n✗ 任务 3 失败: 输出文件无效 (过小)\n✗ 任务 4 失败: 输出文件缺失"
    );
}

#[test]
fn nothing_is_said_where_nothing_failed() {
    let tasks = vec![task(1), task(2)];
    assert!(report_failures(&tasks, &vec![Some(45), Some(60)], 44, &vec![None, None]).is_none());
    assert!(report_failures(&vec![], &vec![], 44, &vec![]).is_none());
}

#[test]
fn every_task_is_joined_or_reported() {
    let tasks: Vec<Task> = (1..=30).map(task).collect();
    let sizes: Vec<Option<u64>> =
        (0..30).map(|i| if i % 3 == 0 { None } else { Some(30 + i) }).collect();
    let text = report_failures(&tasks, &sizes, 44, &vec![None; 30]).unwrap();
    let joined = collect_for_merge(&tasks, &sizes, 44).unwrap().files;
    assert_eq!(text.lines().count() - 1 + joined.len(), 30);
    for t in &tasks {
        let line = format!("任务 {} 失败", t.entry.index);
        assert_ne!(text.contains(&line), joined.contains(&t.output_path));
    }
}
