use ttsvii::api::{ApiClient, AudioFile, FormPart};
use ttsvii::executor::{TaskAction, TaskEvent, TaskExecutor, TaskRun, TaskStage};
use ttsvii::srt::SrtEntry;
use ttsvii::task::Task;

fn task(text: &str) -> Task {
    Task {
        entry: SrtEntry { index: 1, start_time: 0, end_time: 1000, text: text.to_string() },
        tmp_audio: "t/1.wav".to_string(),
        output_path: "o/1.wav".to_string(),
    }
}

fn executor(max_concurrent: usize, retries: u32) -> TaskExecutor {
    TaskExecutor::new(ApiClient::new("http://h/".to_string()), max_concurrent, retries)
}

fn begin(e: &mut TaskExecutor, text: &str) -> (TaskRun, TaskAction) {
    e.execute_task(&task(text), "\"t/1.wav\"")
}

#[test]
fn rates_follow_the_number_of_concurrent_requests() {
    let e = executor(10, 3);
    assert_eq!(e.state().rate_limiter.capacity, 20);
    assert_eq!(e.state().refill_millis, 50);
    assert_eq!(executor(0, 3).state().rate_limiter.capacity, 1);
    assert_eq!(executor(0, 3).state().refill_millis, 1000);
    assert_eq!(executor(100, 3).state().refill_millis, 10);
}

#[test]
fn a_task_that_goes_well_succeeds() {
    let mut e = executor(2, 3);
    let (mut run, action) = begin(&mut e, " hi ");
    assert!(matches!(action, TaskAction::Inspect));
    assert!(matches!(e.step(&mut run, TaskEvent::Inspected(Some(45))), TaskAction::Synthesize));
    let reply = TaskEvent::Replied { audio: vec![1, 2], nanos: 77 };
    assert!(matches!(e.step(&mut run, reply), TaskAction::Save(a) if a == vec![1, 2]));
    assert_eq!(e.get_stats(), (0, 0));
    assert!(matches!(e.step(&mut run, TaskEvent::Saved), TaskAction::Succeed));
    assert_eq!(run.state().stage, TaskStage::Ended);
    assert_eq!(e.get_stats(), (1, 0));
    assert_eq!(e.metrics_snapshot(), (77, 77, 1, 0));
    assert_eq!(e.state().position, 1);
}

#[test]
fn a_failed_task_is_tried_again_and_then_given_up() {
    let mut e = executor(2, 2);
    let (mut run, _) = begin(&mut e, "hi");
    let msg = "API 请求失败: 500 x - y".to_string();
    e.step(&mut run, TaskEvent::Inspected(Some(100)));
    assert!(matches!(e.step(&mut run, TaskEvent::Failed(msg.clone())), TaskAction::Wait(2000)));
    assert!(matches!(e.step(&mut run, TaskEvent::Waited), TaskAction::Inspect));
    assert_eq!(run.state().attempt, 2);
    e.step(&mut run, TaskEvent::Inspected(Some(100)));
    assert!(matches!(e.step(&mut run, TaskEvent::Failed("other".to_string())), TaskAction::Wait(2000)));
    e.step(&mut run, TaskEvent::Waited);
    e.step(&mut run, TaskEvent::Inspected(Some(100)));
    assert!(matches!(e.step(&mut run, TaskEvent::Failed(msg.clone())), TaskAction::GiveUp(m) if m == msg));
    assert_eq!(run.state().attempt, 3);
    assert_eq!(e.get_stats(), (0, 1));
    assert_eq!(e.metrics_snapshot(), (0, 0, 0, 1));
}

fn gives_up_with(text: &str, event: Option<TaskEvent>) -> String {
    let mut e = executor(1, 0);
    let (mut run, mut action) = begin(&mut e, text);
    if let Some(event) = event {
        if matches!(event, TaskEvent::Replied { .. }) {
            e.step(&mut run, TaskEvent::Inspected(Some(45)));
        }
        action = e.step(&mut run, event);
    }
    match action {
        TaskAction::GiveUp(m) => m,
        other => panic!("{:?}", other),
    }
}

#[test]
fn reasons_for_failure_are_told() {
    assert_eq!(gives_up_with(" \t", None), "文本内容为空，跳过此任务");
    assert_eq!(gives_up_with("x", Some(TaskEvent::Inspected(None))), "音频文件不存在: \"t/1.wav\"");
    assert_eq!(gives_up_with("x", Some(TaskEvent::Inspected(Some(0)))), "音频文件为空: \"t/1.wav\"");
    assert_eq!(
        gives_up_with("x", Some(TaskEvent::Inspected(Some(44)))),
        "音频文件无效（文件大小: 44 字节，可能只有文件头）: \"t/1.wav\""
    );
    let empty = TaskEvent::Replied { audio: vec![], nanos: 5 };
    assert_eq!(gives_up_with("x", Some(empty)), "API 返回的音频数据为空");
}

#[test]
fn empty_replies_are_measured_too() {
    let mut e = executor(1, 1);
    let (mut run, _) = begin(&mut e, "x");
    e.step(&mut run, TaskEvent::Inspected(Some(45)));
    let action = e.step(&mut run, TaskEvent::Replied { audio: vec![], nanos: 9 });
    assert!(matches!(action, TaskAction::Wait(1000)));
    assert_eq!(e.metrics_snapshot(), (9, 9, 0, 0));
}

#[test]
fn requests_use_the_part_for_voice_and_mood() {
    let e = executor(1, 0);
    let part = AudioFile { file_name: Some("1.wav".to_string()), content: vec![1, 2] };
    let (request, _) = e.request(&task("  say this \n"), part);
    assert_eq!(request.url, "http://h/synthesize");
    assert_eq!(request.parts.len(), 3);
    assert!(matches!(&request.parts[0], FormPart::Text { name, value } if name == "text" && value == "say this"));
    assert!(matches!(&request.parts[1], FormPart::File { name, content, .. }
        if name == "speaker_audio" && content == &vec![1, 2]));
    assert!(matches!(&request.parts[2], FormPart::File { name, content, .. }
        if name == "emotion_audio" && content == &vec![1, 2]));
}

#[test]
fn totals_are_shown() {
    let mut e = executor(1, 0);
    e.set_total(12);
    assert_eq!(e.state().total, 12);
    assert!(!e.state().finished);
    e.finish();
    assert!(e.state().finished);
}
