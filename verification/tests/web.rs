use ttsvii::log_capture::LogMessage;
use ttsvii::web::{
    decide_subscription, log_message, read_subscription, web_settings, AppState, OpenFolderRequest,
    SocketAction, SocketEvent, TaskConfig, TaskRuntime, Upload, UploadAction, WsMessage,
};

fn runtime(id: &str, status: &str) -> TaskRuntime {
    TaskRuntime {
        id: id.to_string(),
        files: (None, Some("a".to_string())),
        name: format!("name {}", id),
        status: status.to_string(),
        created_at: 12,
    }
}

fn shown(m: &WsMessage) -> (String, String, String) {
    (m.task_id.clone(), m.msg_type.clone(), m.content.clone())
}

fn told(id: &str, kind: &str, content: &str) -> (String, String, String) {
    (id.to_string(), kind.to_string(), content.to_string())
}

#[test]
fn tasks_are_kept_by_their_identifiers() {
    let mut state = AppState::new();
    assert!(state.get("a").is_none());
    assert!(state.list_tasks().is_empty());
    state.insert(runtime("a", "running"));
    state.insert(runtime("b", "running"));
    state.insert(runtime("a", "error"));
    assert_eq!(state.list_tasks().len(), 2);
    assert_eq!(state.get("a").unwrap().status, "error");
    state.set_status("b", "completed");
    state.set_status("c", "completed");
    assert_eq!(state.get("b").unwrap().status, "completed");
    assert_eq!(state.get("b").unwrap().name, "name b");
    assert_eq!(state.get("b").unwrap().files.1.as_deref(), Some("a"));
    assert!(state.get("c").is_none());
    let mut infos: Vec<(String, String, String, i64)> = state
        .list_tasks()
        .into_iter()
        .map(|t| (t.id, t.name, t.status, t.created_at))
        .collect();
    infos.sort();
    assert_eq!(infos.len(), 2);
    assert_eq!(infos[0], ("a".to_string(), "name a".to_string(), "error".to_string(), 12));
    assert_eq!(state.delete_task("a"), "tmp/a");
    assert!(state.get("a").is_none());
    assert!(state.get("b").is_some());
    assert_eq!(state.delete_task("a"), "tmp/a");
    assert_eq!(state.list_tasks().len(), 1);
}

#[test]
fn subscriptions_are_read() {
    let read = |t: &str| read_subscription(&t.as_bytes().to_vec());
    assert_eq!(read(r#"{"action": "subscribe", "task_id": "x y"}"#).as_deref(), Some("x y"));
    assert_eq!(read(r#"{"action": "subscribe", "task_id": "你"}"#).as_deref(), Some("你"));
    assert!(read(r#"{"action": "unsubscribe", "task_id": "x"}"#).is_none());
    assert!(read(r#"{"action": "subscribe"}"#).is_none());
    assert!(read(r#"{"action": "subscribe", "task_id": 5}"#).is_none());
    assert!(read("nonsense").is_none());
    assert!(read("[]").is_none());
}

#[test]
fn subscriptions_are_decided() {
    let some = |s: &str| Some(Some(s.to_string()));
    assert_eq!(decide_subscription(some("subscribe"), some("x")).as_deref(), Some("x"));
    assert!(decide_subscription(some("other"), some("x")).is_none());
    assert!(decide_subscription(Some(None), some("x")).is_none());
    assert!(decide_subscription(None, some("x")).is_none());
    assert!(decide_subscription(some("subscribe"), Some(None)).is_none());
    assert!(decide_subscription(some("subscribe"), None).is_none());
}

#[test]
fn pages_are_told_the_status_at_once() {
    let mut state = AppState::new();
    state.insert(runtime("a", "running"));
    state.set_status("a", "error");
    let text = |t: &str| SocketEvent::Text(t.as_bytes().to_vec());
    match state.handle_socket(text(r#"{"action":"subscribe","task_id":"a"}"#)) {
        SocketAction::Subscribe(m) => assert_eq!(shown(&m), told("a", "status", "error")),
        other => panic!("{:?}", other),
    }
    assert!(matches!(state.handle_socket(text(r#"{"action":"subscribe","task_id":"b"}"#)), SocketAction::Ignore));
    assert!(matches!(state.handle_socket(text("{}")), SocketAction::Ignore));
    assert!(matches!(state.handle_socket(SocketEvent::Other), SocketAction::Ignore));
    assert!(matches!(state.handle_socket(SocketEvent::Close), SocketAction::Stop));
    assert!(matches!(state.handle_socket(SocketEvent::Broken), SocketAction::Stop));
    assert!(matches!(state.answer_subscription(None), SocketAction::Ignore));
}

#[test]
fn uploads_are_taken_in() {
    let mut u = Upload::new("id".to_string());
    assert_eq!(u.name, "未命名任务");
    let skip = |a: UploadAction| matches!(a, UploadAction::Skip);
    assert!(skip(u.receive("task_name", Some(b"  \n".to_vec()))));
    assert_eq!(u.name, "未命名任务");
    assert!(skip(u.receive("task_name", Some(vec![0xff, 0xfe]))));
    assert_eq!(u.name, "未命名任务");
    assert!(skip(u.receive("task_name", Some(" 我的 任务 ".as_bytes().to_vec()))));
    assert_eq!(u.name, "我的 任务");
    assert!(skip(u.receive("task_name", None)));
    assert!(skip(u.receive("config", Some(b"{}".to_vec()))));
    assert!(skip(u.receive("srt", Some(vec![]))));
    assert!(skip(u.receive("srt", None)));
    assert!(u.srt.is_none());
    match u.receive("srt", Some(b"1".to_vec())) {
        UploadAction::Save { dir, path, content } => {
            assert_eq!(dir, "tmp/id");
            assert_eq!(path, "tmp/id/input.srt");
            assert_eq!(content, b"1".to_vec());
        }
        other => panic!("{:?}", other),
    }
    assert!(!u.complete());
    assert!(matches!(u.receive("extra", Some(b"1".to_vec())), UploadAction::MakeDir { dir } if dir == "tmp/id"));
    match u.receive("audio", Some(b"22".to_vec())) {
        UploadAction::Save { path, content, .. } => {
            assert_eq!(path, "tmp/id/input.audio");
            assert_eq!(content, b"22".to_vec());
        }
        other => panic!("{:?}", other),
    }
    assert!(u.complete());

    let mut state = AppState::new();
    state.start_task(&u, 99);
    let task = state.get("id").unwrap();
    assert_eq!(task.status, "running");
    assert_eq!(task.name, "我的 任务");
    assert_eq!(task.created_at, 99);
    assert_eq!(task.files.0.as_deref(), Some("tmp/id/input.srt"));
    assert_eq!(task.files.1.as_deref(), Some("tmp/id/input.audio"));
}

#[test]
fn uploads_have_random_identifiers() {
    let a = Upload::begin();
    let b = Upload::begin();
    assert_ne!(a.task_id, b.task_id);
    assert_eq!(uuid::Uuid::parse_str(&a.task_id).unwrap().get_version_num(), 4);
}

#[test]
fn tasks_tell_how_they_go() {
    let mut state = AppState::new();
    state.insert(runtime("a", "completed"));
    assert!(state.execute_task("b", "s", "m").is_none());
    let m = state.execute_task("a", "\"s\"", "\"m\"").unwrap();
    assert_eq!(shown(&m), told("a", "log", "任务开始处理 - SRT: \"s\", 音频: \"m\""));
    assert_eq!(state.get("a").unwrap().status, "running");

    let told_all: Vec<_> = state.end_task("a", Ok(())).iter().map(shown).collect();
    assert_eq!(
        told_all,
        vec![
            told("a", "log", "✓ 任务完成！"),
            told("a", "status", "completed"),
            told("a", "log", "./output"),
        ]
    );
    assert_eq!(state.get("a").unwrap().status, "completed");

    let told_all: Vec<_> = state.end_task("a", Err("why".to_string())).iter().map(shown).collect();
    assert_eq!(told_all, vec![told("a", "log", "✗ 任务失败: why"), told("a", "status", "error")]);
    assert_eq!(state.get("a").unwrap().status, "error");
    assert_eq!(shown(&log_message("a", "line").clone()), told("a", "log", "line"));
}

#[test]
fn tasks_from_the_page_have_settings() {
    let s = web_settings();
    assert_eq!(s.api_url, "https://models.inference.ai.azure.com");
    assert_eq!(s.output, "./output");
    assert_eq!((s.max_concurrent, s.split_concurrent, s.batch_size), (5, 3, 20));
    assert_eq!((s.rest_duration, s.retry_count), (1000, 3));
}

#[test]
fn plain_messages_hold_what_they_are_given() {
    let m = LogMessage {
        task_id: "t".to_string(),
        timestamp: "0".to_string(),
        level: "info".to_string(),
        message: "m".to_string(),
    };
    assert_eq!(m.clone().message, "m");
    assert_eq!(TaskConfig { task_name: "n".to_string() }.task_name, "n");
    assert_eq!(OpenFolderRequest { path: "p".to_string() }.path, "p");
}
