use base64::Engine;
use ttsvii::api::{
    classify_reply, decide_json_reply, read_json_reply, ApiAction, ApiClient, ApiError, ApiEvent,
    AudioFile, Exchange, FormPart, JsonReply, ReplyKind,
};
use ttsvii::task::classify_backoff_delay;

fn file(name: Option<&str>, content: &[u8]) -> AudioFile {
    AudioFile { file_name: name.map(|n| n.to_string()), content: content.to_vec() }
}

fn shown(part: &FormPart) -> String {
    match part {
        FormPart::Text { name, value } => format!("{}={}", name, value),
        FormPart::File { name, file_name, mime, content } => {
            format!("{}:{}:{}:{}", name, file_name, mime, content.len())
        }
    }
}

#[test]
fn a_request_carries_what_is_given() {
    let client = ApiClient::new("http://host:1//".to_string());
    let (request, mut exchange) = client.synthesize(
        "你好",
        Some(file(Some("1.wav"), b"abc")),
        Some(file(None, b"abcd")),
        Some("http://voice".to_string()),
        Some("1.72".to_string()),
        Some("2.5".to_string()),
    );
    assert_eq!(request.url, "http://host:1/synthesize");
    assert!(matches!(exchange.step(head(true, "200 OK", None)), ApiAction::ReadBody));
    let parts: Vec<String> = request.parts.iter().map(shown).collect();
    assert_eq!(
        parts,
        vec![
            "text=你好",
            "duration_factor=1.72",
            "target_duration=2.5",
            "prompt_audio=http://voice",
            "speaker_audio:1.wav:audio/wav:3",
            "emotion_audio:emotion_audio.wav:audio/wav:4",
        ]
    );
}

#[test]
fn a_request_leaves_out_what_is_not_given() {
    let client = ApiClient::new("http://host".to_string());
    let (request, _) = client.synthesize("x", Some(file(None, b"")), None, None, None, None);
    let parts: Vec<String> = request.parts.iter().map(shown).collect();
    assert_eq!(parts, vec!["text=x", "speaker_audio:speaker_audio.wav:audio/wav:0"]);
}

#[test]
fn one_sound_file_gives_voice_and_mood() {
    let client = ApiClient::new("http://host".to_string());
    let (request, _) = client.synthesize_like("x", file(Some("1.wav"), b"abc"));
    let parts: Vec<String> = request.parts.iter().map(shown).collect();
    assert_eq!(
        parts,
        vec!["text=x", "speaker_audio:1.wav:audio/wav:3", "emotion_audio:1.wav:audio/wav:3"]
    );
    let (request, _) = client.synthesize_like("x", file(None, b"abc"));
    let parts: Vec<String> = request.parts.iter().map(shown).collect();
    assert_eq!(
        parts,
        vec![
            "text=x",
            "speaker_audio:speaker_audio.wav:audio/wav:3",
            "emotion_audio:emotion_audio.wav:audio/wav:3",
        ]
    );
}

#[test]
fn replies_are_told_apart() {
    assert_eq!(classify_reply(false, Some("application/json")), ReplyKind::Refusal);
    assert_eq!(classify_reply(true, Some("application/json; charset=utf-8")), ReplyKind::Json);
    assert_eq!(classify_reply(true, Some("audio/wav")), ReplyKind::Audio);
    assert_eq!(classify_reply(true, None), ReplyKind::Audio);
}

#[test]
fn json_replies_are_read() {
    let body = br#"{"url": "http://x/a.wav", "audio": "QUJD"}"#.to_vec();
    assert!(matches!(read_json_reply(&body), Ok(JsonReply::Download(u)) if u == "http://x/a.wav"));

    let encoded = base64::engine::general_purpose::STANDARD.encode([1u8, 2, 3, 250]);
    let body = format!("{{\"url\": 5, \"audio\": \"{}\"}}", encoded).into_bytes();
    assert!(matches!(read_json_reply(&body), Ok(JsonReply::Audio(b)) if b == vec![1, 2, 3, 250]));

    let body = br#"{"audio": "not base64!"}"#.to_vec();
    let e = read_json_reply(&body).unwrap_err();
    assert_eq!(e.message(), "解码 base64 音频数据失败");

    let body = br#"{ "state" : [1, 2.5] }"#.to_vec();
    let e = read_json_reply(&body).unwrap_err();
    assert_eq!(e.message(), "JSON 响应中未找到音频数据: {\"state\":[1,2.5]}");

    let e = read_json_reply(&b"{".to_vec()).unwrap_err();
    assert!(matches!(e, ApiError::BadJson));
    assert_eq!(e.message(), "解析 JSON 响应失败");

    // A JSON text need not be an object.
    let e = read_json_reply(&b" [ ]".to_vec()).unwrap_err();
    assert_eq!(e.message(), "JSON 响应中未找到音频数据: []");
}

#[test]
fn addresses_go_before_sounds() {
    let some = |s: &str| Some(Some(s.to_string()));
    assert!(matches!(
        decide_json_reply(some("u"), some("a"), Some(vec![1]), Some("{}".to_string())),
        Ok(JsonReply::Download(_))
    ));
    assert!(matches!(
        decide_json_reply(Some(None), some("a"), Some(vec![1]), Some("{}".to_string())),
        Ok(JsonReply::Audio(b)) if b == vec![1]
    ));
    assert!(matches!(
        decide_json_reply(Some(None), some("a"), None, Some("{}".to_string())),
        Err(ApiError::BadBase64)
    ));
    assert!(matches!(
        decide_json_reply(Some(None), Some(None), None, Some("{}".to_string())),
        Err(ApiError::NoAudio(t)) if t == "{}"
    ));
    assert!(matches!(decide_json_reply(None, None, None, None), Err(ApiError::BadJson)));
}

fn head(success: bool, status: &str, content_type: Option<&str>) -> ApiEvent {
    ApiEvent::Head {
        success,
        status: status.to_string(),
        content_type: content_type.map(|t| t.to_string()),
    }
}

fn start() -> Exchange {
    ApiClient::new(String::new()).synthesize("x", None, None, None, None, None).1
}

fn failure(action: ApiAction) -> String {
    match action {
        ApiAction::Fail(e) => e.message(),
        other => panic!("{:?}", other),
    }
}

#[test]
fn sounds_are_delivered() {
    let mut x = start();
    assert!(matches!(x.step(head(true, "200 OK", Some("audio/wav"))), ApiAction::ReadBody));
    assert!(matches!(x.step(ApiEvent::Body(vec![1, 2])), ApiAction::Deliver(b) if b == vec![1, 2]));

    let mut x = start();
    x.step(head(true, "200 OK", Some("application/json")));
    let action = x.step(ApiEvent::Body(br#"{"url":"http://y"}"#.to_vec()));
    assert!(matches!(action, ApiAction::Fetch(u) if u == "http://y"));
    assert!(matches!(x.step(head(false, "404 Not Found", None)), ApiAction::ReadBody));
    assert!(matches!(x.step(ApiEvent::Body(vec![7])), ApiAction::Deliver(b) if b == vec![7]));

    let mut x = start();
    x.step(head(true, "200 OK", Some("application/json")));
    let action = x.step(ApiEvent::Body(br#"{"audio":"QUJD"}"#.to_vec()));
    assert!(matches!(action, ApiAction::Deliver(b) if b == b"ABC".to_vec()));
}

#[test]
fn failures_of_an_exchange_are_told() {
    assert_eq!(failure(start().step(ApiEvent::Failed)), "发送 API 请求失败");

    let mut x = start();
    assert!(matches!(x.step(head(false, "429 Too Many Requests", None)), ApiAction::ReadText));
    assert_eq!(
        failure(x.step(ApiEvent::Text("slow down".to_string()))),
        "API 请求失败: 429 Too Many Requests - slow down"
    );

    let mut x = start();
    x.step(head(false, "500 Internal Server Error", None));
    assert_eq!(failure(x.step(ApiEvent::Failed)), "API 请求失败: 500 Internal Server Error - ");

    let mut x = start();
    x.step(head(true, "200 OK", None));
    assert_eq!(failure(x.step(ApiEvent::Failed)), "读取响应数据失败");

    let mut x = start();
    x.step(head(true, "200 OK", Some("application/json")));
    assert_eq!(failure(x.step(ApiEvent::Failed)), "解析 JSON 响应失败");

    let mut x = start();
    x.step(head(true, "200 OK", Some("application/json")));
    x.step(ApiEvent::Body(br#"{"url":"u"}"#.to_vec()));
    assert_eq!(failure(x.step(ApiEvent::Failed)), "下载音频文件失败");

    let mut x = start();
    x.step(head(true, "200 OK", Some("application/json")));
    x.step(ApiEvent::Body(br#"{"url":"u"}"#.to_vec()));
    x.step(head(true, "200 OK", None));
    assert_eq!(failure(x.step(ApiEvent::Failed)), "读取音频数据失败");

    assert_eq!(ApiError::Unreadable("\"a\"".to_string()).message(), "无法读取音频文件: \"a\"");
}

#[test]
fn refusals_are_recognised_when_waiting() {
    let refusal = |status: &str, body: &str| {
        ApiError::Refused { status: status.to_string(), body: body.to_string() }.message()
    };
    assert_eq!(classify_backoff_delay(&refusal("429 Too Many Requests", ""), 1), 2000);
    assert_eq!(classify_backoff_delay(&refusal("503 Service Unavailable", "x"), 2), 4000);
    assert_eq!(classify_backoff_delay(&refusal("404 Not Found", "x"), 3), 500);
    // What the body says does not matter.
    assert_eq!(classify_backoff_delay(&refusal("404 Not Found", "5 lines"), 1), 500);
    assert_eq!(classify_backoff_delay(&refusal("400 Bad Request", "429 500"), 1), 500);
    assert_eq!(classify_backoff_delay(&refusal("302 Found", "see 404, 429 or 500"), 1), 1000);
}
