//! The speech service: what it is asked, and what is made of its replies.
use vstd::prelude::*;
use crate::outside::{
    base64_bytes, base64_decode, json_compact_text, json_member, json_string_member, json_text, optional_text,
};
use crate::task::{is_refusal, overloaded, refusal_head, refused, status_begins};
use crate::text::{contains, occurs, occurs_at, trim_trailing_slashes, without_trailing_slashes};

verus! {

// ---------------------------------------------------------------------------
// The request
// ---------------------------------------------------------------------------

/// A sound file to send: its name, where it has one, and what it holds.
#[derive(Debug)]
pub struct AudioFile {
    pub file_name: Option<String>,
    pub content: Vec<u8>,
}

/// One part of a form.
#[derive(Debug)]
pub enum FormPart {
    Text { name: String, value: String },
    File { name: String, file_name: String, mime: String, content: Vec<u8> },
}

/// The mathematical content of a [`FormPart`].
#[verifier::ext_equal]
pub ghost enum PartModel {
    Text { name: Seq<char>, value: Seq<char> },
    File { name: Seq<char>, file_name: Seq<char>, mime: Seq<char>, content: Seq<u8> },
}

impl View for FormPart {
    type V = PartModel;

    open spec fn view(&self) -> PartModel {
        match self {
            FormPart::Text { name, value } => PartModel::Text { name: name@, value: value@ },
            FormPart::File { name, file_name, mime, content } => PartModel::File {
                name: name@,
                file_name: file_name@,
                mime: mime@,
                content: content@,
            },
        }
    }
}

/// The models of form parts.
pub open spec fn part_models(v: Seq<FormPart>) -> Seq<PartModel> {
    Seq::new(v.len(), |i: int| v[i]@)
}

/// A text field, if there is a value for it.
pub open spec fn text_field(name: Seq<char>, value: Option<Seq<char>>) -> Seq<PartModel> {
    match value {
        Some(v) => seq![PartModel::Text { name, value: v }],
        None => Seq::empty(),
    }
}

/// A sound file, if there is one; where it has no name, it gets the one given.
pub open spec fn file_field(
    name: Seq<char>,
    file: Option<AudioFile>,
    unnamed: Seq<char>,
) -> Seq<PartModel> {
    match file {
        Some(f) => seq![
            PartModel::File {
                name,
                file_name: match f.file_name {
                    Some(n) => n@,
                    None => unnamed,
                },
                mime: "audio/wav"@,
                content: f.content@,
            },
        ],
        None => Seq::empty(),
    }
}

/// The form of a request: what is to be said, and everything else that is given.
pub open spec fn form(
    text: Seq<char>,
    speaker: Option<AudioFile>,
    emotion: Option<AudioFile>,
    prompt: Option<Seq<char>>,
    factor: Option<Seq<char>>,
    duration: Option<Seq<char>>,
) -> Seq<PartModel> {
    text_field("text"@, Some(text)) + text_field("duration_factor"@, factor) + text_field(
        "target_duration"@,
        duration,
    ) + text_field("prompt_audio"@, prompt) + file_field(
        "speaker_audio"@,
        speaker,
        "speaker_audio.wav"@,
    ) + file_field("emotion_audio"@, emotion, "emotion_audio.wav"@)
}

/// A request: where it goes, and what form it carries.
#[derive(Debug)]
pub struct Request {
    pub url: String,
    pub parts: Vec<FormPart>,
}

/// The speech service at a base address.
#[derive(Debug)]
pub struct ApiClient {
    pub base_url: String,
}

fn add_text(parts: &mut Vec<FormPart>, name: &str, value: Option<String>)
    ensures
        part_models(final(parts)@) == part_models(old(parts)@) + text_field(
            name@,
            optional_text(value),
        ),
{
    match value {
        Some(v) => {
            parts.push(FormPart::Text { name: name.to_string(), value: v });
        },
        None => {},
    }
    assert(part_models(parts@) =~= part_models(old(parts)@) + text_field(
        name@,
        optional_text(value),
    ));
}

fn add_file(parts: &mut Vec<FormPart>, name: &str, file: Option<AudioFile>, unnamed: &str)
    ensures
        part_models(final(parts)@) == part_models(old(parts)@) + file_field(name@, file, unnamed@),
{
    match file {
        Some(f) => {
            let file_name = match f.file_name {
                Some(n) => n,
                None => unnamed.to_string(),
            };
            parts.push(
                FormPart::File {
                    name: name.to_string(),
                    file_name,
                    mime: "audio/wav".to_string(),
                    content: f.content,
                },
            );
        },
        None => {},
    }
    assert(part_models(parts@) =~= part_models(old(parts)@) + file_field(name@, file, unnamed@));
}

impl AudioFile {
    /// The same file once more.
    fn copy(&self) -> (r: AudioFile)
        ensures
            optional_text(r.file_name) == optional_text(self.file_name),
            r.content@ == self.content@,
    {
        let file_name: Option<String> = match &self.file_name {
            Some(n) => Some(n.clone()),
            None => None,
        };
        AudioFile { file_name, content: self.content.clone() }
    }
}

impl ApiClient {
    /// The speech service at a base address.
    pub fn new(base_url: String) -> (r: Self)
        ensures
            r.base_url == base_url,
    {
        ApiClient { base_url }
    }

    /// Where requests go: the base address, without the slashes at its end, and the name of the
    /// service.
    pub open spec fn spec_endpoint(&self) -> Seq<char> {
        without_trailing_slashes(self.base_url@) + "/synthesize"@
    }

    /// The request for a text to be spoken, and the exchange that it opens. The two numbers are given
    /// as texts.
    pub fn synthesize(
        &self,
        text: &str,
        speaker_audio: Option<AudioFile>,
        emotion_audio: Option<AudioFile>,
        prompt_audio: Option<String>,
        duration_factor: Option<String>,
        target_duration: Option<String>,
    ) -> (r: (Request, Exchange))
        ensures
            r.0.url@ == self.spec_endpoint(),
            r.1@ == ApiStage::Sending,
            part_models(r.0.parts@) == form(
                text@,
                speaker_audio,
                emotion_audio,
                optional_text(prompt_audio),
                optional_text(duration_factor),
                optional_text(target_duration),
            ),
    {
        let mut url = trim_trailing_slashes(self.base_url.as_str()).to_string();
        url.append("/synthesize");
        let mut parts: Vec<FormPart> = Vec::new();
        assert(part_models(parts@) =~= Seq::<PartModel>::empty());
        let spoken: Option<String> = Some(text.to_string());
        assert(optional_text(spoken) == Some(text@));
        add_text(&mut parts, "text", spoken);
        assert(part_models(parts@) =~= text_field("text"@, Some(text@)));
        add_text(&mut parts, "duration_factor", duration_factor);
        add_text(&mut parts, "target_duration", target_duration);
        add_text(&mut parts, "prompt_audio", prompt_audio);
        add_file(&mut parts, "speaker_audio", speaker_audio, "speaker_audio.wav");
        add_file(&mut parts, "emotion_audio", emotion_audio, "emotion_audio.wav");
        (Request { url, parts }, Exchange { stage: ApiStage::Sending })
    }

    /// The request for a text to be spoken with the voice and in the mood of one sound file, and the
    /// exchange that it opens.
    pub fn synthesize_like(&self, text: &str, part: AudioFile) -> (r: (Request, Exchange))
        ensures
            r.0.url@ == self.spec_endpoint(),
            r.1@ == ApiStage::Sending,
            part_models(r.0.parts@) == form(text@, Some(part), Some(part), None, None, None),
    {
        let again = part.copy();
        proof {
            assert(file_field("emotion_audio"@, Some(again), "emotion_audio.wav"@) =~= file_field(
                "emotion_audio"@,
                Some(part),
                "emotion_audio.wav"@,
            ));
        }
        self.synthesize(text, Some(part), Some(again), None, None, None)
    }
}

// ---------------------------------------------------------------------------
// The reply
// ---------------------------------------------------------------------------

/// What a reply is read as.
#[derive(Debug, Clone, Copy, PartialEq, Eq, Structural)]
pub enum ReplyKind {
    /// A refusal, with a reason.
    Refusal,
    /// A JSON text that holds the sound or says where it is.
    Json,
    /// The sound itself.
    Audio,
}

/// What a reply is read as, by whether it reports success and by its content type.
pub open spec fn reply_kind(success: bool, content_type: Option<Seq<char>>) -> ReplyKind {
    if !success {
        ReplyKind::Refusal
    } else if content_type is Some && occurs("application/json"@, content_type->0) {
        ReplyKind::Json
    } else {
        ReplyKind::Audio
    }
}

/// What a reply is read as.
pub fn classify_reply(success: bool, content_type: Option<&str>) -> (r: ReplyKind)
    ensures
        r == reply_kind(
            success,
            match content_type {
                Some(t) => Some(t@),
                None => None,
            },
        ),
{
    if !success {
        return ReplyKind::Refusal;
    }
    match content_type {
        Some(t) => {
            if contains(t, "application/json") {
                return ReplyKind::Json;
            }
        },
        None => {},
    }
    ReplyKind::Audio
}

/// What a JSON reply leads to.
#[derive(Debug)]
pub enum JsonReply {
    /// The sound is to be had from this address.
    Download(String),
    /// The sound.
    Audio(Vec<u8>),
}

/// Why there is no sound.
#[derive(Debug)]
pub enum ApiError {
    /// The sound file to send could not be read; with its path as it is shown.
    Unreadable(String),
    /// The request could not be sent.
    NotSent,
    /// The request was refused.
    Refused { status: String, body: String },
    /// The reply is no JSON text.
    BadJson,
    /// The sound in the reply is not encoded as it should be.
    BadBase64,
    /// The reply holds no sound; with the reply.
    NoAudio(String),
    /// The sound could not be fetched from where the reply says it is.
    NotFetched,
    /// The sound that was fetched could not be read.
    FetchUnread,
    /// The reply could not be read.
    ReplyUnread,
}

/// What a JSON reply leads to, in mathematical terms.
pub ghost enum JsonOutcome {
    Download(Seq<char>),
    Audio(Seq<u8>),
    BadJson,
    BadBase64,
    NoAudio(Seq<char>),
}

/// What was made of a JSON reply, in mathematical terms. Nothing else is ever made of one.
pub open spec fn reply_outcome(r: Result<JsonReply, ApiError>) -> Option<JsonOutcome> {
    match r {
        Ok(JsonReply::Download(u)) => Some(JsonOutcome::Download(u@)),
        Ok(JsonReply::Audio(b)) => Some(JsonOutcome::Audio(b@)),
        Err(ApiError::BadJson) => Some(JsonOutcome::BadJson),
        Err(ApiError::BadBase64) => Some(JsonOutcome::BadBase64),
        Err(ApiError::NoAudio(t)) => Some(JsonOutcome::NoAudio(t@)),
        Err(_) => None,
    }
}

/// What a JSON reply leads to: an address to fetch the sound from if there is one, else the sound
/// if it is there. The arguments are what stands under `url` and under `audio`, the bytes that the
/// latter stands for, and the whole text.
pub open spec fn json_outcome(
    url: Option<Option<Seq<char>>>,
    audio: Option<Option<Seq<char>>>,
    decoded: Option<Seq<u8>>,
    whole: Option<Seq<char>>,
) -> JsonOutcome {
    match url {
        None => JsonOutcome::BadJson,
        Some(Some(u)) => JsonOutcome::Download(u),
        Some(None) => match audio {
            None => JsonOutcome::BadJson,
            Some(Some(_)) => match decoded {
                Some(b) => JsonOutcome::Audio(b),
                None => JsonOutcome::BadBase64,
            },
            Some(None) => match whole {
                Some(t) => JsonOutcome::NoAudio(t),
                None => JsonOutcome::BadJson,
            },
        },
    }
}

/// What stands under `audio` in a JSON reply, decoded.
pub open spec fn decoded_audio(body: Seq<u8>) -> Option<Seq<u8>> {
    match json_string_member(body, "audio"@) {
        Some(Some(t)) => base64_bytes(t),
        _ => None,
    }
}

/// Reads a JSON reply.
pub fn read_json_reply(body: &Vec<u8>) -> (r: Result<JsonReply, ApiError>)
    ensures
        reply_outcome(r) == Some(
            json_outcome(
                json_string_member(body@, "url"@),
                json_string_member(body@, "audio"@),
                decoded_audio(body@),
                json_compact_text(body@),
            ),
        ),
        reply_outcome(r) == Some(JsonOutcome::BadJson) <==> json_compact_text(body@) is None,
{
    let url: Option<Option<String>> = json_member(body.as_slice(), "url").ok();
    let audio: Option<Option<String>> = json_member(body.as_slice(), "audio").ok();
    let decoded: Option<Vec<u8>> = match &audio {
        Some(Some(t)) => base64_decode(t.as_str()).ok(),
        _ => None,
    };
    let whole: Option<String> = json_text(body.as_slice()).ok();
    decide_json_reply(url, audio, decoded, whole)
}

/// The content of what stands under a name.
pub open spec fn member_text(m: Option<Option<String>>) -> Option<Option<Seq<char>>> {
    match m {
        Some(s) => Some(optional_text(s)),
        None => None,
    }
}

/// The content of optional bytes.
pub open spec fn optional_bytes(b: Option<Vec<u8>>) -> Option<Seq<u8>> {
    match b {
        Some(v) => Some(v@),
        None => None,
    }
}

/// Decides on a JSON reply that was taken apart: what stands under `url` and under `audio`, the
/// bytes that the latter stands for, and the whole text.
pub fn decide_json_reply(
    url: Option<Option<String>>,
    audio: Option<Option<String>>,
    decoded: Option<Vec<u8>>,
    whole: Option<String>,
) -> (r: Result<JsonReply, ApiError>)
    ensures
        reply_outcome(r) == Some(
            json_outcome(
                member_text(url),
                member_text(audio),
                optional_bytes(decoded),
                optional_text(whole),
            ),
        ),
{
    match url {
        None => Err(ApiError::BadJson),
        Some(Some(u)) => Ok(JsonReply::Download(u)),
        Some(None) => match audio {
            None => Err(ApiError::BadJson),
            Some(Some(_)) => match decoded {
                Some(b) => Ok(JsonReply::Audio(b)),
                None => Err(ApiError::BadBase64),
            },
            Some(None) => match whole {
                Some(t) => Err(ApiError::NoAudio(t)),
                None => Err(ApiError::BadJson),
            },
        },
    }
}

/// The message of a refusal.
pub open spec fn refusal_text(status: Seq<char>, body: Seq<char>) -> Seq<char> {
    "API 请求失败: "@ + status + " - "@ + body
}

impl ApiError {
    /// The text shown to the user.
    pub open spec fn message_text(&self) -> Seq<char> {
        match self {
            ApiError::Unreadable(place) => "无法读取音频文件: "@ + place@,
            ApiError::NotSent => "发送 API 请求失败"@,
            ApiError::Refused { status, body } => refusal_text(status@, body@),
            ApiError::BadJson => "解析 JSON 响应失败"@,
            ApiError::BadBase64 => "解码 base64 音频数据失败"@,
            ApiError::NoAudio(t) => "JSON 响应中未找到音频数据: "@ + t@,
            ApiError::NotFetched => "下载音频文件失败"@,
            ApiError::FetchUnread => "读取音频数据失败"@,
            ApiError::ReplyUnread => "读取响应数据失败"@,
        }
    }

    /// The text shown to the user.
    pub fn message(&self) -> (r: String)
        ensures
            r@ == self.message_text(),
    {
        match self {
            ApiError::Unreadable(place) => {
                let mut r = "无法读取音频文件: ".to_string();
                r.append(place.as_str());
                r
            },
            ApiError::NotSent => "发送 API 请求失败".to_string(),
            ApiError::Refused { status, body } => {
                let mut r = "API 请求失败: ".to_string();
                r.append(status.as_str());
                r.append(" - ");
                r.append(body.as_str());
                r
            },
            ApiError::BadJson => "解析 JSON 响应失败".to_string(),
            ApiError::BadBase64 => "解码 base64 音频数据失败".to_string(),
            ApiError::NoAudio(t) => {
                let mut r = "JSON 响应中未找到音频数据: ".to_string();
                r.append(t.as_str());
                r
            },
            ApiError::NotFetched => "下载音频文件失败".to_string(),
            ApiError::FetchUnread => "读取音频数据失败".to_string(),
            ApiError::ReplyUnread => "读取响应数据失败".to_string(),
        }
    }
}

// ---------------------------------------------------------------------------
// The exchange
// ---------------------------------------------------------------------------

/// What is awaited.
#[derive(Debug)]
pub enum ApiStage {
    /// The head of the reply to the request.
    Sending,
    /// What a refusal with this status says.
    ReadingRefusal { status: String },
    /// The body of a JSON reply.
    ReadingJson,
    /// The sound in the reply.
    ReadingAudio,
    /// The head of the reply from where the sound is.
    Fetching,
    /// The sound from there.
    ReadingFetched,
    /// Nothing.
    Ended,
}

/// What happened.
#[derive(Debug)]
pub enum ApiEvent {
    /// The head of a reply.
    Head { success: bool, status: String, content_type: Option<String> },
    /// The text of a refusal.
    Text(String),
    /// The body of a reply.
    Body(Vec<u8>),
    /// What was to be done failed.
    Failed,
}

/// What is to be done next.
#[derive(Debug)]
pub enum ApiAction {
    /// Read the reply as a text.
    ReadText,
    /// Read the body of the reply.
    ReadBody,
    /// Send a request to this address.
    Fetch(String),
    /// This is the sound.
    Deliver(Vec<u8>),
    /// There is no sound.
    Fail(ApiError),
}

impl ApiStage {
    /// Something like this can happen now.
    pub open spec fn expects(&self, event: ApiEvent) -> bool {
        match self {
            ApiStage::Sending => event is Head || event is Failed,
            ApiStage::ReadingRefusal { .. } => event is Text || event is Failed,
            ApiStage::ReadingJson => event is Body || event is Failed,
            ApiStage::ReadingAudio => event is Body || event is Failed,
            ApiStage::Fetching => event is Head || event is Failed,
            ApiStage::ReadingFetched => event is Body || event is Failed,
            ApiStage::Ended => false,
        }
    }

    /// An upper bound on the number of steps that are left.
    pub open spec fn steps_left(&self) -> int {
        match self {
            ApiStage::Sending => 4,
            ApiStage::ReadingJson => 3,
            ApiStage::Fetching => 2,
            ApiStage::ReadingRefusal { .. } => 1,
            ApiStage::ReadingAudio => 1,
            ApiStage::ReadingFetched => 1,
            ApiStage::Ended => 0,
        }
    }

    /// The exchange is over without a sound, for a reason.
    pub open spec fn ends_with(post: ApiStage, action: ApiAction, message: Seq<char>) -> bool {
        &&& post is Ended
        &&& action matches ApiAction::Fail(e) && e.message_text() == message
    }

    /// The exchange is over, with a sound.
    pub open spec fn delivers(post: ApiStage, action: ApiAction, audio: Seq<u8>) -> bool {
        &&& post is Ended
        &&& action matches ApiAction::Deliver(b) && b@ == audio
    }

    /// What a JSON reply leads to.
    pub open spec fn json_read(o: JsonOutcome, post: ApiStage, action: ApiAction) -> bool {
        match o {
            JsonOutcome::Download(url) => {
                &&& post is Fetching
                &&& action matches ApiAction::Fetch(u) && u@ == url
            },
            JsonOutcome::Audio(b) => ApiStage::delivers(post, action, b),
            JsonOutcome::BadJson => ApiStage::ends_with(post, action, "解析 JSON 响应失败"@),
            JsonOutcome::BadBase64 => ApiStage::ends_with(post, action, "解码 base64 音频数据失败"@),
            JsonOutcome::NoAudio(t) => ApiStage::ends_with(
                post,
                action,
                "JSON 响应中未找到音频数据: "@ + t,
            ),
        }
    }

    /// What a step does.
    pub open spec fn stepped(&self, event: ApiEvent, post: ApiStage, action: ApiAction) -> bool {
        match (*self, event) {
            (ApiStage::Sending, ApiEvent::Head { success, status, content_type }) => match reply_kind(
                success,
                optional_text(content_type),
            ) {
                ReplyKind::Refusal => {
                    &&& post matches ApiStage::ReadingRefusal { status: s } && s@ == status@
                    &&& action == ApiAction::ReadText
                },
                ReplyKind::Json => post is ReadingJson && action == ApiAction::ReadBody,
                ReplyKind::Audio => post is ReadingAudio && action == ApiAction::ReadBody,
            },
            (ApiStage::Sending, _) => ApiStage::ends_with(post, action, "发送 API 请求失败"@),
            (ApiStage::ReadingRefusal { status }, ApiEvent::Text(body)) => ApiStage::ends_with(
                post,
                action,
                refusal_text(status@, body@),
            ),
            (ApiStage::ReadingRefusal { status }, _) => ApiStage::ends_with(
                post,
                action,
                refusal_text(status@, ""@),
            ),
            (ApiStage::ReadingJson, ApiEvent::Body(body)) => ApiStage::json_read(
                json_outcome(
                    json_string_member(body@, "url"@),
                    json_string_member(body@, "audio"@),
                    decoded_audio(body@),
                    json_compact_text(body@),
                ),
                post,
                action,
            ),
            (ApiStage::ReadingJson, _) => ApiStage::ends_with(post, action, "解析 JSON 响应失败"@),
            (ApiStage::ReadingAudio, ApiEvent::Body(body)) => ApiStage::delivers(post, action, body@),
            (ApiStage::ReadingAudio, _) => ApiStage::ends_with(post, action, "读取响应数据失败"@),
            (ApiStage::Fetching, ApiEvent::Head { .. }) => {
                &&& post is ReadingFetched
                &&& action == ApiAction::ReadBody
            },
            (ApiStage::Fetching, _) => ApiStage::ends_with(post, action, "下载音频文件失败"@),
            (ApiStage::ReadingFetched, ApiEvent::Body(body)) => ApiStage::delivers(
                post,
                action,
                body@,
            ),
            (ApiStage::ReadingFetched, _) => ApiStage::ends_with(post, action, "读取音频数据失败"@),
            (ApiStage::Ended, _) => true,
        }
    }

}

/// A request on its way.
#[derive(Debug)]
pub struct Exchange {
    stage: ApiStage,
}

impl View for Exchange {
    type V = ApiStage;

    closed spec fn view(&self) -> ApiStage {
        self.stage
    }
}

impl Exchange {
    /// Goes on after something has happened.
    pub fn step(&mut self, event: ApiEvent) -> (action: ApiAction)
        requires
            old(self)@.expects(event),
        ensures
            old(self)@.stepped(event, final(self)@, action),
            final(self)@.steps_left() < old(self)@.steps_left(),
            action is Deliver || action is Fail <==> final(self)@ is Ended,
    {
        let mut stage = ApiStage::Ended;
        std::mem::swap(&mut stage, &mut self.stage);
        match (stage, event) {
            (ApiStage::Sending, ApiEvent::Head { success, status, content_type }) => {
                let kind = match &content_type {
                    Some(t) => classify_reply(success, Some(t.as_str())),
                    None => classify_reply(success, None),
                };
                match kind {
                    ReplyKind::Refusal => {
                        self.stage = ApiStage::ReadingRefusal { status };
                        ApiAction::ReadText
                    },
                    ReplyKind::Json => {
                        self.stage = ApiStage::ReadingJson;
                        ApiAction::ReadBody
                    },
                    ReplyKind::Audio => {
                        self.stage = ApiStage::ReadingAudio;
                        ApiAction::ReadBody
                    },
                }
            },
            (ApiStage::Sending, _) => ApiAction::Fail(ApiError::NotSent),
            (ApiStage::ReadingRefusal { status }, ApiEvent::Text(body)) => ApiAction::Fail(
                ApiError::Refused { status, body },
            ),
            (ApiStage::ReadingRefusal { status }, _) => ApiAction::Fail(
                ApiError::Refused { status, body: "".to_string() },
            ),
            (ApiStage::ReadingJson, ApiEvent::Body(body)) => match read_json_reply(&body) {
                Ok(JsonReply::Download(url)) => {
                    self.stage = ApiStage::Fetching;
                    ApiAction::Fetch(url)
                },
                Ok(JsonReply::Audio(b)) => ApiAction::Deliver(b),
                Err(e) => ApiAction::Fail(e),
            },
            (ApiStage::ReadingJson, _) => ApiAction::Fail(ApiError::BadJson),
            (ApiStage::ReadingAudio, ApiEvent::Body(body)) => ApiAction::Deliver(body),
            (ApiStage::ReadingAudio, _) => ApiAction::Fail(ApiError::ReplyUnread),
            (ApiStage::Fetching, ApiEvent::Head { .. }) => {
                self.stage = ApiStage::ReadingFetched;
                ApiAction::ReadBody
            },
            (ApiStage::Fetching, _) => ApiAction::Fail(ApiError::NotFetched),
            (ApiStage::ReadingFetched, ApiEvent::Body(body)) => ApiAction::Deliver(body),
            (ApiStage::ReadingFetched, _) => ApiAction::Fail(ApiError::FetchUnread),
            (ApiStage::Ended, _) => ApiAction::Fail(ApiError::NotSent),
        }
    }
}

// ---------------------------------------------------------------------------
// Laws
// ---------------------------------------------------------------------------

/// A refusal with status 429 or a 5xx status is taken for one for load, whatever it says.
pub proof fn law_overload_is_recognised(status: Seq<char>, body: Seq<char>)
    requires
        occurs_at("429"@, status, 0) || occurs_at("5"@, status, 0),
    ensures
        overloaded(refusal_text(status, body)),
{
    lemma_refusal(status, body, "429"@);
    lemma_refusal(status, body, "5"@);
}

/// A refusal with another 4xx status is taken for a refused request, whatever it says.
pub proof fn law_refused_request_is_recognised(status: Seq<char>, body: Seq<char>)
    requires
        occurs_at("4"@, status, 0),
        !occurs_at("429"@, status, 0),
    ensures
        refused(refusal_text(status, body)),
{
    reveal_strlit("4");
    reveal_strlit("5");
    reveal_strlit("429");
    lemma_refusal(status, body, "4"@);
    lemma_refusal(status, body, "429"@);
    lemma_refusal(status, body, "5"@);
    reveal_strlit(" - ");
    assert(status.subrange(0, 1)[0] == '4');
    let whole = refusal_text(status, body);
    let n = refusal_head().len() as int;
    if status.len() < 3 && status_begins(whole, "429"@) {
        assert(whole.subrange(n, n + 3)[1] == '2');
        assert(whole.subrange(n, n + 3)[2] == '9');
        assert(whole[n + status.len()] == ' ');
    }
    if occurs_at("5"@, status, 0) {
        assert(status.subrange(0, 1)[0] == '5');
    }
}

/// The message of a refusal is one, and shows the beginning of its status.
proof fn lemma_refusal(status: Seq<char>, body: Seq<char>, digits: Seq<char>)
    ensures
        is_refusal(refusal_text(status, body)),
        digits.len() <= status.len() ==> (status_begins(refusal_text(status, body), digits)
            <==> occurs_at(digits, status, 0)),
{
    let head = refusal_head();
    let n = head.len() as int;
    let whole = refusal_text(status, body);
    assert(whole.subrange(0, n) =~= head);
    if digits.len() <= status.len() {
        assert(whole.subrange(n, n + digits.len()) =~= status.subrange(0, digits.len() as int));
    }
}

} // verus!
