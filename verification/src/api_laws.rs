//! What a request carries, and what becomes of every reply.
use vstd::prelude::*;
use crate::api::{
    file_field, form, json_outcome, reply_kind, text_field, ApiAction, ApiClient, ApiError, ApiEvent, ApiStage,
    AudioFile, JsonOutcome, PartModel,
};
use crate::outside::{base64_bytes, json_compact_text, json_string_member, optional_text};
use crate::text::{occurs, without_trailing_slashes};
use crate::text_laws::law_slashes_are_taken_away;

verus! {

// ---------------------------------------------------------------------------
// The request
// ---------------------------------------------------------------------------

/// Requests go to the service at its address, however many slashes the address ends with.
pub proof fn law_requests_go_to_the_service(client: ApiClient, address: Seq<char>, slashes: Seq<char>)
    requires
        client.base_url@ == address + slashes,
        address.len() > 0 ==> address.last() != '/',
        forall|i: int| 0 <= i < slashes.len() ==> #[trigger] slashes[i] == '/',
    ensures
        client.spec_endpoint() == address + "/synthesize"@,
{
    let s = client.base_url@;
    let r = without_trailing_slashes(s);
    law_slashes_are_taken_away(s);
    assert(r =~= s.take(r.len() as int));
    if r.len() < address.len() {
        assert(s[address.len() - 1] == '/');
        assert(s[address.len() - 1] == address.last());
    } else if r.len() > address.len() {
        assert(r.last() == s[r.len() - 1]);
        assert(s[r.len() - 1] == slashes[r.len() - 1 - address.len()]);
    }
    assert(r =~= address);
}

/// One if there is something, and else zero.
pub open spec fn one_if<T>(o: Option<T>) -> nat {
    if o is Some {
        1
    } else {
        0
    }
}

/// The part is a sound file with this name and this content; where the file has no name of its own, it
/// is sent under the one given.
pub open spec fn carries(p: PartModel, name: Seq<char>, file: AudioFile, unnamed: Seq<char>) -> bool {
    p matches PartModel::File { name: n, file_name, mime, content } && n == name && mime == "audio/wav"@
        && content == file.content@ && file_name == (if file.file_name is Some {
        file.file_name->0@
    } else {
        unnamed
    })
}

/// The part is a text with this name.
pub open spec fn says(p: PartModel, name: Seq<char>, value: Seq<char>) -> bool {
    p == (PartModel::Text { name, value })
}

/// A request carries what is to be said and everything that is given, each once and under its name,
/// and nothing else.
pub proof fn law_a_request_carries_what_is_given(
    text: Seq<char>,
    speaker: Option<AudioFile>,
    emotion: Option<AudioFile>,
    prompt: Option<Seq<char>>,
    factor: Option<Seq<char>>,
    duration: Option<Seq<char>>,
)
    ensures
        ({
            let f = form(text, speaker, emotion, prompt, factor, duration);
            let at_duration = 1 + one_if(factor);
            let at_prompt = at_duration + one_if(duration);
            let at_speaker = at_prompt + one_if(prompt);
            let at_emotion = at_speaker + one_if(speaker);
            &&& f.len() == at_emotion + one_if(emotion)
            &&& says(f[0], "text"@, text)
            &&& factor is Some ==> says(f[1], "duration_factor"@, factor->0)
            &&& duration is Some ==> says(f[at_duration as int], "target_duration"@, duration->0)
            &&& prompt is Some ==> says(f[at_prompt as int], "prompt_audio"@, prompt->0)
            &&& speaker is Some ==> carries(
                f[at_speaker as int],
                "speaker_audio"@,
                speaker->0,
                "speaker_audio.wav"@,
            )
            &&& emotion is Some ==> carries(
                f[at_emotion as int],
                "emotion_audio"@,
                emotion->0,
                "emotion_audio.wav"@,
            )
        }),
{
    let f = form(text, speaker, emotion, prompt, factor, duration);
    let a = text_field("text"@, Some(text));
    let b = text_field("duration_factor"@, factor);
    let c = text_field("target_duration"@, duration);
    let d = text_field("prompt_audio"@, prompt);
    let e = file_field("speaker_audio"@, speaker, "speaker_audio.wav"@);
    let g = file_field("emotion_audio"@, emotion, "emotion_audio.wav"@);
    assert(f == a + b + c + d + e + g);
    assert(b.len() == one_if(factor));
    assert(c.len() == one_if(duration));
    assert(d.len() == one_if(prompt));
    assert(e.len() == one_if(speaker));
    assert(g.len() == one_if(emotion));
    assert(f[0] == a[0]);
    if factor is Some {
        assert(f[1] == b[0]);
    }
    if duration is Some {
        assert(f[(1 + b.len()) as int] == c[0]);
    }
    if prompt is Some {
        assert(f[(1 + b.len() + c.len()) as int] == d[0]);
    }
    if speaker is Some {
        assert(f[(1 + b.len() + c.len() + d.len()) as int] == e[0]);
    }
    if emotion is Some {
        assert(f[(1 + b.len() + c.len() + d.len() + e.len()) as int] == g[0]);
    }
}

// ---------------------------------------------------------------------------
// The reply
// ---------------------------------------------------------------------------

/// A reply is a refusal exactly if it does not report success. A successful one is read as JSON
/// exactly if its content type holds `application/json`, and as the sound itself with every other
/// content type and without one.
pub proof fn law_replies_are_told_apart(success: bool, content_type: Option<Seq<char>>)
    ensures
        reply_kind(success, content_type) is Refusal <==> !success,
        reply_kind(success, content_type) is Json <==> success && content_type is Some && occurs(
            "application/json"@,
            content_type->0,
        ),
        reply_kind(success, content_type) is Audio <==> success && (content_type is None || !occurs(
            "application/json"@,
            content_type->0,
        )),
{
}

/// The sound of a successful reply that is not JSON is delivered as it was sent.
pub proof fn law_a_sound_is_delivered_as_it_was_sent(
    status: String,
    content_type: Option<String>,
    body: Vec<u8>,
    mid: ApiStage,
    first: ApiAction,
    post: ApiStage,
    second: ApiAction,
)
    requires
        content_type is None || !occurs("application/json"@, content_type->0@),
        ApiStage::Sending.stepped(
            (ApiEvent::Head { success: true, status, content_type }),
            mid,
            first,
        ),
        mid.stepped(ApiEvent::Body(body), post, second),
    ensures
        first is ReadBody,
        second matches ApiAction::Deliver(sound) && sound@ == body@,
        post is Ended,
{
}

/// A successful reply in JSON leads to the sound: one that holds an address has the sound fetched from
/// there and delivered as it was sent, whatever the reply from there reports; one that holds the sound
/// itself has it decoded and delivered.
pub proof fn law_a_json_reply_leads_to_the_sound(
    status: String,
    content_type: String,
    json: Vec<u8>,
    head: ApiEvent,
    body: Vec<u8>,
    s1: ApiStage,
    a1: ApiAction,
    s2: ApiStage,
    a2: ApiAction,
    s3: ApiStage,
    a3: ApiAction,
    s4: ApiStage,
    a4: ApiAction,
)
    requires
        occurs("application/json"@, content_type@),
        head is Head,
        ApiStage::Sending.stepped(
            (ApiEvent::Head { success: true, status, content_type: Some(content_type) }),
            s1,
            a1,
        ),
        s1.stepped(ApiEvent::Body(json), s2, a2),
        s2.stepped(head, s3, a3),
        s3.stepped(ApiEvent::Body(body), s4, a4),
    ensures
        a1 is ReadBody,
        json_string_member(json@, "url"@) matches Some(Some(u)) ==> {
            &&& a2 matches ApiAction::Fetch(address) && address@ == u
            &&& a3 is ReadBody
            &&& a4 matches ApiAction::Deliver(sound) && sound@ == body@
        },
        json_string_member(json@, "url"@) == Some(None::<Seq<char>>) ==> match json_string_member(
            json@,
            "audio"@,
        ) {
            Some(Some(t)) => match base64_bytes(t) {
                Some(b) => a2 matches ApiAction::Deliver(sound) && sound@ == b,
                None => a2 matches ApiAction::Fail(e) && e.message_text()
                    == "解码 base64 音频数据失败"@,
            },
            Some(None) => match json_compact_text(json@) {
                Some(t) => a2 matches ApiAction::Fail(e) && e.message_text()
                    == "JSON 响应中未找到音频数据: "@ + t,
                None => a2 matches ApiAction::Fail(e) && e.message_text() == "解析 JSON 响应失败"@,
            },
            None => a2 matches ApiAction::Fail(e) && e.message_text() == "解析 JSON 响应失败"@,
        },
        json_string_member(json@, "url"@) is None ==> (a2 matches ApiAction::Fail(e)
            && e.message_text() == "解析 JSON 响应失败"@),
{
    assert(optional_text(Some(content_type)) == Some(content_type@));
}

/// What a JSON reply leads to depends on its address first, and on the sound in it only where there is
/// no address.
pub proof fn law_addresses_go_first(
    url: Option<Option<Seq<char>>>,
    audio: Option<Option<Seq<char>>>,
    decoded: Option<Seq<u8>>,
    whole: Option<Seq<char>>,
)
    ensures
        forall|u: Seq<char>|
            json_outcome(url, audio, decoded, whole) == JsonOutcome::Download(u) <==> url == Some(
                Some(u),
            ),
        forall|b: Seq<u8>|
            json_outcome(url, audio, decoded, whole) == JsonOutcome::Audio(b) <==> {
                &&& url == Some(None::<Seq<char>>)
                &&& audio is Some && audio->0 is Some
                &&& decoded == Some(b)
            },
        json_outcome(url, audio, decoded, whole) is BadBase64 <==> {
            &&& url == Some(None::<Seq<char>>)
            &&& audio is Some && audio->0 is Some
            &&& decoded is None
        },
        forall|t: Seq<char>|
            json_outcome(url, audio, decoded, whole) == JsonOutcome::NoAudio(t) <==> {
                &&& url == Some(None::<Seq<char>>)
                &&& audio == Some(None::<Seq<char>>)
                &&& whole == Some(t)
            },
{
}

/// A refusal is told with its status and with what it says; one that cannot be read says nothing.
pub proof fn law_refusals_are_told(
    status: String,
    content_type: Option<String>,
    event: ApiEvent,
    mid: ApiStage,
    first: ApiAction,
    post: ApiStage,
    second: ApiAction,
)
    requires
        ApiStage::Sending.stepped(
            (ApiEvent::Head { success: false, status, content_type }),
            mid,
            first,
        ),
        event is Text || event is Failed,
        mid.stepped(event, post, second),
    ensures
        first is ReadText,
        post is Ended,
        second matches ApiAction::Fail(e) && e.message_text() == "API 请求失败: "@ + status@ + " - "@ + (
        if event is Text {
            event->Text_0@
        } else {
            ""@
        }),
{
}

/// Work that fails ends the exchange with a reason that tells what failed.
pub proof fn law_failures_of_an_exchange_are_told(pre: ApiStage, post: ApiStage, action: ApiAction)
    requires
        pre.stepped(ApiEvent::Failed, post, action),
        !(pre is Ended),
        !(pre is ReadingRefusal),
    ensures
        post is Ended,
        action matches ApiAction::Fail(e) && e.message_text() == (match pre {
            ApiStage::Sending => "发送 API 请求失败"@,
            ApiStage::ReadingJson => "解析 JSON 响应失败"@,
            ApiStage::ReadingAudio => "读取响应数据失败"@,
            ApiStage::Fetching => "下载音频文件失败"@,
            _ => "读取音频数据失败"@,
        }),
{
}

/// Every reason why there is no sound has its text, with what it is about.
pub proof fn law_reasons_of_the_service_are_told(place: String, status: String, body: String)
    ensures
        ApiError::Unreadable(place).message_text() == "无法读取音频文件: "@ + place@,
        ApiError::NotSent.message_text() == "发送 API 请求失败"@,
        (ApiError::Refused { status, body }).message_text() == "API 请求失败: "@ + status@ + " - "@
            + body@,
        ApiError::BadJson.message_text() == "解析 JSON 响应失败"@,
        ApiError::BadBase64.message_text() == "解码 base64 音频数据失败"@,
        ApiError::NoAudio(body).message_text() == "JSON 响应中未找到音频数据: "@ + body@,
        ApiError::NotFetched.message_text() == "下载音频文件失败"@,
        ApiError::FetchUnread.message_text() == "读取音频数据失败"@,
        ApiError::ReplyUnread.message_text() == "读取响应数据失败"@,
{
}

} // verus!
