//! What values mean: the mathematical content of the types that contracts speak of.
use vstd::prelude::*;
use crate::api::{
    decoded_audio, member_text, optional_bytes, part_models, reply_outcome, ApiError, FormPart, JsonOutcome,
    JsonReply, PartModel,
};
use crate::audio::{entry_times, texts};
use crate::executor::{ActionModel, TaskAction};
use crate::outside::{base64_bytes, json_string_member, optional_text};
use crate::srt::{
    cue_models, cues_outcome, models, outcome, Cue, CueModel, EntryModel, SrtEntry, SrtError, SrtFailure,
};
use crate::task::{job_for, task_models, SegmentJob, Task};
use crate::timed_merge::Outcome;
use crate::validation::numbers;
use crate::web::{message_models, outcome_of, TaskRuntime, Upload, WsMessage};

verus! {

/// A list stands for what its items stand for, item by item.
pub proof fn law_lists_stand_for_their_items(
    strings: Seq<String>,
    entries: Seq<SrtEntry>,
    cues: Seq<Cue>,
    tasks: Seq<Task>,
    parts: Seq<FormPart>,
    messages: Seq<WsMessage>,
    i: int,
)
    ensures
        texts(strings).len() == strings.len(),
        0 <= i < strings.len() ==> texts(strings)[i] == strings[i]@,
        models(entries).len() == entries.len(),
        0 <= i < entries.len() ==> models(entries)[i] == entries[i]@,
        entry_times(entries).len() == entries.len(),
        0 <= i < entries.len() ==> entry_times(entries)[i] == (
            entries[i].start_time,
            entries[i].end_time,
        ),
        cue_models(cues).len() == cues.len(),
        0 <= i < cues.len() ==> cue_models(cues)[i] == cues[i]@,
        task_models(tasks).len() == tasks.len(),
        0 <= i < tasks.len() ==> task_models(tasks)[i] == tasks[i]@,
        part_models(parts).len() == parts.len(),
        0 <= i < parts.len() ==> part_models(parts)[i] == parts[i]@,
        message_models(messages).len() == messages.len(),
        0 <= i < messages.len() ==> message_models(messages)[i] == messages[i]@,
{
}

/// A subtitle, a cue, a task, a message and an upload stand for what is in their fields.
pub proof fn law_values_stand_for_their_fields(
    e: SrtEntry,
    c: Cue,
    t: Task,
    m: WsMessage,
    u: Upload,
    r: TaskRuntime,
)
    ensures
        e@.index == e.index && e@.start == e.start_time && e@.end == e.end_time && e@.text == e.text@,
        c@.num == c.num && c@.start == c.start && c@.end == c.end && c@.text == c.text@,
        t@.entry == t.entry@ && t@.tmp_audio == t.tmp_audio@ && t@.output_path == t.output_path@,
        m@.task_id == m.task_id@ && m@.msg_type == m.msg_type@ && m@.content == m.content@,
        u@.task_id == u.task_id@ && u@.name == u.name@,
        u@.srt == optional_text(u.srt) && u@.audio == optional_text(u.audio),
        r@.id == r.id@ && r@.name == r.name@ && r@.status == r.status@ && r@.created_at
            == r.created_at,
        r@.srt == optional_text(r.files.0) && r@.audio == optional_text(r.files.1),
{
}

/// What may be missing is there exactly if it is given.
pub proof fn law_what_may_be_missing(
    text: Option<String>,
    bytes: Option<Vec<u8>>,
    member: Option<Option<String>>,
    ended: Result<(), String>,
    body: Seq<u8>,
)
    ensures
        text is Some <==> optional_text(text) is Some,
        text is Some ==> optional_text(text) == Some(text->0@),
        bytes is Some <==> optional_bytes(bytes) is Some,
        bytes is Some ==> optional_bytes(bytes) == Some(bytes->0@),
        member is None <==> member_text(member) is None,
        member is Some ==> member_text(member) == Some(optional_text(member->0)),
        ended is Ok ==> outcome_of(ended) == Ok::<(), Seq<char>>(()),
        ended is Err ==> outcome_of(ended) == Err::<(), Seq<char>>(ended->Err_0@),
        json_string_member(body, "audio"@) matches Some(Some(t)) ==> decoded_audio(body)
            == base64_bytes(t),
        !(json_string_member(body, "audio"@) matches Some(Some(t))) ==> decoded_audio(body) is None,
{
}

/// What came of reading stands for what was read, or for why it could not be read.
pub proof fn law_what_came_of_reading(
    cues: Result<Vec<Cue>, String>,
    entries: Result<Vec<SrtEntry>, SrtError>,
    m: String,
)
    ensures
        cues is Ok ==> cues_outcome(cues) == Ok::<Seq<CueModel>, Seq<char>>(
            cue_models(cues->Ok_0@),
        ),
        cues is Err ==> cues_outcome(cues) == Err::<Seq<CueModel>, Seq<char>>(cues->Err_0@),
        entries is Ok ==> outcome(entries) == Ok::<Seq<EntryModel>, SrtFailure>(
            models(entries->Ok_0@),
        ),
        entries is Err ==> outcome(entries) == Err::<Seq<EntryModel>, SrtFailure>(
            entries->Err_0@,
        ),
        SrtError::Malformed(m)@ == SrtFailure::Malformed(m@),
        SrtError::NoEntries@ == SrtFailure::NoEntries,
        SrtError::InvalidInterval@ == SrtFailure::InvalidInterval,
        SrtError::Malformed(m).message_text() == "解析 SRT 文件失败: "@ + m@,
        SrtError::NoEntries.message_text() == "未找到有效的 SRT 条目"@,
        SrtError::InvalidInterval.message_text() == "字幕时间区间无效 (开始时间应早于结束时间)"@,
{
}

/// Actions, forms and replies stand for what they hold.
pub proof fn law_actions_stand_for_what_they_hold(
    bytes: Vec<u8>,
    ms: u64,
    s: String,
    name: String,
    file_name: String,
    mime: String,
)
    ensures
        TaskAction::Inspect@ == ActionModel::Inspect,
        TaskAction::Synthesize@ == ActionModel::Synthesize,
        TaskAction::Save(bytes)@ == ActionModel::Save(bytes@),
        TaskAction::Wait(ms)@ == ActionModel::Wait(ms as int),
        TaskAction::Succeed@ == ActionModel::Succeed,
        TaskAction::GiveUp(s)@ == ActionModel::GiveUp(s@),
        (FormPart::Text { name, value: s })@ == (PartModel::Text { name: name@, value: s@ }),
        (FormPart::File { name, file_name, mime, content: bytes })@ == (PartModel::File {
            name: name@,
            file_name: file_name@,
            mime: mime@,
            content: bytes@,
        }),
        reply_outcome(Ok(JsonReply::Download(s))) == Some(JsonOutcome::Download(s@)),
        reply_outcome(Ok(JsonReply::Audio(bytes))) == Some(JsonOutcome::Audio(bytes@)),
        reply_outcome(Err(ApiError::BadJson)) == Some(JsonOutcome::BadJson),
        reply_outcome(Err(ApiError::BadBase64)) == Some(JsonOutcome::BadBase64),
        reply_outcome(Err(ApiError::NoAudio(s))) == Some(JsonOutcome::NoAudio(s@)),
{
}

/// A part is cut out for its task: with the times of the subtitle, into the file of the task.
pub proof fn law_parts_are_cut_out_for_their_tasks(job: SegmentJob, task: Task)
    ensures
        job_for(job, task) <==> job.index == task.entry.index && job.start_time
            == task.entry.start_time && job.end_time == task.entry.end_time && job.tmp_audio@
            == task.tmp_audio@,
{
}

/// A tool gave a length exactly if it says so.
pub proof fn law_lengths_are_what_tools_gave(o: Outcome)
    ensures
        o matches Outcome::Length(n) ==> o.spec_length() == Some(n as int)
            && o.spec_length_or_zero() == n,
        !(o is Length) ==> o.spec_length() is None && o.spec_length_or_zero() == 0,
{
}

/// All tasks are those numbered from zero on.
pub proof fn law_all_tasks_are_numbered_from_zero(n: int, i: int)
    requires
        0 <= n <= usize::MAX,
    ensures
        numbers(n).len() == n,
        0 <= i < n ==> numbers(n)[i] == i,
{
}

} // verus!
