//! What the web page is told, and what becomes of what it sends.
use vstd::prelude::*;
use vstd::utf8::{decode_utf8, valid_utf8};
use crate::text::{blank, trimmed};
use crate::web::{
    answer, end_messages, info_of, log_line, received, start_text, status_line, subscribed, upload_dir, with_status,
    MessageModel, RuntimeModel, SocketModel, TaskInfo, Upload, UploadModel, UploadState,
};

verus! {

/// A page asks to be told of a task exactly if it says that it subscribes, and names the task.
pub proof fn law_what_a_page_asks_for(
    action: Option<Option<Seq<char>>>,
    task_id: Option<Option<Seq<char>>>,
    id: Seq<char>,
)
    ensures
        subscribed(action, task_id) == Some(id) <==> action == Some(Some("subscribe"@)) && task_id
            == Some(Some(id)),
{
}

/// A page that asks for a task that is known is told its status, and from then on all that is told of
/// it. Nothing is done for any other.
pub proof fn law_what_a_page_is_answered(tasks: Map<Seq<char>, RuntimeModel>, id: Seq<char>)
    ensures
        tasks.contains_key(id) ==> answer(tasks, Some(id)) == SocketModel::Subscribe(
            (MessageModel { task_id: id, msg_type: "status"@, content: tasks[id].status }),
        ),
        !tasks.contains_key(id) ==> answer(tasks, Some(id)) == SocketModel::Ignore,
        answer(tasks, None) == SocketModel::Ignore,
{
}

/// A status is set for a task that is known, and nothing else changes.
pub proof fn law_what_a_status_changes(
    tasks: Map<Seq<char>, RuntimeModel>,
    id: Seq<char>,
    status: Seq<char>,
    other: Seq<char>,
)
    ensures
        with_status(tasks, id, status).contains_key(other) <==> tasks.contains_key(other),
        tasks.contains_key(other) && other != id ==> with_status(tasks, id, status)[other]
            == tasks[other],
        tasks.contains_key(id) ==> {
            let task = with_status(tasks, id, status)[id];
            &&& task.status == status
            &&& task.id == tasks[id].id
            &&& task.name == tasks[id].name
            &&& task.srt == tasks[id].srt
            &&& task.audio == tasks[id].audio
            &&& task.created_at == tasks[id].created_at
        },
{
}

/// What is told of a task is what is known of it.
pub proof fn law_what_is_told_of_a_task(info: TaskInfo, task: RuntimeModel)
    ensures
        info_of(info, task) <==> info.id@ == task.id && info.name@ == task.name && info.status@
            == task.status && info.created_at == task.created_at,
{
}

/// A part of an upload that is a file of subtitles or a recording is saved as it is, unless it is
/// empty or could not be read, in the directory of the task, and is known from then on. A name is
/// taken without the white space at its ends, if it is a text and is not blank. Settings and unknown
/// parts change nothing.
pub proof fn law_what_an_upload_does(u: UploadState, field: Seq<char>, content: Option<Seq<u8>>)
    ensures
        ({
            let (post, action) = received(u, field, content);
            let dir = "tmp/"@ + u.task_id;
            let some = content is Some && content->0.len() > 0;
            let name = content is Some && valid_utf8(content->0) && !blank(decode_utf8(content->0));
            &&& post.task_id == u.task_id
            &&& field == "srt"@ && some ==> post == (UploadState {
                srt: Some(dir + "/input.srt"@),
                ..u
            }) && action == (UploadModel::Save {
                dir,
                path: dir + "/input.srt"@,
                content: content->0,
            })
            &&& field == "audio"@ && some ==> post == (UploadState {
                audio: Some(dir + "/input.audio"@),
                ..u
            }) && action == (UploadModel::Save {
                dir,
                path: dir + "/input.audio"@,
                content: content->0,
            })
            &&& field == "task_name"@ && name ==> post == (UploadState {
                name: trimmed(decode_utf8(content->0)),
                ..u
            })
            &&& field == "task_name"@ && !name ==> post == u
            &&& field == "task_name"@ || field == "config"@ || !some ==> action
                == UploadModel::Skip
            &&& field != "task_name"@ && !some ==> post == u
            &&& field == "config"@ ==> post == u
            &&& field != "task_name"@ && field != "config"@ && field != "srt"@ && field != "audio"@
                && some ==> post == u && action == (UploadModel::MakeDir { dir })
        }),
        upload_dir(u.task_id) == "tmp/"@ + u.task_id,
{
    reveal_strlit("task_name");
    reveal_strlit("config");
    reveal_strlit("srt");
    reveal_strlit("audio");
    assert("task_name"@.len() == 9);
    assert("config"@.len() == 6);
    assert("srt"@.len() == 3);
    assert("audio"@.len() == 5);
}

/// A task can be run exactly if its subtitles and its recording have come.
pub proof fn law_when_a_task_can_be_run(u: Upload)
    ensures
        u.spec_complete() <==> u.srt is Some && u.audio is Some,
{
}

/// What is told when a task starts and when it ends: that it succeeded, or why it failed, and the
/// status that goes with it.
pub proof fn law_what_is_told_of_a_run(id: Seq<char>, srt: Seq<char>, audio: Seq<char>, why: Seq<char>)
    ensures
        start_text(srt, audio) == "任务开始处理 - SRT: "@ + srt + ", 音频: "@ + audio,
        log_line(id, why) == (MessageModel { task_id: id, msg_type: "log"@, content: why }),
        status_line(id, why) == (MessageModel { task_id: id, msg_type: "status"@, content: why }),
        ({
            let told = end_messages(id, Ok(()));
            &&& told.len() == 3
            &&& told[0] == (MessageModel {
                task_id: id,
                msg_type: "log"@,
                content: "✓ 任务完成！"@,
            })
            &&& told[1] == (MessageModel {
                task_id: id,
                msg_type: "status"@,
                content: "completed"@,
            })
            &&& told[2] == (MessageModel { task_id: id, msg_type: "log"@, content: "./output"@ })
        }),
        ({
            let told = end_messages(id, Err(why));
            &&& told.len() == 2
            &&& told[0] == (MessageModel {
                task_id: id,
                msg_type: "log"@,
                content: "✗ 任务失败: "@ + why,
            })
            &&& told[1] == (MessageModel { task_id: id, msg_type: "status"@, content: "error"@ })
        }),
{
}

} // verus!
