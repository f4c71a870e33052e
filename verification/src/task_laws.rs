//! What tasks are made of, how long they wait, and what an attempt does.
use vstd::prelude::*;
use crate::api::refusal_text;
use crate::api::{law_overload_is_recognised, law_refused_request_is_recognised};
use crate::commands::{is_numbered, number_in};
use crate::executor::{ActionModel, AttemptState, ExecutorState, TaskEvent, TaskStage};
use crate::metrics::{newest, WINDOW};
use crate::numeral_laws::{law_numerals_are_read_back, no_leading_zero};
use crate::srt::EntryModel;
use crate::task::{backoff, overloaded, planned, refused, task_of, two_to, TaskModel};
use crate::text::{blank, decimal, joined, occurs, occurs_at};

verus! {

// ---------------------------------------------------------------------------
// Waits
// ---------------------------------------------------------------------------

/// The smaller one of two numbers.
pub open spec fn at_most(a: int, most: int) -> int {
    if a < most {
        a
    } else {
        most
    }
}

/// Waits double after every failed attempt: from two seconds to thirty where there is too much load,
/// and from one second to thirty-two otherwise. A request that was refused is tried again after half
/// a second, however often.
pub proof fn law_waits_double(msg: Seq<char>, attempt: int)
    requires
        attempt >= 1,
    ensures
        overloaded(msg) ==> {
            &&& backoff(msg, 1) == 2000
            &&& backoff(msg, attempt + 1) == at_most(2 * backoff(msg, attempt), 30_000)
        },
        refused(msg) ==> backoff(msg, attempt) == 500,
        !overloaded(msg) && !refused(msg) ==> {
            &&& backoff(msg, 1) == 1000
            &&& backoff(msg, attempt + 1) == at_most(2 * backoff(msg, attempt), 32_000)
        },
{
    reveal_with_fuel(two_to, 6);
}

/// A refusal is judged by its status alone: 429 and the 5xx tell of load, the other 4xx of a request
/// that is refused, and any other status of neither.
pub proof fn law_refusals_are_judged_by_their_status(status: Seq<char>, body: Seq<char>)
    requires
        status.len() > 0,
    ensures
        overloaded(refusal_text(status, body)) <==> occurs_at("429"@, status, 0) || status[0] == '5',
        refused(refusal_text(status, body)) <==> !occurs_at("429"@, status, 0) && status[0] == '4',
        refusal_text(status, body) == "API 请求失败: "@ + status + " - "@ + body,
{
    let whole = refusal_text(status, body);
    reveal_strlit("4");
    reveal_strlit("5");
    reveal_strlit("429");
    reveal_strlit(" - ");
    assert(status.subrange(0, 1) =~= seq![status[0]]);
    if status[0] == '5' {
        assert("5"@ =~= seq!['5']);
        assert(occurs_at("5"@, status, 0));
    }
    if occurs_at("429"@, status, 0) || status[0] == '5' {
        law_overload_is_recognised(status, body);
    } else if status[0] == '4' {
        assert("4"@ =~= seq!['4']);
        assert(occurs_at("4"@, status, 0));
        law_refused_request_is_recognised(status, body);
    } else {
        let head = crate::task::refusal_head();
        let n = head.len() as int;
        assert(whole.subrange(0, n) =~= head);
        assert(whole[n] == status[0]);
        if occurs_at("429"@, whole, n) {
            assert(whole.subrange(n, n + 3)[0] == '4');
        }
        if occurs_at("5"@, whole, n) {
            assert(whole.subrange(n, n + 1)[0] == '5');
        }
        if occurs_at("4"@, whole, n) {
            assert(whole.subrange(n, n + 1)[0] == '4');
        }
    }
    if occurs_at("429"@, status, 0) {
        assert(status.subrange(0, 3)[0] == '4');
    }
}

/// Any other message is searched: for 429 and for a number that begins with five, and after that for
/// one that begins with four.
pub proof fn law_other_messages_are_searched(msg: Seq<char>)
    requires
        !"API 请求失败: "@.is_prefix_of(msg),
    ensures
        overloaded(msg) <==> occurs("429"@, msg) || occurs(" 5"@, msg),
        refused(msg) <==> !occurs("429"@, msg) && !occurs(" 5"@, msg) && occurs(" 4"@, msg),
{
    let head = crate::task::refusal_head();
    if occurs_at(head, msg, 0) {
        assert(head =~= msg.subrange(0, head.len() as int));
        assert(head.is_prefix_of(msg));
    }
}

// ---------------------------------------------------------------------------
// Tasks
// ---------------------------------------------------------------------------

/// There is a task for every subtitle that says something, in the order of the subtitles, and there
/// are no others.
pub proof fn law_tasks_are_the_spoken_subtitles(
    entries: Seq<EntryModel>,
    tmp_dir: Seq<char>,
    output_dir: Seq<char>,
)
    ensures
        planned(entries, tmp_dir, output_dir) == entries.filter(
            |e: EntryModel| !blank(e.text),
        ).map_values(|e: EntryModel| task_of(e, tmp_dir, output_dir)),
    decreases entries.len(),
{
    reveal(Seq::filter);
    let keeps = |e: EntryModel| !blank(e.text);
    let makes = |e: EntryModel| task_of(e, tmp_dir, output_dir);
    if entries.len() > 0 {
        law_tasks_are_the_spoken_subtitles(entries.drop_last(), tmp_dir, output_dir);
        let before = entries.drop_last().filter(keeps);
        assert(before.push(entries.last()).map_values(makes) =~= before.map_values(makes).push(
            makes(entries.last()),
        ));
    }
    assert(planned(entries, tmp_dir, output_dir) =~= entries.filter(keeps).map_values(makes));
}

/// A task has the subtitle itself, its part under the subtitle's number in the one directory, and its
/// result under that number in the other.
pub proof fn law_task_files_carry_the_number(
    entry: EntryModel,
    tmp_dir: Seq<char>,
    output_dir: Seq<char>,
) -> (r: (Seq<char>, Seq<char>))
    ensures
        task_of(entry, tmp_dir, output_dir) == (TaskModel {
            entry,
            tmp_audio: joined(tmp_dir, r.0),
            output_path: joined(output_dir, r.1),
        }),
        is_numbered(r.0, ""@, entry.index as int),
        is_numbered(r.1, "synthesized_"@, entry.index as int),
        no_leading_zero(number_in(r.0, ""@)),
        no_leading_zero(number_in(r.1, "synthesized_"@)),
{
    let d = decimal(entry.index as nat);
    let part = ""@ + d + ".wav"@;
    let result = "synthesized_"@ + d + ".wav"@;
    law_numerals_are_read_back(entry.index as nat);
    assert(number_in(part, ""@) =~= d);
    assert(number_in(result, "synthesized_"@) =~= d);
    (part, result)
}

// ---------------------------------------------------------------------------
// Attempts
// ---------------------------------------------------------------------------

/// An attempt has failed for this reason: there is a wait that goes by the reason, or, in the last
/// attempt, the task has failed and says why.
pub open spec fn ends_badly(run: AttemptState, reason: Seq<char>, action: ActionModel) -> bool {
    if run.attempt < run.max_attempts {
        action == ActionModel::Wait(backoff(reason, run.attempt as int))
    } else {
        action == ActionModel::GiveUp(reason)
    }
}

/// What an attempt does, from one event to the next. A part that holds sound is sent, and no other;
/// the sound that came back is saved as it is, unless there is none; a result that is saved is a
/// success; whatever fails is tried again after a wait, and given up for its own reason in the last
/// attempt; after a wait the next attempt looks for its part.
pub proof fn law_what_an_attempt_does(
    pre: ExecutorState,
    run: AttemptState,
    event: TaskEvent,
    post: ExecutorState,
    post_run: AttemptState,
    action: ActionModel,
)
    requires
        pre.inv(),
        run.inv(),
        run.expects(event),
        pre.stepped(&run, event, &post, &post_run, action),
    ensures
        match event {
            TaskEvent::Inspected(Some(n)) => if n > 44 {
                action == ActionModel::Synthesize
            } else if n == 0 {
                ends_badly(run, "音频文件为空: "@ + run.place@, action)
            } else {
                ends_badly(
                    run,
                    "音频文件无效（文件大小: "@ + decimal(n as nat) + " 字节，可能只有文件头）: "@
                        + run.place@,
                    action,
                )
            },
            TaskEvent::Inspected(None) => ends_badly(run, "音频文件不存在: "@ + run.place@, action),
            TaskEvent::Replied { audio, nanos } => if audio@.len() == 0 {
                ends_badly(run, "API 返回的音频数据为空"@, action)
            } else {
                action == ActionModel::Save(audio@)
            },
            TaskEvent::Saved => action == ActionModel::Succeed,
            TaskEvent::Failed(msg) => ends_badly(run, msg@, action),
            TaskEvent::Waited => if run.silent {
                ends_badly(
                    AttemptState { attempt: (run.attempt + 1) as u32, ..run },
                    "文本内容为空，跳过此任务"@,
                    action,
                )
            } else {
                action == ActionModel::Inspect
            },
        },
        post_run.stage == (match action {
            ActionModel::Inspect => TaskStage::Inspecting,
            ActionModel::Synthesize => TaskStage::Synthesizing,
            ActionModel::Save(_) => TaskStage::Saving,
            ActionModel::Wait(_) => TaskStage::Waiting,
            ActionModel::Succeed => TaskStage::Ended,
            ActionModel::GiveUp(_) => TaskStage::Ended,
        }),
{
}

/// A task begins by looking for its part, unless its subtitle says nothing: then the attempt fails at
/// once.
pub proof fn law_how_a_task_begins(
    pre: ExecutorState,
    run: AttemptState,
    post: ExecutorState,
    post_run: AttemptState,
    action: ActionModel,
)
    requires
        pre.attempt_begun(&run, &post, &post_run, action),
    ensures
        !run.silent ==> action == ActionModel::Inspect && post == pre,
        run.silent ==> ends_badly(run, "文本内容为空，跳过此任务"@, action),
{
}

/// What is measured: every reply adds its latency, and nothing else does; of all latencies the newest
/// two hundred are kept.
pub proof fn law_replies_are_measured(
    pre: ExecutorState,
    run: AttemptState,
    event: TaskEvent,
    post: ExecutorState,
    post_run: AttemptState,
    action: ActionModel,
)
    requires
        pre.inv(),
        run.inv(),
        run.expects(event),
        pre.metrics@.latencies.len() <= 200,
        pre.stepped(&run, event, &post, &post_run, action),
    ensures
        !(event is Replied) ==> post.metrics@.latencies == pre.metrics@.latencies,
        event matches TaskEvent::Replied { nanos, .. } ==> {
            let all = pre.metrics@.latencies.push(nanos);
            post.metrics@.latencies == if all.len() <= 200 {
                all
            } else {
                all.drop_first()
            }
        },
{
    if let TaskEvent::Replied { nanos, .. } = event {
        let all = pre.metrics@.latencies.push(nanos);
        assert(newest(all, WINDOW as int) =~= if all.len() <= 200 {
            all
        } else {
            all.drop_first()
        });
    }
}

/// What is set for a run and for a task stays as it is, whatever happens.
pub proof fn law_settings_of_tasks_stay(
    pre: ExecutorState,
    run: AttemptState,
    event: TaskEvent,
    post: ExecutorState,
    post_run: AttemptState,
    action: ActionModel,
)
    requires
        pre.inv(),
        run.inv(),
        run.expects(event),
        pre.stepped(&run, event, &post, &post_run, action),
    ensures
        post.api_client == pre.api_client,
        post.retry_count == pre.retry_count,
        post.rate_limiter == pre.rate_limiter,
        post.refill_millis == pre.refill_millis,
        post.total == pre.total,
        post.finished == pre.finished,
        post_run.silent == run.silent,
        post_run.place == run.place,
        post_run.max_attempts == run.max_attempts,
        !(action is Succeed) && !(action is GiveUp) ==> post.position == pre.position,
{
}

} // verus!
