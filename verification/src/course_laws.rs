//! What a run does from one piece of work to the next, and what it joins, reports and shows.
use vstd::prelude::*;
use crate::cli::{CliActionModel, CliEvent, CliStage, CliState, Flow};
use crate::display::{bar, clipped, entry_text, fitted_places, fitting_text, repeated, signed};
use crate::numeral_laws::{
    is_numeral, law_numerals_are_read_back, law_thousandths_are_read_back, units,
};
use crate::outside::optional_text;
use crate::pipeline::{
    entries_of, in_key_order, joined_tasks, law_joined_in_order, mode, results_of, skip_text, task_keys, unfinished,
    usable, Mode, ModeError,
};
use crate::report::{failed_tasks, failure_lines, failure_text};
use crate::srt::EntryModel;
use crate::task::{segment_warning_text, Task};
use crate::text::{decimal, fixed3, shortest_signed, trimmed};
use crate::timed_merge::{clip_progress, end_progress, MergeAction, MergeState, Source};

verus! {

// ---------------------------------------------------------------------------
// What is asked for
// ---------------------------------------------------------------------------

/// A run that is to be taken up again needs its subtitles, whatever else is given. The web page is
/// served where it is asked for, and where there are no files. A new run needs a recording and
/// subtitles, and what is missing is told, the recording first.
pub proof fn law_what_the_program_does(
    resume: Option<String>,
    webui: bool,
    audio: Option<String>,
    srt: Option<String>,
)
    ensures
        ({
            let r = mode(resume, webui, audio, srt);
            let alone = resume is None && !webui;
            &&& resume is Some && srt is Some ==> r == Ok::<Mode, ModeError>(
                (Mode::Resume { id: resume->0, srt: srt->0, recording: audio }),
            )
            &&& resume is Some && srt is None ==> r == Err::<Mode, ModeError>(
                ModeError::ResumeWithoutSrt,
            )
            &&& resume is None && webui ==> r == Ok::<Mode, ModeError>(Mode::WebUi)
            &&& alone && audio is None && srt is None ==> r == Ok::<Mode, ModeError>(Mode::WebUi)
            &&& alone && audio is Some && srt is Some ==> r == Ok::<Mode, ModeError>(
                (Mode::Run { audio: audio->0, srt: srt->0 }),
            )
            &&& alone && audio is None && srt is Some ==> r == Err::<Mode, ModeError>(
                ModeError::NoAudio,
            )
            &&& alone && audio is Some && srt is None ==> r == Err::<Mode, ModeError>(
                ModeError::NoSrt,
            )
        }),
        ModeError::ResumeWithoutSrt.message_text() == "恢复任务必须提供 SRT 文件路径 (-s/--srt)"@,
        ModeError::NoAudio.message_text() == "必须提供音频文件路径 (-a/--audio)"@,
        ModeError::NoSrt.message_text() == "必须提供 SRT 文件路径 (-s/--srt)"@,
{
}

// ---------------------------------------------------------------------------
// The course of a run
// ---------------------------------------------------------------------------

/// What follows when a piece of work is done. A new run checks its tool, makes its directories, reads
/// its subtitles, cuts the recording up, carries the tasks out and validates the results. One that is
/// taken up again looks for its parts, and after reading its subtitles for what is left to do. Then
/// results are collected and joined, and once more in the time of their subtitles, if the recording is
/// there. At the end failures are told, parts are removed, and the run ends.
pub proof fn law_the_course_of_a_run(
    pre: CliState,
    place: Seq<char>,
    post: CliState,
    action: CliActionModel,
)
    requires
        pre.inv(),
        pre.expects(CliEvent::Done),
        pre.stepped(CliEvent::Done, place, &post, action),
    ensures
        post.flow == pre.flow,
        post.failure == pre.failure,
        match pre.stage {
            CliStage::CheckingTool | CliStage::FindingParts => action is MakeDirs && post.stage
                == CliStage::MakingDirs,
            CliStage::MakingDirs => action is Parse && post.stage == CliStage::Parsing,
            CliStage::Parsing => if pre.flow == Flow::Fresh {
                action is Cut && post.stage == CliStage::Cutting
            } else {
                action is FindPending && post.stage == CliStage::FindingPending
            },
            CliStage::Cutting | CliStage::FindingPending => action is Work && post.stage
                == CliStage::Working,
            CliStage::Working => if pre.flow == Flow::Fresh {
                action is Validate && post.stage == CliStage::Validating
            } else {
                action == (CliActionModel::Collect { least: 44 }) && post.stage
                    == CliStage::Collecting
            },
            CliStage::Validating => action == (CliActionModel::Collect { least: 0 }) && post.stage
                == CliStage::Collecting,
            CliStage::Collecting => action == (CliActionModel::Join { secs: 1800 }) && post.stage
                == CliStage::Joining,
            CliStage::Joining => if pre.flow != Flow::Resumed {
                action == (CliActionModel::JoinTimed { secs: 1800 }) && post.stage
                    == CliStage::JoiningTimed
            } else if pre.has_audio {
                action is FindAudio && post.stage == CliStage::FindingAudio
            } else {
                action is Report && post.stage == CliStage::Reporting
            },
            CliStage::FindingAudio => action == (CliActionModel::JoinTimed { secs: 1800 })
                && post.stage == CliStage::JoiningTimed,
            CliStage::JoiningTimed => action is Report && post.stage == CliStage::Reporting,
            CliStage::Reporting => if pre.failure is Some && !pre.made_parts {
                action == CliActionModel::Fail(pre.failure->0@)
            } else {
                action is CleanUp && post.stage == CliStage::CleaningUp
            },
            CliStage::CleaningUp => if pre.failure is Some {
                action == CliActionModel::Fail(pre.failure->0@)
            } else {
                action is Finish
            },
            CliStage::Ended => true,
        },
{
}

/// What follows when work fails, takes too long, finds nothing, or leaves tasks that failed. The
/// reason of a failure is kept, and told at the end; a missing tool and subtitles that cannot be read
/// have reasons of their own. What cannot be told or removed changes nothing.
pub proof fn law_what_goes_wrong_in_a_run(
    pre: CliState,
    event: CliEvent,
    place: Seq<char>,
    post: CliState,
    action: CliActionModel,
)
    requires
        pre.inv(),
        pre.expects(event),
        pre.stepped(event, place, &post, action),
    ensures
        event matches CliEvent::Failed(msg) ==> match pre.stage {
            CliStage::CheckingTool => optional_text(post.failure) == Some(
                "请确保已安装 ffmpeg 并在 PATH 中"@,
            ),
            CliStage::Parsing => optional_text(post.failure) == Some("解析 SRT 文件失败"@),
            CliStage::Reporting | CliStage::CleaningUp => post.failure == pre.failure,
            _ => optional_text(post.failure) == Some(msg@),
        },
        event is TimedOut && pre.flow != Flow::Resumed && pre.stage == CliStage::Joining
            ==> optional_text(post.failure) == Some("合并音频超时（超过 30 分钟）"@),
        event is TimedOut && pre.flow != Flow::Resumed && pre.stage == CliStage::JoiningTimed
            ==> optional_text(post.failure) == Some("合并变速音频超时（超过 30 分钟）"@),
        event is TimedOut && pre.flow == Flow::Resumed && pre.stage == CliStage::Joining
            ==> optional_text(post.failure) == Some("合并音频超时"@),
        event is TimedOut && pre.flow == Flow::Resumed && pre.stage == CliStage::JoiningTimed
            ==> optional_text(post.failure) == Some("合并变速音频超时"@),
        event is Absent && pre.stage == CliStage::FindingParts ==> optional_text(post.failure)
            == Some("临时目录不存在: "@ + place),
        event is Absent && pre.stage == CliStage::FindingPending ==> action == (
        CliActionModel::Collect { least: 44 }),
        event is Absent && pre.stage == CliStage::FindingAudio ==> action is Report,
        event is GaveUp && pre.flow == Flow::Fresh && pre.stage == CliStage::Working ==> action is Parse
            && post.flow == Flow::Leftover,
        event is GaveUp && pre.flow == Flow::Fresh && pre.stage == CliStage::Validating ==> action == (
        CliActionModel::Collect { least: 0 }),
        event is GaveUp && pre.flow != Flow::Fresh ==> action == (CliActionModel::Collect {
            least: 44,
        }),
        post.failure is Some && pre.failure is None ==> action == (if pre.stage
            == CliStage::Collecting || pre.stage == CliStage::Joining || pre.stage
            == CliStage::FindingAudio || pre.stage == CliStage::JoiningTimed {
            CliActionModel::Report
        } else if pre.made_parts {
            CliActionModel::CleanUp
        } else {
            CliActionModel::Fail(post.failure->0@)
        }),
{
}

/// What is set for a run stays as it is. A new run has its directory of parts from when its tool was
/// found on, and it becomes one that is taken up again only when its tasks were given up.
pub proof fn law_settings_of_a_run_stay(
    pre: CliState,
    event: CliEvent,
    place: Seq<char>,
    post: CliState,
    action: CliActionModel,
)
    requires
        pre.inv(),
        pre.expects(event),
        pre.stepped(event, place, &post, action),
    ensures
        post.settings == pre.settings,
        post.has_audio == pre.has_audio,
        post.made_parts == (pre.made_parts || (pre.stage == CliStage::CheckingTool && event is Done)),
        post.flow != pre.flow ==> event is GaveUp && pre.flow == Flow::Fresh && pre.stage
            == CliStage::Working,
{
}

// ---------------------------------------------------------------------------
// What is left, joined and reported
// ---------------------------------------------------------------------------

/// What is left to do of an earlier run, in order: the tasks whose parts exist, and whose results are
/// missing or empty.
pub proof fn law_what_is_left_to_do(cut: Seq<bool>, sizes: Seq<Option<u64>>, n: int, x: usize)
    requires
        0 <= n <= cut.len(),
        n <= sizes.len(),
        n <= usize::MAX,
    ensures
        unfinished(cut, sizes, n).contains(x) <==> x < n && cut[x as int] && (sizes[x as int] is None
            || sizes[x as int]->0 == 0),
        forall|i: int, j: int|
            0 <= i < j < unfinished(cut, sizes, n).len() ==> #[trigger] unfinished(cut, sizes, n)[i]
                < #[trigger] unfinished(cut, sizes, n)[j],
{
    crate::pipeline::law_unfinished_tasks(cut, sizes, n, x);
    lemma_unfinished_rise(cut, sizes, n);
}

proof fn lemma_unfinished_rise(cut: Seq<bool>, sizes: Seq<Option<u64>>, n: int)
    requires
        0 <= n <= usize::MAX,
    ensures
        forall|i: int, j: int|
            0 <= i < j < unfinished(cut, sizes, n).len() ==> #[trigger] unfinished(cut, sizes, n)[i]
                < #[trigger] unfinished(cut, sizes, n)[j],
        forall|i: int|
            0 <= i < unfinished(cut, sizes, n).len() ==> #[trigger] unfinished(cut, sizes, n)[i] < n,
    decreases n,
{
    if n > 0 {
        let before = unfinished(cut, sizes, n - 1);
        let all = unfinished(cut, sizes, n);
        lemma_unfinished_rise(cut, sizes, n - 1);
        assert forall|i: int| 0 <= i < all.len() implies #[trigger] all[i] < n by {
            if i < before.len() {
                assert(all[i] == before[i]);
            }
        }
        assert forall|i: int, j: int| 0 <= i < j < all.len() implies #[trigger] all[i]
            < #[trigger] all[j] by {
            assert(all[i] == before[i]);
            if j < before.len() {
                assert(all[j] == before[j]);
            }
        }
    }
}

/// What is joined are the results that are larger than they must be, each once, in the order of the
/// subtitles' numbers; and each stands beside the subtitle of its own task.
pub proof fn law_what_is_joined(tasks: Seq<Task>, sizes: Seq<Option<u64>>, least: u64, i: int, j: int)
    requires
        sizes.len() == tasks.len(),
        tasks.len() <= usize::MAX,
    ensures
        ({
            let chosen = joined_tasks(tasks, sizes, least);
            &&& forall|x: usize| #[trigger]
                chosen.contains(x) <==> x < tasks.len() && sizes[x as int] is Some
                    && sizes[x as int]->0 > least
            &&& 0 <= i < j < chosen.len() ==> chosen[i] != chosen[j] && tasks[chosen[i] as int].entry.index
                <= tasks[chosen[j] as int].entry.index
            &&& results_of(tasks, chosen).len() == chosen.len()
            &&& entries_of(tasks, chosen).len() == chosen.len()
            &&& 0 <= i < chosen.len() ==> results_of(tasks, chosen)[i]
                == tasks[chosen[i] as int].output_path@ && entries_of(tasks, chosen)[i]
                == tasks[chosen[i] as int].entry@
        }),
{
    let chosen = joined_tasks(tasks, sizes, least);
    law_joined_in_order(tasks, sizes, least);
    assert forall|x: usize| #[trigger] chosen.contains(x) <==> x < tasks.len()
        && sizes[x as int] is Some && sizes[x as int]->0 > least by {
        assert(chosen.contains(x) <==> x < tasks.len() && usable(sizes[x as int], least));
    }
    if 0 <= i < j < chosen.len() {
        let keys = task_keys(tasks);
        assert(in_key_order(chosen, keys));
        assert(chosen.contains(chosen[i]));
        assert(chosen.contains(chosen[j]));
        assert(keys[chosen[i] as int] <= keys[chosen[j] as int]);
    }
}

/// The tasks that failed, in order: those whose results are missing or are not larger than they must
/// be.
pub proof fn law_what_has_failed(sizes: Seq<Option<u64>>, least: u64, n: int, x: usize)
    requires
        0 <= n <= sizes.len(),
        n <= usize::MAX,
    ensures
        failed_tasks(sizes, least, n).contains(x) <==> x < n && (sizes[x as int] is None
            || sizes[x as int]->0 <= least),
        forall|i: int, j: int|
            0 <= i < j < failed_tasks(sizes, least, n).len() ==> #[trigger] failed_tasks(
                sizes,
                least,
                n,
            )[i] < #[trigger] failed_tasks(sizes, least, n)[j],
    decreases n,
{
    if n > 0 {
        let before = failed_tasks(sizes, least, n - 1);
        let all = failed_tasks(sizes, least, n);
        law_what_has_failed(sizes, least, n - 1, x);
        crate::rounds::lemma_push_contains(before, (n - 1) as usize, x);
        assert forall|i: int, j: int| 0 <= i < j < all.len() implies #[trigger] all[i]
            < #[trigger] all[j] by {
            assert(all[i] == before[i]);
            if j < before.len() {
                assert(all[j] == before[j]);
            } else {
                law_what_has_failed(sizes, least, n - 1, before[i]);
                assert(before.contains(before[i]));
            }
        }
    }
}

/// A report begins with the number of tasks that failed and of all tasks, and has a line for each that
/// failed, with its number and why it did.
pub proof fn law_what_is_reported(
    tasks: Seq<Task>,
    sizes: Seq<Option<u64>>,
    reasons: Seq<Option<String>>,
    failed: Seq<usize>,
) -> (r: (Seq<char>, Seq<char>, Seq<char>))
    ensures
        failure_text(tasks, sizes, reasons, failed) == "失败任务数: "@ + r.0 + "/"@ + r.1
            + failure_lines(tasks, sizes, reasons, failed),
        is_numeral(r.0, failed.len() as int),
        is_numeral(r.1, tasks.len() as int),
        failure_lines(tasks, sizes, reasons, Seq::empty()) == Seq::<char>::empty(),
        failed.len() > 0 ==> {
            let i = failed.last() as int;
            &&& is_numeral(r.2, tasks[i].entry.index as int)
            &&& failure_lines(tasks, sizes, reasons, failed) == failure_lines(
                tasks,
                sizes,
                reasons,
                failed.drop_last(),
            ) + ("\n✗ 任务 "@ + r.2 + " 失败: "@ + (if reasons[i] is Some {
                reasons[i]->0@
            } else if sizes[i] is Some {
                "输出文件无效 (过小)"@
            } else {
                "输出文件缺失"@
            }))
        },
{
    law_numerals_are_read_back(failed.len());
    law_numerals_are_read_back(tasks.len());
    let numeral = if failed.len() > 0 {
        decimal(tasks[failed.last() as int].entry.index as nat)
    } else {
        Seq::empty()
    };
    if failed.len() > 0 {
        law_numerals_are_read_back(tasks[failed.last() as int].entry.index as nat);
    }
    (decimal(failed.len()), decimal(tasks.len()), numeral)
}

/// Warnings tell the number of their task, and how large the part is that holds no sound.
pub proof fn law_warnings_tell_the_task(index: u32, size: u64, result: Option<u64>) -> (r: (
    Seq<char>,
    Seq<char>,
))
    ensures
        is_numeral(r.0, index as int),
        is_numeral(r.1, size as int),
        segment_warning_text(index, size) == "警告: 任务 "@ + r.0 + " 的音频片段可能无效（文件大小: "@ + r.1
            + " 字节）"@,
        skip_text(index, result) == "警告: 任务 "@ + r.0 + (if result is Some {
            " 输出文件无效 (过小)，跳过合并"@
        } else {
            " 输出文件缺失，跳过合并"@
        }),
{
    law_numerals_are_read_back(index as nat);
    law_numerals_are_read_back(size as nat);
    (decimal(index as nat), decimal(size as nat))
}

// ---------------------------------------------------------------------------
// What is shown
// ---------------------------------------------------------------------------

/// Progress is told before every tenth clip and before the last one, and at the end; each time with
/// the clip's number and the number of clips.
pub proof fn law_what_is_told_of_progress(k: int, n: int) -> (r: (Seq<char>, Seq<char>))
    requires
        0 <= k,
        0 <= n,
    ensures
        clip_progress(k, n) is Some <==> k % 10 == 0 || k == n,
        is_numeral(r.0, k as int),
        is_numeral(r.1, n as int),
        clip_progress(k, n) matches Some(p) ==> p.done == k && p.total == n && p.text == "处理文件 "@
            + r.0 + "/"@ + r.1,
        end_progress(n).done == n,
        end_progress(n).total == n,
        end_progress(n).text == "速度调整完成"@,
{
    law_numerals_are_read_back(k as nat);
    law_numerals_are_read_back(n as nat);
    (decimal(k as nat), decimal(n as nat))
}

/// What is said along with an action: before a clip what is due before it, and before the silences, or
/// where there are none before the pieces are joined, that all clips are done.
pub proof fn law_when_progress_is_told(state: MergeState, action: MergeAction)
    ensures
        ({
            let n = state.times@.len() as int;
            match action {
                MergeAction::Probe(Source::Input(i)) => state.said(action) == clip_progress(i + 1, n),
                MergeAction::MakeSilence { index, .. } => state.said(action) == if index == 0 {
                    Some(end_progress(n))
                } else {
                    None
                },
                MergeAction::Join { remade } => state.said(action) == if !remade
                    && state.silences@.len() == 0 {
                    Some(end_progress(n))
                } else {
                    None
                },
                _ => state.said(action) is None,
            }
        }),
{
}

/// Nothing but this character, so many times.
pub open spec fn nothing_but(s: Seq<char>, c: char, n: int) -> bool {
    s.len() == n && forall|i: int| 0 <= i < s.len() ==> #[trigger] s[i] == c
}

/// A progress bar has as many places filled as it is told, is filled up to forty places, and tells
/// both numbers.
pub proof fn law_what_a_bar_shows(filled: int, completed: nat, total: nat) -> (r: (
    Seq<char>,
    Seq<char>,
    Seq<char>,
    Seq<char>,
))
    requires
        0 <= filled,
    ensures
        bar(filled, completed as int, total as int) == "["@ + r.0 + r.1 + "] "@ + r.2 + "/"@ + r.3,
        nothing_but(r.0, '=', filled),
        nothing_but(
            r.1,
            ' ',
            if filled < 40 {
                40 - filled
            } else {
                0
            },
        ),
        is_numeral(r.2, completed as int),
        is_numeral(r.3, total as int),
{
    reveal_strlit("[");
    law_numerals_are_read_back(completed);
    law_numerals_are_read_back(total);
    assert("["@ =~= seq!['[']);
    (repeated('=', filled), repeated(' ', 40 - filled), decimal(completed), decimal(total))
}

/// The bar that is shown while clips are fitted is filled by the part of the clips that are done, with
/// one place at least, and is always forty places wide.
pub proof fn law_what_the_fitting_line_shows(current: int, total: int, msg: Seq<char>) -> (r: (
    Seq<char>,
    Seq<char>,
    Seq<char>,
    Seq<char>,
))
    requires
        0 <= current <= total,
        0 < total,
    ensures
        fitting_text(current, total, msg) == "\r变速处理: ["@ + r.0 + r.1 + "] "@ + r.2 + "/"@ + r.3
            + " - "@ + msg,
        nothing_but(r.0, '=', r.0.len() as int),
        nothing_but(r.1, ' ', 40 - r.0.len()),
        r.0.len() == 1 || r.0.len() * total <= 40 * current,
        r.0.len() >= 1,
        40 * current < (r.0.len() + 1) * total,
        is_numeral(r.2, current as int),
        is_numeral(r.3, total as int),
{
    let n = current * 40 / total;
    let p = fitted_places(current, total);
    vstd::arithmetic::div_mod::lemma_fundamental_div_mod(current * 40, total);
    assert(0 <= n <= 40) by (nonlinear_arith)
        requires
            current * 40 == total * n + (current * 40) % total,
            0 <= (current * 40) % total < total,
            0 <= current <= total,
            total > 0,
    ;
    assert((n + 1) * total == total * n + total) by (nonlinear_arith);
    assert(n * total == total * n) by (nonlinear_arith);
    assert((p + 1) * total >= (n + 1) * total) by (nonlinear_arith)
        requires
            p >= n,
            total > 0,
    ;
    law_numerals_are_read_back(current as nat);
    law_numerals_are_read_back(total as nat);
    (repeated('=', p), repeated(' ', 40 - p), decimal(current as nat), decimal(total as nat))
}

/// The line of a subtitle tells its number, its start, its end and how long it lasts, each in
/// milliseconds and in seconds, and the first thirty characters of what it says.
pub proof fn law_what_the_line_of_a_subtitle_shows(e: EntryModel) -> (r: (
    Seq<char>,
    (Seq<char>, Seq<char>),
    (Seq<char>, Seq<char>),
    (Seq<char>, Seq<char>),
    Seq<char>,
))
    ensures
        entry_text(e) == "  条目 "@ + r.0 + ": 开始="@ + r.1.0 + "ms ("@ + r.1.1 + "s), 结束="@ + r.2.0
            + "ms ("@ + r.2.1 + "s), 时长="@ + r.3.0 + "ms ("@ + r.3.1 + "s), 文本=\""@ + r.4 + "\""@,
        is_numeral(r.0, e.index as int),
        r.1 == (shortest_signed(e.start, 0), fixed3(e.start)),
        units(r.1.0, 0) == e.start && units(r.1.1, 3) == e.start,
        r.2 == (shortest_signed(e.end, 0), fixed3(e.end)),
        units(r.2.0, 0) == e.end && units(r.2.1, 3) == e.end,
        r.3 == (shortest_signed(e.end - e.start, 0), fixed3(e.end - e.start)),
        units(r.3.0, 0) == e.end - e.start && units(r.3.1, 3) == e.end - e.start,
        r.4.is_prefix_of(trimmed(e.text)),
        r.4.len() == if trimmed(e.text).len() < 30 {
            trimmed(e.text).len()
        } else {
            30
        },
{
    law_numerals_are_read_back(e.index as nat);
    lemma_signed(e.start);
    lemma_signed(e.end);
    lemma_signed(e.end - e.start);
    law_thousandths_are_read_back(e.start);
    law_thousandths_are_read_back(e.end);
    law_thousandths_are_read_back(e.end - e.start);
    (
        decimal(e.index as nat),
        (signed(e.start), fixed3(e.start)),
        (signed(e.end), fixed3(e.end)),
        (signed(e.end - e.start), fixed3(e.end - e.start)),
        clipped(trimmed(e.text), 30),
    )
}

proof fn lemma_signed(n: int)
    ensures
        units(signed(n), 0) == n,
{
    crate::numeral_laws::law_fractions_are_read_back(n, 0);
}

} // verus!
