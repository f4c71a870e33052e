//! What is cut out of a recording, and which files hold sound.
use vstd::prelude::*;
use crate::audio::{
    audio_outcome, file_outcome, length_outcome, segment_outcome, split_outcome, CountMismatch, Cut, FileFault,
    SplitFault,
};
use crate::numeral_laws::{
    is_numeral, law_fractions_are_read_back, law_numerals_are_read_back, law_thousandths_are_read_back, units,
};
use crate::split::{SplitAction, SplitEvent, SplitState};
use crate::tempo::{length_in_range, seconds_text, time_in_range};
use crate::text::{decimal, fixed3, shortest_signed};
use crate::timed_merge::{MergeFault, Outcome};

verus! {

/// What is cut out of a recording for a subtitle: it begins with the subtitle and ends with it, or
/// with the recording if that ends first. Nothing is cut out for a subtitle that starts before the
/// recording, lasts less than ten milliseconds, or starts behind the recording; and the reason is the
/// first of these that holds.
pub proof fn law_what_is_cut_out(start: int, end: int, actual: Option<int>)
    requires
        time_in_range(start),
        time_in_range(end),
        actual is Some ==> length_in_range(actual->0),
    ensures
        start < 0 ==> split_outcome(start, end, actual) == Err::<Cut, SplitFault>(
            SplitFault::NegativeStart(start as i64),
        ),
        0 <= start && end <= start ==> split_outcome(start, end, actual) == Err::<Cut, SplitFault>(
            SplitFault::NoDuration((end - start) as i64),
        ),
        0 <= start < end < start + 10 ==> split_outcome(start, end, actual) == Err::<
            Cut,
            SplitFault,
        >(SplitFault::TooShort((end - start) as i64)),
        0 <= start <= end - 10 ==> (split_outcome(start, end, actual) is Err <==> actual is Some
            && actual->0 <= 1000 * start),
        0 <= start <= end - 10 && split_outcome(start, end, actual) is Err ==> split_outcome(
            start,
            end,
            actual,
        )->Err_0 == (SplitFault::StartsAfterEnd { start: start as i64, actual: actual->0 as i64 }),
        split_outcome(start, end, actual) matches Ok(cut) ==> {
            let over = 1000 * cut.start + cut.micros;
            &&& cut.start == start
            &&& over <= 1000 * end
            &&& actual is Some ==> over <= actual->0
            &&& over == 1000 * end || actual is Some && over == actual->0
        },
{
}

/// A file holds sound exactly if it is larger than the header of a sound file.
pub proof fn law_files_that_hold_sound(size: Option<u64>)
    ensures
        file_outcome(size) is Ok <==> size is Some && size->0 > 44,
        size is None ==> file_outcome(size) == Err::<(), FileFault>(FileFault::Missing),
        size == Some(0u64) ==> file_outcome(size) == Err::<(), FileFault>(FileFault::Empty),
        size is Some && 0 < size->0 <= 44 ==> file_outcome(size) == Err::<(), FileFault>(
            FileFault::HeaderOnly(size->0),
        ),
{
}

/// A recording is valid exactly if its file holds sound, and its length is known and is ten
/// milliseconds at least. What is wrong with the file goes first.
pub proof fn law_valid_recordings(size: Option<u64>, probed: Outcome)
    ensures
        audio_outcome(size, probed) is Ok <==> {
            &&& size is Some && size->0 > 44
            &&& probed matches Outcome::Length(n) && n >= 10_000
        },
        file_outcome(size) is Err ==> audio_outcome(size, probed) == file_outcome(size),
        file_outcome(size) is Ok ==> match probed {
            Outcome::Failed => audio_outcome(size, probed) == Err::<(), FileFault>(
                FileFault::ProbeFailed,
            ),
            Outcome::Done => audio_outcome(size, probed) == Err::<(), FileFault>(
                FileFault::Unreadable,
            ),
            Outcome::Length(n) => {
                &&& n <= 0 ==> audio_outcome(size, probed) == Err::<(), FileFault>(
                    FileFault::NoLength,
                )
                &&& 0 < n < 10_000 ==> audio_outcome(size, probed) == Err::<(), FileFault>(
                    FileFault::TooBrief,
                )
            },
        },
        length_outcome(probed) is Ok <==> (probed matches Outcome::Length(n) && n >= 10_000),
{
}

/// A part that was cut out is usable exactly if its file holds sound, and if its length is ten
/// milliseconds at least where it is known.
pub proof fn law_usable_parts(size: u64, length: Option<i64>)
    ensures
        size <= 44 ==> segment_outcome(size, length) == Err::<(), SplitFault>(
            SplitFault::TooSmall(size),
        ),
        size > 44 && length is Some && length->0 < 10_000 ==> segment_outcome(size, length) == Err::<
            (),
            SplitFault,
        >(SplitFault::TooBrief(length->0)),
        size > 44 && (length is None || length->0 >= 10_000) ==> segment_outcome(size, length)
            == Ok::<(), SplitFault>(()),
{
}

/// The course of a cut: a subtitle that can be cut out has its recording measured; then it is cut out,
/// unless it starts behind the recording; the file that was cut is measured by its size and then by
/// its length; and a tool that fails, a file without sound or one that is too short ends the work.
pub proof fn law_the_course_of_a_cut(
    pre: SplitState,
    event: SplitEvent,
    post: SplitState,
    action: SplitAction,
)
    requires
        pre.inv(),
        pre.expects(event),
        pre.stepped(event, &post, action),
    ensures
        SplitState::begun(pre.start as int, pre.end as int).1 is ProbeSource <==> 0 <= pre.start
            && pre.end - pre.start >= 10,
        pre.stage is ProbingSource ==> (action is Cut <==> !(event->Ran_0 is Length
            && event->Ran_0->Length_0 <= 1000 * pre.start)),
        pre.stage is ProbingSource ==> action == match split_outcome(
            pre.start as int,
            pre.end as int,
            if event->Ran_0 is Length {
                Some(event->Ran_0->Length_0 as int)
            } else {
                None
            },
        ) {
            Ok(cut) => SplitAction::Cut(cut),
            Err(f) => SplitAction::Fail(f),
        },
        split_outcome(pre.start as int, pre.end as int, None) matches Err(f) ==> SplitState::begun(
            pre.start as int,
            pre.end as int,
        ).1 == SplitAction::Fail(f),
        pre.stage is Cutting ==> action == if event->Ran_0 is Failed {
            SplitAction::Fail(SplitFault::ToolFailed)
        } else {
            SplitAction::Measure
        },
        pre.stage is Measuring ==> action == if event->Measured_0 <= 44 {
            SplitAction::Fail(SplitFault::TooSmall(event->Measured_0))
        } else {
            SplitAction::ProbePart
        },
        pre.stage is ProbingPart ==> action == if event->Ran_0 is Length && event->Ran_0->Length_0
            < 10_000 {
            SplitAction::Fail(SplitFault::TooBrief(event->Ran_0->Length_0))
        } else {
            SplitAction::Finish
        },
        post.stage is Ended <==> action is Finish || action is Fail,
        post.start == pre.start,
        post.end == pre.end,
{
}

// ---------------------------------------------------------------------------
// Messages
// ---------------------------------------------------------------------------

/// What stands between the beginning of a message and its end.
pub open spec fn between(s: Seq<char>, before: Seq<char>, after: Seq<char>) -> Seq<char> {
    s.subrange(before.len() as int, s.len() - after.len())
}

/// The message has a numeral between its beginning and its end, which stands for so many thousandths.
pub open spec fn tells_thousandths(s: Seq<char>, before: Seq<char>, n: int, after: Seq<char>) -> bool {
    s == before + between(s, before, after) + after && between(s, before, after) == fixed3(n)
        && units(between(s, before, after), 3) == n
}

/// The message has a whole number between its beginning and its end.
pub open spec fn tells_number(s: Seq<char>, before: Seq<char>, n: int, after: Seq<char>) -> bool {
    s == before + between(s, before, after) + after && is_numeral(between(s, before, after), n)
}

/// The reasons why a part cannot be cut out tell the times and sizes that are at fault.
pub proof fn law_reasons_tell_what_is_at_fault(ms: i64, size: u64, report: Seq<char>)
    ensures
        tells_thousandths(
            SplitFault::NegativeStart(ms).message_text(report),
            "起始时间不能为负数: "@,
            ms as int,
            " 秒"@,
        ),
        tells_thousandths(
            SplitFault::NoDuration(ms).message_text(report),
            "音频时长无效: "@,
            ms as int,
            " 秒"@,
        ),
        tells_thousandths(
            SplitFault::TooShort(ms).message_text(report),
            "音频时长太短（小于 0.01 秒），可能无效: "@,
            ms as int,
            " 秒"@,
        ),
        tells_number(
            SplitFault::TooSmall(size).message_text(report),
            "切分的音频文件无效（文件大小: "@,
            size as int,
            " 字节，可能为空或只有文件头）"@,
        ),
        SplitFault::ToolFailed.message_text(report) == "ffmpeg 切分失败: "@ + report,
        SplitFault::TooBrief(ms).message_text(report) == "切分的音频文件无效（音频时长: "@ + seconds_text(
            ms as int,
        ) + " 秒，可能为空）"@,
{
    law_thousandths_are_read_back(ms as int);
    law_numerals_are_read_back(size as nat);
    let x = fixed3(ms as int);
    let b = "起始时间不能为负数: "@;
    assert(between(b + x + " 秒"@, b, " 秒"@) =~= x);
    let b = "音频时长无效: "@;
    assert(between(b + x + " 秒"@, b, " 秒"@) =~= x);
    let b = "音频时长太短（小于 0.01 秒），可能无效: "@;
    assert(between(b + x + " 秒"@, b, " 秒"@) =~= x);
    let b = "切分的音频文件无效（文件大小: "@;
    let a = " 字节，可能为空或只有文件头）"@;
    assert(between(b + decimal(size as nat) + a, b, a) =~= decimal(size as nat));
}

/// A subtitle that starts behind the recording is told with both times, which can be read back.
pub proof fn law_a_late_start_is_told(start: i64, actual: i64, report: Seq<char>) -> (r: (
    Seq<char>,
    Seq<char>,
))
    ensures
        (SplitFault::StartsAfterEnd { start, actual }).message_text(report) == "起始时间 "@ + r.0
            + " 超出音频时长 "@ + r.1,
        r.0 == shortest_signed(start as int, 3) && units(r.0, 3) == start,
        r.1 == shortest_signed(actual as int, 6) && units(r.1, 6) == actual,
{
    law_fractions_are_read_back(start as int, 3);
    law_fractions_are_read_back(actual as int, 6);
    (shortest_signed(start as int, 3), shortest_signed(actual as int, 6))
}

/// Faults of files name the file, and those of tools give the tool's report.
pub proof fn law_faults_name_the_file(place: Seq<char>, report: Seq<char>, size: u64, i: usize, t: u64)
    ensures
        FileFault::Missing.message_text(place, report) == "音频文件不存在: "@ + place,
        FileFault::Empty.message_text(place, report) == "音频文件为空: "@ + place,
        tells_number(
            FileFault::HeaderOnly(size).message_text(place, report),
            "音频文件无效（文件大小: "@,
            size as int,
            " 字节，可能只有文件头）: "@ + place,
        ),
        FileFault::ProbeFailed.message_text(place, report) == "ffprobe 检查音频失败: "@ + report,
        FileFault::Unreadable.message_text(place, report) == "无法解析音频时长"@,
        FileFault::NoLength.message_text(place, report) == "音频时长为 0 或无效: "@ + place,
        FileFault::TooBrief.message_text(place, report) == "音频时长太短（小于 0.01 秒），可能无效: "@
            + place,
        MergeFault::OriginalUnreadable.message_text(place, report) == "无法获取原始音频/视频时长: "@
            + place,
        MergeFault::OriginalEmpty.message_text(place, report) == "原始音频/视频时长为 0: "@ + place,
        MergeFault::InputUnreadable(i).message_text(place, report) == "无法获取音频文件时长: "@ + place,
        MergeFault::InputEmpty(i).message_text(place, report) == "音频文件时长为 0: "@ + place,
        MergeFault::CopyFailed(i).message_text(place, report) == report,
        MergeFault::PadFailed(i).message_text(place, report) == "ffmpeg 追加静音失败 (文件: "@ + place
            + "): "@ + report,
        tells_thousandths(
            (MergeFault::SpeedFailed { index: i, thousandths: t }).message_text(place, report),
            "ffmpeg 速度调整失败 (文件: "@ + place + ", 速度比例: "@,
            t as int,
            "): "@ + report,
        ),
        MergeFault::SilenceFailed.message_text(place, report) == "ffmpeg 生成空白音频失败: "@ + report,
        MergeFault::JoinFailed.message_text(place, report) == "ffmpeg 合并失败: "@ + report,
        MergeFault::JoinedUnreadable.message_text(place, report) == "无法获取最终音频时长: "@ + place,
{
    law_numerals_are_read_back(size as nat);
    let b = "音频文件无效（文件大小: "@;
    let a = " 字节，可能只有文件头）: "@ + place;
    let s = FileFault::HeaderOnly(size).message_text(place, report);
    assert(s =~= b + decimal(size as nat) + a);
    assert(between(s, b, a) =~= decimal(size as nat));
    law_thousandths_are_read_back(t as int);
    let b = "ffmpeg 速度调整失败 (文件: "@ + place + ", 速度比例: "@;
    let a = "): "@ + report;
    let s = (MergeFault::SpeedFailed { index: i, thousandths: t }).message_text(place, report);
    assert(s =~= b + fixed3(t as int) + a);
    assert(between(s, b, a) =~= fixed3(t as int));
}

/// Numbers that differ are both told.
pub proof fn law_a_mismatch_tells_both_numbers(m: CountMismatch) -> (r: (Seq<char>, Seq<char>))
    ensures
        m.message_text() == "音频文件数量 ("@ + r.0 + ") 与 SRT 条目数量 ("@ + r.1 + ") 不匹配"@,
        is_numeral(r.0, m.files as int),
        is_numeral(r.1, m.entries as int),
{
    law_numerals_are_read_back(m.files as nat);
    law_numerals_are_read_back(m.entries as nat);
    (decimal(m.files as nat), decimal(m.entries as nat))
}

} // verus!
