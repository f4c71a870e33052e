//! Cutting and joining recordings: what the outside tools are asked to do, and what is made of
//! their answers.
//!
//! Subtitle times are milliseconds, lengths of recordings are microseconds.
use vstd::prelude::*;
use crate::split::{Split, SplitAction, SplitState};
use crate::silence::times_in_range;
use crate::srt::SrtEntry;
use crate::tempo::{
    length_in_range, push_seconds, seconds_text, time_in_range, MAX_MILLIS,
};
use crate::text::{
    decimal, escape_quotes, escaped, fixed3, push_decimal, push_fixed3, push_fixed3_magnitude,
    push_shortest_signed, shortest_signed,
};
use crate::timed_merge::{target_micros, MergeAction, MergeFault, Outcome, Source, Stage, TimedMerge};

verus! {

/// The size of the header of a sound file. A file that is not larger holds no sound.
pub const HEADER_BYTES: u64 = 44;

/// The shortest usable recording, in microseconds.
pub const MIN_MICROS: i64 = 10_000;

// ---------------------------------------------------------------------------
// Faults
// ---------------------------------------------------------------------------

/// Why a part cannot be cut out of a recording.
#[derive(Debug, Clone, Copy, PartialEq, Eq, Structural)]
pub enum SplitFault {
    /// The part starts before the recording; with the start in milliseconds.
    NegativeStart(i64),
    /// The part does not end after it starts; with its duration in milliseconds.
    NoDuration(i64),
    /// The part is too short; with its duration in milliseconds.
    TooShort(i64),
    /// The part starts behind the end of the recording.
    StartsAfterEnd { start: i64, actual: i64 },
    /// The tool reported an error.
    ToolFailed,
    /// The file that was cut holds no sound; with its size.
    TooSmall(u64),
    /// The file that was cut is too short; with its length in microseconds.
    TooBrief(i64),
}

impl SplitFault {
    /// The text shown to the user. `report` is what the tool wrote.
    pub open spec fn message_text(self, report: Seq<char>) -> Seq<char> {
        match self {
            SplitFault::NegativeStart(ms) => "起始时间不能为负数: "@ + fixed3(ms as int) + " 秒"@,
            SplitFault::NoDuration(ms) => "音频时长无效: "@ + fixed3(ms as int) + " 秒"@,
            SplitFault::TooShort(ms) => "音频时长太短（小于 0.01 秒），可能无效: "@ + fixed3(
                ms as int,
            ) + " 秒"@,
            SplitFault::StartsAfterEnd { start, actual } => "起始时间 "@ + shortest_signed(
                start as int,
                3,
            ) + " 超出音频时长 "@ + shortest_signed(actual as int, 6),
            SplitFault::ToolFailed => "ffmpeg 切分失败: "@ + report,
            SplitFault::TooSmall(size) => "切分的音频文件无效（文件大小: "@ + decimal(size as nat)
                + " 字节，可能为空或只有文件头）"@,
            SplitFault::TooBrief(us) => "切分的音频文件无效（音频时长: "@ + seconds_text(
                us as int,
            ) + " 秒，可能为空）"@,
        }
    }

    /// The text shown to the user.
    pub fn message(&self, report: &str) -> (r: String)
        ensures
            r@ == self.message_text(report@),
    {
        let mut r = String::new();
        match self {
            SplitFault::NegativeStart(ms) => {
                r.append("起始时间不能为负数: ");
                push_fixed3(&mut r, *ms);
                r.append(" 秒");
            },
            SplitFault::NoDuration(ms) => {
                r.append("音频时长无效: ");
                push_fixed3(&mut r, *ms);
                r.append(" 秒");
            },
            SplitFault::TooShort(ms) => {
                r.append("音频时长太短（小于 0.01 秒），可能无效: ");
                push_fixed3(&mut r, *ms);
                r.append(" 秒");
            },
            SplitFault::StartsAfterEnd { start, actual } => {
                r.append("起始时间 ");
                push_shortest_signed(&mut r, *start, 3);
                r.append(" 超出音频时长 ");
                push_shortest_signed(&mut r, *actual, 6);
            },
            SplitFault::ToolFailed => {
                r.append("ffmpeg 切分失败: ");
                r.append(report);
            },
            SplitFault::TooSmall(size) => {
                r.append("切分的音频文件无效（文件大小: ");
                push_decimal(&mut r, *size);
                r.append(" 字节，可能为空或只有文件头）");
            },
            SplitFault::TooBrief(us) => {
                r.append("切分的音频文件无效（音频时长: ");
                push_seconds(&mut r, *us);
                r.append(" 秒，可能为空）");
            },
        }
        assert(r@ =~= self.message_text(report@));
        r
    }
}

/// Why a sound file is of no use.
#[derive(Debug, Clone, Copy, PartialEq, Eq, Structural)]
pub enum FileFault {
    Missing,
    Empty,
    /// It is not larger than its header; with its size.
    HeaderOnly(u64),
    ProbeFailed,
    Unreadable,
    NoLength,
    TooBrief,
}

impl FileFault {
    /// The text shown to the user. `place` is the quoted path of the file, and `report` what the
    /// tool wrote.
    pub open spec fn message_text(self, place: Seq<char>, report: Seq<char>) -> Seq<char> {
        match self {
            FileFault::Missing => "音频文件不存在: "@ + place,
            FileFault::Empty => "音频文件为空: "@ + place,
            FileFault::HeaderOnly(size) => "音频文件无效（文件大小: "@ + decimal(size as nat)
                + " 字节，可能只有文件头）: "@ + place,
            FileFault::ProbeFailed => "ffprobe 检查音频失败: "@ + report,
            FileFault::Unreadable => "无法解析音频时长"@,
            FileFault::NoLength => "音频时长为 0 或无效: "@ + place,
            FileFault::TooBrief => "音频时长太短（小于 0.01 秒），可能无效: "@ + place,
        }
    }

    /// The text shown to the user.
    pub fn message(&self, place: &str, report: &str) -> (r: String)
        ensures
            r@ == self.message_text(place@, report@),
    {
        let mut r = String::new();
        match self {
            FileFault::Missing => {
                r.append("音频文件不存在: ");
                r.append(place);
            },
            FileFault::Empty => {
                r.append("音频文件为空: ");
                r.append(place);
            },
            FileFault::HeaderOnly(size) => {
                r.append("音频文件无效（文件大小: ");
                push_decimal(&mut r, *size);
                r.append(" 字节，可能只有文件头）: ");
                r.append(place);
            },
            FileFault::ProbeFailed => {
                r.append("ffprobe 检查音频失败: ");
                r.append(report);
            },
            FileFault::Unreadable => {
                r.append("无法解析音频时长");
            },
            FileFault::NoLength => {
                r.append("音频时长为 0 或无效: ");
                r.append(place);
            },
            FileFault::TooBrief => {
                r.append("音频时长太短（小于 0.01 秒），可能无效: ");
                r.append(place);
            },
        }
        assert(r@ =~= self.message_text(place@, report@));
        r
    }
}

impl MergeFault {
    /// The text shown to the user. `place` is the quoted path of the file, and `report` what the
    /// tool wrote.
    pub open spec fn message_text(self, place: Seq<char>, report: Seq<char>) -> Seq<char> {
        match self {
            MergeFault::OriginalUnreadable => "无法获取原始音频/视频时长: "@ + place,
            MergeFault::OriginalEmpty => "原始音频/视频时长为 0: "@ + place,
            MergeFault::InputUnreadable(_) => "无法获取音频文件时长: "@ + place,
            MergeFault::InputEmpty(_) => "音频文件时长为 0: "@ + place,
            MergeFault::CopyFailed(_) => report,
            MergeFault::PadFailed(_) => "ffmpeg 追加静音失败 (文件: "@ + place + "): "@ + report,
            MergeFault::SpeedFailed { thousandths, .. } => "ffmpeg 速度调整失败 (文件: "@ + place
                + ", 速度比例: "@ + fixed3(thousandths as int) + "): "@ + report,
            MergeFault::SilenceFailed => "ffmpeg 生成空白音频失败: "@ + report,
            MergeFault::JoinFailed => "ffmpeg 合并失败: "@ + report,
            MergeFault::JoinedUnreadable => "无法获取最终音频时长: "@ + place,
        }
    }

    /// The text shown to the user.
    pub fn message(&self, place: &str, report: &str) -> (r: String)
        ensures
            r@ == self.message_text(place@, report@),
    {
        let mut r = String::new();
        match self {
            MergeFault::OriginalUnreadable => {
                r.append("无法获取原始音频/视频时长: ");
                r.append(place);
            },
            MergeFault::OriginalEmpty => {
                r.append("原始音频/视频时长为 0: ");
                r.append(place);
            },
            MergeFault::InputUnreadable(_) => {
                r.append("无法获取音频文件时长: ");
                r.append(place);
            },
            MergeFault::InputEmpty(_) => {
                r.append("音频文件时长为 0: ");
                r.append(place);
            },
            MergeFault::CopyFailed(_) => {
                r.append(report);
            },
            MergeFault::PadFailed(_) => {
                r.append("ffmpeg 追加静音失败 (文件: ");
                r.append(place);
                r.append("): ");
                r.append(report);
            },
            MergeFault::SpeedFailed { thousandths, .. } => {
                r.append("ffmpeg 速度调整失败 (文件: ");
                r.append(place);
                r.append(", 速度比例: ");
                push_fixed3_magnitude(&mut r, *thousandths);
                r.append("): ");
                r.append(report);
            },
            MergeFault::SilenceFailed => {
                r.append("ffmpeg 生成空白音频失败: ");
                r.append(report);
            },
            MergeFault::JoinFailed => {
                r.append("ffmpeg 合并失败: ");
                r.append(report);
            },
            MergeFault::JoinedUnreadable => {
                r.append("无法获取最终音频时长: ");
                r.append(place);
            },
        }
        assert(r@ =~= self.message_text(place@, report@));
        r
    }
}

/// The tool reported an error when it was asked for its version.
#[derive(Debug, Clone, Copy, PartialEq, Eq, Structural)]
pub struct ToolUnusable;

impl ToolUnusable {
    /// The text shown to the user.
    pub fn message(&self) -> (r: String)
        ensures
            r@ == "ffmpeg 不可用"@,
    {
        "ffmpeg 不可用".to_string()
    }
}

/// Files could not be joined; with what the tool wrote.
#[derive(Debug)]
pub struct MergeFailure {
    pub report: String,
}

impl MergeFailure {
    /// The text shown to the user.
    pub open spec fn message_text(&self) -> Seq<char> {
        MergeFault::JoinFailed.message_text(""@, self.report@)
    }

    /// The text shown to the user.
    pub fn message(&self) -> (r: String)
        ensures
            r@ == self.message_text(),
    {
        MergeFault::JoinFailed.message("", self.report.as_str())
    }
}

/// The numbers of clips and of subtitles differ.
#[derive(Debug, Clone, Copy, PartialEq, Eq, Structural)]
pub struct CountMismatch {
    pub files: usize,
    pub entries: usize,
}

impl CountMismatch {
    /// The text shown to the user.
    pub open spec fn message_text(self) -> Seq<char> {
        "音频文件数量 ("@ + decimal(self.files as nat) + ") 与 SRT 条目数量 ("@ + decimal(
            self.entries as nat,
        ) + ") 不匹配"@
    }

    /// The text shown to the user.
    pub fn message(&self) -> (r: String)
        ensures
            r@ == self.message_text(),
    {
        let mut r = String::new();
        r.append("音频文件数量 (");
        push_decimal(&mut r, self.files as u64);
        r.append(") 与 SRT 条目数量 (");
        push_decimal(&mut r, self.entries as u64);
        r.append(") 不匹配");
        assert(r@ =~= self.message_text());
        r
    }
}

// ---------------------------------------------------------------------------
// Decisions
// ---------------------------------------------------------------------------

/// A part of a recording: its start in milliseconds, and its length in microseconds.
#[derive(Debug, Clone, Copy, PartialEq, Eq, Structural)]
pub struct Cut {
    pub start: i64,
    pub micros: i64,
}

/// The part to cut for a subtitle, out of a recording whose length may be known. It must not start
/// before or behind the recording, must last ten milliseconds, and ends with the recording at the
/// latest.
pub open spec fn split_outcome(start: int, end: int, actual: Option<int>) -> Result<Cut, SplitFault> {
    let duration = end - start;
    if start < 0 {
        Err(SplitFault::NegativeStart(start as i64))
    } else if duration <= 0 {
        Err(SplitFault::NoDuration(duration as i64))
    } else if duration < 10 {
        Err(SplitFault::TooShort(duration as i64))
    } else {
        match actual {
            Some(a) => if start * 1000 >= a {
                Err(SplitFault::StartsAfterEnd { start: start as i64, actual: a as i64 })
            } else if end * 1000 > a {
                Ok(Cut { start: start as i64, micros: (a - start * 1000) as i64 })
            } else {
                Ok(Cut { start: start as i64, micros: (duration * 1000) as i64 })
            },
            None => Ok(Cut { start: start as i64, micros: (duration * 1000) as i64 }),
        }
    }
}

/// What is wrong with a file that was cut, by its size and, where it is known, by its length.
pub open spec fn segment_outcome(size: u64, length: Option<i64>) -> Result<(), SplitFault> {
    if size <= HEADER_BYTES {
        Err(SplitFault::TooSmall(size))
    } else if length is Some && length->0 < MIN_MICROS {
        Err(SplitFault::TooBrief(length->0))
    } else {
        Ok(())
    }
}

/// What is wrong with a file, by its size alone. There is no size where there is no file.
pub open spec fn file_outcome(size: Option<u64>) -> Result<(), FileFault> {
    match size {
        None => Err(FileFault::Missing),
        Some(n) => if n == 0 {
            Err(FileFault::Empty)
        } else if n <= HEADER_BYTES {
            Err(FileFault::HeaderOnly(n))
        } else {
            Ok(())
        },
    }
}

/// What is wrong with a recording, by its length.
pub open spec fn length_outcome(o: Outcome) -> Result<(), FileFault> {
    match o {
        Outcome::Failed => Err(FileFault::ProbeFailed),
        Outcome::Done => Err(FileFault::Unreadable),
        Outcome::Length(n) => if n <= 0 {
            Err(FileFault::NoLength)
        } else if n < MIN_MICROS {
            Err(FileFault::TooBrief)
        } else {
            Ok(())
        },
    }
}

/// What is wrong with a sound file.
pub open spec fn audio_outcome(size: Option<u64>, o: Outcome) -> Result<(), FileFault> {
    match file_outcome(size) {
        Err(f) => Err(f),
        Ok(()) => length_outcome(o),
    }
}

/// The times of entries.
pub open spec fn entry_times(entries: Seq<SrtEntry>) -> Seq<(i64, i64)> {
    Seq::new(entries.len(), |i: int| (entries[i].start_time, entries[i].end_time))
}

/// The list of files to join, as the tool reads it.
pub open spec fn list_text(files: Seq<Seq<char>>) -> Seq<char>
    decreases files.len(),
{
    if files.len() == 0 {
        Seq::empty()
    } else {
        list_text(files.drop_last()) + ("file '"@ + escaped(files.last()) + "'\n"@)
    }
}

/// The contents of strings.
pub open spec fn texts(v: Seq<String>) -> Seq<Seq<char>> {
    Seq::new(v.len(), |i: int| v[i]@)
}

/// Cuts and joins recordings.
pub struct AudioSplitter;

impl AudioSplitter {
    /// Begins to cut out what lies between two times.
    pub fn split_audio(start_time: i64, end_time: i64) -> (r: (Split, SplitAction))
        requires
            time_in_range(start_time as int),
            time_in_range(end_time as int),
        ensures
            r.0@.inv(),
            r.0@.start == start_time,
            r.0@.end == end_time,
            (r.0@.stage, r.1) == SplitState::begun(start_time as int, end_time as int),
    {
        Split::new(start_time, end_time)
    }

    /// The part to cut for a subtitle, out of a recording whose length may be known.
    pub fn plan_cut(start_time: i64, end_time: i64, actual: Option<i64>) -> (r: Result<
        Cut,
        SplitFault,
    >)
        requires
            time_in_range(start_time as int),
            time_in_range(end_time as int),
            actual matches Some(a) ==> length_in_range(a as int),
        ensures
            r == split_outcome(
                start_time as int,
                end_time as int,
                match actual {
                    Some(a) => Some(a as int),
                    None => None,
                },
            ),
    {
        let duration: i64 = end_time - start_time;
        if start_time < 0 {
            return Err(SplitFault::NegativeStart(start_time));
        }
        if duration <= 0 {
            return Err(SplitFault::NoDuration(duration));
        }
        if duration < 10 {
            return Err(SplitFault::TooShort(duration));
        }
        match actual {
            Some(a) => {
                if start_time * 1000 >= a {
                    return Err(SplitFault::StartsAfterEnd { start: start_time, actual: a });
                }
                if end_time * 1000 > a {
                    return Ok(Cut { start: start_time, micros: a - start_time * 1000 });
                }
            },
            None => {},
        }
        Ok(Cut { start: start_time, micros: duration * 1000 })
    }

    /// Checks a file that was cut, by its size and, where it is known, by its length.
    pub fn check_segment(size: u64, length: Option<i64>) -> (r: Result<(), SplitFault>)
        ensures
            r == segment_outcome(size, length),
    {
        if size <= HEADER_BYTES {
            return Err(SplitFault::TooSmall(size));
        }
        match length {
            Some(d) => {
                if d < MIN_MICROS {
                    return Err(SplitFault::TooBrief(d));
                }
            },
            None => {},
        }
        Ok(())
    }

    /// Checks a file by its size.
    pub fn check_file(size: Option<u64>) -> (r: Result<(), FileFault>)
        ensures
            r == file_outcome(size),
    {
        match size {
            None => Err(FileFault::Missing),
            Some(n) => {
                if n == 0 {
                    Err(FileFault::Empty)
                } else if n <= HEADER_BYTES {
                    Err(FileFault::HeaderOnly(n))
                } else {
                    Ok(())
                }
            },
        }
    }

    /// Checks that a sound file exists, holds sound, and is long enough.
    pub fn validate_audio_file(size: Option<u64>, probed: Outcome) -> (r: Result<(), FileFault>)
        ensures
            r == audio_outcome(size, probed),
    {
        match Self::check_file(size) {
            Err(f) => Err(f),
            Ok(()) => match probed {
                Outcome::Failed => Err(FileFault::ProbeFailed),
                Outcome::Done => Err(FileFault::Unreadable),
                Outcome::Length(n) => {
                    if n <= 0 {
                        Err(FileFault::NoLength)
                    } else if n < MIN_MICROS {
                        Err(FileFault::TooBrief)
                    } else {
                        Ok(())
                    }
                },
            },
        }
    }

    /// The list of files to join, as the tool reads it.
    pub fn merge_audio(files: &Vec<String>) -> (r: String)
        ensures
            r@ == list_text(texts(files@)),
    {
        let mut r = String::new();
        let ghost all = texts(files@);
        assert(all.take(0) =~= Seq::<Seq<char>>::empty());
        for i in 0..files.len()
            invariant
                all == texts(files@),
                r@ == list_text(all.take(i as int)),
        {
            let ghost before = r@;
            let quoted = escape_quotes(files[i].as_str());
            r.append("file '");
            r.append(quoted.as_str());
            r.append("'\n");
            assert(all.take(i + 1).drop_last() =~= all.take(i as int));
            assert(all.take(i + 1).last() == files@[i as int]@);
            assert(r@ =~= before + ("file '"@ + escaped(files@[i as int]@) + "'\n"@));
        }
        assert(all.take(all.len() as int) =~= all);
        r
    }

    /// What came of joining files as they are: an error if the tool reported one. `report` is what
    /// the tool wrote.
    pub fn merge_result(outcome: Outcome, report: &str) -> (r: Result<(), MergeFailure>)
        ensures
            match r {
                Ok(_) => !(outcome is Failed),
                Err(e) => outcome is Failed && e.message_text() == "ffmpeg 合并失败: "@ + report@,
            },
    {
        if matches!(outcome, Outcome::Failed) {
            Err(MergeFailure { report: report.to_string() })
        } else {
            Ok(())
        }
    }

    /// Begins to join clips so that each fills the time of its subtitle: the length of the original
    /// is asked for first.
    pub fn merge_audio_with_timing(files: usize, entries: &Vec<SrtEntry>) -> (r: Result<
        (TimedMerge, MergeAction),
        CountMismatch,
    >)
        requires
            files == entries@.len() ==> {
                &&& 0 < files < usize::MAX
                &&& times_in_range(entry_times(entries@))
                &&& forall|i: int|
                    0 <= i < entries@.len() ==> (#[trigger] entries@[i]).start_time
                        != entries@[i].end_time
            },
        ensures
            match r {
                Ok((m, action)) => {
                    &&& files == entries@.len()
                    &&& m@.inv()
                    &&& m@.times@ == entry_times(entries@)
                    &&& m@.stage == Stage::ProbeOriginal
                    &&& action == MergeAction::Probe(Source::Original)
                },
                Err(e) => {
                    &&& files != entries@.len()
                    &&& e == CountMismatch { files, entries: entries@.len() as usize }
                },
            },
    {
        if files != entries.len() {
            return Err(CountMismatch { files, entries: entries.len() });
        }
        let mut times: Vec<(i64, i64)> = Vec::new();
        for i in 0..entries.len()
            invariant
                times@.len() == i,
                forall|j: int| 0 <= j < i ==> #[trigger] times@[j] == entry_times(entries@)[j],
        {
            times.push((entries[i].start_time, entries[i].end_time));
        }
        assert(times@ =~= entry_times(entries@));
        assert forall|i: int| 0 <= i < times@.len() implies target_micros(#[trigger] times@[i])
            != 0 by {
            assert(entries@[i].start_time != entries@[i].end_time);
        }
        Ok(TimedMerge::new(times))
    }

    /// Whether entries can be joined by their times: there is one, all times are ones that are
    /// handled, and none ends where it starts.
    pub fn can_merge_with_timing(entries: &Vec<SrtEntry>) -> (r: bool)
        ensures
            r == {
                &&& 0 < entries@.len() < usize::MAX
                &&& times_in_range(entry_times(entries@))
                &&& forall|i: int|
                    0 <= i < entries@.len() ==> (#[trigger] entries@[i]).start_time
                        != entries@[i].end_time
            },
    {
        if entries.len() == 0 || entries.len() == usize::MAX {
            return false;
        }
        let ghost times = entry_times(entries@);
        for i in 0..entries.len()
            invariant
                times == entry_times(entries@),
                forall|j: int|
                    0 <= j < i ==> time_in_range((#[trigger] times[j]).0 as int) && time_in_range(
                        times[j].1 as int,
                    ),
                forall|j: int|
                    0 <= j < i ==> (#[trigger] entries@[j]).start_time != entries@[j].end_time,
        {
            let a: i64 = entries[i].start_time;
            let b: i64 = entries[i].end_time;
            assert(times[i as int] == (a, b));
            if a < -MAX_MILLIS || a > MAX_MILLIS || b < -MAX_MILLIS || b > MAX_MILLIS || a == b {
                return false;
            }
        }
        true
    }

    /// Whether the tool can be used: it is asked for its version, and must not report an error.
    pub fn check_ffmpeg(outcome: Outcome) -> (r: Result<(), ToolUnusable>)
        ensures
            r is Err <==> outcome is Failed,
    {
        if matches!(outcome, Outcome::Failed) {
            Err(ToolUnusable)
        } else {
            Ok(())
        }
    }
}

} // verus!
