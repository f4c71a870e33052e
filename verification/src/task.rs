//! Tasks: one per subtitle, and how long to wait before a task is tried again.
use vstd::prelude::*;
use crate::audio::SplitFault;
use crate::srt::{models, EntryModel, SrtEntry};
use crate::text;
use crate::text::{blank, decimal, is_blank, join_path, joined, lemma_decimal_injective, push_decimal};

verus! {

// ---------------------------------------------------------------------------
// Back-off
// ---------------------------------------------------------------------------

/// How the message of a refusal begins; its status follows.
pub open spec fn refusal_head() -> Seq<char> {
    "API 请求失败: "@
}

/// The message is that of a refusal.
pub open spec fn is_refusal(msg: Seq<char>) -> bool {
    text::occurs_at(refusal_head(), msg, 0)
}

/// The status of a refusal begins like this.
pub open spec fn status_begins(msg: Seq<char>, digits: Seq<char>) -> bool {
    text::occurs_at(digits, msg, refusal_head().len() as int)
}

/// The message tells of a refusal for load: status 429 or one of the 5xx. A refusal tells its
/// status; other messages are searched for one.
pub open spec fn overloaded(msg: Seq<char>) -> bool {
    if is_refusal(msg) {
        status_begins(msg, "429"@) || status_begins(msg, "5"@)
    } else {
        text::occurs("429"@, msg) || text::occurs(" 5"@, msg)
    }
}

/// The message tells of a refused request: one of the other 4xx.
pub open spec fn refused(msg: Seq<char>) -> bool {
    !overloaded(msg) && if is_refusal(msg) {
        status_begins(msg, "4"@)
    } else {
        text::occurs(" 4"@, msg)
    }
}

/// Two to the power `k`.
pub open spec fn two_to(k: nat) -> nat
    decreases k,
{
    if k == 0 {
        1
    } else {
        2 * two_to((k - 1) as nat)
    }
}

/// `base` doubled after every failed attempt, `most` times at most.
pub open spec fn doubling(base: nat, attempt: int, most: int) -> nat {
    let k = if attempt - 1 < most {
        attempt - 1
    } else {
        most
    };
    base * two_to(k as nat)
}

/// How long to wait after the given failed attempt, in milliseconds.
pub open spec fn backoff(msg: Seq<char>, attempt: int) -> int {
    if overloaded(msg) {
        let d = doubling(2000, attempt, 4);
        if d < 30_000 {
            d as int
        } else {
            30_000
        }
    } else if refused(msg) {
        500
    } else {
        doubling(1000, attempt, 5) as int
    }
}

fn doubled(base: u64, k: u32) -> (r: u64)
    requires
        base <= 2000,
        k <= 5,
    ensures
        r == base * two_to(k as nat),
        r <= 64_000,
{
    reveal_with_fuel(two_to, 6);
    let mut r: u64 = base;
    let mut i: u32 = 0;
    assert(base * 1 == base);
    while i < k
        invariant
            base <= 2000,
            i <= k <= 5,
            r == base * two_to(i as nat),
            two_to(i as nat) <= 32,
            r <= 2000 * 32,
        decreases k - i,
    {
        reveal_with_fuel(two_to, 6);
        assert(two_to((i + 1) as nat) == 2 * two_to(i as nat));
        assert(base * (2 * two_to(i as nat)) == 2 * (base * two_to(i as nat))) by (nonlinear_arith);
        assert(two_to((i + 1) as nat) <= 32);
        assert(base * two_to((i + 1) as nat) <= 2000 * 32) by (nonlinear_arith)
            requires
                base <= 2000,
                two_to((i + 1) as nat) <= 32,
        ;
        r = 2 * r;
        i += 1;
    }
    r
}

fn tells_overload(msg: &str) -> (r: bool)
    ensures
        r == overloaded(msg@),
{
    let head = "API 请求失败: ";
    if text::stands_at(msg, head, 0) {
        let n: usize = text::chars_of(head).len();
        text::stands_at(msg, "429", n) || text::stands_at(msg, "5", n)
    } else {
        text::contains(msg, "429") || text::contains(msg, " 5")
    }
}

fn tells_refusal(msg: &str) -> (r: bool)
    ensures
        r == if is_refusal(msg@) {
            status_begins(msg@, "4"@)
        } else {
            text::occurs(" 4"@, msg@)
        },
{
    let head = "API 请求失败: ";
    if text::stands_at(msg, head, 0) {
        text::stands_at(msg, "4", text::chars_of(head).len())
    } else {
        text::contains(msg, " 4")
    }
}

/// How long to wait after a failed attempt, in milliseconds: longest for 429 and 5xx, shortest for
/// the other 4xx, doubling otherwise.
pub fn classify_backoff_delay(msg: &str, attempt: u32) -> (r: u64)
    requires
        attempt >= 1,
    ensures
        r == backoff(msg@, attempt as int),
{
    if tells_overload(msg) {
        let k: u32 = if attempt - 1 < 4 {
            attempt - 1
        } else {
            4
        };
        let base: u64 = doubled(2000, k);
        return if base < 30_000 {
            base
        } else {
            30_000
        };
    }
    if tells_refusal(msg) {
        return 500;
    }
    let k: u32 = if attempt - 1 < 5 {
        attempt - 1
    } else {
        5
    };
    doubled(1000, k)
}

/// Waits are at least half a second and at most 32 seconds; after a refusal for load they are at
/// least two seconds and at most 30.
pub proof fn law_backoff_is_bounded(msg: Seq<char>, attempt: int)
    requires
        attempt >= 1,
    ensures
        500 <= backoff(msg, attempt) <= 32_000,
        overloaded(msg) ==> 2000 <= backoff(msg, attempt) <= 30_000,
        refused(msg) ==> backoff(msg, attempt) == 500,
        !overloaded(msg) && !refused(msg) ==> backoff(msg, attempt) >= 1000,
{
    reveal_with_fuel(two_to, 6);
}

/// No wait is shorter than the one before it.
pub proof fn law_backoff_grows(msg: Seq<char>, attempt: int, later: int)
    requires
        1 <= attempt <= later,
    ensures
        backoff(msg, attempt) <= backoff(msg, later),
{
    reveal_with_fuel(two_to, 6);
}

/// After a refusal for load the wait is longer than after another failure, up to the fifth attempt.
/// From the sixth on its limit of 30 seconds lies below the 32 seconds of the other.
pub proof fn law_overload_waits_longer(load: Seq<char>, other: Seq<char>, attempt: int)
    requires
        1 <= attempt <= 5,
        overloaded(load),
        !overloaded(other),
    ensures
        backoff(load, attempt) > backoff(other, attempt),
{
    reveal_with_fuel(two_to, 6);
}

/// After a refused request the wait is the shortest.
pub proof fn law_refused_waits_least(msg: Seq<char>, other: Seq<char>, attempt: int, later: int)
    requires
        attempt >= 1,
        later >= 1,
        refused(msg),
        !refused(other),
    ensures
        backoff(msg, attempt) < backoff(other, later),
{
    law_backoff_is_bounded(msg, attempt);
    law_backoff_is_bounded(other, later);
}

// ---------------------------------------------------------------------------
// Tasks
// ---------------------------------------------------------------------------

/// One subtitle to be spoken: what it says, the voice to speak it in, and where the result goes.
#[derive(Debug)]
pub struct Task {
    pub entry: SrtEntry,
    pub tmp_audio: String,
    pub output_path: String,
}

/// The mathematical content of a [`Task`].
#[verifier::ext_equal]
pub ghost struct TaskModel {
    pub entry: EntryModel,
    pub tmp_audio: Seq<char>,
    pub output_path: Seq<char>,
}

impl View for Task {
    type V = TaskModel;

    open spec fn view(&self) -> TaskModel {
        TaskModel {
            entry: self.entry@,
            tmp_audio: self.tmp_audio@,
            output_path: self.output_path@,
        }
    }
}

impl Clone for Task {
    fn clone(&self) -> (r: Self)
        ensures
            r@ == self@,
    {
        Task {
            entry: self.entry.clone(),
            tmp_audio: self.tmp_audio.clone(),
            output_path: self.output_path.clone(),
        }
    }
}

/// The models of a run of tasks.
pub open spec fn task_models(v: Seq<Task>) -> Seq<TaskModel> {
    Seq::new(v.len(), |i: int| v[i]@)
}

/// The sound file of a subtitle inside a directory.
pub open spec fn wav_in(dir: Seq<char>, prefix: Seq<char>, index: u32) -> Seq<char> {
    joined(dir, prefix + decimal(index as nat) + ".wav"@)
}

/// The part of the recording that belongs to a subtitle.
pub open spec fn part_in(dir: Seq<char>, index: u32) -> Seq<char> {
    wav_in(dir, ""@, index)
}

/// The result for a subtitle.
pub open spec fn result_in(dir: Seq<char>, index: u32) -> Seq<char> {
    wav_in(dir, "synthesized_"@, index)
}

/// The task of a subtitle.
pub open spec fn task_of(entry: EntryModel, tmp_dir: Seq<char>, output_dir: Seq<char>) -> TaskModel {
    TaskModel {
        entry,
        tmp_audio: part_in(tmp_dir, entry.index),
        output_path: result_in(output_dir, entry.index),
    }
}

/// The tasks of subtitles: one for each that says anything.
pub open spec fn planned(
    entries: Seq<EntryModel>,
    tmp_dir: Seq<char>,
    output_dir: Seq<char>,
) -> Seq<TaskModel>
    decreases entries.len(),
{
    if entries.len() == 0 {
        Seq::empty()
    } else {
        let before = planned(entries.drop_last(), tmp_dir, output_dir);
        if blank(entries.last().text) {
            before
        } else {
            before.push(task_of(entries.last(), tmp_dir, output_dir))
        }
    }
}

fn wav_path(dir: &str, prefix: &str, index: u32) -> (r: String)
    ensures
        r@ == wav_in(dir@, prefix@, index),
{
    let mut name = prefix.to_string();
    push_decimal(&mut name, index as u64);
    name.append(".wav");
    assert(name@ =~= prefix@ + decimal(index as nat) + ".wav"@);
    join_path(dir, name.as_str())
}

/// A part of the recording that is to be cut out for a task.
#[derive(Debug)]
pub struct SegmentJob {
    pub index: u32,
    pub start_time: i64,
    pub end_time: i64,
    pub tmp_audio: String,
}

/// The part is cut out for the task.
pub open spec fn job_for(job: SegmentJob, task: Task) -> bool {
    &&& job.index == task.entry.index
    &&& job.start_time == task.entry.start_time
    &&& job.end_time == task.entry.end_time
    &&& job.tmp_audio@ == task.tmp_audio@
}

/// The text shown for a part that holds no sound.
pub open spec fn segment_warning_text(index: u32, size: u64) -> Seq<char> {
    "警告: 任务 "@ + decimal(index as nat) + " 的音频片段可能无效（文件大小: "@ + decimal(size as nat)
        + " 字节）"@
}

/// What is done with a part that was cut out.
#[derive(Debug)]
pub enum PartVerdict {
    /// It is kept.
    Keep,
    /// It is kept, and this is said.
    Warn(String),
    /// The preparation ends.
    Refuse(SplitFault),
}

/// The tasks of a run.
#[derive(Debug)]
pub struct TaskManager {
    pub tasks: Vec<Task>,
    /// How many subtitles say nothing.
    pub skipped: usize,
}

impl TaskManager {
    /// The tasks of subtitles: one for each that says anything. The recording is cut up later, so
    /// where it is does not matter yet.
    pub fn new(srt_entries: Vec<SrtEntry>, _audio_path: &str, tmp_dir: &str, output_dir: &str) -> (r:
        Self)
        ensures
            task_models(r.tasks@) == planned(models(srt_entries@), tmp_dir@, output_dir@),
            r.tasks@.len() + r.skipped == srt_entries@.len(),
    {
        let mut tasks: Vec<Task> = Vec::new();
        let mut skipped: usize = 0;
        let mut i: usize = 0;
        assert(models(srt_entries@).subrange(0, 0) =~= Seq::<EntryModel>::empty());
        assert(task_models(tasks@) =~= Seq::<TaskModel>::empty());
        while i < srt_entries.len()
            invariant
                i <= srt_entries@.len(),
                task_models(tasks@) == planned(
                    models(srt_entries@).subrange(0, i as int),
                    tmp_dir@,
                    output_dir@,
                ),
                tasks@.len() + skipped == i,
            decreases srt_entries@.len() - i,
        {
            let ghost upto = models(srt_entries@).subrange(0, i + 1);
            assert(upto.drop_last() =~= models(srt_entries@).subrange(0, i as int));
            assert(upto.last() == srt_entries@[i as int]@);
            let entry = &srt_entries[i];
            if is_blank(entry.text.as_str()) {
                skipped += 1;
            } else {
                let ghost before = tasks@;
                tasks.push(
                    Task {
                        tmp_audio: wav_path(tmp_dir, "", entry.index),
                        output_path: wav_path(output_dir, "synthesized_", entry.index),
                        entry: entry.clone(),
                    },
                );
                assert(task_models(tasks@) =~= task_models(before).push(
                    task_of(upto.last(), tmp_dir@, output_dir@),
                ));
            }
            i += 1;
        }
        assert(models(srt_entries@).subrange(0, i as int) =~= models(srt_entries@));
        TaskManager { tasks, skipped }
    }

    /// What is to be cut out of the recording: one part for each task.
    pub fn prepare_audio_segments(&self) -> (r: Vec<SegmentJob>)
        ensures
            r@.len() == self.tasks@.len(),
            forall|i: int| 0 <= i < r@.len() ==> job_for(#[trigger] r@[i], self.tasks@[i]),
    {
        let mut r: Vec<SegmentJob> = Vec::new();
        let mut i: usize = 0;
        while i < self.tasks.len()
            invariant
                i <= self.tasks@.len(),
                r@.len() == i,
                forall|j: int| 0 <= j < i ==> job_for(#[trigger] r@[j], self.tasks@[j]),
            decreases self.tasks@.len() - i,
        {
            let task = &self.tasks[i];
            r.push(
                SegmentJob {
                    index: task.entry.index,
                    start_time: task.entry.start_time,
                    end_time: task.entry.end_time,
                    tmp_audio: task.tmp_audio.clone(),
                },
            );
            i += 1;
        }
        r
    }

    fn segment_warning(index: u32, size: u64) -> (r: String)
        ensures
            r@ == segment_warning_text(index, size),
    {
        let mut t = "警告: 任务 ".to_string();
        push_decimal(&mut t, index as u64);
        t.append(" 的音频片段可能无效（文件大小: ");
        push_decimal(&mut t, size);
        t.append(" 字节）");
        assert(t@ =~= segment_warning_text(index, size));
        t
    }

    /// Decides on a part by what came of cutting it out. One that holds no sound is kept, with a
    /// warning; its task will fail later. Every other fault ends the preparation.
    pub fn judge_part(index: u32, outcome: Result<(), SplitFault>) -> (r: PartVerdict)
        ensures
            match outcome {
                Ok(_) => r == PartVerdict::Keep,
                Err(SplitFault::TooSmall(size)) => r matches PartVerdict::Warn(text) && text@
                    == segment_warning_text(index, size),
                Err(fault) => r == PartVerdict::Refuse(fault),
            },
    {
        match outcome {
            Ok(_) => PartVerdict::Keep,
            Err(SplitFault::TooSmall(size)) => PartVerdict::Warn(
                Self::segment_warning(index, size),
            ),
            Err(fault) => PartVerdict::Refuse(fault),
        }
    }

    /// The tasks.
    pub fn get_tasks(&self) -> (r: &Vec<Task>)
        ensures
            *r == self.tasks,
    {
        &self.tasks
    }

    /// How many tasks there are.
    pub fn len(&self) -> (r: usize)
        ensures
            r == self.tasks@.len(),
    {
        self.tasks.len()
    }
}

// ---------------------------------------------------------------------------
// Laws
// ---------------------------------------------------------------------------

proof fn lemma_planned_from(
    entries: Seq<EntryModel>,
    tmp_dir: Seq<char>,
    output_dir: Seq<char>,
    i: int,
) -> (k: int)
    requires
        0 <= i < planned(entries, tmp_dir, output_dir).len(),
    ensures
        i <= k < entries.len(),
        planned(entries, tmp_dir, output_dir)[i] == task_of(entries[k], tmp_dir, output_dir),
        !blank(entries[k].text),
    decreases entries.len(),
{
    let before = planned(entries.drop_last(), tmp_dir, output_dir);
    if i < before.len() {
        lemma_planned_from(entries.drop_last(), tmp_dir, output_dir, i)
    } else {
        lemma_planned_len(entries.drop_last(), tmp_dir, output_dir);
        entries.len() - 1
    }
}

proof fn lemma_planned_len(entries: Seq<EntryModel>, tmp_dir: Seq<char>, output_dir: Seq<char>)
    ensures
        planned(entries, tmp_dir, output_dir).len() <= entries.len(),
    decreases entries.len(),
{
    if entries.len() > 0 {
        lemma_planned_len(entries.drop_last(), tmp_dir, output_dir);
    }
}

/// Every task has something to say, and stands for a subtitle.
pub proof fn law_tasks_have_something_to_say(
    entries: Seq<EntryModel>,
    tmp_dir: Seq<char>,
    output_dir: Seq<char>,
    i: int,
)
    requires
        0 <= i < planned(entries, tmp_dir, output_dir).len(),
    ensures
        !blank(planned(entries, tmp_dir, output_dir)[i].entry.text),
        entries.contains(planned(entries, tmp_dir, output_dir)[i].entry),
{
    let k = lemma_planned_from(entries, tmp_dir, output_dir, i);
    assert(entries[k] == planned(entries, tmp_dir, output_dir)[i].entry);
}

/// Subtitles that say something are not lost.
pub proof fn law_no_subtitle_is_lost(
    entries: Seq<EntryModel>,
    tmp_dir: Seq<char>,
    output_dir: Seq<char>,
    k: int,
)
    requires
        0 <= k < entries.len(),
        !blank(entries[k].text),
    ensures
        planned(entries, tmp_dir, output_dir).contains(task_of(entries[k], tmp_dir, output_dir)),
    decreases entries.len(),
{
    let all = planned(entries, tmp_dir, output_dir);
    let before = planned(entries.drop_last(), tmp_dir, output_dir);
    if k == entries.len() - 1 {
        assert(all[all.len() - 1] == task_of(entries[k], tmp_dir, output_dir));
    } else {
        law_no_subtitle_is_lost(entries.drop_last(), tmp_dir, output_dir, k);
        let i = choose|i: int|
            0 <= i < before.len() && before[i] == task_of(entries[k], tmp_dir, output_dir);
        assert(all[i] == before[i]);
    }
}

/// Subtitles with numbers of their own have files of their own.
pub proof fn law_tasks_have_files_of_their_own(
    a: EntryModel,
    b: EntryModel,
    tmp_dir: Seq<char>,
    output_dir: Seq<char>,
)
    requires
        a.index != b.index,
    ensures
        task_of(a, tmp_dir, output_dir).tmp_audio != task_of(b, tmp_dir, output_dir).tmp_audio,
        task_of(a, tmp_dir, output_dir).output_path != task_of(b, tmp_dir, output_dir).output_path,
{
    lemma_wav_injective(tmp_dir, ""@, a.index, b.index);
    lemma_wav_injective(output_dir, "synthesized_"@, a.index, b.index);
}

proof fn lemma_wav_injective(dir: Seq<char>, prefix: Seq<char>, a: u32, b: u32)
    ensures
        wav_in(dir, prefix, a) == wav_in(dir, prefix, b) ==> a == b,
{
    if wav_in(dir, prefix, a) == wav_in(dir, prefix, b) {
        let x = decimal(a as nat);
        let y = decimal(b as nat);
        let w = ".wav"@;
        let head = if dir.len() == 0 || dir.last() == '/' {
            dir + prefix
        } else {
            dir.push('/') + prefix
        };
        let s = wav_in(dir, prefix, a);
        let n = head.len() as int;
        assert(s =~= head + (x + w));
        assert(s =~= head + (y + w));
        assert(x.len() == y.len());
        assert(x =~= s.subrange(n, n + x.len()));
        assert(y =~= s.subrange(n, n + y.len()));
        lemma_decimal_injective(a as nat, b as nat);
    }
}

} // verus!
