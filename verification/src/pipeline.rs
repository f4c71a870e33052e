//! A run from end to end: what is asked for, where files go, what is left to do, and what is joined.
use vstd::prelude::*;
use crate::audio::texts;
use crate::outside::{random_uuid, random_uuid_text};
use crate::rounds::lemma_push_contains;
use crate::srt::{models, EntryModel, SrtEntry};
use crate::task::Task;
use crate::text::{decimal, join_path, joined, push_decimal};

verus! {

// ---------------------------------------------------------------------------
// What is asked for
// ---------------------------------------------------------------------------

/// What the program is to do.
#[derive(Debug)]
pub enum Mode {
    /// Go on with an earlier run.
    Resume { id: String, srt: String, recording: Option<String> },
    /// Serve the web page.
    WebUi,
    /// Process a recording.
    Run { audio: String, srt: String },
}

/// What is missing from the command line.
#[derive(Debug, Clone, Copy, PartialEq, Eq, Structural)]
pub enum ModeError {
    ResumeWithoutSrt,
    NoAudio,
    NoSrt,
}

impl ModeError {
    /// The text shown to the user.
    pub open spec fn message_text(self) -> Seq<char> {
        match self {
            ModeError::ResumeWithoutSrt => "恢复任务必须提供 SRT 文件路径 (-s/--srt)"@,
            ModeError::NoAudio => "必须提供音频文件路径 (-a/--audio)"@,
            ModeError::NoSrt => "必须提供 SRT 文件路径 (-s/--srt)"@,
        }
    }

    /// The text shown to the user.
    pub fn message(&self) -> (r: String)
        ensures
            r@ == self.message_text(),
    {
        match self {
            ModeError::ResumeWithoutSrt => "恢复任务必须提供 SRT 文件路径 (-s/--srt)".to_string(),
            ModeError::NoAudio => "必须提供音频文件路径 (-a/--audio)".to_string(),
            ModeError::NoSrt => "必须提供 SRT 文件路径 (-s/--srt)".to_string(),
        }
    }
}

/// What the program is to do: an earlier run goes first, then the web page, which is also served if
/// there are no files.
pub open spec fn mode(
    resume: Option<String>,
    webui: bool,
    audio: Option<String>,
    srt: Option<String>,
) -> Result<Mode, ModeError> {
    match resume {
        Some(id) => match srt {
            Some(s) => Ok(Mode::Resume { id, srt: s, recording: audio }),
            None => Err(ModeError::ResumeWithoutSrt),
        },
        None => if webui || (audio is None && srt is None) {
            Ok(Mode::WebUi)
        } else {
            match (audio, srt) {
                (Some(a), Some(s)) => Ok(Mode::Run { audio: a, srt: s }),
                (None, _) => Err(ModeError::NoAudio),
                (_, None) => Err(ModeError::NoSrt),
            }
        },
    }
}

/// Tells what the program is to do.
pub fn select_mode(
    resume: Option<String>,
    webui: bool,
    audio: Option<String>,
    srt: Option<String>,
) -> (r: Result<Mode, ModeError>)
    ensures
        r == mode(resume, webui, audio, srt),
{
    match resume {
        Some(id) => {
            return match srt {
                Some(s) => Ok(Mode::Resume { id, srt: s, recording: audio }),
                None => Err(ModeError::ResumeWithoutSrt),
            };
        },
        None => {},
    }
    if webui || (audio.is_none() && srt.is_none()) {
        return Ok(Mode::WebUi);
    }
    match audio {
        None => Err(ModeError::NoAudio),
        Some(a) => match srt {
            None => Err(ModeError::NoSrt),
            Some(s) => Ok(Mode::Run { audio: a, srt: s }),
        },
    }
}

// ---------------------------------------------------------------------------
// Where files go
// ---------------------------------------------------------------------------

/// The files of a run.
#[derive(Debug)]
pub struct RunPaths {
    /// The parts that are cut out of the recording.
    pub tmp_dir: String,
    /// The results of tasks.
    pub task_dir: String,
    /// The joined results.
    pub joined: String,
    /// The joined results, each in the time of its subtitle.
    pub timed: String,
}

/// A random identifier for a run.
pub fn new_run_id() -> (r: String)
    ensures
        random_uuid_text(r@),
{
    random_uuid()
}

impl RunPaths {
    /// The files of the run `id`, below the working directory `cwd` and the output directory.
    pub fn new(cwd: &str, output: &str, id: &str) -> (r: Self)
        ensures
            r.tmp_dir@ == joined(joined(cwd@, "tmp"@), id@),
            r.task_dir@ == joined(output@, id@),
            r.joined@ == joined(output@, "final_output.wav"@),
            r.timed@ == joined(output@, id@ + "_timed.wav"@),
    {
        let tmp = join_path(cwd, "tmp");
        let mut timed = id.to_string();
        timed.append("_timed.wav");
        RunPaths {
            tmp_dir: join_path(tmp.as_str(), id),
            task_dir: join_path(output, id),
            joined: join_path(output, "final_output.wav"),
            timed: join_path(output, timed.as_str()),
        }
    }
}

// ---------------------------------------------------------------------------
// What is left to do
// ---------------------------------------------------------------------------

/// A result exists and is not empty.
pub open spec fn completed(size: Option<u64>) -> bool {
    size matches Some(n) && n > 0
}

/// The first `n` tasks that can be carried out and have no result yet.
pub open spec fn unfinished(cut: Seq<bool>, sizes: Seq<Option<u64>>, n: int) -> Seq<usize>
    decreases n,
{
    if n <= 0 {
        Seq::empty()
    } else {
        let before = unfinished(cut, sizes, n - 1);
        if cut[n - 1] && !completed(sizes[n - 1]) {
            before.push((n - 1) as usize)
        } else {
            before
        }
    }
}

/// The tasks that are left of an earlier run: those whose part of the recording exists, and whose
/// result does not or is empty.
pub fn pending_tasks(cut: &Vec<bool>, sizes: &Vec<Option<u64>>) -> (r: Vec<usize>)
    requires
        cut@.len() == sizes@.len(),
    ensures
        r@ == unfinished(cut@, sizes@, cut@.len() as int),
        r@.no_duplicates(),
{
    let mut r: Vec<usize> = Vec::new();
    let mut i: usize = 0;
    while i < cut.len()
        invariant
            i <= cut@.len(),
            cut@.len() == sizes@.len(),
            r@ == unfinished(cut@, sizes@, i as int),
            forall|j: int| 0 <= j < r@.len() ==> #[trigger] r@[j] < i,
            r@.no_duplicates(),
        decreases cut@.len() - i,
    {
        let done = match sizes[i] {
            Some(n) => n > 0,
            None => false,
        };
        if cut[i] && !done {
            r.push(i);
        }
        i += 1;
    }
    r
}

// ---------------------------------------------------------------------------
// What is joined
// ---------------------------------------------------------------------------

/// The number `i` put into an order by key, behind all whose key is not larger.
pub open spec fn put_by_key(order: Seq<usize>, keys: Seq<u32>, i: usize) -> Seq<usize>
    decreases order.len(),
{
    if order.len() == 0 || keys[order.last() as int] <= keys[i as int] {
        order.push(i)
    } else {
        put_by_key(order.drop_last(), keys, i).push(order.last())
    }
}

/// The first `n` numbers in the order of their keys; equal keys keep their order.
pub open spec fn key_order(keys: Seq<u32>, n: int) -> Seq<usize>
    decreases n,
{
    if n <= 0 {
        Seq::empty()
    } else {
        put_by_key(key_order(keys, n - 1), keys, (n - 1) as usize)
    }
}

/// The numbers of subtitles.
pub open spec fn task_keys(tasks: Seq<Task>) -> Seq<u32> {
    Seq::new(tasks.len(), |i: int| tasks[i].entry.index)
}

/// A result exists and is larger than `least`.
pub open spec fn usable(size: Option<u64>, least: u64) -> bool {
    size matches Some(n) && n > least
}

/// Of tasks in some order, those with a result that can be used.
pub open spec fn usable_of(order: Seq<usize>, sizes: Seq<Option<u64>>, least: u64) -> Seq<usize>
    decreases order.len(),
{
    if order.len() == 0 {
        Seq::empty()
    } else {
        let before = usable_of(order.drop_last(), sizes, least);
        if usable(sizes[order.last() as int], least) {
            before.push(order.last())
        } else {
            before
        }
    }
}

/// The tasks whose results are joined, in the order of their subtitles.
pub open spec fn joined_tasks(tasks: Seq<Task>, sizes: Seq<Option<u64>>, least: u64) -> Seq<usize> {
    usable_of(key_order(task_keys(tasks), tasks.len() as int), sizes, least)
}

/// Results to be joined, with their subtitles.
#[derive(Debug)]
pub struct Collected {
    pub files: Vec<String>,
    pub entries: Vec<SrtEntry>,
}

/// There is nothing to be joined.
#[derive(Debug, Clone, Copy, PartialEq, Eq, Structural)]
pub struct NothingToJoin;

impl NothingToJoin {
    /// The text shown to the user.
    pub fn message(&self) -> (r: String)
        ensures
            r@ == "没有有效的合成音频文件可以合并"@,
    {
        "没有有效的合成音频文件可以合并".to_string()
    }
}

/// The results of the given tasks.
pub open spec fn results_of(tasks: Seq<Task>, chosen: Seq<usize>) -> Seq<Seq<char>> {
    Seq::new(chosen.len(), |i: int| tasks[chosen[i] as int].output_path@)
}

/// The subtitles of the given tasks.
pub open spec fn entries_of(tasks: Seq<Task>, chosen: Seq<usize>) -> Seq<EntryModel> {
    Seq::new(chosen.len(), |i: int| tasks[chosen[i] as int].entry@)
}

fn order_by_index(tasks: &Vec<Task>) -> (r: Vec<usize>)
    ensures
        r@ == key_order(task_keys(tasks@), tasks@.len() as int),
        forall|i: int| 0 <= i < r@.len() ==> #[trigger] r@[i] < tasks@.len(),
{
    let ghost keys = task_keys(tasks@);
    let mut order: Vec<usize> = Vec::new();
    let mut i: usize = 0;
    while i < tasks.len()
        invariant
            i <= tasks@.len(),
            keys == task_keys(tasks@),
            order@ == key_order(keys, i as int),
            forall|j: int| 0 <= j < order@.len() ==> #[trigger] order@[j] < i,
        decreases tasks@.len() - i,
    {
        let ghost s = order@;
        let mut k: usize = order.len();
        assert(s.subrange(0, k as int) =~= s);
        assert(put_by_key(s, keys, i) =~= put_by_key(s.subrange(0, k as int), keys, i)
            + s.subrange(k as int, s.len() as int));
        while k > 0 && tasks[order[k - 1]].entry.index > tasks[i].entry.index
            invariant
                k <= order@.len(),
                i < tasks@.len(),
                keys == task_keys(tasks@),
                order@ == s,
                forall|j: int| 0 <= j < order@.len() ==> #[trigger] order@[j] < i,
                put_by_key(s, keys, i) == put_by_key(s.subrange(0, k as int), keys, i)
                    + s.subrange(k as int, s.len() as int),
            decreases k,
        {
            assert(s.subrange(0, k as int).drop_last() =~= s.subrange(0, k - 1));
            assert(put_by_key(s, keys, i) =~= put_by_key(s.subrange(0, k - 1), keys, i)
                + s.subrange(k - 1, s.len() as int));
            k -= 1;
        }
        order.insert(k, i);
        assert(order@ =~= s.subrange(0, k as int).push(i) + s.subrange(k as int, s.len() as int));
        assert(order@ == put_by_key(s, keys, i));
        assert forall|j: int| 0 <= j < order@.len() implies #[trigger] order@[j] < i + 1 by {
            if j < k {
                assert(order@[j] == s[j]);
            } else if j > k {
                assert(order@[j] == s[j - 1]);
            }
        }
        i += 1;
    }
    order
}

/// Collects the results that are joined, in the order of their subtitles. `sizes` tells for each task
/// how large its result is, if it exists, and `least` how large it must be and more.
pub fn collect_for_merge(tasks: &Vec<Task>, sizes: &Vec<Option<u64>>, least: u64) -> (r: Result<
    Collected,
    NothingToJoin,
>)
    requires
        sizes@.len() == tasks@.len(),
    ensures
        match r {
            Ok(c) => {
                &&& joined_tasks(tasks@, sizes@, least).len() > 0
                &&& c.files@.len() == c.entries@.len()
                &&& texts(c.files@) == results_of(tasks@, joined_tasks(tasks@, sizes@, least))
                &&& models(c.entries@) == entries_of(tasks@, joined_tasks(tasks@, sizes@, least))
            },
            Err(_) => joined_tasks(tasks@, sizes@, least).len() == 0,
        },
{
    let order = order_by_index(tasks);
    let mut files: Vec<String> = Vec::new();
    let mut entries: Vec<SrtEntry> = Vec::new();
    let ghost mut chosen: Seq<usize> = Seq::empty();
    let mut i: usize = 0;
    assert(order@.subrange(0, 0) =~= Seq::<usize>::empty());
    assert(texts(files@) =~= results_of(tasks@, chosen));
    assert(models(entries@) =~= entries_of(tasks@, chosen));
    while i < order.len()
        invariant
            i <= order@.len(),
            sizes@.len() == tasks@.len(),
            forall|j: int| 0 <= j < order@.len() ==> #[trigger] order@[j] < tasks@.len(),
            chosen == usable_of(order@.subrange(0, i as int), sizes@, least),
            texts(files@) == results_of(tasks@, chosen),
            models(entries@) == entries_of(tasks@, chosen),
            files@.len() == chosen.len(),
            entries@.len() == chosen.len(),
        decreases order@.len() - i,
    {
        assert(order@.subrange(0, i + 1).drop_last() =~= order@.subrange(0, i as int));
        let k: usize = order[i];
        let task = &tasks[k];
        let good = match sizes[k] {
            Some(n) => n > least,
            None => false,
        };
        if good {
            let ghost before = chosen;
            let ghost some_files = files@;
            let ghost some_entries = entries@;
            files.push(task.output_path.clone());
            entries.push(task.entry.clone());
            proof {
                chosen = chosen.push(k);
                assert(texts(files@) =~= texts(some_files).push(task.output_path@));
                assert(results_of(tasks@, chosen) =~= results_of(tasks@, before).push(
                    task.output_path@,
                ));
                assert(models(entries@) =~= models(some_entries).push(task.entry@));
                assert(entries_of(tasks@, chosen) =~= entries_of(tasks@, before).push(task.entry@));
            }
        }
        i += 1;
    }
    assert(order@.subrange(0, i as int) =~= order@);
    if files.len() == 0 {
        return Err(NothingToJoin);
    }
    Ok(Collected { files, entries })
}

/// The text shown for a task whose result is not joined.
pub open spec fn skip_text(index: u32, size: Option<u64>) -> Seq<char> {
    "警告: 任务 "@ + decimal(index as nat) + if size is Some {
        " 输出文件无效 (过小)，跳过合并"@
    } else {
        " 输出文件缺失，跳过合并"@
    }
}

/// What is to be said of a task when results are collected: a warning if its result is not joined.
pub fn skip_warning(index: u32, size: Option<u64>, least: u64) -> (r: Option<String>)
    ensures
        r is Some <==> !usable(size, least),
        r matches Some(t) ==> t@ == skip_text(index, size),
{
    match size {
        Some(n) => {
            if n > least {
                return None;
            }
        },
        None => {},
    }
    let mut t = "警告: 任务 ".to_string();
    push_decimal(&mut t, index as u64);
    if size.is_some() {
        t.append(" 输出文件无效 (过小)，跳过合并");
    } else {
        t.append(" 输出文件缺失，跳过合并");
    }
    Some(t)
}

// ---------------------------------------------------------------------------
// Laws
// ---------------------------------------------------------------------------

/// A task is left to do exactly if its part of the recording exists, and its result does not or is
/// empty.
pub proof fn law_unfinished_tasks(cut: Seq<bool>, sizes: Seq<Option<u64>>, n: int, x: usize)
    requires
        0 <= n <= cut.len(),
        n <= sizes.len(),
        n <= usize::MAX,
    ensures
        unfinished(cut, sizes, n).contains(x) <==> x < n && cut[x as int] && !completed(
            sizes[x as int],
        ),
    decreases n,
{
    if n > 0 {
        let before = unfinished(cut, sizes, n - 1);
        let all = unfinished(cut, sizes, n);
        law_unfinished_tasks(cut, sizes, n - 1, x);
        if before.contains(x) {
            let j = choose|j: int| 0 <= j < before.len() && before[j] == x;
            assert(all[j] == x);
        }
        if x == n - 1 && all.len() > before.len() {
            assert(all[before.len() as int] == x);
        }
        if all.contains(x) {
            let j = choose|j: int| 0 <= j < all.len() && all[j] == x;
            if j < before.len() {
                assert(before[j] == x);
            }
        }
    }
}

/// Every item before another has a key that is not larger; where keys are equal, it is the smaller
/// number.
pub open spec fn in_key_order(order: Seq<usize>, keys: Seq<u32>) -> bool {
    forall|i: int, j: int|
        0 <= i < j < order.len() ==> {
            ||| keys[#[trigger] order[i] as int] < keys[#[trigger] order[j] as int]
            ||| keys[order[i] as int] == keys[order[j] as int] && order[i] < order[j]
        }
}

proof fn lemma_put_by_key(order: Seq<usize>, keys: Seq<u32>, i: usize)
    requires
        in_key_order(order, keys),
        forall|j: int| 0 <= j < order.len() ==> #[trigger] order[j] < i,
    ensures
        in_key_order(put_by_key(order, keys, i), keys),
        put_by_key(order, keys, i).len() == order.len() + 1,
        forall|x: usize|
            put_by_key(order, keys, i).contains(x) <==> (#[trigger] order.contains(x) || x == i),
    decreases order.len(),
{
    let all = put_by_key(order, keys, i);
    if order.len() == 0 || keys[order.last() as int] <= keys[i as int] {
        assert forall|x: usize| all.contains(x) <==> (#[trigger] order.contains(x) || x == i) by {
            lemma_push_contains(order, i, x);
        }
        assert forall|a: int, b: int| 0 <= a < b < all.len() implies {
            ||| keys[#[trigger] all[a] as int] < keys[#[trigger] all[b] as int]
            ||| keys[all[a] as int] == keys[all[b] as int] && all[a] < all[b]
        } by {
            assert(all[a] == order[a]);
            if b < order.len() {
                assert(all[b] == order[b]);
            } else if a < order.len() - 1 {
                assert(order[order.len() - 1] == order.last());
            }
        }
    } else {
        let rest = order.drop_last();
        let part = put_by_key(rest, keys, i);
        assert(in_key_order(rest, keys));
        lemma_put_by_key(rest, keys, i);
        assert forall|x: usize| all.contains(x) <==> (#[trigger] order.contains(x) || x == i) by {
            lemma_push_contains(part, order.last(), x);
            lemma_push_contains(rest, order.last(), x);
            assert(order =~= rest.push(order.last()));
            assert(part.contains(x) <==> rest.contains(x) || x == i);
        }
        assert forall|a: int, b: int| 0 <= a < b < all.len() implies {
            ||| keys[#[trigger] all[a] as int] < keys[#[trigger] all[b] as int]
            ||| keys[all[a] as int] == keys[all[b] as int] && all[a] < all[b]
        } by {
            assert(all[a] == part[a]);
            if b < part.len() {
                assert(all[b] == part[b]);
            } else {
                assert(part.contains(part[a]));
                if part[a] != i {
                    assert(rest.contains(part[a]));
                    let k = choose|k: int| 0 <= k < rest.len() && rest[k] == part[a];
                    assert(order[k] == part[a]);
                    assert(order[order.len() - 1] == all[b]);
                }
            }
        }
    }
}

/// The order by key has every number once, with keys that ascend, and equal keys as they came.
pub proof fn law_key_order_sorts(keys: Seq<u32>, n: int)
    requires
        0 <= n <= keys.len(),
        n <= usize::MAX,
    ensures
        key_order(keys, n).len() == n,
        in_key_order(key_order(keys, n), keys),
        forall|x: usize| #[trigger] key_order(keys, n).contains(x) <==> x < n,
    decreases n,
{
    if n > 0 {
        law_key_order_sorts(keys, n - 1);
        let before = key_order(keys, n - 1);
        assert forall|j: int| 0 <= j < before.len() implies #[trigger] before[j] < (n - 1) as usize by {
            assert(before.contains(before[j]));
        }
        lemma_put_by_key(before, keys, (n - 1) as usize);
        assert forall|x: usize| #[trigger] key_order(keys, n).contains(x) <==> x < n by {
            assert(before.contains(x) <==> x < n - 1);
        }
    } else {
        assert forall|x: usize| #[trigger] key_order(keys, n).contains(x) <==> x < n by {}
    }
}

proof fn lemma_usable_of(order: Seq<usize>, sizes: Seq<Option<u64>>, least: u64, keys: Seq<u32>)
    requires
        in_key_order(order, keys),
    ensures
        in_key_order(usable_of(order, sizes, least), keys),
        forall|x: usize|
            usable_of(order, sizes, least).contains(x) <==> (#[trigger] order.contains(x) && usable(
                sizes[x as int],
                least,
            )),
    decreases order.len(),
{
    if order.len() > 0 {
        let rest = order.drop_last();
        let before = usable_of(rest, sizes, least);
        let all = usable_of(order, sizes, least);
        assert(in_key_order(rest, keys));
        lemma_usable_of(rest, sizes, least, keys);
        assert(order =~= rest.push(order.last()));
        assert forall|x: usize| all.contains(x) <==> (#[trigger] order.contains(x) && usable(
            sizes[x as int],
            least,
        )) by {
            lemma_push_contains(rest, order.last(), x);
            lemma_push_contains(before, order.last(), x);
            assert(before.contains(x) <==> rest.contains(x) && usable(sizes[x as int], least));
        }
        if all.len() > before.len() {
            assert forall|a: int, b: int| 0 <= a < b < all.len() implies {
                ||| keys[#[trigger] all[a] as int] < keys[#[trigger] all[b] as int]
                ||| keys[all[a] as int] == keys[all[b] as int] && all[a] < all[b]
            } by {
                assert(all[a] == before[a]);
                if b < before.len() {
                    assert(all[b] == before[b]);
                } else {
                    assert(before.contains(before[a]));
                    assert(rest.contains(before[a]));
                    let k = choose|k: int| 0 <= k < rest.len() && rest[k] == before[a];
                    assert(order[k] == before[a]);
                    assert(order[order.len() - 1] == all[b]);
                }
            }
        }
    } else {
        assert forall|x: usize| usable_of(order, sizes, least).contains(x) <==> (
        #[trigger] order.contains(x) && usable(sizes[x as int], least)) by {}
    }
}

/// What is joined are the results that can be used, all of them, in the order of their subtitles.
pub proof fn law_joined_in_order(tasks: Seq<Task>, sizes: Seq<Option<u64>>, least: u64)
    requires
        sizes.len() == tasks.len(),
        tasks.len() <= usize::MAX,
    ensures
        in_key_order(joined_tasks(tasks, sizes, least), task_keys(tasks)),
        forall|x: usize| #[trigger]
            joined_tasks(tasks, sizes, least).contains(x) <==> x < tasks.len() && usable(
                sizes[x as int],
                least,
            ),
{
    let keys = task_keys(tasks);
    let order = key_order(keys, tasks.len() as int);
    law_key_order_sorts(keys, tasks.len() as int);
    lemma_usable_of(order, sizes, least, keys);
    assert forall|x: usize| #[trigger] joined_tasks(tasks, sizes, least).contains(x) <==> x
        < tasks.len() && usable(sizes[x as int], least) by {
        assert(order.contains(x) <==> x < tasks.len());
    }
}

} // verus!
