//! What is said at the end of a run of the tasks that failed.
use vstd::prelude::*;
use crate::outside::optional_text;
use crate::pipeline::{
    in_key_order, joined_tasks, key_order, law_joined_in_order, law_key_order_sorts, task_keys, usable,
};
use crate::rounds::lemma_push_contains;
use crate::task::Task;
use crate::text::{decimal, push_decimal};

verus! {

/// Of the first `n` tasks, those without a result that can be used.
pub open spec fn failed_tasks(sizes: Seq<Option<u64>>, least: u64, n: int) -> Seq<usize>
    decreases n,
{
    if n <= 0 {
        Seq::empty()
    } else {
        let before = failed_tasks(sizes, least, n - 1);
        if usable(sizes[n - 1], least) {
            before
        } else {
            before.push((n - 1) as usize)
        }
    }
}

/// Why a task has no result: what was said when it failed for the last time, or else what is known of
/// its file.
pub open spec fn failure_reason(reason: Option<Seq<char>>, size: Option<u64>) -> Seq<char> {
    match reason {
        Some(text) => text,
        None => if size is Some {
            "输出文件无效 (过小)"@
        } else {
            "输出文件缺失"@
        },
    }
}

/// The line on a task that failed.
pub open spec fn failure_line(index: u32, reason: Option<Seq<char>>, size: Option<u64>) -> Seq<char> {
    "\n✗ 任务 "@ + decimal(index as nat) + " 失败: "@ + failure_reason(reason, size)
}

/// The lines on tasks that failed.
pub open spec fn failure_lines(
    tasks: Seq<Task>,
    sizes: Seq<Option<u64>>,
    reasons: Seq<Option<String>>,
    failed: Seq<usize>,
) -> Seq<char>
    decreases failed.len(),
{
    if failed.len() == 0 {
        Seq::empty()
    } else {
        let i = failed.last() as int;
        failure_lines(tasks, sizes, reasons, failed.drop_last()) + failure_line(
            tasks[i].entry.index,
            optional_text(reasons[i]),
            sizes[i],
        )
    }
}

/// What is said of the tasks that failed: how many there are, and why each of them failed.
pub open spec fn failure_text(
    tasks: Seq<Task>,
    sizes: Seq<Option<u64>>,
    reasons: Seq<Option<String>>,
    failed: Seq<usize>,
) -> Seq<char> {
    "失败任务数: "@ + decimal(failed.len()) + "/"@ + decimal(tasks.len()) + failure_lines(
        tasks,
        sizes,
        reasons,
        failed,
    )
}

fn push_failure(text: &mut String, index: u32, reason: &Option<String>, size: Option<u64>)
    ensures
        final(text)@ == old(text)@ + failure_line(index, optional_text(*reason), size),
{
    text.append("\n✗ 任务 ");
    push_decimal(text, index as u64);
    text.append(" 失败: ");
    match reason {
        Some(why) => {
            text.append(why.as_str());
        },
        None => {
            if size.is_some() {
                text.append("输出文件无效 (过小)");
            } else {
                text.append("输出文件缺失");
            }
        },
    }
    assert(text@ =~= old(text)@ + failure_line(index, optional_text(*reason), size));
}

/// What is to be said of the tasks whose results are not joined, if there are any. The sizes are
/// those of the results, and the reasons what was said when a task failed for the last time.
pub fn report_failures(
    tasks: &Vec<Task>,
    sizes: &Vec<Option<u64>>,
    least: u64,
    reasons: &Vec<Option<String>>,
) -> (r: Option<String>)
    requires
        sizes@.len() == tasks@.len(),
        reasons@.len() == tasks@.len(),
    ensures
        r is Some <==> failed_tasks(sizes@, least, tasks@.len() as int).len() > 0,
        r matches Some(text) ==> text@ == failure_text(
            tasks@,
            sizes@,
            reasons@,
            failed_tasks(sizes@, least, tasks@.len() as int),
        ),
{
    let mut lines = String::new();
    let mut count: usize = 0;
    let mut i: usize = 0;
    while i < tasks.len()
        invariant
            i <= tasks@.len(),
            sizes@.len() == tasks@.len(),
            reasons@.len() == tasks@.len(),
            count <= i,
            count == failed_tasks(sizes@, least, i as int).len(),
            lines@ == failure_lines(
                tasks@,
                sizes@,
                reasons@,
                failed_tasks(sizes@, least, i as int),
            ),
        decreases tasks@.len() - i,
    {
        let ghost before = failed_tasks(sizes@, least, i as int);
        let ghost after = failed_tasks(sizes@, least, i + 1);
        let fine = match sizes[i] {
            Some(n) => n > least,
            None => false,
        };
        if !fine {
            push_failure(&mut lines, tasks[i].entry.index, &reasons[i], sizes[i]);
            count += 1;
            assert(after == before.push(i));
            assert(after.drop_last() =~= before);
        }
        i += 1;
    }
    if count == 0 {
        return None;
    }
    let mut text = "失败任务数: ".to_string();
    push_decimal(&mut text, count as u64);
    text.append("/");
    push_decimal(&mut text, tasks.len() as u64);
    text.append(lines.as_str());
    assert(text@ =~= failure_text(
        tasks@,
        sizes@,
        reasons@,
        failed_tasks(sizes@, least, tasks@.len() as int),
    ));
    Some(text)
}

// ---------------------------------------------------------------------------
// Laws
// ---------------------------------------------------------------------------

proof fn lemma_failed(sizes: Seq<Option<u64>>, least: u64, n: int)
    requires
        0 <= n <= sizes.len(),
        n <= usize::MAX,
    ensures
        forall|x: usize| #[trigger]
            failed_tasks(sizes, least, n).contains(x) <==> x < n && !usable(sizes[x as int], least),
        failed_tasks(sizes, least, n).no_duplicates(),
    decreases n,
{
    if n > 0 {
        let before = failed_tasks(sizes, least, n - 1);
        let last = (n - 1) as usize;
        lemma_failed(sizes, least, n - 1);
        assert forall|x: usize| #[trigger] failed_tasks(sizes, least, n).contains(x) <==> x < n
            && !usable(sizes[x as int], least) by {
            assert(before.contains(x) <==> x < n - 1 && !usable(sizes[x as int], least));
            lemma_push_contains(before, last, x);
        }
        assert(!before.contains(last));
    }
}

/// Every task is either joined or reported as failed, and none is both; so the numbers of those that
/// are joined and of those that failed add up to the number of tasks.
pub proof fn law_every_task_is_joined_or_reported(
    tasks: Seq<Task>,
    sizes: Seq<Option<u64>>,
    least: u64,
)
    requires
        sizes.len() == tasks.len(),
        tasks.len() <= usize::MAX,
    ensures
        forall|x: usize|
            x < tasks.len() ==> (#[trigger] joined_tasks(tasks, sizes, least).contains(x)
                <==> !failed_tasks(sizes, least, tasks.len() as int).contains(x)),
        joined_tasks(tasks, sizes, least).len() + failed_tasks(
            sizes,
            least,
            tasks.len() as int,
        ).len() == tasks.len(),
{
    let n = tasks.len() as int;
    let keys = task_keys(tasks);
    let order = key_order(keys, n);
    let joined = joined_tasks(tasks, sizes, least);
    let failed = failed_tasks(sizes, least, n);
    lemma_failed(sizes, least, n);
    law_joined_in_order(tasks, sizes, least);
    law_key_order_sorts(keys, n);
    assert forall|x: usize| x < tasks.len() implies (#[trigger] joined.contains(x)
        <==> !failed.contains(x)) by {
        assert(failed.contains(x) <==> !usable(sizes[x as int], least));
    }
    lemma_order_is_distinct(order, keys);
    lemma_order_is_distinct(joined, keys);
    order.unique_seq_to_set();
    joined.unique_seq_to_set();
    failed.unique_seq_to_set();
    assert(joined.to_set().disjoint(failed.to_set()));
    assert forall|x: usize| order.to_set().contains(x) <==> #[trigger] joined.to_set().union(
        failed.to_set(),
    ).contains(x) by {
        assert(order.contains(x) <==> x < n);
        assert(joined.contains(x) <==> x < n && usable(sizes[x as int], least));
        assert(failed.contains(x) <==> x < n && !usable(sizes[x as int], least));
    }
    assert(order.to_set() =~= joined.to_set().union(failed.to_set()));
    vstd::set_lib::lemma_set_disjoint_lens(joined.to_set(), failed.to_set());
}

proof fn lemma_order_is_distinct(order: Seq<usize>, keys: Seq<u32>)
    requires
        in_key_order(order, keys),
    ensures
        order.no_duplicates(),
{
    assert forall|i: int, j: int| 0 <= i < j < order.len() implies order[i] != order[j] by {}
}

} // verus!
