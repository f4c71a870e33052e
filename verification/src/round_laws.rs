//! What rounds of tasks and of validation do, step by step.
use vstd::prelude::*;
use crate::rounds::{
    batch_at, done, done_marks, larger, largest_batch, resized, smaller, unmarked, RoundAction, RoundEvent, RoundPlan,
    RoundStage, RoundsState,
};
use crate::validation::{ValidationAction, ValidationEvent, ValidationStage, ValidationState};

verus! {

/// Batches become half as large when requests take more than four seconds, one larger when they take
/// less than one and a half, and stay as they are in between. They never become smaller than one, nor
/// larger than twice the size at the start.
pub proof fn law_how_batches_are_resized(base: int, current: int, p95: int)
    requires
        base >= 0,
        1 <= current,
        current == 1 || current <= 2 * base,
    ensures
        ({
            let next = resized(base, current, p95);
            &&& p95 > 4_000_000_000 && current > 1 ==> 2 * next <= current <= 2 * next + 1
            &&& p95 > 4_000_000_000 && current == 1 ==> next == 1
            &&& 1_500_000_000 <= p95 <= 4_000_000_000 ==> next == current
            &&& p95 < 1_500_000_000 && current < 2 * base ==> next == current + 1
            &&& p95 < 1_500_000_000 && current >= 2 * base ==> next == current
        }),
{
}

/// A batch takes as many tasks as it has room for, or all that are left. It is shown with its number
/// and with the number of batches of its size.
pub proof fn law_what_a_batch_holds(start: int, count: int, len: int)
    requires
        0 <= start < len <= usize::MAX,
        0 < count,
    ensures
        ({
            let b = batch_at(start, count, len);
            &&& b.start == start
            &&& b.len == len
            &&& start < b.end <= len
            &&& b.end - b.start <= count
            &&& b.end - b.start == count || b.end == len
            &&& count * (b.number - 1) <= start < count * b.number
            &&& count * (b.total - 1) < len <= count * b.total
        }),
{
    let q = start / count;
    let r = (len + count - 1) / count;
    vstd::arithmetic::div_mod::lemma_fundamental_div_mod(start, count);
    vstd::arithmetic::div_mod::lemma_fundamental_div_mod(len + count - 1, count);
    assert(0 <= q <= start) by (nonlinear_arith)
        requires
            q == start / count,
            0 <= start,
            count > 0,
    ;
    assert(0 <= r <= len) by (nonlinear_arith)
        requires
            len + count - 1 == count * r + (len + count - 1) % count,
            0 <= (len + count - 1) % count,
            0 < len,
            count > 0,
    ;
    assert(count * (q + 1) == count * q + count) by (nonlinear_arith);
    assert(count * (r - 1) == count * r - count) by (nonlinear_arith);
}

/// Tasks that are not done stay pending, in the order in which they stood; the others leave.
pub proof fn law_unmarked_tasks_keep_their_order(items: Seq<usize>, marks: Seq<bool>)
    requires
        items.len() == marks.len(),
    ensures
        unmarked(items, marks) == Seq::new(items.len(), |i: int| (items[i], marks[i])).filter(
            |x: (usize, bool)| !x.1,
        ).map_values(|x: (usize, bool)| x.0),
    decreases items.len(),
{
    reveal(Seq::filter);
    let pairs = Seq::new(items.len(), |i: int| (items[i], marks[i]));
    let keeps = |x: (usize, bool)| !x.1;
    let first = |x: (usize, bool)| x.0;
    if items.len() > 0 {
        let a = items.drop_last();
        let m = marks.drop_last();
        law_unmarked_tasks_keep_their_order(a, m);
        let before = Seq::new(a.len(), |i: int| (a[i], m[i]));
        assert(pairs.drop_last() =~= before);
        assert(before.filter(keeps).push(pairs.last()).map_values(first) =~= before.filter(
            keeps,
        ).map_values(first).push(items.last()));
    }
    assert(unmarked(items, marks) =~= pairs.filter(keeps).map_values(first));
}

/// A task is done in a round that asks for sound once its result is larger than the header of a sound
/// file, and in any other once its result exists.
pub proof fn law_when_a_task_is_done(plan: RoundPlan, size: Option<u64>)
    ensures
        plan.sound_only ==> (done(plan, size) <==> size is Some && size->0 > 44),
        !plan.sound_only ==> (done(plan, size) <==> size is Some),
{
}

/// Batches of a round follow each other with a rest between them; results are looked for behind the
/// last one.
pub proof fn law_the_course_of_a_round(
    pre: RoundsState,
    event: RoundEvent,
    post: RoundsState,
    action: RoundAction,
)
    requires
        pre.inv(),
        pre.expects(event),
        pre.stepped(event, &post, action),
        !(pre.stage is Checking),
    ensures
        pre.stage matches RoundStage::Executing(b) ==> action == if b.end < pre.pending@.len() {
            RoundAction::Wait { secs: pre.plan.rest_secs }
        } else {
            RoundAction::Check
        },
        pre.stage is Executing ==> (post.stage is Resting <==> action is Wait) && (
        post.stage is Checking <==> action is Check),
        pre.stage is Executing && pre.plan.adaptive ==> post.sizer.current == resized(
            pre.sizer.base as int,
            pre.sizer.current as int,
            event->p95 as int,
        ),
        !(pre.stage is Executing) || !pre.plan.adaptive ==> post.sizer == pre.sizer,
        post.sizer.base == pre.sizer.base,
        pre.stage is Pausing || pre.stage is Resting ==> {
            &&& action matches RoundAction::Execute(b) && post.stage == RoundStage::Executing(b)
                && b.start == pre.start && b.len == pre.pending@.len() && b.start < b.end <= b.len
                && b.end - b.start <= pre.sizer.current * pre.plan.max_concurrent && (b.end
                - b.start == pre.sizer.current * pre.plan.max_concurrent || b.end == b.len)
        },
        post.pending@ == pre.pending@,
        post.round == pre.round,
        post.plan == pre.plan,
{
    if pre.stage is Pausing || pre.stage is Resting {
        let len = pre.pending.len();
        assert(len == pre.pending@.len());
        let count = pre.sizer.current * pre.plan.max_concurrent;
        assert(count > 0) by (nonlinear_arith)
            requires
                pre.sizer.current >= 1,
                pre.plan.max_concurrent >= 1,
                count == pre.sizer.current * pre.plan.max_concurrent,
        ;
        law_what_a_batch_holds(pre.start as int, count, len as int);
    }
    if pre.stage is Executing && pre.plan.adaptive {
        crate::rounds::law_batch_size_is_bounded(
            pre.sizer.base as int,
            pre.sizer.current as int,
            event->p95 as int,
        );
    }
}

/// A round is over when results were looked for: without failures so is the work; with failures there
/// is another round after a minute, which has exactly the tasks that are not done, unless the last
/// round is over.
pub proof fn law_the_end_of_a_round(
    pre: RoundsState,
    sizes: Vec<Option<u64>>,
    post: RoundsState,
    action: RoundAction,
)
    requires
        pre.inv(),
        pre.stage == RoundStage::Checking,
        pre.expects(RoundEvent::Checked(sizes)),
        pre.stepped(RoundEvent::Checked(sizes), &post, action),
    ensures
        post.pending@ == unmarked(
            pre.pending@,
            Seq::new(sizes@.len(), |i: int| done(pre.plan, sizes@[i])),
        ),
        post.pending@.len() == 0 ==> action == RoundAction::Finish,
        post.pending@.len() > 0 ==> action == if pre.plan.limit is Some && pre.plan.limit->0
            <= pre.round {
            RoundAction::GiveUp
        } else {
            RoundAction::Wait { secs: 60 }
        },
        action is Wait ==> post.stage == RoundStage::Pausing && post.start == 0,
        action is Wait && pre.round < u64::MAX ==> post.round == pre.round + 1,
        post.sizer == pre.sizer,
        post.plan == pre.plan,
{
    assert(done_marks(pre.plan, sizes@) =~= Seq::new(
        sizes@.len(),
        |i: int| done(pre.plan, sizes@[i]),
    ));
}

/// Validation goes on until every result is valid: what is not valid is made anew in batches with a
/// rest between them, and validated again after a minute, but not after the last round. What is valid
/// is not looked at again.
pub proof fn law_the_course_of_validation(
    pre: ValidationState,
    event: ValidationEvent,
    post: ValidationState,
    action: ValidationAction,
)
    requires
        pre.inv(),
        pre.expects(event),
        pre.stepped(event, &post, action),
    ensures
        event matches ValidationEvent::Validated(valid) ==> {
            &&& post.subjects@ == unmarked(pre.subjects@, valid@)
            &&& post.subjects@.len() == 0 ==> action == ValidationAction::Finish
            &&& post.subjects@.len() > 0 && pre.round == pre.limit ==> action
                == ValidationAction::GiveUp
            &&& post.subjects@.len() > 0 && pre.round != pre.limit ==> (
            action matches ValidationAction::Execute(b) && b.start == 0)
        },
        pre.stage == ValidationStage::Pausing ==> action == ValidationAction::Validate,
        pre.stage matches ValidationStage::Executing(b) ==> action == if b.end < pre.subjects@.len() {
            ValidationAction::Wait { secs: pre.rest_secs }
        } else {
            ValidationAction::Wait { secs: 60 }
        },
        pre.stage matches ValidationStage::Executing(b) ==> if b.end < pre.subjects@.len() {
            post.stage == ValidationStage::Resting && post.start == b.end && post.round == pre.round
        } else {
            post.stage == ValidationStage::Pausing && post.round == pre.round + 1
        },
        pre.stage == ValidationStage::Resting ==> (action matches ValidationAction::Execute(b)
            && b.start == pre.start),
        action matches ValidationAction::Execute(b) ==> {
            &&& post.stage == ValidationStage::Executing(b)
            &&& b.len == post.subjects@.len()
            &&& b.start < b.end <= b.len
            &&& b.end - b.start <= pre.count
            &&& b.end - b.start == pre.count || b.end == b.len
        },
        !(event is Validated) ==> post.subjects@ == pre.subjects@,
{
    if let ValidationAction::Execute(b) = action {
        let len = post.subjects.len();
        assert(len == post.subjects@.len());
        if let ValidationEvent::Validated(valid) = event {
            law_what_a_batch_holds(0, pre.count as int, len as int);
        } else {
            law_what_a_batch_holds(pre.start as int, pre.count as int, len as int);
        }
    }
}

/// What is set for validation stays as it is.
pub proof fn law_settings_of_validation_stay(
    pre: ValidationState,
    event: ValidationEvent,
    post: ValidationState,
    action: ValidationAction,
)
    requires
        pre.inv(),
        pre.expects(event),
        pre.stepped(event, &post, action),
    ensures
        post.count == pre.count,
        post.rest_secs == pre.rest_secs,
        post.limit == pre.limit,
        post.round == pre.round || (pre.stage is Executing && post.round == pre.round + 1),
{
}

/// Of two numbers one is the larger and one the smaller; and batches reach twice their size at the
/// start, and one at least.
pub proof fn law_larger_and_smaller(a: int, b: int)
    ensures
        larger(a, b) >= a && larger(a, b) >= b && (larger(a, b) == a || larger(a, b) == b),
        smaller(a, b) <= a && smaller(a, b) <= b && (smaller(a, b) == a || smaller(a, b) == b),
        a >= 1 ==> largest_batch(a) == 2 * a,
        a <= 0 ==> largest_batch(a) == 1,
{
}

/// Rounds can go as planned if tasks can run at all, if there is a round, and if the largest batches
/// can be counted.
pub proof fn law_which_plans_work(plan: RoundPlan, batch_size: int)
    requires
        0 <= batch_size,
    ensures
        plan.spec_workable(batch_size) <==> {
            &&& plan.max_concurrent > 0
            &&& plan.limit is None || plan.limit->0 > 0
            &&& if plan.adaptive {
                2 * batch_size <= usize::MAX && (if batch_size == 0 {
                    1
                } else {
                    2 * batch_size
                }) * plan.max_concurrent <= usize::MAX
            } else {
                batch_size > 0 && batch_size * plan.max_concurrent <= usize::MAX
            }
        },
{
}

} // verus!
