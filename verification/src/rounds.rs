//! Rounds of tasks: batches of a size that follows the latency, and more rounds for what failed.
//!
//! Carrying tasks out, looking for their results and waiting are outside work. [`Rounds`] says what is
//! to be done next, and is told what came of it.
use vstd::prelude::*;
use crate::audio::{file_outcome, AudioSplitter};

verus! {

// ---------------------------------------------------------------------------
// The size of batches
// ---------------------------------------------------------------------------

/// With a 95th percentile above this, in nanoseconds, batches become smaller.
pub const SLOW_NANOS: u64 = 4_000_000_000;

/// With a 95th percentile below this, in nanoseconds, batches become larger.
pub const FAST_NANOS: u64 = 1_500_000_000;

/// The larger one.
pub open spec fn larger(a: int, b: int) -> int {
    if a > b {
        a
    } else {
        b
    }
}

/// The smaller one.
pub open spec fn smaller(a: int, b: int) -> int {
    if a < b {
        a
    } else {
        b
    }
}

/// The largest size that a batch may reach.
pub open spec fn largest_batch(base: int) -> int {
    larger(2 * base, 1)
}

/// The size of the next batches: half as large when requests are slow, one larger when they are
/// fast, but not below one nor above twice the size at the start.
pub open spec fn resized(base: int, current: int, p95: int) -> int {
    if p95 > SLOW_NANOS && current > 1 {
        larger(current / 2, 1)
    } else if p95 < FAST_NANOS {
        larger(smaller(current + 1, 2 * base), 1)
    } else {
        current
    }
}

/// The size of batches, counted in rounds of concurrent requests.
#[derive(Debug, Clone, Copy, PartialEq, Eq, Structural)]
pub struct BatchSizer {
    pub base: usize,
    pub current: usize,
}

impl BatchSizer {
    /// The state makes sense.
    pub open spec fn inv(&self) -> bool {
        1 <= self.current <= largest_batch(self.base as int)
    }

    /// Starts with the given size, and with one at least.
    pub fn new(batch_size: usize) -> (r: Self)
        ensures
            r.inv(),
            r.base == batch_size,
            r.current == larger(batch_size as int, 1),
    {
        BatchSizer {
            base: batch_size,
            current: if batch_size > 1 {
                batch_size
            } else {
                1
            },
        }
    }

    /// Follows the latency.
    pub fn adjust(&mut self, p95: u64)
        requires
            2 * old(self).base <= usize::MAX,
        ensures
            old(self).inv() ==> final(self).inv(),
            final(self).base == old(self).base,
            final(self).current == resized(old(self).base as int, old(self).current as int, p95 as int),
    {
        if p95 > SLOW_NANOS && self.current > 1 {
            let half: usize = self.current / 2;
            self.current = if half > 1 {
                half
            } else {
                1
            };
        } else if p95 < FAST_NANOS {
            let most: usize = self.base * 2;
            let next: usize = if self.current < most {
                self.current + 1
            } else {
                most
            };
            self.current = if next > 1 {
                next
            } else {
                1
            };
        }
    }
}

// ---------------------------------------------------------------------------
// Batches
// ---------------------------------------------------------------------------

/// A pause before failed tasks are tried again, in seconds.
pub const PAUSE_SECS: u64 = 60;

/// Where a batch ends that starts at `start`.
pub open spec fn batch_end(start: int, count: int, len: int) -> int {
    smaller(start + count, len)
}

/// How many batches of `count` make up `len`.
pub open spec fn batch_total(count: int, len: int) -> int {
    (len + count - 1) / count
}

/// A batch of tasks: those from `start` to before `end` of the `len` that are pending. It is shown
/// with a number and the number of all batches.
#[derive(Debug, Clone, Copy, PartialEq, Eq, Structural)]
pub struct Batch {
    pub start: usize,
    pub end: usize,
    pub len: usize,
    pub number: usize,
    pub total: usize,
}

/// The batch of `count` tasks at `start`.
pub open spec fn batch_at(start: int, count: int, len: int) -> Batch {
    Batch {
        start: start as usize,
        end: batch_end(start, count, len) as usize,
        len: len as usize,
        number: (start / count + 1) as usize,
        total: batch_total(count, len) as usize,
    }
}

proof fn lemma_batch_numbers(start: int, count: int, len: int)
    requires
        0 <= start < len,
        count > 0,
    ensures
        0 <= start / count <= start,
        batch_total(count, len) == (len - 1) / count + 1,
        0 <= (len - 1) / count <= len - 1,
{
    assert(0 <= start / count <= start) by (nonlinear_arith)
        requires
            0 <= start,
            count > 0,
    ;
    assert((len - 1 + count) / count == (len - 1) / count + 1) by (nonlinear_arith)
        requires
            count > 0,
    ;
    assert(0 <= (len - 1) / count <= len - 1) by (nonlinear_arith)
        requires
            0 <= len - 1,
            count > 0,
    ;
}

pub(crate) fn make_batch(start: usize, count: usize, len: usize) -> (r: Batch)
    requires
        start < len,
        count > 0,
    ensures
        r == batch_at(start as int, count as int, len as int),
        r.start == start,
        start < r.end <= len,
        r.end == batch_end(start as int, count as int, len as int),
        r.len == len,
{
    proof {
        lemma_batch_numbers(start as int, count as int, len as int);
    }
    let end: usize = if len - start <= count {
        len
    } else {
        start + count
    };
    Batch { start, end, len, number: start / count + 1, total: (len - 1) / count + 1 }
}

/// The items that are not marked.
pub open spec fn unmarked(items: Seq<usize>, marks: Seq<bool>) -> Seq<usize>
    recommends
        items.len() == marks.len(),
    decreases items.len(),
{
    if items.len() == 0 {
        Seq::empty()
    } else {
        let before = unmarked(items.drop_last(), marks.drop_last());
        if marks.last() {
            before
        } else {
            before.push(items.last())
        }
    }
}

pub(crate) fn take_unmarked(items: &Vec<usize>, marks: &Vec<bool>) -> (r: Vec<usize>)
    requires
        items@.len() == marks@.len(),
    ensures
        r@ == unmarked(items@, marks@),
{
    let mut r: Vec<usize> = Vec::new();
    let mut i: usize = 0;
    while i < items.len()
        invariant
            i <= items@.len(),
            items@.len() == marks@.len(),
            r@ == unmarked(items@.subrange(0, i as int), marks@.subrange(0, i as int)),
        decreases items@.len() - i,
    {
        assert(items@.subrange(0, i + 1).drop_last() =~= items@.subrange(0, i as int));
        assert(marks@.subrange(0, i + 1).drop_last() =~= marks@.subrange(0, i as int));
        if !marks[i] {
            r.push(items[i]);
        }
        i += 1;
    }
    assert(items@.subrange(0, i as int) =~= items@);
    assert(marks@.subrange(0, i as int) =~= marks@);
    r
}

// ---------------------------------------------------------------------------
// Rounds
// ---------------------------------------------------------------------------

/// What is awaited.
#[derive(Debug, Clone, Copy, PartialEq, Eq, Structural)]
pub enum RoundStage {
    /// The end of the pause before a round.
    Pausing,
    /// The end of a batch.
    Executing(Batch),
    /// The end of the rest after a batch.
    Resting,
    /// How large the results are that exist.
    Checking,
    /// Nothing.
    Ended,
}

/// What happened.
#[derive(Debug)]
pub enum RoundEvent {
    /// The wait is over.
    Waited,
    /// The batch is done; with the 95th percentile of the latencies in nanoseconds.
    Executed { p95: u64 },
    /// For each pending task, the size of its result, if it exists.
    Checked(Vec<Option<u64>>),
}

/// What is to be done next.
#[derive(Debug, Clone, Copy, PartialEq, Eq, Structural)]
pub enum RoundAction {
    /// Wait so many seconds.
    Wait { secs: u64 },
    /// Carry a batch of the pending tasks out.
    Execute(Batch),
    /// Find out which of the pending tasks have results.
    Check,
    /// All tasks have results.
    Finish,
    /// There are tasks without results, and no more rounds.
    GiveUp,
}

/// How rounds go.
#[derive(Debug, Clone, Copy, PartialEq, Eq, Structural)]
pub struct RoundPlan {
    /// How many tasks run at a time.
    pub max_concurrent: usize,
    /// How many seconds to rest between batches.
    pub rest_secs: u64,
    /// Whether the size of batches follows the latency.
    pub adaptive: bool,
    /// Whether a result must hold sound for its task to be done. Otherwise it need only exist.
    pub sound_only: bool,
    /// How many rounds there are at most.
    pub limit: Option<u32>,
}

/// The numbers of tasks in batches can be counted.
pub open spec fn batches_fit(plan: RoundPlan, batch_size: int) -> bool {
    if plan.adaptive {
        2 * batch_size <= usize::MAX && largest_batch(batch_size) * plan.max_concurrent
            <= usize::MAX
    } else {
        1 <= batch_size && batch_size * plan.max_concurrent <= usize::MAX
    }
}

impl RoundPlan {
    /// Rounds can go like this with batches of the given size.
    pub open spec fn spec_workable(&self, batch_size: int) -> bool {
        &&& self.max_concurrent > 0
        &&& self.limit is Some ==> self.limit->0 >= 1
        &&& batches_fit(*self, batch_size)
    }

    /// Tells whether rounds can go like this with batches of the given size.
    pub fn workable(&self, batch_size: usize) -> (r: bool)
        ensures
            r == self.spec_workable(batch_size as int),
    {
        if self.max_concurrent == 0 {
            return false;
        }
        match self.limit {
            Some(l) => {
                if l == 0 {
                    return false;
                }
            },
            None => {},
        }
        if !self.adaptive {
            return batch_size >= 1 && batch_size.checked_mul(self.max_concurrent).is_some();
        }
        match batch_size.checked_mul(2) {
            Some(twice) => {
                let most: usize = if twice > 1 {
                    twice
                } else {
                    1
                };
                most.checked_mul(self.max_concurrent).is_some()
            },
            None => false,
        }
    }
}

/// A task is done with a result of this size. There is no size where there is no result.
pub open spec fn done(plan: RoundPlan, size: Option<u64>) -> bool {
    if plan.sound_only {
        file_outcome(size) is Ok
    } else {
        size is Some
    }
}

/// Which tasks are done, by the sizes of their results.
pub open spec fn done_marks(plan: RoundPlan, sizes: Seq<Option<u64>>) -> Seq<bool> {
    Seq::new(sizes.len(), |i: int| done(plan, sizes[i]))
}

fn mark_done(plan: RoundPlan, sizes: &Vec<Option<u64>>) -> (r: Vec<bool>)
    ensures
        r@ == done_marks(plan, sizes@),
{
    let mut r: Vec<bool> = Vec::new();
    let mut i: usize = 0;
    while i < sizes.len()
        invariant
            i <= sizes@.len(),
            r@.len() == i,
            forall|j: int| 0 <= j < i ==> #[trigger] r@[j] == done(plan, sizes@[j]),
        decreases sizes@.len() - i,
    {
        let fine = if plan.sound_only {
            AudioSplitter::check_file(sizes[i]).is_ok()
        } else {
            sizes[i].is_some()
        };
        r.push(fine);
        i += 1;
    }
    assert(r@ =~= done_marks(plan, sizes@));
    r
}

/// Where tasks in rounds stand.
#[derive(Debug)]
pub struct RoundsState {
    pub plan: RoundPlan,
    pub sizer: BatchSizer,
    /// The tasks of this round.
    pub pending: Vec<usize>,
    /// The number of this round.
    pub round: u64,
    /// Where the current batch starts, or the next one.
    pub start: usize,
    pub stage: RoundStage,
}

impl RoundsState {
    /// The number of tasks in a batch.
    pub open spec fn count(&self) -> int {
        self.sizer.current * self.plan.max_concurrent
    }

    /// The state makes sense.
    pub open spec fn inv(&self) -> bool {
        &&& self.sizer.inv()
        &&& self.plan.spec_workable(self.sizer.base as int)
        &&& !self.plan.adaptive ==> self.sizer.current == self.sizer.base
        &&& self.round >= 1
        &&& self.plan.limit is Some && self.stage != RoundStage::Ended ==> self.round
            <= self.plan.limit->0
        &&& self.pending@.no_duplicates()
        &&& match self.stage {
            RoundStage::Pausing => self.start == 0 && self.pending@.len() > 0,
            RoundStage::Executing(b) => {
                &&& b.start == self.start
                &&& b.start < b.end <= self.pending@.len()
                &&& b.len == self.pending@.len()
            },
            RoundStage::Resting => 0 < self.start < self.pending@.len(),
            RoundStage::Checking => self.start == self.pending@.len() && self.pending@.len() > 0,
            RoundStage::Ended => true,
        }
    }

    /// Something like this can happen now.
    pub open spec fn expects(&self, event: RoundEvent) -> bool {
        match self.stage {
            RoundStage::Pausing => event is Waited,
            RoundStage::Executing(_) => event is Executed,
            RoundStage::Resting => event is Waited,
            RoundStage::Checking => event matches RoundEvent::Checked(sizes) && sizes@.len()
                == self.pending@.len(),
            RoundStage::Ended => false,
        }
    }

    /// The batch at the start is next.
    pub open spec fn continued(&self, post: &RoundsState, action: RoundAction) -> bool {
        let b = batch_at(self.start as int, self.count(), self.pending@.len() as int);
        &&& *post == RoundsState { stage: RoundStage::Executing(b), ..*self }
        &&& action == RoundAction::Execute(b)
    }

    /// The number of the next round.
    pub open spec fn next_round(&self) -> int {
        smaller(self.round + 1, u64::MAX as int)
    }

    /// The size of batches after a batch with the given latency.
    pub open spec fn next_sizer(&self, p95: u64) -> BatchSizer {
        if self.plan.adaptive {
            BatchSizer {
                base: self.sizer.base,
                current: resized(
                    self.sizer.base as int,
                    self.sizer.current as int,
                    p95 as int,
                ) as usize,
            }
        } else {
            self.sizer
        }
    }

    /// What a step does. The next batch starts where the last one ended.
    pub open spec fn stepped(&self, event: RoundEvent, post: &RoundsState, action: RoundAction) -> bool {
        match (self.stage, event) {
            (RoundStage::Pausing, _) => self.continued(post, action),
            (RoundStage::Resting, _) => self.continued(post, action),
            (RoundStage::Executing(b), RoundEvent::Executed { p95 }) => {
                &&& post.plan == self.plan
                &&& post.sizer == self.next_sizer(p95)
                &&& post.pending == self.pending
                &&& post.round == self.round
                &&& post.start == b.end
                &&& if b.end < self.pending@.len() {
                    &&& post.stage == RoundStage::Resting
                    &&& action == RoundAction::Wait { secs: self.plan.rest_secs }
                } else {
                    &&& post.stage == RoundStage::Checking
                    &&& action == RoundAction::Check
                }
            },
            (RoundStage::Checking, RoundEvent::Checked(sizes)) => {
                let failed = unmarked(self.pending@, done_marks(self.plan, sizes@));
                &&& post.plan == self.plan
                &&& post.sizer == self.sizer
                &&& post.start == 0
                &&& post.pending@ == failed
                &&& if failed.len() == 0 {
                    &&& post.round == self.round
                    &&& post.stage == RoundStage::Ended
                    &&& action == RoundAction::Finish
                } else {
                    &&& post.round == self.next_round()
                    &&& if self.plan.limit is Some && self.next_round() > self.plan.limit->0 {
                        &&& post.stage == RoundStage::Ended
                        &&& action == RoundAction::GiveUp
                    } else {
                        &&& post.stage == RoundStage::Pausing
                        &&& action == RoundAction::Wait { secs: PAUSE_SECS }
                    }
                }
            },
            _ => true,
        }
    }

    /// The work gets on: to a later round, to a later batch of the round, or to a later stage.
    pub open spec fn gets_on(&self, post: &RoundsState) -> bool {
        ||| post.stage == RoundStage::Ended
        ||| post.round > self.round || self.round == u64::MAX
        ||| post.round == self.round && post.start > self.start
        ||| post.round == self.round && post.start == self.start && stage_order(self.stage)
            < stage_order(post.stage)
    }

    fn batch_count(&self) -> (r: usize)
        requires
            self.inv(),
        ensures
            r == self.count(),
            r > 0,
    {
        proof {
            lemma_count_fits(
                self.sizer.current as int,
                if self.plan.adaptive {
                    largest_batch(self.sizer.base as int)
                } else {
                    self.sizer.base as int
                },
                self.plan.max_concurrent as int,
            );
        }
        self.sizer.current * self.plan.max_concurrent
    }

    fn go_on(&mut self) -> (action: RoundAction)
        requires
            old(self).inv(),
            old(self).start < old(self).pending@.len(),
            old(self).plan.limit is Some ==> old(self).round <= old(self).plan.limit->0,
        ensures
            final(self).inv(),
            old(self).continued(final(self), action),
    {
        let count: usize = self.batch_count();
        let b = make_batch(self.start, count, self.pending.len());
        self.stage = RoundStage::Executing(b);
        RoundAction::Execute(b)
    }

    fn step(&mut self, event: RoundEvent) -> (action: RoundAction)
        requires
            old(self).inv(),
            old(self).expects(event),
        ensures
            final(self).inv(),
            old(self).stepped(event, final(self), action),
            old(self).gets_on(final(self)),
            action == RoundAction::Finish || action == RoundAction::GiveUp <==> final(self).stage
                == RoundStage::Ended,
    {
        match self.stage {
            RoundStage::Pausing => self.go_on(),
            RoundStage::Resting => self.go_on(),
            RoundStage::Executing(b) => {
                match event {
                    RoundEvent::Executed { p95 } => {
                        if self.plan.adaptive {
                            self.sizer.adjust(p95);
                        }
                    },
                    _ => {},
                }
                self.start = b.end;
                if b.end < self.pending.len() {
                    self.stage = RoundStage::Resting;
                    RoundAction::Wait { secs: self.plan.rest_secs }
                } else {
                    self.stage = RoundStage::Checking;
                    RoundAction::Check
                }
            },
            RoundStage::Checking => match event {
                RoundEvent::Checked(sizes) => {
                    let marks = mark_done(self.plan, &sizes);
                    proof {
                        law_no_task_is_doubled(self.pending@, marks@);
                    }
                    self.pending = take_unmarked(&self.pending, &marks);
                    self.start = 0;
                    if self.pending.len() == 0 {
                        self.stage = RoundStage::Ended;
                        return RoundAction::Finish;
                    }
                    if self.round < u64::MAX {
                        self.round = self.round + 1;
                    }
                    let spent = match self.plan.limit {
                        Some(l) => self.round > l as u64,
                        None => false,
                    };
                    if spent {
                        self.stage = RoundStage::Ended;
                        RoundAction::GiveUp
                    } else {
                        self.stage = RoundStage::Pausing;
                        RoundAction::Wait { secs: PAUSE_SECS }
                    }
                },
                _ => RoundAction::Finish,
            },
            RoundStage::Ended => RoundAction::Finish,
        }
    }
}

/// The order of stages within a batch.
pub open spec fn stage_order(stage: RoundStage) -> int {
    match stage {
        RoundStage::Pausing => 0,
        RoundStage::Resting => 1,
        RoundStage::Executing(_) => 2,
        RoundStage::Checking => 3,
        RoundStage::Ended => 4,
    }
}

/// Tasks in rounds: first all of them, then those without results.
#[derive(Debug)]
pub struct Rounds {
    state: RoundsState,
}

impl View for Rounds {
    type V = RoundsState;

    closed spec fn view(&self) -> RoundsState {
        self.state
    }
}

impl Rounds {
    #[verifier::type_invariant]
    spec fn sound(self) -> bool {
        self.state.inv()
    }

    /// The first round with the given tasks. There is nothing to do if there are none.
    pub fn new(plan: RoundPlan, batch_size: usize, pending: Vec<usize>) -> (r: (Self, RoundAction))
        requires
            plan.spec_workable(batch_size as int),
            pending@.no_duplicates(),
        ensures
            r.0@.inv(),
            r.0@.plan == plan,
            r.0@.sizer == (BatchSizer {
                base: batch_size,
                current: larger(batch_size as int, 1) as usize,
            }),
            r.0@.pending == pending,
            r.0@.round == 1,
            r.0@.start == 0,
            if pending@.len() == 0 {
                r.0@.stage == RoundStage::Ended && r.1 == RoundAction::Finish
            } else {
                r.0@.continued(&r.0@, r.1)
            },
    {
        let sizer = BatchSizer::new(batch_size);
        let mut state = RoundsState {
            plan,
            sizer,
            pending,
            round: 1,
            start: 0,
            stage: RoundStage::Ended,
        };
        if state.pending.len() == 0 {
            return (Rounds { state }, RoundAction::Finish);
        }
        let action = state.go_on();
        (Rounds { state }, action)
    }

    /// Goes on after something has happened.
    pub fn step(&mut self, event: RoundEvent) -> (action: RoundAction)
        requires
            old(self)@.expects(event),
        ensures
            final(self)@.inv(),
            old(self)@.stepped(event, &final(self)@, action),
            old(self)@.gets_on(&final(self)@),
            action == RoundAction::Finish || action == RoundAction::GiveUp <==> final(self)@.stage
                == RoundStage::Ended,
    {
        proof {
            use_type_invariant(&*self);
        }
        let mut state = RoundsState {
            plan: self.state.plan,
            sizer: self.state.sizer,
            pending: Vec::new(),
            round: 1,
            start: 0,
            stage: RoundStage::Ended,
        };
        std::mem::swap(&mut state, &mut self.state);
        let action = state.step(event);
        self.state = state;
        action
    }

    /// Where the work stands.
    pub fn state(&self) -> (r: &RoundsState)
        ensures
            *r == self@,
            r.inv(),
    {
        proof {
            use_type_invariant(self);
        }
        &self.state
    }

    /// The number of tasks in a batch, as it is now.
    pub fn batch_count(&self) -> (r: usize)
        ensures
            r == self@.count(),
            r > 0,
    {
        proof {
            use_type_invariant(self);
        }
        self.state.batch_count()
    }

    /// The tasks of a batch.
    pub fn batch_tasks(&self, b: Batch) -> (r: Vec<usize>)
        requires
            b.start <= b.end <= self@.pending@.len(),
        ensures
            r@ == self@.pending@.subrange(b.start as int, b.end as int),
    {
        copy_range(&self.state.pending, b.start, b.end)
    }
}

pub(crate) fn copy_range(v: &Vec<usize>, start: usize, end: usize) -> (r: Vec<usize>)
    requires
        start <= end <= v@.len(),
    ensures
        r@ == v@.subrange(start as int, end as int),
{
    let mut r: Vec<usize> = Vec::new();
    let mut i: usize = start;
    while i < end
        invariant
            start <= i <= end <= v@.len(),
            r@ == v@.subrange(start as int, i as int),
        decreases end - i,
    {
        r.push(v[i]);
        i += 1;
        assert(r@ =~= v@.subrange(start as int, i as int));
    }
    r
}

proof fn lemma_count_fits(current: int, most: int, concurrent: int)
    requires
        1 <= current <= most,
        concurrent > 0,
    ensures
        0 < current * concurrent <= most * concurrent,
{
    assert(0 < current * concurrent <= most * concurrent) by (nonlinear_arith)
        requires
            1 <= current <= most,
            concurrent > 0,
    ;
}

// ---------------------------------------------------------------------------
// Laws
// ---------------------------------------------------------------------------

/// Batches keep to a size between one and twice the size at the start.
pub proof fn law_batch_size_is_bounded(base: int, current: int, p95: int)
    requires
        base >= 0,
        1 <= current <= largest_batch(base),
    ensures
        1 <= resized(base, current, p95) <= largest_batch(base),
{
}

/// Slow requests never make batches larger, fast ones never smaller.
pub proof fn law_batch_size_follows_latency(base: int, current: int, p95: int)
    requires
        base >= 0,
        1 <= current <= largest_batch(base),
    ensures
        p95 > SLOW_NANOS ==> resized(base, current, p95) <= current,
        p95 < FAST_NANOS ==> resized(base, current, p95) >= current,
        FAST_NANOS <= p95 <= SLOW_NANOS ==> resized(base, current, p95) == current,
{
}

/// Where the batch with number `k` starts, when batches have the given sizes.
pub open spec fn round_start(sizes: Seq<int>, len: int, k: nat) -> int
    decreases k,
{
    if k == 0 {
        0
    } else {
        batch_end(round_start(sizes, len, (k - 1) as nat), sizes[k - 1], len)
    }
}

/// The task at position `i` lies in the batch with number `k`.
pub open spec fn in_batch(sizes: Seq<int>, len: int, k: int, i: int) -> bool {
    0 <= k && round_start(sizes, len, k as nat) <= i < round_start(sizes, len, (k + 1) as nat)
}

proof fn lemma_starts_rise(sizes: Seq<int>, len: int, j: nat, k: nat)
    requires
        len >= 0,
        j <= k <= sizes.len(),
        forall|m: int| 0 <= m < sizes.len() ==> #[trigger] sizes[m] > 0,
    ensures
        0 <= round_start(sizes, len, j) <= round_start(sizes, len, k) <= len,
    decreases k,
{
    if k > 0 {
        if j < k {
            lemma_starts_rise(sizes, len, j, (k - 1) as nat);
            assert(sizes[k - 1] > 0);
        } else {
            lemma_starts_rise(sizes, len, (k - 1) as nat, (k - 1) as nat);
            assert(sizes[k - 1] > 0);
        }
    }
}

proof fn lemma_some_batch(sizes: Seq<int>, len: int, n: nat, i: int) -> (k: int)
    requires
        n <= sizes.len(),
        0 <= i < round_start(sizes, len, n),
    ensures
        0 <= k < n,
        in_batch(sizes, len, k, i),
    decreases n,
{
    if i < round_start(sizes, len, (n - 1) as nat) {
        lemma_some_batch(sizes, len, (n - 1) as nat, i)
    } else {
        n - 1
    }
}

/// Every pending task lies in exactly one batch of a round, whatever sizes its batches have: a
/// round ends where its last batch ends at the end of the pending tasks.
pub proof fn law_batches_leave_nothing_out(sizes: Seq<int>, len: int, n: nat, i: int)
    requires
        n <= sizes.len(),
        forall|m: int| 0 <= m < sizes.len() ==> #[trigger] sizes[m] > 0,
        round_start(sizes, len, n) == len,
        0 <= i < len,
    ensures
        exists|k: int| 0 <= k < n && #[trigger] in_batch(sizes, len, k, i),
        forall|a: int, b: int|
            0 <= a < n && 0 <= b < n && #[trigger] in_batch(sizes, len, a, i) && #[trigger] in_batch(
                sizes,
                len,
                b,
                i,
            ) ==> a == b,
{
    let k = lemma_some_batch(sizes, len, n, i);
    assert(in_batch(sizes, len, k, i));
    assert forall|a: int, b: int|
        0 <= a < n && 0 <= b < n && #[trigger] in_batch(sizes, len, a, i) && #[trigger] in_batch(
            sizes,
            len,
            b,
            i,
        ) implies a == b by {
        if a < b {
            lemma_starts_rise(sizes, len, (a + 1) as nat, b as nat);
        } else if b < a {
            lemma_starts_rise(sizes, len, (b + 1) as nat, a as nat);
        }
    }
}

/// A batch starts where the last one ended, and results are looked for only behind the last task:
/// the starts of a round are those of its sizes.
pub proof fn law_batches_follow_each_other(
    pre: RoundsState,
    event: RoundEvent,
    post: RoundsState,
    action: RoundAction,
)
    requires
        pre.inv(),
        pre.expects(event),
        pre.stepped(event, &post, action),
    ensures
        pre.stage matches RoundStage::Executing(b) ==> post.start == b.end && (action
            == RoundAction::Check <==> b.end == pre.pending@.len()),
        action matches RoundAction::Execute(b) ==> {
            &&& b.start == pre.start
            &&& b.end == batch_end(pre.start as int, pre.count(), pre.pending@.len() as int)
        },
        action == RoundAction::Check ==> pre.stage is Executing,
{
    if pre.stage is Pausing || pre.stage is Resting {
        let len = pre.pending.len();
        assert(len == pre.pending@.len());
        lemma_count_fits(
            pre.sizer.current as int,
            if pre.plan.adaptive {
                largest_batch(pre.sizer.base as int)
            } else {
                pre.sizer.base as int
            },
            pre.plan.max_concurrent as int,
        );
    }
}

/// A task stays pending exactly if it was pending and has no result.
pub proof fn law_failed_tasks_stay_pending(items: Seq<usize>, marks: Seq<bool>, x: usize)
    requires
        items.len() == marks.len(),
    ensures
        unmarked(items, marks).contains(x) <==> exists|i: int|
            0 <= i < items.len() && #[trigger] items[i] == x && !marks[i],
        unmarked(items, marks).len() <= items.len(),
    decreases items.len(),
{
    if items.len() > 0 {
        let a = items.drop_last();
        let m = marks.drop_last();
        let before = unmarked(a, m);
        let all = unmarked(items, marks);
        law_failed_tasks_stay_pending(a, m, x);
        if all.contains(x) {
            let j = choose|j: int| 0 <= j < all.len() && all[j] == x;
            if j < before.len() {
                assert(before[j] == x);
                let i = choose|i: int| 0 <= i < a.len() && #[trigger] a[i] == x && !m[i];
                assert(items[i] == x && !marks[i]);
            } else {
                assert(items[items.len() - 1] == x && !marks[items.len() - 1]);
            }
        }
        if exists|i: int| 0 <= i < items.len() && #[trigger] items[i] == x && !marks[i] {
            let i = choose|i: int| 0 <= i < items.len() && #[trigger] items[i] == x && !marks[i];
            if i < a.len() {
                assert(a[i] == x && !m[i]);
                let j = choose|j: int| 0 <= j < before.len() && before[j] == x;
                assert(all[j] == x);
            } else {
                assert(all[all.len() - 1] == x);
            }
        }
    }
}

/// An item stands in a longer list exactly if it stood in the list or is the new one.
pub proof fn lemma_push_contains(s: Seq<usize>, y: usize, x: usize)
    ensures
        s.push(y).contains(x) <==> s.contains(x) || x == y,
{
    if s.contains(x) {
        let i = choose|i: int| 0 <= i < s.len() && s[i] == x;
        assert(s.push(y)[i] == x);
    }
    if x == y {
        assert(s.push(y)[s.len() as int] == x);
    }
    if s.push(y).contains(x) {
        let i = choose|i: int| 0 <= i < s.push(y).len() && s.push(y)[i] == x;
        if i < s.len() {
            assert(s[i] == x);
        }
    }
}

/// Tasks that are pending once are pending once in the next round.
pub proof fn law_no_task_is_doubled(items: Seq<usize>, marks: Seq<bool>)
    requires
        items.len() == marks.len(),
        items.no_duplicates(),
    ensures
        unmarked(items, marks).no_duplicates(),
    decreases items.len(),
{
    if items.len() > 0 {
        let a = items.drop_last();
        let m = marks.drop_last();
        let before = unmarked(a, m);
        law_no_task_is_doubled(a, m);
        law_failed_tasks_stay_pending(a, m, items.last());
        assert(!before.contains(items.last())) by {
            if before.contains(items.last()) {
                let i = choose|i: int| 0 <= i < a.len() && #[trigger] a[i] == items.last() && !m[i];
                assert(items[i] == items[items.len() - 1]);
            }
        }
    }
}

/// Another round has exactly those tasks of the round before it that are not done: in a round that
/// asks for sound those without it, and else those whose results are missing.
pub proof fn law_what_is_tried_again(
    pre: RoundsState,
    sizes: Vec<Option<u64>>,
    post: RoundsState,
    action: RoundAction,
    i: int,
)
    requires
        pre.inv(),
        pre.stage == RoundStage::Checking,
        pre.expects(RoundEvent::Checked(sizes)),
        pre.stepped(RoundEvent::Checked(sizes), &post, action),
        0 <= i < pre.pending@.len(),
    ensures
        post.pending@.contains(pre.pending@[i]) <==> !done(pre.plan, sizes@[i]),
        !pre.plan.sound_only ==> (post.pending@.contains(pre.pending@[i]) <==> sizes@[i] is None),
        forall|x: usize| #[trigger] post.pending@.contains(x) ==> pre.pending@.contains(x),
{
    let marks = done_marks(pre.plan, sizes@);
    let x = pre.pending@[i];
    law_failed_tasks_stay_pending(pre.pending@, marks, x);
    if post.pending@.contains(x) {
        let j = choose|j: int|
            0 <= j < pre.pending@.len() && #[trigger] pre.pending@[j] == x && !marks[j];
        assert(i == j);
    } else {
        assert(pre.pending@[i] == x);
        assert(marks[i]);
    }
    assert forall|y: usize| #[trigger] post.pending@.contains(y) implies pre.pending@.contains(
        y,
    ) by {
        law_failed_tasks_stay_pending(pre.pending@, marks, y);
    }
}

/// The rounds end with success exactly if every task is done when its result is looked for; if there
/// are tasks that are not, there is another round, unless it would be one too many.
pub proof fn law_rounds_end(
    pre: RoundsState,
    sizes: Vec<Option<u64>>,
    post: RoundsState,
    action: RoundAction,
)
    requires
        pre.inv(),
        pre.stage == RoundStage::Checking,
        pre.expects(RoundEvent::Checked(sizes)),
        pre.stepped(RoundEvent::Checked(sizes), &post, action),
    ensures
        action == RoundAction::Finish <==> forall|i: int|
            0 <= i < sizes@.len() ==> done(pre.plan, #[trigger] sizes@[i]),
        action == RoundAction::GiveUp ==> pre.plan.limit is Some && pre.round
            == pre.plan.limit->0 && post.pending@.len() > 0,
        pre.plan.limit is None ==> action != RoundAction::GiveUp,
{
    let marks = done_marks(pre.plan, sizes@);
    let failed = unmarked(pre.pending@, marks);
    if failed.len() == 0 {
        assert forall|i: int| 0 <= i < sizes@.len() implies done(
            pre.plan,
            #[trigger] sizes@[i],
        ) by {
            law_failed_tasks_stay_pending(pre.pending@, marks, pre.pending@[i]);
            assert(pre.pending@[i] == pre.pending@[i]);
            assert(marks[i]);
        }
    } else {
        law_failed_tasks_stay_pending(pre.pending@, marks, failed[0]);
        let i = choose|i: int|
            0 <= i < pre.pending@.len() && #[trigger] pre.pending@[i] == failed[0] && !marks[i];
        assert(!done(pre.plan, sizes@[i]));
    }
}

} // verus!
