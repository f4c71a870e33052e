//! Validating results: what is found invalid is made anew and validated again.
//!
//! Validating files, carrying tasks out and waiting are outside work. A [`Validation`] says what is to
//! be done next, and is told what came of it.
use vstd::prelude::*;
use crate::rounds::{
    batch_at, copy_range, law_failed_tasks_stay_pending, law_no_task_is_doubled, make_batch,
    take_unmarked, unmarked, Batch, PAUSE_SECS,
};

verus! {

/// The numbers from zero to before `n`.
pub open spec fn numbers(n: int) -> Seq<usize> {
    Seq::new(n as nat, |i: int| i as usize)
}

/// The numbers of all tasks.
pub fn all_tasks(n: usize) -> (r: Vec<usize>)
    ensures
        r@ == numbers(n as int),
        r@.no_duplicates(),
{
    let mut r: Vec<usize> = Vec::new();
    let mut i: usize = 0;
    while i < n
        invariant
            i <= n,
            r@ == numbers(i as int),
        decreases n - i,
    {
        r.push(i);
        i += 1;
        assert(r@ =~= numbers(i as int));
    }
    r
}

/// What is awaited.
#[derive(Debug, Clone, Copy, PartialEq, Eq, Structural)]
pub enum ValidationStage {
    /// The end of the pause before a round.
    Pausing,
    /// Which results are valid.
    Validating,
    /// The end of a batch.
    Executing(Batch),
    /// The end of the rest after a batch.
    Resting,
    /// Nothing.
    Ended,
}

/// What happened.
#[derive(Debug)]
pub enum ValidationEvent {
    /// The wait is over.
    Waited,
    /// For each result in question, whether it is valid.
    Validated(Vec<bool>),
    /// The batch is done.
    Executed,
}

/// What is to be done next.
#[derive(Debug, Clone, Copy, PartialEq, Eq, Structural)]
pub enum ValidationAction {
    /// Wait so many seconds.
    Wait { secs: u64 },
    /// Validate the results in question, and delete those that are not valid.
    Validate,
    /// Carry a batch of the tasks in question out again.
    Execute(Batch),
    /// All results are valid.
    Finish,
    /// There are tasks without a valid result, and no more rounds.
    GiveUp,
}

/// Where validation stands.
#[derive(Debug)]
pub struct ValidationState {
    /// How many tasks make a batch.
    pub count: usize,
    /// How many seconds to rest between batches.
    pub rest_secs: u64,
    /// How many rounds there are at most.
    pub limit: u32,
    /// The tasks whose results are in question.
    pub subjects: Vec<usize>,
    /// The number of this round.
    pub round: u32,
    /// Where the current batch starts, or the next one.
    pub start: usize,
    pub stage: ValidationStage,
}

impl ValidationState {
    /// The state makes sense.
    pub open spec fn inv(&self) -> bool {
        &&& self.count > 0
        &&& 1 <= self.round <= self.limit
        &&& self.subjects@.no_duplicates()
        &&& self.stage != ValidationStage::Ended ==> self.subjects@.len() > 0
        &&& match self.stage {
            ValidationStage::Executing(b) => {
                &&& self.round < self.limit
                &&& b.start == self.start
                &&& b.start < b.end <= self.subjects@.len()
            },
            ValidationStage::Resting => self.round < self.limit && self.start < self.subjects@.len(),
            _ => true,
        }
    }

    /// Something like this can happen now.
    pub open spec fn expects(&self, event: ValidationEvent) -> bool {
        match self.stage {
            ValidationStage::Pausing => event is Waited,
            ValidationStage::Validating => event matches ValidationEvent::Validated(v) && v@.len()
                == self.subjects@.len(),
            ValidationStage::Executing(_) => event is Executed,
            ValidationStage::Resting => event is Waited,
            ValidationStage::Ended => false,
        }
    }

    /// What a step does: invalid results are made anew, in batches, and validated again after a
    /// pause, until the last round.
    pub open spec fn stepped(
        &self,
        event: ValidationEvent,
        post: &ValidationState,
        action: ValidationAction,
    ) -> bool {
        let len = self.subjects@.len() as int;
        match (self.stage, event) {
            (ValidationStage::Pausing, _) => {
                &&& *post == ValidationState { stage: ValidationStage::Validating, ..*self }
                &&& action == ValidationAction::Validate
            },
            (ValidationStage::Validating, ValidationEvent::Validated(valid)) => {
                let invalid = unmarked(self.subjects@, valid@);
                let b = batch_at(0, self.count as int, invalid.len() as int);
                &&& post.count == self.count
                &&& post.rest_secs == self.rest_secs
                &&& post.limit == self.limit
                &&& post.round == self.round
                &&& post.start == 0
                &&& post.subjects@ == invalid
                &&& if invalid.len() == 0 {
                    &&& post.stage == ValidationStage::Ended
                    &&& action == ValidationAction::Finish
                } else if self.round == self.limit {
                    &&& post.stage == ValidationStage::Ended
                    &&& action == ValidationAction::GiveUp
                } else {
                    &&& post.stage == ValidationStage::Executing(b)
                    &&& action == ValidationAction::Execute(b)
                }
            },
            (ValidationStage::Executing(b), _) => if b.end < len {
                &&& *post == ValidationState {
                    start: b.end,
                    stage: ValidationStage::Resting,
                    ..*self
                }
                &&& action == ValidationAction::Wait { secs: self.rest_secs }
            } else {
                &&& *post == ValidationState {
                    round: (self.round + 1) as u32,
                    start: b.end,
                    stage: ValidationStage::Pausing,
                    ..*self
                }
                &&& action == ValidationAction::Wait { secs: PAUSE_SECS }
            },
            (ValidationStage::Resting, _) => {
                let b = batch_at(self.start as int, self.count as int, len);
                &&& *post == ValidationState { stage: ValidationStage::Executing(b), ..*self }
                &&& action == ValidationAction::Execute(b)
            },
            _ => true,
        }
    }

    /// An upper bound on the number of steps that are left.
    pub open spec fn steps_left(&self) -> (int, int) {
        let len = self.subjects@.len() as int;
        (
            self.limit - self.round,
            match self.stage {
                ValidationStage::Pausing => 2 * len + 4,
                ValidationStage::Validating => 2 * len + 3,
                ValidationStage::Executing(b) => 2 * (len - b.start) + 1,
                ValidationStage::Resting => 2 * (len - self.start) + 2,
                ValidationStage::Ended => 0,
            },
        )
    }

    fn step(&mut self, event: ValidationEvent) -> (action: ValidationAction)
        requires
            old(self).inv(),
            old(self).expects(event),
        ensures
            final(self).inv(),
            old(self).stepped(event, final(self), action),
            fewer(final(self).steps_left(), old(self).steps_left()),
            action == ValidationAction::Finish || action == ValidationAction::GiveUp
                <==> final(self).stage == ValidationStage::Ended,
    {
        match self.stage {
            ValidationStage::Pausing => {
                self.stage = ValidationStage::Validating;
                ValidationAction::Validate
            },
            ValidationStage::Validating => match event {
                ValidationEvent::Validated(valid) => {
                    proof {
                        law_no_task_is_doubled(self.subjects@, valid@);
                        if self.subjects@.len() > 0 {
                            law_failed_tasks_stay_pending(self.subjects@, valid@, self.subjects@[0]);
                        }
                    }
                    self.subjects = take_unmarked(&self.subjects, &valid);
                    self.start = 0;
                    if self.subjects.len() == 0 {
                        self.stage = ValidationStage::Ended;
                        ValidationAction::Finish
                    } else if self.round == self.limit {
                        self.stage = ValidationStage::Ended;
                        ValidationAction::GiveUp
                    } else {
                        let b = make_batch(0, self.count, self.subjects.len());
                        self.stage = ValidationStage::Executing(b);
                        ValidationAction::Execute(b)
                    }
                },
                _ => ValidationAction::Finish,
            },
            ValidationStage::Executing(b) => {
                self.start = b.end;
                if b.end < self.subjects.len() {
                    self.stage = ValidationStage::Resting;
                    ValidationAction::Wait { secs: self.rest_secs }
                } else {
                    self.round = self.round + 1;
                    self.stage = ValidationStage::Pausing;
                    ValidationAction::Wait { secs: PAUSE_SECS }
                }
            },
            ValidationStage::Resting => {
                let b = make_batch(self.start, self.count, self.subjects.len());
                self.stage = ValidationStage::Executing(b);
                ValidationAction::Execute(b)
            },
            ValidationStage::Ended => ValidationAction::Finish,
        }
    }
}

/// Fewer rounds are left, or fewer steps of the same round.
pub open spec fn fewer(a: (int, int), b: (int, int)) -> bool {
    0 <= a.0 && 0 <= a.1 && (a.0 < b.0 || (a.0 == b.0 && a.1 < b.1))
}

/// Results under validation.
#[derive(Debug)]
pub struct Validation {
    state: ValidationState,
}

impl View for Validation {
    type V = ValidationState;

    closed spec fn view(&self) -> ValidationState {
        self.state
    }
}

impl Validation {
    #[verifier::type_invariant]
    spec fn sound(self) -> bool {
        self.state.inv()
    }

    /// Puts the results of tasks into question. There is nothing to do if there are none.
    pub fn new(subjects: Vec<usize>, count: usize, rest_secs: u64, limit: u32) -> (r: (
        Self,
        ValidationAction,
    ))
        requires
            subjects@.no_duplicates(),
            count > 0,
            limit > 0,
        ensures
            r.0@.inv(),
            r.0@.count == count,
            r.0@.rest_secs == rest_secs,
            r.0@.limit == limit,
            r.0@.subjects == subjects,
            r.0@.round == 1,
            r.0@.start == 0,
            if subjects@.len() == 0 {
                r.0@.stage == ValidationStage::Ended && r.1 == ValidationAction::Finish
            } else {
                r.0@.stage == ValidationStage::Validating && r.1 == ValidationAction::Validate
            },
    {
        let some = subjects.len() > 0;
        let mut state = ValidationState {
            count,
            rest_secs,
            limit,
            subjects,
            round: 1,
            start: 0,
            stage: ValidationStage::Ended,
        };
        if some {
            state.stage = ValidationStage::Validating;
            (Validation { state }, ValidationAction::Validate)
        } else {
            (Validation { state }, ValidationAction::Finish)
        }
    }

    /// Goes on after something has happened.
    pub fn step(&mut self, event: ValidationEvent) -> (action: ValidationAction)
        requires
            old(self)@.expects(event),
        ensures
            final(self)@.inv(),
            old(self)@.stepped(event, &final(self)@, action),
            fewer(final(self)@.steps_left(), old(self)@.steps_left()),
            action == ValidationAction::Finish || action == ValidationAction::GiveUp
                <==> final(self)@.stage == ValidationStage::Ended,
    {
        proof {
            use_type_invariant(&*self);
        }
        let mut state = ValidationState {
            count: 1,
            rest_secs: 0,
            limit: 1,
            subjects: Vec::new(),
            round: 1,
            start: 0,
            stage: ValidationStage::Ended,
        };
        std::mem::swap(&mut state, &mut self.state);
        let action = state.step(event);
        self.state = state;
        action
    }

    /// Where the work stands.
    pub fn state(&self) -> (r: &ValidationState)
        ensures
            *r == self@,
            r.inv(),
    {
        proof {
            use_type_invariant(self);
        }
        &self.state
    }

    /// The tasks of a batch.
    pub fn batch_tasks(&self, b: Batch) -> (r: Vec<usize>)
        requires
            b.start <= b.end <= self@.subjects@.len(),
        ensures
            r@ == self@.subjects@.subrange(b.start as int, b.end as int),
    {
        copy_range(&self.state.subjects, b.start, b.end)
    }
}

// ---------------------------------------------------------------------------
// Laws
// ---------------------------------------------------------------------------

/// Validation ends with success exactly if everything in question is valid; a result that was made
/// anew is in question again.
pub proof fn law_validation_ends(
    pre: ValidationState,
    event: ValidationEvent,
    post: ValidationState,
    action: ValidationAction,
)
    requires
        pre.inv(),
        pre.expects(event),
        pre.stepped(event, &post, action),
    ensures
        action == ValidationAction::Finish <==> (event matches ValidationEvent::Validated(valid)
            && forall|i: int| 0 <= i < valid@.len() ==> #[trigger] valid@[i]),
        action == ValidationAction::GiveUp ==> pre.round == pre.limit && post.subjects@.len() > 0,
        !(event is Validated) ==> post.subjects == pre.subjects,
{
    if let ValidationEvent::Validated(valid) = event {
        let invalid = unmarked(pre.subjects@, valid@);
        if invalid.len() == 0 {
            assert forall|i: int| 0 <= i < valid@.len() implies #[trigger] valid@[i] by {
                law_failed_tasks_stay_pending(pre.subjects@, valid@, pre.subjects@[i]);
                assert(pre.subjects@[i] == pre.subjects@[i]);
            }
        } else {
            law_failed_tasks_stay_pending(pre.subjects@, valid@, invalid[0]);
            let i = choose|i: int|
                0 <= i < pre.subjects@.len() && #[trigger] pre.subjects@[i] == invalid[0]
                    && !valid@[i];
            assert(!valid@[i]);
        }
    }
}

/// A task leaves validation only with a valid result.
pub proof fn law_only_valid_results_leave(
    pre: ValidationState,
    valid: Vec<bool>,
    post: ValidationState,
    action: ValidationAction,
    x: usize,
)
    requires
        pre.inv(),
        pre.expects(ValidationEvent::Validated(valid)),
        pre.stepped(ValidationEvent::Validated(valid), &post, action),
    ensures
        post.subjects@.contains(x) <==> exists|i: int|
            0 <= i < pre.subjects@.len() && #[trigger] pre.subjects@[i] == x && !valid@[i],
{
    law_failed_tasks_stay_pending(pre.subjects@, valid@, x);
}

} // verus!
