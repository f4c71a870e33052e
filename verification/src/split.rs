//! Cutting a part out of a recording.
//!
//! The work is done by outside tools. A [`Split`] says what is to be done next, and is told how it
//! went.
use vstd::prelude::*;
use crate::audio::{segment_outcome, split_outcome, AudioSplitter, Cut, SplitFault, HEADER_BYTES, MIN_MICROS};
use crate::tempo::time_in_range;
use crate::timed_merge::Outcome;

verus! {

/// What is awaited.
#[derive(Debug, Clone, Copy, PartialEq, Eq, Structural)]
pub enum SplitStage {
    ProbingSource,
    Cutting,
    Measuring,
    ProbingPart { size: u64 },
    Ended,
}

/// How the last action went.
#[derive(Debug, Clone, Copy, PartialEq, Eq, Structural)]
pub enum SplitEvent {
    /// A tool has run.
    Ran(Outcome),
    /// The size of the file is known.
    Measured(u64),
}

/// What is to be done next.
#[derive(Debug, Clone, Copy, PartialEq, Eq, Structural)]
pub enum SplitAction {
    /// Ask for the length of the recording.
    ProbeSource,
    /// Cut the part out.
    Cut(Cut),
    /// Find out the size of the file that was cut.
    Measure,
    /// Ask for the length of the file that was cut.
    ProbePart,
    /// The part is there.
    Finish,
    /// There is no usable part.
    Fail(SplitFault),
}

/// Where the cutting stands. Times are milliseconds.
#[derive(Debug, Clone, Copy, PartialEq, Eq, Structural)]
pub struct SplitState {
    pub start: i64,
    pub end: i64,
    pub stage: SplitStage,
}

/// A length in microseconds, as a tool gave it.
pub open spec fn whole_length(o: Outcome) -> Option<i64> {
    match o {
        Outcome::Length(n) => Some(n),
        _ => None,
    }
}

impl SplitState {
    /// The state makes sense.
    pub open spec fn inv(&self) -> bool {
        &&& time_in_range(self.start as int)
        &&& time_in_range(self.end as int)
        &&& !(self.stage is Ended) ==> split_outcome(self.start as int, self.end as int, None) is Ok
        &&& self.stage matches SplitStage::ProbingPart { size } ==> size > HEADER_BYTES
    }

    /// Something like this can come of the last action.
    pub open spec fn expects(&self, event: SplitEvent) -> bool {
        match event {
            SplitEvent::Ran(o) => {
                &&& self.stage is ProbingSource || self.stage is Cutting || self.stage is ProbingPart
                &&& o.in_range()
            },
            SplitEvent::Measured(_) => self.stage is Measuring,
        }
    }

    /// The next stage and action at the beginning: times that cannot be cut out are refused before
    /// any tool runs.
    pub open spec fn begun(start: int, end: int) -> (SplitStage, SplitAction) {
        match split_outcome(start, end, None) {
            Ok(_) => (SplitStage::ProbingSource, SplitAction::ProbeSource),
            Err(f) => (SplitStage::Ended, SplitAction::Fail(f)),
        }
    }

    /// The next stage and action: the length of the recording is asked for, the part is cut out, and
    /// the file is checked by its size and then by its length. A length that cannot be had is no
    /// reason to stop.
    pub open spec fn after(&self, event: SplitEvent) -> (SplitStage, SplitAction) {
        match (self.stage, event) {
            (SplitStage::ProbingSource, SplitEvent::Ran(o)) => match split_outcome(
                self.start as int,
                self.end as int,
                o.spec_length(),
            ) {
                Ok(cut) => (SplitStage::Cutting, SplitAction::Cut(cut)),
                Err(f) => (SplitStage::Ended, SplitAction::Fail(f)),
            },
            (SplitStage::Cutting, SplitEvent::Ran(o)) => if o is Failed {
                (SplitStage::Ended, SplitAction::Fail(SplitFault::ToolFailed))
            } else {
                (SplitStage::Measuring, SplitAction::Measure)
            },
            (SplitStage::Measuring, SplitEvent::Measured(size)) => match segment_outcome(
                size,
                None,
            ) {
                Ok(_) => (SplitStage::ProbingPart { size }, SplitAction::ProbePart),
                Err(f) => (SplitStage::Ended, SplitAction::Fail(f)),
            },
            (SplitStage::ProbingPart { size }, SplitEvent::Ran(o)) => match segment_outcome(
                size,
                whole_length(o),
            ) {
                Ok(_) => (SplitStage::Ended, SplitAction::Finish),
                Err(f) => (SplitStage::Ended, SplitAction::Fail(f)),
            },
            _ => (SplitStage::Ended, SplitAction::Finish),
        }
    }

    /// An upper bound on the number of steps that are left.
    pub open spec fn steps_left(&self) -> int {
        match self.stage {
            SplitStage::ProbingSource => 4,
            SplitStage::Cutting => 3,
            SplitStage::Measuring => 2,
            SplitStage::ProbingPart { .. } => 1,
            SplitStage::Ended => 0,
        }
    }

    /// What a step does.
    pub open spec fn stepped(&self, event: SplitEvent, post: &SplitState, action: SplitAction) -> bool {
        &&& post.start == self.start
        &&& post.end == self.end
        &&& (post.stage, action) == self.after(event)
    }

    fn next(&self, event: SplitEvent) -> (r: (SplitStage, SplitAction))
        requires
            self.inv(),
            self.expects(event),
        ensures
            r == self.after(event),
    {
        match (self.stage, event) {
            (SplitStage::ProbingSource, SplitEvent::Ran(o)) => {
                match AudioSplitter::plan_cut(self.start, self.end, known_length(o)) {
                    Ok(cut) => (SplitStage::Cutting, SplitAction::Cut(cut)),
                    Err(f) => (SplitStage::Ended, SplitAction::Fail(f)),
                }
            },
            (SplitStage::Cutting, SplitEvent::Ran(o)) => {
                if matches!(o, Outcome::Failed) {
                    (SplitStage::Ended, SplitAction::Fail(SplitFault::ToolFailed))
                } else {
                    (SplitStage::Measuring, SplitAction::Measure)
                }
            },
            (SplitStage::Measuring, SplitEvent::Measured(size)) => {
                match AudioSplitter::check_segment(size, None) {
                    Ok(_) => (SplitStage::ProbingPart { size }, SplitAction::ProbePart),
                    Err(f) => (SplitStage::Ended, SplitAction::Fail(f)),
                }
            },
            (SplitStage::ProbingPart { size }, SplitEvent::Ran(o)) => {
                match AudioSplitter::check_segment(size, known_length(o)) {
                    Ok(_) => (SplitStage::Ended, SplitAction::Finish),
                    Err(f) => (SplitStage::Ended, SplitAction::Fail(f)),
                }
            },
            _ => (SplitStage::Ended, SplitAction::Finish),
        }
    }
}

fn known_length(o: Outcome) -> (r: Option<i64>)
    ensures
        r == whole_length(o),
{
    match o {
        Outcome::Length(n) => Some(n),
        _ => None,
    }
}

/// The work of cutting a part out of a recording.
#[derive(Debug)]
pub struct Split {
    state: SplitState,
}

impl View for Split {
    type V = SplitState;

    closed spec fn view(&self) -> SplitState {
        self.state
    }
}

impl Split {
    #[verifier::type_invariant]
    spec fn sound(self) -> bool {
        self.state.inv()
    }

    /// Begins to cut out what lies between two times.
    pub(crate) fn new(start: i64, end: i64) -> (r: (Split, SplitAction))
        requires
            time_in_range(start as int),
            time_in_range(end as int),
        ensures
            r.0@.inv(),
            r.0@.start == start,
            r.0@.end == end,
            (r.0@.stage, r.1) == SplitState::begun(start as int, end as int),
    {
        match AudioSplitter::plan_cut(start, end, None) {
            Ok(_) => {
                let state = SplitState { start, end, stage: SplitStage::ProbingSource };
                (Split { state }, SplitAction::ProbeSource)
            },
            Err(f) => {
                let state = SplitState { start, end, stage: SplitStage::Ended };
                (Split { state }, SplitAction::Fail(f))
            },
        }
    }

    /// Takes in how the last action went, and says what is to be done next.
    pub fn step(&mut self, event: SplitEvent) -> (action: SplitAction)
        requires
            old(self)@.expects(event),
        ensures
            final(self)@.inv(),
            old(self)@.stepped(event, &final(self)@, action),
            final(self)@.steps_left() < old(self)@.steps_left(),
    {
        proof {
            use_type_invariant(&*self);
        }
        let (stage, action) = self.state.next(event);
        self.state = SplitState { start: self.state.start, end: self.state.end, stage };
        action
    }

    /// Where the cutting stands.
    pub fn state(&self) -> (r: &SplitState)
        ensures
            *r == self@,
            r.inv(),
    {
        proof {
            use_type_invariant(self);
        }
        &self.state
    }
}

// ---------------------------------------------------------------------------
// Laws
// ---------------------------------------------------------------------------

/// A part that is there holds sound, and is not too short where its length is known.
pub proof fn law_a_part_holds_sound(
    pre: SplitState,
    event: SplitEvent,
    post: SplitState,
    action: SplitAction,
)
    requires
        pre.inv(),
        pre.expects(event),
        pre.stepped(event, &post, action),
        action is Finish,
    ensures
        pre.stage matches SplitStage::ProbingPart { size } && size > HEADER_BYTES,
        event matches SplitEvent::Ran(Outcome::Length(n)) ==> n >= MIN_MICROS,
{
}

/// What is cut out lies within its subtitle, and within the recording where its length is known.
pub proof fn law_a_part_lies_within(
    pre: SplitState,
    event: SplitEvent,
    post: SplitState,
    action: SplitAction,
)
    requires
        pre.inv(),
        pre.expects(event),
        pre.stepped(event, &post, action),
        action is Cut,
    ensures
        action matches SplitAction::Cut(cut) ==> {
            &&& cut.start == pre.start
            &&& 0 <= cut.start
            &&& 0 < cut.micros
            &&& cut.start * 1000 + cut.micros <= pre.end * 1000
            &&& event matches SplitEvent::Ran(Outcome::Length(n)) ==> cut.start * 1000 + cut.micros
                <= n
        },
{
}

} // verus!
