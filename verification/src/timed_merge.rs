//! Joining clips so that every clip fills the time of its subtitle.
//!
//! The work is done by outside tools. A [`TimedMerge`] says what is to be done next, and is told how
//! it went.
use vstd::prelude::*;
use crate::silence::{
    find_silence, first_at, list_pieces, pieces, plan_silences, silence_plan, times_in_range, Piece, Silence,
};
use crate::text::{decimal, push_decimal};
use crate::tempo::{
    clip_plan, correction, lemma_nearest_bounds, length_in_range, nearest, plan_clip, plan_correction,
    round_to_nearest, ClipPlan, Filter, MAX_MICROS, MAX_MILLIS,
};

verus! {

/// A joined recording may be off by this many microseconds before its end is made anew.
pub const RECORDING_TOLERANCE: i64 = 100_000;

/// How a tool did.
#[derive(Debug, Clone, Copy, PartialEq, Eq, Structural)]
pub enum Outcome {
    /// It reported an error.
    Failed,
    /// It did its work; if it was asked for a length, it gave none that can be read.
    Done,
    /// It gave a length in microseconds.
    Length(i64),
}

impl Outcome {
    /// The length that was given.
    pub open spec fn spec_length(self) -> Option<int> {
        match self {
            Outcome::Length(n) => Some(n as int),
            _ => None,
        }
    }

    /// The length that was given, or zero.
    pub open spec fn spec_length_or_zero(self) -> int {
        match self {
            Outcome::Length(n) => n as int,
            _ => 0,
        }
    }

    /// A length that is given is one that is handled.
    pub open spec fn in_range(self) -> bool {
        self matches Outcome::Length(n) ==> length_in_range(n as int)
    }

    fn length_or_zero(&self) -> (r: i64)
        ensures
            r == self.spec_length_or_zero(),
    {
        match self {
            Outcome::Length(n) => *n,
            _ => 0,
        }
    }
}

/// A recording whose length is asked for.
#[derive(Debug, Clone, Copy, PartialEq, Eq, Structural)]
pub enum Source {
    /// The recording that the subtitles belong to.
    Original,
    /// The clip with this number, as it was given.
    Input(usize),
    /// The clip with this number, after the first pass.
    Processed(usize),
    /// The joined recording.
    Joined,
    /// The silence with this number.
    Silence(usize),
}

/// Why the work stops.
#[derive(Debug, Clone, Copy, PartialEq, Eq, Structural)]
pub enum MergeFault {
    OriginalUnreadable,
    OriginalEmpty,
    InputUnreadable(usize),
    InputEmpty(usize),
    CopyFailed(usize),
    PadFailed(usize),
    /// With the speed that was wanted, in thousandths.
    SpeedFailed { index: usize, thousandths: u64 },
    SilenceFailed,
    JoinFailed,
    JoinedUnreadable,
}

/// What is to be done next.
#[derive(Debug, Clone, Copy, PartialEq, Eq, Structural)]
pub enum MergeAction {
    /// Ask for a length.
    Probe(Source),
    /// Take a clip over as it is.
    Copy { index: usize },
    /// First pass: put a clip through a filter.
    Filter { index: usize, filter: Filter },
    /// Second pass: put the result of the first pass through a filter.
    Correct { index: usize, filter: Filter },
    /// Make the silence with this number.
    MakeSilence { index: usize, micros: i64 },
    /// Make the silence at the end anew.
    MakeTail { micros: i64 },
    /// Join the pieces.
    Join { remade: bool },
    /// The joined recording is done.
    Finish,
    /// Give up.
    Abort(MergeFault),
}

/// What is awaited.
#[derive(Debug, Clone, Copy, PartialEq, Eq, Structural)]
pub enum Stage {
    ProbeOriginal,
    ProbeInput,
    Copying,
    Padding,
    Speeding { thousandths: u64 },
    ProbeSped,
    Correcting,
    Silencing { made: usize },
    Joining,
    ProbeJoined,
    ProbeTail { excess: i64 },
    RemakingTail,
    Rejoining,
    Ended,
}

/// What is said of how far the work has come.
#[derive(Debug)]
pub struct Progress {
    pub done: usize,
    pub total: usize,
    pub text: String,
}

/// What is said, by its contents.
pub struct ProgressModel {
    pub done: int,
    pub total: int,
    pub text: Seq<char>,
}

impl View for Progress {
    type V = ProgressModel;

    open spec fn view(&self) -> ProgressModel {
        ProgressModel { done: self.done as int, total: self.total as int, text: self.text@ }
    }
}

/// What is said before clip number `k` of `n`: every tenth time, and at the last clip.
pub open spec fn clip_progress(k: int, n: int) -> Option<ProgressModel> {
    if k % 10 == 0 || k == n {
        Some(
            ProgressModel {
                done: k,
                total: n,
                text: "处理文件 "@ + decimal(k as nat) + "/"@ + decimal(n as nat),
            },
        )
    } else {
        None
    }
}

/// What is said once all `n` clips are fitted.
pub open spec fn end_progress(n: int) -> ProgressModel {
    ProgressModel { done: n, total: n, text: "速度调整完成"@ }
}

/// All that is said before the first `k` of `n` clips.
pub open spec fn progress_before(k: int, n: int) -> Seq<ProgressModel>
    decreases k,
{
    if k <= 0 {
        Seq::empty()
    } else {
        match clip_progress(k, n) {
            Some(p) => progress_before(k - 1, n).push(p),
            None => progress_before(k - 1, n),
        }
    }
}

/// Where the work of joining clips stands.
#[derive(Debug)]
pub struct MergeState {
    pub times: Vec<(i64, i64)>,
    pub original: i64,
    pub corrected: Vec<bool>,
    pub silences: Vec<Silence>,
    pub stage: Stage,
}

/// The time that a clip has to fill, in microseconds.
pub open spec fn target_micros(t: (i64, i64)) -> int {
    (t.1 - t.0) * 1000
}

/// Clips are still being fitted into their times.
pub open spec fn fitting(stage: Stage) -> bool {
    stage is ProbeInput || stage is Copying || stage is Padding || stage is Speeding
        || stage is ProbeSped || stage is Correcting
}

impl MergeState {
    /// The state makes sense.
    pub open spec fn inv(&self) -> bool {
        let n = self.times@.len();
        &&& 0 < n < usize::MAX
        &&& times_in_range(self.times@)
        &&& forall|i: int| 0 <= i < n ==> target_micros(#[trigger] self.times@[i]) != 0
        &&& self.stage is ProbeOriginal ==> self.corrected@.len() == 0
        &&& !(self.stage is ProbeOriginal) && !(self.stage is Ended) ==> 0 < self.original
            <= MAX_MICROS
        &&& fitting(self.stage) ==> self.corrected@.len() < n
        &&& self.stage is Speeding || self.stage is ProbeSped || self.stage is Correcting
            ==> target_micros(self.times@[self.corrected@.len() as int]) > 0
        &&& !fitting(self.stage) && !(self.stage is ProbeOriginal) && !(self.stage is Ended) ==> {
            &&& self.corrected@.len() == n
            &&& self.silences@ == silence_plan(self.times@, self.original as int / 1000)
            &&& self.silences@.len() <= n + 1
            &&& forall|i: int|
                0 <= i < self.silences@.len() ==> 0 < (#[trigger] self.silences@[i]).millis
                    <= MAX_MICROS / 1000 + MAX_MILLIS
        }
        &&& self.stage matches Stage::Silencing { made } ==> made < self.silences@.len()
        &&& self.stage matches Stage::ProbeTail { excess } ==> -2 * MAX_MICROS <= excess <= 2
            * MAX_MICROS
    }

    /// An upper bound on the number of steps that are left.
    pub open spec fn steps_left(&self) -> int {
        let n = self.times@.len();
        let fit = 6 * (n - self.corrected@.len()) + n + 8;
        match self.stage {
            Stage::ProbeOriginal => fit + 7,
            Stage::ProbeInput => fit + 5,
            Stage::Copying => fit + 4,
            Stage::Padding => fit + 4,
            Stage::Speeding { .. } => fit + 4,
            Stage::ProbeSped => fit + 3,
            Stage::Correcting => fit + 2,
            Stage::Silencing { made } => self.silences@.len() - made + 7,
            Stage::Joining => 6,
            Stage::ProbeJoined => 5,
            Stage::ProbeTail { .. } => 4,
            Stage::RemakingTail => 3,
            Stage::Rejoining => 2,
            Stage::Ended => 0,
        }
    }

    /// Nothing but the stage changes.
    pub open spec fn only_stage(&self, post: &MergeState, stage: Stage) -> bool {
        &&& post.times == self.times
        &&& post.original == self.original
        &&& post.corrected == self.corrected
        &&& post.silences == self.silences
        &&& post.stage == stage
    }

    /// The work stops for a reason.
    pub open spec fn aborted(&self, post: &MergeState, action: MergeAction, fault: MergeFault) -> bool {
        self.only_stage(post, Stage::Ended) && action == MergeAction::Abort(fault)
    }

    /// The current clip is done. The next clip follows; behind the last one the silences are
    /// planned, and made if there are any.
    pub open spec fn clip_done(
        &self,
        post: &MergeState,
        action: MergeAction,
        corrected: bool,
    ) -> bool {
        let next = self.corrected@.len() + 1;
        let plan = silence_plan(self.times@, self.original as int / 1000);
        &&& post.times == self.times
        &&& post.original == self.original
        &&& post.corrected@ == self.corrected@.push(corrected)
        &&& if next < self.times@.len() {
            &&& post.silences == self.silences
            &&& post.stage == Stage::ProbeInput
            &&& action == MergeAction::Probe(Source::Input(next as usize))
        } else {
            &&& post.silences@ == plan
            &&& if plan.len() > 0 {
                &&& post.stage == Stage::Silencing { made: 0 }
                &&& action == MergeAction::MakeSilence {
                    index: 0,
                    micros: (plan[0].millis * 1000) as i64,
                }
            } else {
                &&& post.stage == Stage::Joining
                &&& action == MergeAction::Join { remade: false }
            }
        }
    }

    /// What a step does.
    pub open spec fn stepped(&self, o: Outcome, post: &MergeState, action: MergeAction) -> bool {
        let i = self.corrected@.len();
        let target = target_micros(self.times@[i as int]);
        let len = o.spec_length_or_zero();
        match self.stage {
            Stage::ProbeOriginal => if o is Failed {
                self.aborted(post, action, MergeFault::OriginalUnreadable)
            } else if len <= 0 {
                self.aborted(post, action, MergeFault::OriginalEmpty)
            } else {
                &&& post.times == self.times
                &&& post.original == len
                &&& post.corrected == self.corrected
                &&& post.silences == self.silences
                &&& post.stage == Stage::ProbeInput
                &&& action == MergeAction::Probe(Source::Input(0))
            },
            Stage::ProbeInput => if o is Failed {
                self.aborted(post, action, MergeFault::InputUnreadable(i as usize))
            } else if len <= 0 {
                self.aborted(post, action, MergeFault::InputEmpty(i as usize))
            } else {
                match clip_plan(target, len) {
                    ClipPlan::Copy => self.only_stage(post, Stage::Copying) && action
                        == MergeAction::Copy { index: i as usize },
                    ClipPlan::Pad { micros } => self.only_stage(post, Stage::Padding) && action
                        == MergeAction::Filter {
                        index: i as usize,
                        filter: Filter::Pad { micros },
                    },
                    ClipPlan::Speed { doublings, thousandths } => self.only_stage(
                        post,
                        Stage::Speeding {
                            thousandths: nearest((1000 * len) as nat, target as nat) as u64,
                        },
                    ) && action == MergeAction::Filter {
                        index: i as usize,
                        filter: Filter::Tempo { doublings, thousandths },
                    },
                }
            },
            Stage::Copying => if o is Failed {
                self.aborted(post, action, MergeFault::CopyFailed(i as usize))
            } else {
                self.clip_done(post, action, false)
            },
            Stage::Padding => if o is Failed {
                self.aborted(post, action, MergeFault::PadFailed(i as usize))
            } else {
                self.clip_done(post, action, false)
            },
            Stage::Speeding { thousandths } => if o is Failed {
                self.aborted(
                    post,
                    action,
                    MergeFault::SpeedFailed { index: i as usize, thousandths },
                )
            } else {
                self.only_stage(post, Stage::ProbeSped) && action == MergeAction::Probe(
                    Source::Processed(i as usize),
                )
            },
            Stage::ProbeSped => match correction(target, o.spec_length()) {
                Some(thousandths) => self.only_stage(post, Stage::Correcting) && action
                    == MergeAction::Correct {
                    index: i as usize,
                    filter: Filter::Tempo { doublings: 0, thousandths },
                },
                None => self.clip_done(post, action, false),
            },
            Stage::Correcting => self.clip_done(post, action, !(o is Failed)),
            Stage::Silencing { made } => if o is Failed {
                self.aborted(post, action, MergeFault::SilenceFailed)
            } else if made + 1 < self.silences@.len() {
                self.only_stage(post, Stage::Silencing { made: (made + 1) as usize }) && action
                    == MergeAction::MakeSilence {
                    index: (made + 1) as usize,
                    micros: (self.silences@[made + 1].millis * 1000) as i64,
                }
            } else {
                self.only_stage(post, Stage::Joining) && action == MergeAction::Join {
                    remade: false,
                }
            },
            Stage::Joining => if o is Failed {
                self.aborted(post, action, MergeFault::JoinFailed)
            } else {
                self.only_stage(post, Stage::ProbeJoined) && action == MergeAction::Probe(
                    Source::Joined,
                )
            },
            Stage::ProbeJoined => {
                let excess = len - self.original;
                let tail = first_at(self.silences@, self.times@.len() as int);
                if o is Failed {
                    self.aborted(post, action, MergeFault::JoinedUnreadable)
                } else if (excess > RECORDING_TOLERANCE || excess < -RECORDING_TOLERANCE)
                    && tail is Some {
                    self.only_stage(post, Stage::ProbeTail { excess: excess as i64 }) && action
                        == MergeAction::Probe(Source::Silence(tail->0 as usize))
                } else {
                    self.only_stage(post, Stage::Ended) && action == MergeAction::Finish
                }
            },
            Stage::ProbeTail { excess } => match o.spec_length() {
                Some(l) => if l - excess > 0 {
                    self.only_stage(post, Stage::RemakingTail) && action == MergeAction::MakeTail {
                        micros: (l - excess) as i64,
                    }
                } else {
                    self.only_stage(post, Stage::Ended) && action == MergeAction::Finish
                },
                None => self.only_stage(post, Stage::Ended) && action == MergeAction::Finish,
            },
            Stage::RemakingTail => if o is Failed {
                self.aborted(post, action, MergeFault::SilenceFailed)
            } else {
                self.only_stage(post, Stage::Rejoining) && action == MergeAction::Join {
                    remade: true,
                }
            },
            Stage::Rejoining => self.only_stage(post, Stage::Ended) && action
                == MergeAction::Finish,
            Stage::Ended => false,
        }
    }

    /// What is said along with an action: before every clip, if it is its turn, and behind the last
    /// one.
    pub open spec fn said(&self, action: MergeAction) -> Option<ProgressModel> {
        let n = self.times@.len() as int;
        match action {
            MergeAction::Probe(Source::Input(i)) => clip_progress(i + 1, n),
            MergeAction::MakeSilence { index, .. } => if index == 0 {
                Some(end_progress(n))
            } else {
                None
            },
            MergeAction::Join { remade } => if !remade && self.silences@.len() == 0 {
                Some(end_progress(n))
            } else {
                None
            },
            _ => None,
        }
    }

    /// All that has been said so far by work that has not stopped for a reason.
    pub open spec fn said_so_far(&self) -> Seq<ProgressModel> {
        let n = self.times@.len() as int;
        if self.stage is ProbeOriginal {
            Seq::empty()
        } else if fitting(self.stage) {
            progress_before(self.corrected@.len() as int + 1, n)
        } else {
            progress_before(n, n).push(end_progress(n))
        }
    }

    fn new(times: Vec<(i64, i64)>) -> (r: MergeState)
        requires
            0 < times@.len() < usize::MAX,
            times_in_range(times@),
            forall|i: int| 0 <= i < times@.len() ==> target_micros(#[trigger] times@[i]) != 0,
        ensures
            r.inv(),
            r.times == times,
            r.stage == Stage::ProbeOriginal,
    {
        MergeState {
            times,
            original: 0,
            corrected: Vec::new(),
            silences: Vec::new(),
            stage: Stage::ProbeOriginal,
        }
    }

    fn step(&mut self, o: Outcome) -> (action: MergeAction)
        requires
            old(self).inv(),
            !(old(self).stage is Ended),
            o.in_range(),
        ensures
            final(self).inv(),
            old(self).stepped(o, final(self), action),
            final(self).steps_left() < old(self).steps_left(),
    {
        let failed: bool = matches!(o, Outcome::Failed);
        let len: i64 = o.length_or_zero();
        let i: usize = self.corrected.len();
        match self.stage {
            Stage::ProbeOriginal => {
                if failed {
                    return self.abort(MergeFault::OriginalUnreadable);
                }
                if len <= 0 {
                    return self.abort(MergeFault::OriginalEmpty);
                }
                self.original = len;
                self.stage = Stage::ProbeInput;
                MergeAction::Probe(Source::Input(0))
            },
            Stage::ProbeInput => {
                if failed {
                    return self.abort(MergeFault::InputUnreadable(i));
                }
                if len <= 0 {
                    return self.abort(MergeFault::InputEmpty(i));
                }
                let target: i64 = self.target(i);
                match plan_clip(target, len) {
                    ClipPlan::Copy => {
                        self.stage = Stage::Copying;
                        MergeAction::Copy { index: i }
                    },
                    ClipPlan::Pad { micros } => {
                        self.stage = Stage::Padding;
                        MergeAction::Filter { index: i, filter: Filter::Pad { micros } }
                    },
                    ClipPlan::Speed { doublings, thousandths } => {
                        let ratio: u128 = round_to_nearest(1000 * (len as u128), target as u128);
                        proof {
                            lemma_ratio_fits(target as int, len as int);
                        }
                        self.stage = Stage::Speeding { thousandths: ratio as u64 };
                        MergeAction::Filter {
                            index: i,
                            filter: Filter::Tempo { doublings, thousandths },
                        }
                    },
                }
            },
            Stage::Copying => {
                if failed {
                    return self.abort(MergeFault::CopyFailed(i));
                }
                self.finish_clip(false)
            },
            Stage::Padding => {
                if failed {
                    return self.abort(MergeFault::PadFailed(i));
                }
                self.finish_clip(false)
            },
            Stage::Speeding { thousandths } => {
                if failed {
                    return self.abort(MergeFault::SpeedFailed { index: i, thousandths });
                }
                self.stage = Stage::ProbeSped;
                MergeAction::Probe(Source::Processed(i))
            },
            Stage::ProbeSped => {
                let target: i64 = self.target(i);
                let known: Option<i64> = match o {
                    Outcome::Length(n) => Some(n),
                    _ => None,
                };
                match plan_correction(target, known) {
                    Some(thousandths) => {
                        self.stage = Stage::Correcting;
                        MergeAction::Correct {
                            index: i,
                            filter: Filter::Tempo { doublings: 0, thousandths },
                        }
                    },
                    None => self.finish_clip(false),
                }
            },
            Stage::Correcting => self.finish_clip(!failed),
            Stage::Silencing { made } => {
                if failed {
                    return self.abort(MergeFault::SilenceFailed);
                }
                if made + 1 < self.silences.len() {
                    self.stage = Stage::Silencing { made: made + 1 };
                    let micros: i64 = self.silences[made + 1].millis * 1000;
                    MergeAction::MakeSilence { index: made + 1, micros }
                } else {
                    self.stage = Stage::Joining;
                    MergeAction::Join { remade: false }
                }
            },
            Stage::Joining => {
                if failed {
                    return self.abort(MergeFault::JoinFailed);
                }
                self.stage = Stage::ProbeJoined;
                MergeAction::Probe(Source::Joined)
            },
            Stage::ProbeJoined => {
                if failed {
                    return self.abort(MergeFault::JoinedUnreadable);
                }
                let excess: i64 = len - self.original;
                if excess > RECORDING_TOLERANCE || excess < -RECORDING_TOLERANCE {
                    match find_silence(&self.silences, self.times.len()) {
                        Some(tail) => {
                            self.stage = Stage::ProbeTail { excess };
                            return MergeAction::Probe(Source::Silence(tail));
                        },
                        None => {},
                    }
                }
                self.stage = Stage::Ended;
                MergeAction::Finish
            },
            Stage::ProbeTail { excess } => {
                match o {
                    Outcome::Length(l) => {
                        if l - excess > 0 {
                            self.stage = Stage::RemakingTail;
                            return MergeAction::MakeTail { micros: l - excess };
                        }
                    },
                    _ => {},
                }
                self.stage = Stage::Ended;
                MergeAction::Finish
            },
            Stage::RemakingTail => {
                if failed {
                    return self.abort(MergeFault::SilenceFailed);
                }
                self.stage = Stage::Rejoining;
                MergeAction::Join { remade: true }
            },
            Stage::Rejoining => {
                self.stage = Stage::Ended;
                MergeAction::Finish
            },
            Stage::Ended => MergeAction::Finish,
        }
    }

    fn abort(&mut self, fault: MergeFault) -> (action: MergeAction)
        requires
            old(self).inv(),
        ensures
            final(self).inv(),
            old(self).aborted(final(self), action, fault),
    {
        self.stage = Stage::Ended;
        MergeAction::Abort(fault)
    }

    fn target(&self, i: usize) -> (r: i64)
        requires
            self.inv(),
            i < self.times@.len(),
        ensures
            r == target_micros(self.times@[i as int]),
            length_in_range(r as int),
            r != 0,
    {
        let t: (i64, i64) = self.times[i];
        assert(target_micros(self.times@[i as int]) != 0);
        (t.1 - t.0) * 1000
    }

    fn finish_clip(&mut self, corrected: bool) -> (action: MergeAction)
        requires
            old(self).inv(),
            fitting(old(self).stage),
        ensures
            final(self).inv(),
            old(self).clip_done(final(self), action, corrected),
            final(self).steps_left() < old(self).steps_left(),
    {
        self.corrected.push(corrected);
        let next: usize = self.corrected.len();
        if next < self.times.len() {
            self.stage = Stage::ProbeInput;
            return MergeAction::Probe(Source::Input(next));
        }
        self.silences = plan_silences(&self.times, self.original / 1000);
        if self.silences.len() > 0 {
            self.stage = Stage::Silencing { made: 0 };
            let micros: i64 = self.silences[0].millis * 1000;
            MergeAction::MakeSilence { index: 0, micros }
        } else {
            self.stage = Stage::Joining;
            MergeAction::Join { remade: false }
        }
    }

}

/// The work of joining clips to a recording.
#[derive(Debug)]
pub struct TimedMerge {
    state: MergeState,
}

impl View for TimedMerge {
    type V = MergeState;

    closed spec fn view(&self) -> MergeState {
        self.state
    }
}

impl TimedMerge {
    #[verifier::type_invariant]
    spec fn sound(self) -> bool {
        self.state.inv()
    }

    /// The work at its beginning: the length of the original is asked for first.
    pub fn new(times: Vec<(i64, i64)>) -> (r: (TimedMerge, MergeAction))
        requires
            0 < times@.len() < usize::MAX,
            times_in_range(times@),
            forall|i: int| 0 <= i < times@.len() ==> target_micros(#[trigger] times@[i]) != 0,
        ensures
            r.0@.inv(),
            r.0@.times == times,
            r.0@.stage == Stage::ProbeOriginal,
            r.1 == MergeAction::Probe(Source::Original),
    {
        let state = MergeState::new(times);
        (TimedMerge { state }, MergeAction::Probe(Source::Original))
    }

    /// Takes in how the last action went, and says what is to be done next.
    pub fn step(&mut self, o: Outcome) -> (action: MergeAction)
        requires
            !(old(self)@.stage is Ended),
            o.in_range(),
        ensures
            final(self)@.inv(),
            old(self)@.stepped(o, &final(self)@, action),
            final(self)@.steps_left() < old(self)@.steps_left(),
    {
        proof {
            use_type_invariant(&*self);
        }
        let mut state = MergeState {
            times: vec![(0, 1)],
            original: 0,
            corrected: Vec::new(),
            silences: Vec::new(),
            stage: Stage::Ended,
        };
        std::mem::swap(&mut state, &mut self.state);
        let action = state.step(o);
        self.state = state;
        action
    }

    /// Where the work stands.
    pub fn state(&self) -> (r: &MergeState)
        ensures
            *r == self@,
            r.inv(),
    {
        proof {
            use_type_invariant(self);
        }
        &self.state
    }

    /// The pieces in the order in which they are joined.
    pub fn pieces(&self, remade: bool) -> (r: Vec<Piece>)
        ensures
            r@ == pieces(self@.silences@, self@.corrected@, remade),
    {
        list_pieces(&self.state.silences, &self.state.corrected, remade)
    }

    /// What is said along with an action.
    pub fn progress(&self, action: MergeAction) -> (r: Option<Progress>)
        requires
            action matches MergeAction::Probe(Source::Input(i)) ==> i < self@.times@.len(),
        ensures
            match r {
                Some(p) => self@.said(action) == Some(p@),
                None => self@.said(action) is None,
            },
    {
        let total: usize = self.state.times.len();
        match action {
            MergeAction::Probe(Source::Input(i)) => tell_clip(i + 1, total),
            MergeAction::MakeSilence { index, .. } => {
                if index == 0 {
                    Some(tell_end(total))
                } else {
                    None
                }
            },
            MergeAction::Join { remade } => {
                if !remade && self.state.silences.len() == 0 {
                    Some(tell_end(total))
                } else {
                    None
                }
            },
            _ => None,
        }
    }
}

fn tell_clip(done: usize, total: usize) -> (r: Option<Progress>)
    ensures
        match r {
            Some(p) => clip_progress(done as int, total as int) == Some(p@),
            None => clip_progress(done as int, total as int) is None,
        },
{
    if done % 10 != 0 && done != total {
        return None;
    }
    let mut text = "处理文件 ".to_string();
    push_decimal(&mut text, done as u64);
    text.append("/");
    push_decimal(&mut text, total as u64);
    assert(text@ =~= "处理文件 "@ + decimal(done as nat) + "/"@ + decimal(total as nat));
    Some(Progress { done, total, text })
}

fn tell_end(total: usize) -> (r: Progress)
    ensures
        r@ == end_progress(total as int),
{
    Progress { done: total, total, text: "速度调整完成".to_string() }
}

pub(crate) proof fn lemma_ratio_fits(target: int, len: int)
    requires
        1000 <= target,
        0 < len <= MAX_MICROS,
    ensures
        nearest((1000 * len) as nat, target as nat) <= u64::MAX,
{
    assert(1000 * len <= len * target) by (nonlinear_arith)
        requires
            1000 <= target,
            0 < len,
    ;
    lemma_nearest_bounds((1000 * len) as nat, target as nat, 0, len as nat);
}

// ---------------------------------------------------------------------------
// Laws
// ---------------------------------------------------------------------------

/// The work stops only if a tool reported an error, or if a recording has no length.
pub proof fn law_abort_has_a_cause(pre: MergeState, o: Outcome, post: MergeState, action: MergeAction)
    requires
        pre.inv(),
        pre.stepped(o, &post, action),
        action is Abort,
    ensures
        o is Failed || (o.spec_length_or_zero() <= 0 && (pre.stage == Stage::ProbeOriginal
            || pre.stage == Stage::ProbeInput)),
{
}

/// The work finishes only after all clips were fitted into their times and joined.
pub proof fn law_finish_means_joined(pre: MergeState, o: Outcome, post: MergeState, action: MergeAction)
    requires
        pre.inv(),
        pre.stepped(o, &post, action),
        action == MergeAction::Finish,
    ensures
        pre.stage == Stage::ProbeJoined || pre.stage is ProbeTail || pre.stage == Stage::Rejoining,
        pre.corrected@.len() == pre.times@.len(),
{
}

/// What is said over the whole work: a line before every tenth clip and before the last one, and one
/// line at the end. Each step says what was still missing, so that work that finishes has said each
/// line once, in order.
pub proof fn law_progress_is_told_once(
    pre: MergeState,
    o: Outcome,
    post: MergeState,
    action: MergeAction,
)
    requires
        pre.inv(),
        pre.stepped(o, &post, action),
        !(action is Abort),
    ensures
        post.said_so_far() == match post.said(action) {
            Some(p) => pre.said_so_far().push(p),
            None => pre.said_so_far(),
        },
        action is Finish ==> post.said_so_far() == progress_before(
            post.times@.len() as int,
            post.times@.len() as int,
        ).push(end_progress(post.times@.len() as int)),
{
    let n = pre.times@.len() as int;
    assert(progress_before(0, n) =~= Seq::empty());
    if pre.stage is ProbeOriginal {
        assert(progress_before(1, n) == match clip_progress(1, n) {
            Some(p) => progress_before(0, n).push(p),
            None => progress_before(0, n),
        });
    }
}

/// Joined pieces are those of the silences that the times leave, and of all clips.
pub proof fn law_joined_pieces(pre: MergeState, o: Outcome, post: MergeState, action: MergeAction)
    requires
        pre.inv(),
        pre.stepped(o, &post, action),
        post.inv(),
        action is Join,
    ensures
        post.silences@ == silence_plan(post.times@, post.original as int / 1000),
        post.corrected@.len() == post.times@.len(),
        crate::silence::clip_numbers(
            pieces(post.silences@, post.corrected@, action->remade),
        ) == Seq::new(post.times@.len(), |i: int| i as usize),
{
    crate::silence::law_every_clip_is_joined_once(post.silences@, post.corrected@, action->remade);
}

} // verus!
