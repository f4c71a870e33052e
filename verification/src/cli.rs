//! The course of a run: one piece of outside work after the other, and what follows from each.
use vstd::prelude::*;
use crate::audio::HEADER_BYTES;
use crate::outside::optional_text;
use crate::rounds::RoundPlan;

verus! {

/// How many rounds of tasks, and how many of validation, there are at most.
pub const MAX_RETRY_ROUNDS: u32 = 3;

/// How long joining may take, in seconds.
pub const JOIN_SECS: u64 = 1800;

/// How a run goes about its work.
#[derive(Debug)]
pub struct RunSettings {
    pub api_url: String,
    pub output: String,
    pub max_concurrent: usize,
    pub split_concurrent: usize,
    pub batch_size: usize,
    pub rest_duration: u64,
    pub retry_count: u32,
}

/// What kind of run it is.
#[derive(Debug, Clone, Copy, PartialEq, Eq, Structural)]
pub enum Flow {
    /// A new run.
    Fresh,
    /// An earlier run that is taken up again.
    Resumed,
    /// What is left of a new run after its last round.
    Leftover,
}

/// What is awaited.
#[derive(Debug, Clone, Copy, PartialEq, Eq, Structural)]
pub enum CliStage {
    CheckingTool,
    FindingParts,
    MakingDirs,
    Parsing,
    Cutting,
    FindingPending,
    Working,
    Validating,
    Collecting,
    Joining,
    FindingAudio,
    JoiningTimed,
    Reporting,
    CleaningUp,
    Ended,
}

/// What came of a piece of work.
#[derive(Debug)]
pub enum CliEvent {
    /// It is done.
    Done,
    /// It failed, for the reason given.
    Failed(String),
    /// It took too long.
    TimedOut,
    /// What was looked for is not there: the directory of parts, pending tasks, or the recording.
    Absent,
    /// The rounds of tasks or of validation have ended with tasks that have no results.
    GaveUp,
}

/// What is to be done next.
#[derive(Debug)]
pub enum CliAction {
    /// See whether the sound tool is there.
    CheckTool,
    /// See whether the directory with the parts of the recording is there.
    FindParts,
    /// Make the directories of the run.
    MakeDirs,
    /// Read the subtitles and make tasks of them.
    Parse,
    /// Cut the recording up.
    Cut,
    /// See which tasks are left.
    FindPending,
    /// Carry tasks out, in rounds.
    Work,
    /// Validate the results.
    Validate,
    /// Collect the results that are larger than this.
    Collect { least: u64 },
    /// Join the results, within so many seconds.
    Join { secs: u64 },
    /// See whether the recording is there.
    FindAudio,
    /// Join the results, each in the time of its subtitle, within so many seconds.
    JoinTimed { secs: u64 },
    /// Tell how many tasks failed, and why.
    Report,
    /// Remove the directory with the parts of the recording.
    CleanUp,
    /// The run is done.
    Finish,
    /// The run has failed, for the reason given.
    Fail(String),
}

/// The mathematical content of a [`CliAction`].
#[verifier::ext_equal]
pub ghost enum CliActionModel {
    CheckTool,
    FindParts,
    MakeDirs,
    Parse,
    Cut,
    FindPending,
    Work,
    Validate,
    Collect { least: u64 },
    Join { secs: u64 },
    FindAudio,
    JoinTimed { secs: u64 },
    Report,
    CleanUp,
    Finish,
    Fail(Seq<char>),
}

impl View for CliAction {
    type V = CliActionModel;

    open spec fn view(&self) -> CliActionModel {
        match self {
            CliAction::CheckTool => CliActionModel::CheckTool,
            CliAction::FindParts => CliActionModel::FindParts,
            CliAction::MakeDirs => CliActionModel::MakeDirs,
            CliAction::Parse => CliActionModel::Parse,
            CliAction::Cut => CliActionModel::Cut,
            CliAction::FindPending => CliActionModel::FindPending,
            CliAction::Work => CliActionModel::Work,
            CliAction::Validate => CliActionModel::Validate,
            CliAction::Collect { least } => CliActionModel::Collect { least: *least },
            CliAction::Join { secs } => CliActionModel::Join { secs: *secs },
            CliAction::FindAudio => CliActionModel::FindAudio,
            CliAction::JoinTimed { secs } => CliActionModel::JoinTimed { secs: *secs },
            CliAction::Report => CliActionModel::Report,
            CliAction::CleanUp => CliActionModel::CleanUp,
            CliAction::Finish => CliActionModel::Finish,
            CliAction::Fail(msg) => CliActionModel::Fail(msg@),
        }
    }
}

/// Where a run stands.
#[derive(Debug)]
pub struct CliState {
    pub settings: RunSettings,
    /// The recording is known.
    pub has_audio: bool,
    pub flow: Flow,
    /// The run has made its directory of parts.
    pub made_parts: bool,
    /// Why the run has failed.
    pub failure: Option<String>,
    pub stage: CliStage,
}

impl CliState {
    /// The state makes sense.
    pub open spec fn inv(&self) -> bool {
        &&& self.flow != Flow::Resumed ==> self.has_audio
        &&& self.flow == Flow::Resumed ==> !self.made_parts
        &&& self.flow != Flow::Resumed && self.stage != CliStage::CheckingTool && self.stage
            != CliStage::Ended ==> self.made_parts
        &&& self.stage == CliStage::CheckingTool || self.stage == CliStage::Cutting || self.stage
            == CliStage::Validating ==> self.flow == Flow::Fresh
        &&& self.stage == CliStage::FindingParts || self.stage == CliStage::FindingAudio
            ==> self.flow == Flow::Resumed
        &&& self.stage == CliStage::MakingDirs ==> self.flow != Flow::Leftover
        &&& self.stage == CliStage::FindingPending ==> self.flow != Flow::Fresh
        &&& self.stage == CliStage::FindingAudio ==> self.has_audio
        &&& self.failure is Some ==> self.stage == CliStage::Reporting || self.stage
            == CliStage::CleaningUp || self.stage == CliStage::Ended
    }

    /// The tasks were carried out, and what failed has yet to be told.
    pub open spec fn owes_report(&self) -> bool {
        self.stage == CliStage::Collecting || self.stage == CliStage::Joining || self.stage
            == CliStage::FindingAudio || self.stage == CliStage::JoiningTimed
    }

    /// Something like this can come of the work.
    pub open spec fn expects(&self, event: CliEvent) -> bool {
        match event {
            CliEvent::Done => self.stage != CliStage::Ended,
            CliEvent::Failed(_) => self.stage != CliStage::Ended,
            CliEvent::TimedOut => self.stage == CliStage::Joining || self.stage
                == CliStage::JoiningTimed,
            CliEvent::Absent => self.stage == CliStage::FindingParts || self.stage
                == CliStage::FindingPending || self.stage == CliStage::FindingAudio,
            CliEvent::GaveUp => self.stage == CliStage::Working || self.stage
                == CliStage::Validating,
        }
    }

    /// The size that a result must exceed: a new run has validated its results.
    pub open spec fn spec_least(&self) -> u64 {
        if self.flow == Flow::Fresh {
            0
        } else {
            HEADER_BYTES
        }
    }

    /// What follows when a piece of work is done.
    pub open spec fn after_done(&self) -> (CliStage, CliActionModel) {
        match self.stage {
            CliStage::CheckingTool => (CliStage::MakingDirs, CliActionModel::MakeDirs),
            CliStage::FindingParts => (CliStage::MakingDirs, CliActionModel::MakeDirs),
            CliStage::MakingDirs => (CliStage::Parsing, CliActionModel::Parse),
            CliStage::Parsing => if self.flow == Flow::Fresh {
                (CliStage::Cutting, CliActionModel::Cut)
            } else {
                (CliStage::FindingPending, CliActionModel::FindPending)
            },
            CliStage::Cutting => (CliStage::Working, CliActionModel::Work),
            CliStage::FindingPending => (CliStage::Working, CliActionModel::Work),
            CliStage::Working => if self.flow == Flow::Fresh {
                (CliStage::Validating, CliActionModel::Validate)
            } else {
                self.on_to_collecting()
            },
            CliStage::Validating => self.on_to_collecting(),
            CliStage::Collecting => (CliStage::Joining, CliActionModel::Join { secs: JOIN_SECS }),
            CliStage::Joining => if self.flow != Flow::Resumed {
                (CliStage::JoiningTimed, CliActionModel::JoinTimed { secs: JOIN_SECS })
            } else if self.has_audio {
                (CliStage::FindingAudio, CliActionModel::FindAudio)
            } else {
                (CliStage::Reporting, CliActionModel::Report)
            },
            CliStage::FindingAudio => (
                CliStage::JoiningTimed,
                CliActionModel::JoinTimed { secs: JOIN_SECS },
            ),
            CliStage::JoiningTimed => (CliStage::Reporting, CliActionModel::Report),
            CliStage::Reporting => if self.failure is None || self.made_parts {
                (CliStage::CleaningUp, CliActionModel::CleanUp)
            } else {
                self.at_the_end()
            },
            CliStage::CleaningUp => self.at_the_end(),
            CliStage::Ended => (CliStage::Ended, CliActionModel::Finish),
        }
    }

    /// Results are collected next.
    pub open spec fn on_to_collecting(&self) -> (CliStage, CliActionModel) {
        (CliStage::Collecting, CliActionModel::Collect { least: self.spec_least() })
    }

    /// The run ends, with success or with the reason why it has failed.
    pub open spec fn at_the_end(&self) -> (CliStage, CliActionModel) {
        (
            CliStage::Ended,
            match self.failure {
                Some(reason) => CliActionModel::Fail(reason@),
                None => CliActionModel::Finish,
            },
        )
    }

    /// The reason given when a piece of work failed: for some it is one of the run itself.
    pub open spec fn failure_text(&self, msg: Seq<char>) -> Seq<char> {
        match self.stage {
            CliStage::CheckingTool => "请确保已安装 ffmpeg 并在 PATH 中"@,
            CliStage::Parsing => "解析 SRT 文件失败"@,
            _ => msg,
        }
    }

    /// The reason given when joining took too long.
    pub open spec fn timeout_text(&self) -> Seq<char> {
        match (self.stage == CliStage::Joining, self.flow == Flow::Resumed) {
            (true, false) => "合并音频超时（超过 30 分钟）"@,
            (false, false) => "合并变速音频超时（超过 30 分钟）"@,
            (true, true) => "合并音频超时"@,
            (false, true) => "合并变速音频超时"@,
        }
    }

    /// What is set once stays as it is.
    pub open spec fn same_run(&self, post: &CliState) -> bool {
        post.settings == self.settings && post.has_audio == self.has_audio
    }

    /// The run has failed. Once the tasks were carried out, what failed is told first; then a
    /// directory of parts that the run has made is removed.
    pub open spec fn failed_with(
        &self,
        reason: Seq<char>,
        post: &CliState,
        action: CliActionModel,
    ) -> bool {
        &&& self.same_run(post)
        &&& post.flow == self.flow
        &&& post.made_parts == self.made_parts
        &&& optional_text(post.failure) == Some(reason)
        &&& if self.owes_report() {
            post.stage == CliStage::Reporting && action == CliActionModel::Report
        } else if self.made_parts {
            post.stage == CliStage::CleaningUp && action == CliActionModel::CleanUp
        } else {
            post.stage == CliStage::Ended && action == CliActionModel::Fail(reason)
        }
    }

    /// The run goes on.
    pub open spec fn moved_to(
        &self,
        next: (CliStage, CliActionModel),
        post: &CliState,
        action: CliActionModel,
    ) -> bool {
        &&& self.same_run(post)
        &&& post.flow == self.flow
        &&& post.made_parts == (self.made_parts || self.stage == CliStage::CheckingTool)
        &&& post.failure == self.failure
        &&& (post.stage, action) == next
    }

    /// What a step does. `place` is the directory of parts as it is shown. Tasks that failed to the
    /// last do not stop a run: a new run takes them up once more, and after that the rest is joined.
    pub open spec fn stepped(
        &self,
        event: CliEvent,
        place: Seq<char>,
        post: &CliState,
        action: CliActionModel,
    ) -> bool {
        match event {
            CliEvent::Done => self.moved_to(self.after_done(), post, action),
            CliEvent::Failed(msg) => if self.stage == CliStage::Reporting || self.stage
                == CliStage::CleaningUp {
                self.moved_to(self.after_done(), post, action)
            } else {
                self.failed_with(self.failure_text(msg@), post, action)
            },
            CliEvent::TimedOut => self.failed_with(self.timeout_text(), post, action),
            CliEvent::Absent => match self.stage {
                CliStage::FindingParts => self.failed_with(
                    "临时目录不存在: "@ + place,
                    post,
                    action,
                ),
                CliStage::FindingPending => self.moved_to(self.on_to_collecting(), post, action),
                _ => self.moved_to((CliStage::Reporting, CliActionModel::Report), post, action),
            },
            CliEvent::GaveUp => if self.flow == Flow::Fresh && self.stage == CliStage::Working {
                &&& self.same_run(post)
                &&& post.flow == Flow::Leftover
                &&& post.made_parts == self.made_parts
                &&& post.failure == self.failure
                &&& post.stage == CliStage::Parsing
                &&& action == CliActionModel::Parse
            } else {
                self.moved_to(self.on_to_collecting(), post, action)
            },
        }
    }

    /// An upper bound on the number of steps that are left.
    pub open spec fn steps_left(&self) -> int {
        (if self.flow == Flow::Fresh {
            20int
        } else {
            0
        }) + match self.stage {
            CliStage::CheckingTool => 16int,
            CliStage::FindingParts => 16,
            CliStage::MakingDirs => 15,
            CliStage::Parsing => 14,
            CliStage::Cutting => 13,
            CliStage::FindingPending => 12,
            CliStage::Working => 11,
            CliStage::Validating => 10,
            CliStage::Collecting => 9,
            CliStage::Joining => 8,
            CliStage::FindingAudio => 7,
            CliStage::JoiningTimed => 6,
            CliStage::Reporting => 5,
            CliStage::CleaningUp => 4,
            CliStage::Ended => 0,
        }
    }

    fn least(&self) -> (r: u64)
        ensures
            r == self.spec_least(),
    {
        if self.flow == Flow::Fresh {
            0
        } else {
            HEADER_BYTES
        }
    }

    fn collect(&mut self) -> (action: CliAction)
        requires
            old(self).inv(),
            old(self).failure is None,
            old(self).stage != CliStage::CheckingTool,
            old(self).stage != CliStage::Ended,
        ensures
            final(self).inv(),
            old(self).moved_to(old(self).on_to_collecting(), final(self), action@),
    {
        self.stage = CliStage::Collecting;
        CliAction::Collect { least: self.least() }
    }

    fn end(&mut self) -> (action: CliAction)
        requires
            old(self).inv(),
            old(self).stage == CliStage::Reporting || old(self).stage == CliStage::CleaningUp,
        ensures
            final(self).inv(),
            old(self).moved_to(old(self).at_the_end(), final(self), action@),
    {
        self.stage = CliStage::Ended;
        match &self.failure {
            Some(reason) => CliAction::Fail(reason.clone()),
            None => CliAction::Finish,
        }
    }

    fn go_on(&mut self) -> (action: CliAction)
        requires
            old(self).inv(),
            old(self).stage != CliStage::Ended,
        ensures
            final(self).inv(),
            old(self).moved_to(old(self).after_done(), final(self), action@),
    {
        match self.stage {
            CliStage::CheckingTool | CliStage::FindingParts => {
                if self.flow == Flow::Fresh {
                    self.made_parts = true;
                }
                self.stage = CliStage::MakingDirs;
                CliAction::MakeDirs
            },
            CliStage::MakingDirs => {
                self.stage = CliStage::Parsing;
                CliAction::Parse
            },
            CliStage::Parsing => {
                if self.flow == Flow::Fresh {
                    self.stage = CliStage::Cutting;
                    CliAction::Cut
                } else {
                    self.stage = CliStage::FindingPending;
                    CliAction::FindPending
                }
            },
            CliStage::Cutting | CliStage::FindingPending => {
                self.stage = CliStage::Working;
                CliAction::Work
            },
            CliStage::Working => {
                if self.flow == Flow::Fresh {
                    self.stage = CliStage::Validating;
                    CliAction::Validate
                } else {
                    self.collect()
                }
            },
            CliStage::Validating => self.collect(),
            CliStage::Collecting => {
                self.stage = CliStage::Joining;
                CliAction::Join { secs: JOIN_SECS }
            },
            CliStage::Joining => {
                if self.flow != Flow::Resumed {
                    self.stage = CliStage::JoiningTimed;
                    CliAction::JoinTimed { secs: JOIN_SECS }
                } else if self.has_audio {
                    self.stage = CliStage::FindingAudio;
                    CliAction::FindAudio
                } else {
                    self.stage = CliStage::Reporting;
                    CliAction::Report
                }
            },
            CliStage::FindingAudio => {
                self.stage = CliStage::JoiningTimed;
                CliAction::JoinTimed { secs: JOIN_SECS }
            },
            CliStage::JoiningTimed => {
                self.stage = CliStage::Reporting;
                CliAction::Report
            },
            CliStage::Reporting => {
                if self.failure.is_some() && !self.made_parts {
                    return self.end();
                }
                self.stage = CliStage::CleaningUp;
                CliAction::CleanUp
            },
            CliStage::CleaningUp | CliStage::Ended => self.end(),
        }
    }

    fn fail(&mut self, reason: String) -> (action: CliAction)
        requires
            old(self).inv(),
            old(self).stage != CliStage::Ended,
        ensures
            final(self).inv(),
            old(self).failed_with(reason@, final(self), action@),
    {
        if matches!(
            self.stage,
            CliStage::Collecting | CliStage::Joining | CliStage::FindingAudio
                | CliStage::JoiningTimed
        ) {
            self.failure = Some(reason);
            self.stage = CliStage::Reporting;
            CliAction::Report
        } else if self.made_parts {
            self.failure = Some(reason);
            self.stage = CliStage::CleaningUp;
            CliAction::CleanUp
        } else {
            self.failure = Some(reason.clone());
            self.stage = CliStage::Ended;
            CliAction::Fail(reason)
        }
    }

    fn reason(&self, msg: String) -> (r: String)
        ensures
            r@ == self.failure_text(msg@),
    {
        match self.stage {
            CliStage::CheckingTool => "请确保已安装 ffmpeg 并在 PATH 中".to_string(),
            CliStage::Parsing => "解析 SRT 文件失败".to_string(),
            _ => msg,
        }
    }

    fn timeout(&self) -> (r: String)
        ensures
            r@ == self.timeout_text(),
    {
        if self.flow == Flow::Resumed {
            if self.stage == CliStage::Joining {
                "合并音频超时".to_string()
            } else {
                "合并变速音频超时".to_string()
            }
        } else if self.stage == CliStage::Joining {
            "合并音频超时（超过 30 分钟）".to_string()
        } else {
            "合并变速音频超时（超过 30 分钟）".to_string()
        }
    }

    fn step(&mut self, event: CliEvent, place: &str) -> (action: CliAction)
        requires
            old(self).inv(),
            old(self).expects(event),
        ensures
            final(self).inv(),
            old(self).stepped(event, place@, final(self), action@),
            final(self).steps_left() < old(self).steps_left(),
            action@ is Finish || action@ is Fail <==> final(self).stage == CliStage::Ended,
    {
        match event {
            CliEvent::Done => self.go_on(),
            CliEvent::Failed(msg) => {
                if self.stage == CliStage::Reporting || self.stage == CliStage::CleaningUp {
                    return self.go_on();
                }
                let reason = self.reason(msg);
                self.fail(reason)
            },
            CliEvent::TimedOut => {
                let reason = self.timeout();
                self.fail(reason)
            },
            CliEvent::Absent => match self.stage {
                CliStage::FindingParts => {
                    let mut reason = "临时目录不存在: ".to_string();
                    reason.append(place);
                    self.fail(reason)
                },
                CliStage::FindingPending => self.collect(),
                _ => {
                    self.stage = CliStage::Reporting;
                    CliAction::Report
                },
            },
            CliEvent::GaveUp => {
                if self.flow == Flow::Fresh && self.stage == CliStage::Working {
                    self.flow = Flow::Leftover;
                    self.stage = CliStage::Parsing;
                    CliAction::Parse
                } else {
                    self.collect()
                }
            },
        }
    }
}

/// A run on its way.
#[derive(Debug)]
pub struct CliRun {
    state: CliState,
}

impl View for CliRun {
    type V = CliState;

    closed spec fn view(&self) -> CliState {
        self.state
    }
}

impl CliRun {
    #[verifier::type_invariant]
    spec fn sound(self) -> bool {
        self.state.inv()
    }

    /// Goes on after a piece of work. `place` is the directory of parts as it is shown.
    pub fn step(&mut self, event: CliEvent, place: &str) -> (action: CliAction)
        requires
            old(self)@.expects(event),
        ensures
            final(self)@.inv(),
            old(self)@.stepped(event, place@, &final(self)@, action@),
            final(self)@.steps_left() < old(self)@.steps_left(),
            action@ is Finish || action@ is Fail <==> final(self)@.stage == CliStage::Ended,
    {
        proof {
            use_type_invariant(&*self);
        }
        let mut state = CliState {
            settings: RunSettings {
                api_url: String::new(),
                output: String::new(),
                max_concurrent: 0,
                split_concurrent: 0,
                batch_size: 0,
                rest_duration: 0,
                retry_count: 0,
            },
            has_audio: true,
            flow: Flow::Fresh,
            made_parts: false,
            failure: None,
            stage: CliStage::Ended,
        };
        std::mem::swap(&mut state, &mut self.state);
        let action = state.step(event, place);
        self.state = state;
        action
    }

    /// Where the run stands.
    pub fn state(&self) -> (r: &CliState)
        ensures
            *r == self@,
            r.inv(),
    {
        proof {
            use_type_invariant(self);
        }
        &self.state
    }

    /// How the rounds of the run go: they are limited. In a new run the size of batches follows the
    /// latency, and results must hold sound; tasks that are taken up again are done once their
    /// results exist.
    pub fn round_plan(&self) -> (r: RoundPlan)
        ensures
            r.max_concurrent == self@.settings.max_concurrent,
            r.rest_secs == self@.settings.rest_duration,
            r.adaptive == (self@.flow == Flow::Fresh),
            r.sound_only == (self@.flow == Flow::Fresh),
            r.limit == Some(MAX_RETRY_ROUNDS),
    {
        RoundPlan {
            max_concurrent: self.state.settings.max_concurrent,
            rest_secs: self.state.settings.rest_duration,
            adaptive: self.state.flow == Flow::Fresh,
            sound_only: self.state.flow == Flow::Fresh,
            limit: Some(MAX_RETRY_ROUNDS),
        }
    }
}

/// A new run.
pub fn run_cli_mode(settings: RunSettings) -> (r: (CliRun, CliAction))
    ensures
        r.0@.inv(),
        r.0@ == (CliState {
            settings,
            has_audio: true,
            flow: Flow::Fresh,
            made_parts: false,
            failure: None,
            stage: CliStage::CheckingTool,
        }),
        r.1 == CliAction::CheckTool,
{
    let state = CliState {
        settings,
        has_audio: true,
        flow: Flow::Fresh,
        made_parts: false,
        failure: None,
        stage: CliStage::CheckingTool,
    };
    (CliRun { state }, CliAction::CheckTool)
}

/// An earlier run that is taken up again, with its recording if it is known.
pub fn resume_cli_task(settings: RunSettings, has_audio: bool) -> (r: (CliRun, CliAction))
    ensures
        r.0@.inv(),
        r.0@ == (CliState {
            settings,
            has_audio,
            flow: Flow::Resumed,
            made_parts: false,
            failure: None,
            stage: CliStage::FindingParts,
        }),
        r.1 == CliAction::FindParts,
{
    let state = CliState {
        settings,
        has_audio,
        flow: Flow::Resumed,
        made_parts: false,
        failure: None,
        stage: CliStage::FindingParts,
    };
    (CliRun { state }, CliAction::FindParts)
}

// ---------------------------------------------------------------------------
// Laws
// ---------------------------------------------------------------------------

/// Tasks that failed in the last round of a new run are taken up once more, as those of an earlier
/// run are.
pub proof fn law_giving_up_leads_to_resuming(
    pre: CliState,
    place: Seq<char>,
    post: CliState,
    action: CliActionModel,
)
    requires
        pre.inv(),
        pre.flow == Flow::Fresh,
        pre.stage == CliStage::Working,
        pre.stepped(CliEvent::GaveUp, place, &post, action),
    ensures
        post.flow == Flow::Leftover,
        action is Parse,
        post.after_done() == (CliStage::FindingPending, CliActionModel::FindPending),
        post.spec_least() == HEADER_BYTES,
{
}

/// Failed tasks do not stop a run: it goes on to collecting what there is, and never fails for them.
pub proof fn law_failed_tasks_do_not_stop_a_run(
    pre: CliState,
    place: Seq<char>,
    post: CliState,
    action: CliActionModel,
)
    requires
        pre.inv(),
        pre.expects(CliEvent::GaveUp),
        pre.stepped(CliEvent::GaveUp, place, &post, action),
    ensures
        !(action is Fail),
        post.failure is None,
        pre.flow != Flow::Fresh || pre.stage == CliStage::Validating ==> action is Collect,
        post.steps_left() < pre.steps_left(),
{
}

/// A run fails only because a piece of work failed or took too long, or because there is nothing to
/// take up.
pub proof fn law_a_run_fails_for_a_reason(
    pre: CliState,
    event: CliEvent,
    place: Seq<char>,
    post: CliState,
    action: CliActionModel,
)
    requires
        pre.inv(),
        pre.expects(event),
        pre.stepped(event, place, &post, action),
        pre.failure is None,
        post.failure is Some || action is Fail,
    ensures
        event is Failed || event is TimedOut || event is Absent && pre.stage
            == CliStage::FindingParts,
{
}

/// A run ends only after its directory of parts was removed, unless it fails and has not made one;
/// and once its tasks were carried out, only after their failures were told.
pub proof fn law_ends_are_told_and_cleaned_up(
    pre: CliState,
    event: CliEvent,
    place: Seq<char>,
    post: CliState,
    action: CliActionModel,
)
    requires
        pre.inv(),
        pre.expects(event),
        pre.stepped(event, place, &post, action),
    ensures
        action is Finish ==> pre.stage == CliStage::CleaningUp && pre.failure is None,
        action is Fail ==> pre.stage == CliStage::CleaningUp || !pre.made_parts,
        action is CleanUp && post.failure is None ==> pre.stage == CliStage::Reporting,
        pre.owes_report() ==> post.owes_report() || action is Report,
        action is Collect ==> post.owes_report(),
{
}

/// Where nothing went wrong, what failed is told only after results were joined, and each in the time
/// of its subtitle too, unless the recording of an earlier run is not known or not there.
pub proof fn law_success_means_joined(
    pre: CliState,
    event: CliEvent,
    place: Seq<char>,
    post: CliState,
    action: CliActionModel,
)
    requires
        pre.inv(),
        pre.expects(event),
        pre.stepped(event, place, &post, action),
        action is Report,
        post.failure is None,
    ensures
        event is Done && pre.stage == CliStage::JoiningTimed || pre.flow == Flow::Resumed && (
        event is Done && pre.stage == CliStage::Joining && !pre.has_audio || event is Absent
            && pre.stage == CliStage::FindingAudio),
{
}

} // verus!
