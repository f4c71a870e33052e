//! Carrying tasks out: attempts, retries and statistics.
//!
//! Files and requests are outside work. A [`TaskExecutor`] says what is to be done next for a task, and
//! is told what came of it.
use vstd::prelude::*;
use crate::api::{form, part_models, ApiClient, ApiStage, AudioFile, Exchange, Request};
use crate::audio::{file_outcome, AudioSplitter};
use crate::metrics::{high_percentile, median, newest, one_more, Metrics, RateLimiter, WINDOW};
use crate::task::{backoff, classify_backoff_delay, Task};
use crate::text::{blank, is_blank, trim, trimmed};

verus! {

/// What is awaited.
#[derive(Debug, Clone, Copy, PartialEq, Eq, Structural)]
pub enum TaskStage {
    /// The size of the sound file to send.
    Inspecting,
    /// The reply of the service.
    Synthesizing,
    /// That the result is saved.
    Saving,
    /// The end of the wait before the next attempt.
    Waiting,
    /// Nothing.
    Ended,
}

/// What happened.
#[derive(Debug)]
pub enum TaskEvent {
    /// The size of the sound file, if it exists.
    Inspected(Option<u64>),
    /// The service sent a sound; with the time it took, in nanoseconds.
    Replied { audio: Vec<u8>, nanos: u64 },
    /// The result is saved.
    Saved,
    /// The wait is over.
    Waited,
    /// What was to be done failed, for the reason given.
    Failed(String),
}

/// What is to be done next.
#[derive(Debug)]
pub enum TaskAction {
    /// Look for the sound file to send.
    Inspect,
    /// Take a token and send the request.
    Synthesize,
    /// Save the result.
    Save(Vec<u8>),
    /// Wait so many milliseconds.
    Wait(u64),
    /// The task is done.
    Succeed,
    /// The task has failed, for the reason given.
    GiveUp(String),
}

/// The mathematical content of a [`TaskAction`].
#[verifier::ext_equal]
pub ghost enum ActionModel {
    Inspect,
    Synthesize,
    Save(Seq<u8>),
    Wait(int),
    Succeed,
    GiveUp(Seq<char>),
}

impl View for TaskAction {
    type V = ActionModel;

    open spec fn view(&self) -> ActionModel {
        match self {
            TaskAction::Inspect => ActionModel::Inspect,
            TaskAction::Synthesize => ActionModel::Synthesize,
            TaskAction::Save(audio) => ActionModel::Save(audio@),
            TaskAction::Wait(ms) => ActionModel::Wait(*ms as int),
            TaskAction::Succeed => ActionModel::Succeed,
            TaskAction::GiveUp(msg) => ActionModel::GiveUp(msg@),
        }
    }
}

/// Where a task stands, through one attempt after the other.
#[derive(Debug)]
pub struct AttemptState {
    /// The subtitle says nothing.
    pub silent: bool,
    /// The path of the sound file to send, as it is shown.
    pub place: String,
    pub attempt: u32,
    pub max_attempts: u32,
    pub stage: TaskStage,
}

/// The reason given for a subtitle that says nothing.
pub open spec fn nothing_to_say() -> Seq<char> {
    "文本内容为空，跳过此任务"@
}

/// The reason given for a reply without any sound.
pub open spec fn empty_reply() -> Seq<char> {
    "API 返回的音频数据为空"@
}

impl AttemptState {
    /// The state makes sense.
    pub open spec fn inv(&self) -> bool {
        &&& 1 <= self.attempt <= self.max_attempts
        &&& self.stage is Waiting ==> self.attempt < self.max_attempts
    }

    /// Something like this can happen now.
    pub open spec fn expects(&self, event: TaskEvent) -> bool {
        match self.stage {
            TaskStage::Inspecting => event is Inspected || event is Failed,
            TaskStage::Synthesizing => event is Replied || event is Failed,
            TaskStage::Saving => event is Saved || event is Failed,
            TaskStage::Waiting => event is Waited,
            TaskStage::Ended => false,
        }
    }

    /// An upper bound on the number of steps that are left.
    pub open spec fn steps_left(&self) -> int {
        5 * (self.max_attempts - self.attempt) + match self.stage {
            TaskStage::Inspecting => 4int,
            TaskStage::Synthesizing => 3,
            TaskStage::Saving => 2,
            TaskStage::Waiting => 1,
            TaskStage::Ended => 0,
        }
    }

    /// The task stays what it is.
    pub open spec fn same_task(&self, post: &AttemptState) -> bool {
        &&& post.silent == self.silent
        &&& post.place == self.place
        &&& post.max_attempts == self.max_attempts
    }
}

/// Where the tasks of a run stand.
#[derive(Debug)]
pub struct ExecutorState {
    pub api_client: ApiClient,
    pub retry_count: u32,
    pub rate_limiter: RateLimiter,
    /// How often a token is filled up, in milliseconds.
    pub refill_millis: u64,
    pub success_count: u64,
    pub failure_count: u64,
    /// How many tasks are shown as the whole.
    pub total: u64,
    /// How many tasks are shown as finished.
    pub position: u64,
    pub finished: bool,
    pub metrics: Metrics,
}

impl ExecutorState {
    /// The state makes sense: what is counted twice is counted alike.
    pub open spec fn inv(&self) -> bool {
        &&& self.metrics@.success == self.success_count
        &&& self.metrics@.failure == self.failure_count
    }

    /// What is set once stays as it is.
    pub open spec fn same_settings(&self, post: &ExecutorState) -> bool {
        &&& post.api_client == self.api_client
        &&& post.retry_count == self.retry_count
        &&& post.rate_limiter == self.rate_limiter
        &&& post.refill_millis == self.refill_millis
        &&& post.total == self.total
        &&& post.finished == self.finished
    }

    /// A task has come to its end, and is counted.
    pub open spec fn counted(&self, post: &ExecutorState, success: bool) -> bool {
        &&& self.same_settings(post)
        &&& post.metrics@.latencies == self.metrics@.latencies
        &&& post.position == one_more(self.position)
        &&& if success {
            &&& post.success_count == one_more(self.success_count)
            &&& post.failure_count == self.failure_count
        } else {
            &&& post.success_count == self.success_count
            &&& post.failure_count == one_more(self.failure_count)
        }
        &&& post.metrics@.success == post.success_count
        &&& post.metrics@.failure == post.failure_count
    }

    /// An attempt has failed. The next one follows after a wait; after the last one the task has
    /// failed.
    pub open spec fn attempt_failed(
        &self,
        run: &AttemptState,
        msg: Seq<char>,
        post: &ExecutorState,
        post_run: &AttemptState,
        action: ActionModel,
    ) -> bool {
        &&& run.same_task(post_run)
        &&& post_run.attempt == run.attempt
        &&& if run.attempt < run.max_attempts {
            &&& *post == *self
            &&& post_run.stage == TaskStage::Waiting
            &&& action == ActionModel::Wait(backoff(msg, run.attempt as int))
        } else {
            &&& self.counted(post, false)
            &&& post_run.stage == TaskStage::Ended
            &&& action == ActionModel::GiveUp(msg)
        }
    }

    /// An attempt begins. One that has nothing to say fails at once.
    pub open spec fn attempt_begun(
        &self,
        run: &AttemptState,
        post: &ExecutorState,
        post_run: &AttemptState,
        action: ActionModel,
    ) -> bool {
        if run.silent {
            self.attempt_failed(run, nothing_to_say(), post, post_run, action)
        } else {
            &&& run.same_task(post_run)
            &&& *post == *self
            &&& post_run.attempt == run.attempt
            &&& post_run.stage == TaskStage::Inspecting
            &&& action == ActionModel::Inspect
        }
    }

    /// What a step does.
    pub open spec fn stepped(
        &self,
        run: &AttemptState,
        event: TaskEvent,
        post: &ExecutorState,
        post_run: &AttemptState,
        action: ActionModel,
    ) -> bool {
        match event {
            TaskEvent::Failed(msg) => self.attempt_failed(run, msg@, post, post_run, action),
            TaskEvent::Inspected(size) => match file_outcome(size) {
                Err(fault) => self.attempt_failed(
                    run,
                    fault.message_text(run.place@, ""@),
                    post,
                    post_run,
                    action,
                ),
                Ok(_) => {
                    &&& run.same_task(post_run)
                    &&& *post == *self
                    &&& post_run.attempt == run.attempt
                    &&& post_run.stage == TaskStage::Synthesizing
                    &&& action == ActionModel::Synthesize
                },
            },
            TaskEvent::Replied { audio, nanos } => exists|mid: ExecutorState|
                {
                    &&& #[trigger] self.measured(nanos, &mid)
                    &&& if audio@.len() == 0 {
                        mid.attempt_failed(run, empty_reply(), post, post_run, action)
                    } else {
                        &&& run.same_task(post_run)
                        &&& *post == mid
                        &&& post_run.attempt == run.attempt
                        &&& post_run.stage == TaskStage::Saving
                        &&& action == ActionModel::Save(audio@)
                    }
                },
            TaskEvent::Saved => {
                &&& run.same_task(post_run)
                &&& self.counted(post, true)
                &&& post_run.attempt == run.attempt
                &&& post_run.stage == TaskStage::Ended
                &&& action == ActionModel::Succeed
            },
            TaskEvent::Waited => {
                let next = AttemptState { attempt: (run.attempt + 1) as u32, ..*run };
                self.attempt_begun(&next, post, post_run, action)
            },
        }
    }

    /// A latency is taken in.
    pub open spec fn measured(&self, nanos: u64, post: &ExecutorState) -> bool {
        &&& self.same_settings(post)
        &&& post.success_count == self.success_count
        &&& post.failure_count == self.failure_count
        &&& post.position == self.position
        &&& post.metrics@.success == self.metrics@.success
        &&& post.metrics@.failure == self.metrics@.failure
        &&& post.metrics@.latencies == newest(self.metrics@.latencies.push(nanos), WINDOW as int)
    }

    fn new(api_client: ApiClient, max_concurrent: usize, retry_count: u32) -> (r: Self)
        requires
            2 * max_concurrent <= usize::MAX,
        ensures
            r.inv(),
            r.api_client == api_client,
            r.retry_count == retry_count,
            r.rate_limiter.capacity == if max_concurrent > 0 {
                2 * max_concurrent
            } else {
                1
            },
            r.refill_millis == if 1000int / (r.rate_limiter.capacity as int) > 10 {
                1000int / (r.rate_limiter.capacity as int)
            } else {
                10
            },
            r.success_count == 0,
            r.failure_count == 0,
            r.total == 0,
            r.position == 0,
            !r.finished,
            r.metrics@.latencies == Seq::<u64>::empty(),
    {
        let rate_limiter = RateLimiter::new(max_concurrent * 2);
        let interval: u64 = 1000 / (rate_limiter.capacity as u64);
        ExecutorState {
            api_client,
            retry_count,
            rate_limiter,
            refill_millis: if interval > 10 {
                interval
            } else {
                10
            },
            success_count: 0,
            failure_count: 0,
            total: 0,
            position: 0,
            finished: false,
            metrics: Metrics::new(),
        }
    }

    fn count(&mut self, success: bool)
        requires
            old(self).inv(),
        ensures
            final(self).inv(),
            old(self).counted(final(self), success),
    {
        if success {
            self.success_count = self.success_count.wrapping_add(1);
        } else {
            self.failure_count = self.failure_count.wrapping_add(1);
        }
        self.metrics.record_end(success);
        self.position = self.position.wrapping_add(1);
    }

    fn fail_attempt(&mut self, run: &mut AttemptState, msg: String) -> (action: TaskAction)
        requires
            old(self).inv(),
            1 <= old(run).attempt <= old(run).max_attempts,
        ensures
            final(self).inv(),
            final(run).inv(),
            old(self).attempt_failed(old(run), msg@, final(self), final(run), action@),
    {
        if run.attempt < run.max_attempts {
            let delay: u64 = classify_backoff_delay(msg.as_str(), run.attempt);
            run.stage = TaskStage::Waiting;
            TaskAction::Wait(delay)
        } else {
            self.count(false);
            run.stage = TaskStage::Ended;
            TaskAction::GiveUp(msg)
        }
    }

    fn begin_attempt(&mut self, run: &mut AttemptState) -> (action: TaskAction)
        requires
            old(self).inv(),
            1 <= old(run).attempt <= old(run).max_attempts,
        ensures
            final(self).inv(),
            final(run).inv(),
            old(self).attempt_begun(old(run), final(self), final(run), action@),
    {
        if run.silent {
            return self.fail_attempt(run, "文本内容为空，跳过此任务".to_string());
        }
        run.stage = TaskStage::Inspecting;
        TaskAction::Inspect
    }

    fn begin(&mut self, task: &Task, place: &str) -> (r: (AttemptState, TaskAction))
        requires
            old(self).inv(),
            old(self).retry_count < u32::MAX,
        ensures
            final(self).inv(),
            r.0.inv(),
            r.0.attempt == 1,
            r.0.max_attempts == old(self).retry_count + 1,
            r.0.silent == blank(task.entry.text@),
            r.0.place@ == place@,
            old(self).attempt_begun(&r.0, final(self), &r.0, r.1@),
    {
        let mut run = AttemptState {
            silent: is_blank(task.entry.text.as_str()),
            place: place.to_string(),
            attempt: 1,
            max_attempts: self.retry_count + 1,
            stage: TaskStage::Inspecting,
        };
        let action = self.begin_attempt(&mut run);
        (run, action)
    }

    fn step(&mut self, run: &mut AttemptState, event: TaskEvent) -> (action: TaskAction)
        requires
            old(self).inv(),
            old(run).inv(),
            old(run).expects(event),
        ensures
            final(self).inv(),
            final(run).inv(),
            final(run).steps_left() < old(run).steps_left(),
            old(self).stepped(old(run), event, final(self), final(run), action@),
            action@ is Succeed || action@ is GiveUp <==> final(run).stage is Ended,
    {
        match event {
            TaskEvent::Failed(msg) => self.fail_attempt(run, msg),
            TaskEvent::Inspected(size) => match AudioSplitter::check_file(size) {
                Err(fault) => {
                    let msg = fault.message(run.place.as_str(), "");
                    self.fail_attempt(run, msg)
                },
                Ok(_) => {
                    run.stage = TaskStage::Synthesizing;
                    TaskAction::Synthesize
                },
            },
            TaskEvent::Replied { audio, nanos } => {
                self.metrics.record_latency(nanos);
                let ghost mid = *self;
                assert(old(self).measured(nanos, &mid));
                if audio.len() == 0 {
                    let action = self.fail_attempt(run, "API 返回的音频数据为空".to_string());
                    assert(mid.attempt_failed(old(run), empty_reply(), self, run, action@));
                    return action;
                }
                run.stage = TaskStage::Saving;
                TaskAction::Save(audio)
            },
            TaskEvent::Saved => {
                self.count(true);
                run.stage = TaskStage::Ended;
                TaskAction::Succeed
            },
            TaskEvent::Waited => {
                run.attempt = run.attempt + 1;
                self.begin_attempt(run)
            },
        }
    }
}

/// A task on its way.
#[derive(Debug)]
pub struct TaskRun {
    state: AttemptState,
}

impl View for TaskRun {
    type V = AttemptState;

    closed spec fn view(&self) -> AttemptState {
        self.state
    }
}

impl TaskRun {
    #[verifier::type_invariant]
    spec fn sound(self) -> bool {
        self.state.inv()
    }

    /// Where the task stands.
    pub fn state(&self) -> (r: &AttemptState)
        ensures
            *r == self@,
            r.inv(),
    {
        proof {
            use_type_invariant(self);
        }
        &self.state
    }
}

/// The tasks of a run, as they are carried out.
#[derive(Debug)]
pub struct TaskExecutor {
    state: ExecutorState,
}

impl View for TaskExecutor {
    type V = ExecutorState;

    closed spec fn view(&self) -> ExecutorState {
        self.state
    }
}

impl TaskExecutor {
    #[verifier::type_invariant]
    spec fn sound(self) -> bool {
        self.state.inv()
    }

    /// Nothing is done yet. Requests may follow each other at twice the number that may run at a
    /// time, each second.
    pub fn new(api_client: ApiClient, max_concurrent: usize, retry_count: u32) -> (r: Self)
        requires
            2 * max_concurrent <= usize::MAX,
        ensures
            r@.inv(),
            r@.api_client == api_client,
            r@.retry_count == retry_count,
            r@.rate_limiter.capacity == if max_concurrent > 0 {
                2 * max_concurrent
            } else {
                1
            },
            r@.refill_millis == if 1000int / (r@.rate_limiter.capacity as int) > 10 {
                1000int / (r@.rate_limiter.capacity as int)
            } else {
                10
            },
            r@.success_count == 0,
            r@.failure_count == 0,
            r@.total == 0,
            r@.position == 0,
            !r@.finished,
            r@.metrics@.latencies == Seq::<u64>::empty(),
    {
        let state = ExecutorState::new(api_client, max_concurrent, retry_count);
        TaskExecutor { state }
    }

    /// Takes the state out, and leaves one in which nothing is done in its place.
    fn lend(&mut self) -> (r: ExecutorState)
        ensures
            r == old(self)@,
            r.inv(),
    {
        proof {
            use_type_invariant(&*self);
        }
        let mut state = ExecutorState::new(ApiClient::new(String::new()), 0, 0);
        std::mem::swap(&mut state, &mut self.state);
        state
    }

    /// Begins a task: the first attempt, which as many others may follow as there are retries.
    /// `place` is the path of the sound file to send, as it is shown.
    pub fn execute_task(&mut self, task: &Task, place: &str) -> (r: (TaskRun, TaskAction))
        requires
            old(self)@.retry_count < u32::MAX,
        ensures
            final(self)@.inv(),
            r.0@.inv(),
            r.0@.attempt == 1,
            r.0@.max_attempts == old(self)@.retry_count + 1,
            r.0@.silent == blank(task.entry.text@),
            r.0@.place@ == place@,
            old(self)@.attempt_begun(&r.0@, &final(self)@, &r.0@, r.1@),
    {
        let mut state = self.lend();
        let (run, action) = state.begin(task, place);
        self.state = state;
        (TaskRun { state: run }, action)
    }

    /// Goes on with a task after something has happened.
    pub fn step(&mut self, run: &mut TaskRun, event: TaskEvent) -> (action: TaskAction)
        requires
            old(run)@.expects(event),
        ensures
            final(self)@.inv(),
            final(run)@.inv(),
            final(run)@.steps_left() < old(run)@.steps_left(),
            old(self)@.stepped(&old(run)@, event, &final(self)@, &final(run)@, action@),
            action@ is Succeed || action@ is GiveUp <==> final(run)@.stage is Ended,
    {
        proof {
            use_type_invariant(&*run);
        }
        let mut attempt = AttemptState {
            silent: false,
            place: String::new(),
            attempt: 1,
            max_attempts: 1,
            stage: TaskStage::Ended,
        };
        std::mem::swap(&mut attempt, &mut run.state);
        let mut state = self.lend();
        let action = state.step(&mut attempt, event);
        run.state = attempt;
        self.state = state;
        action
    }

    /// Where the tasks stand.
    pub fn state(&self) -> (r: &ExecutorState)
        ensures
            *r == self@,
            r.inv(),
    {
        proof {
            use_type_invariant(self);
        }
        &self.state
    }

    /// The request of a task, and the exchange that it opens: the text of its subtitle without white
    /// space at its ends, with the part of the recording both for the voice and for the mood.
    pub fn request(&self, task: &Task, part: AudioFile) -> (r: (Request, Exchange))
        ensures
            r.0.url@ == self@.api_client.spec_endpoint(),
            r.1@ == ApiStage::Sending,
            part_models(r.0.parts@) == form(
                trimmed(task.entry.text@),
                Some(part),
                Some(part),
                None,
                None,
                None,
            ),
    {
        self.state.api_client.synthesize_like(trim(task.entry.text.as_str()), part)
    }

    /// How many tasks succeeded and failed.
    pub fn get_stats(&self) -> (r: (u64, u64))
        ensures
            r == (self@.success_count, self@.failure_count),
    {
        (self.state.success_count, self.state.failure_count)
    }

    /// The median and the 95th percentile of the latencies in nanoseconds, and how many tasks
    /// succeeded and failed.
    pub fn metrics_snapshot(&self) -> (r: (u64, u64, u64, u64))
        ensures
            r == (
                median(self@.metrics@.latencies),
                high_percentile(self@.metrics@.latencies),
                self@.success_count,
                self@.failure_count,
            ),
    {
        proof {
            use_type_invariant(self);
        }
        self.state.metrics.snapshot()
    }

    /// Sets how many tasks are shown as the whole.
    pub fn set_total(&mut self, total: u64)
        ensures
            final(self)@ == (ExecutorState { total, ..old(self)@ }),
    {
        proof {
            use_type_invariant(&*self);
        }
        self.state.total = total;
    }

    /// All tasks have come to their end.
    pub fn finish(&mut self)
        ensures
            final(self)@ == (ExecutorState { finished: true, ..old(self)@ }),
    {
        proof {
            use_type_invariant(&*self);
        }
        self.state.finished = true;
    }
}

// ---------------------------------------------------------------------------
// Laws
// ---------------------------------------------------------------------------

/// Whether a task is counted, and how, is told by its action: a task counts once, at its end.
pub proof fn law_tasks_are_counted_at_their_end(
    pre: ExecutorState,
    run: AttemptState,
    event: TaskEvent,
    post: ExecutorState,
    post_run: AttemptState,
    action: ActionModel,
)
    requires
        pre.inv(),
        run.inv(),
        run.expects(event),
        pre.stepped(&run, event, &post, &post_run, action),
    ensures
        action is Succeed ==> post.success_count == one_more(pre.success_count)
            && post.failure_count == pre.failure_count,
        action is GiveUp ==> post.failure_count == one_more(pre.failure_count)
            && post.success_count == pre.success_count,
        !(action is Succeed) && !(action is GiveUp) ==> post.success_count == pre.success_count
            && post.failure_count == pre.failure_count,
        action is Succeed || action is GiveUp ==> post.position == one_more(pre.position),
{
}

/// A task is attempted once more only after a wait, and never more often than once and the number
/// of retries; it fails only in its last attempt.
pub proof fn law_attempts_are_bounded(
    pre: ExecutorState,
    run: AttemptState,
    event: TaskEvent,
    post: ExecutorState,
    post_run: AttemptState,
    action: ActionModel,
)
    requires
        pre.inv(),
        run.inv(),
        run.expects(event),
        pre.stepped(&run, event, &post, &post_run, action),
    ensures
        post_run.max_attempts == run.max_attempts,
        post_run.attempt == if event is Waited {
            run.attempt + 1
        } else {
            run.attempt as int
        },
        post_run.attempt <= post_run.max_attempts,
        action is GiveUp ==> post_run.attempt == post_run.max_attempts,
        action is Wait ==> post_run.attempt < post_run.max_attempts,
{
}

} // verus!
