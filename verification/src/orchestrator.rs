use vstd::prelude::*;
use crate::aggregate::{caption, caption_text, ranking_of, ResultAggregator};
use crate::collage::{composite_of, CompositeImage, CompositeView};
use crate::job::{payloads, worker_names, Job, WorkerResult};
use crate::progress::{
    is_due, long_wait_after, policy_after, Emission, Observation, ProgressPolicy,
};
use crate::raster::pictures_of;
use crate::rate_limit::{admits, state_after, RateLimiter};
use crate::retry::TransportError;
use crate::status::{format_status, status_text, JobStatus};
use crate::tally::attribution_text;
use crate::text_utils::{classify_prompt, escape_markdown, escaped_text, prompt_issue, PromptIssue};

verus! {

/// Milliseconds between two polls of a job.
pub const POLL_INTERVAL_MILLIS: u64 = 2_000;

/// Why a call to the remote service failed for good.
#[derive(Clone, Copy, Debug, PartialEq, Eq, Structural)]
pub enum RemoteFailure {
    /// The call failed also after its last retry.
    Transport(TransportError),
    /// The service answered and refused.
    Rejected,
}

/// Why a job failed.
#[derive(Clone, Copy, Debug, PartialEq, Eq, Structural)]
pub enum JobError {
    /// The user has used up the requests of the running window.
    AdmissionDenied,
    /// The prompt is refused for its shape.
    Validation(PromptIssue),
    Submission(RemoteFailure),
    Poll(RemoteFailure),
    Fetch(RemoteFailure),
    /// A message could not be sent.
    Delivery,
    /// The chat that the job answers is gone.
    Cancelled,
    /// An event came that the job did not wait for.
    OutOfTurn,
}

/// Where a job stands: what it waits for.
#[derive(Clone, Copy, Debug, PartialEq, Eq, Structural)]
pub enum Phase {
    /// Waits for the remote service to take the job on.
    Submitting,
    /// Waits for a status.
    Polling,
    /// Waits for a progress update to be shown.
    Showing,
    /// Waits for the pause between two polls to end.
    Sleeping,
    /// The job is done remotely; waits for its results.
    Fetching,
    /// Waits for the final message to be sent.
    Delivering,
    /// Waits for the progress message to be deleted.
    Cleaning,
    Finished,
    Failed,
}

/// One job on its way from the request to the final message.
pub struct JobRun {
    pub phase: Phase,
    pub user_id: i64,
    pub prompt: String,
    pub model: String,
    pub size: u32,
    /// The name that the remote service gave the job.
    pub job_id: Option<String>,
    /// When the remote service took the job on, in milliseconds.
    pub started_at: u64,
    /// When the job was seen done, in milliseconds.
    pub finished_at: u64,
    pub policy: ProgressPolicy,
    /// The status of the update that is being shown.
    pub pending: Option<JobStatus>,
    /// The progress message, once there is one.
    pub status_message: Option<i64>,
}

/// A job as its contracts see it.
pub struct RunView {
    pub phase: Phase,
    pub user_id: i64,
    pub prompt: Seq<char>,
    pub model: Seq<char>,
    pub size: u32,
    pub job_id: Option<Seq<char>>,
    pub started_at: u64,
    pub finished_at: u64,
    pub policy: ProgressPolicy,
    pub pending: Option<JobStatus>,
    pub status_message: Option<i64>,
}

impl View for JobRun {
    type V = RunView;

    open spec fn view(&self) -> RunView {
        RunView {
            phase: self.phase,
            user_id: self.user_id,
            prompt: self.prompt@,
            model: self.model@,
            size: self.size,
            job_id: match self.job_id {
                Some(id) => Some(id@),
                None => None,
            },
            started_at: self.started_at,
            finished_at: self.finished_at,
            policy: self.policy,
            pending: self.pending,
            status_message: self.status_message,
        }
    }
}

/// What has happened outside since the last action.
#[allow(inconsistent_fields)]
pub enum Event {
    /// The submit call has ended, at `now`.
    Submitted { outcome: Result<String, RemoteFailure>, now: u64 },
    /// The poll call has ended, at `now`.
    Polled { outcome: Result<JobStatus, RemoteFailure>, now: u64 },
    /// The progress update was sent at `now` and is shown in the message
    /// `message`, or could not be sent.
    StatusShown { message: Option<i64>, now: u64 },
    /// The pause has ended.
    Slept,
    /// The call for the results has ended.
    Fetched { outcome: Result<Vec<WorkerResult>, RemoteFailure> },
    /// The final message was sent, or could not be sent.
    Delivered { sent: bool },
    /// The progress message is deleted, or could not be deleted.
    StatusDeleted,
    /// The chat that the job answers is gone: nothing more can be shown.
    Cancelled,
}

/// What to do outside next.
pub enum Action {
    Submit { prompt: String, model: String, size: u32 },
    Poll { job_id: String },
    /// Show `text` as progress: in a new message, or in place of what
    /// the message `edit` shows.
    ShowStatus { text: String, edit: Option<i64> },
    Sleep { millis: u64 },
    Fetch { job_id: String },
    /// Send the final message.
    Deliver { composite: CompositeImage, caption: String },
    DeleteStatus { message: i64 },
    /// The job is over.
    Finish { outcome: Result<(), JobError> },
}

/// An action as its contracts see it.
pub enum ActionView {
    Submit { prompt: Seq<char>, model: Seq<char>, size: u32 },
    Poll { job_id: Seq<char> },
    ShowStatus { text: Seq<char>, edit: Option<i64> },
    Sleep { millis: u64 },
    Fetch { job_id: Seq<char> },
    Deliver { composite: CompositeView, caption: Seq<char> },
    DeleteStatus { message: i64 },
    Finish { outcome: Result<(), JobError> },
}

impl View for Action {
    type V = ActionView;

    open spec fn view(&self) -> ActionView {
        match *self {
            Action::Submit { prompt, model, size } => ActionView::Submit {
                prompt: prompt@,
                model: model@,
                size,
            },
            Action::Poll { job_id } => ActionView::Poll { job_id: job_id@ },
            Action::ShowStatus { text, edit } => ActionView::ShowStatus { text: text@, edit },
            Action::Sleep { millis } => ActionView::Sleep { millis },
            Action::Fetch { job_id } => ActionView::Fetch { job_id: job_id@ },
            Action::Deliver { composite, caption } => ActionView::Deliver {
                composite: composite@,
                caption: caption@,
            },
            Action::DeleteStatus { message } => ActionView::DeleteStatus { message },
            Action::Finish { outcome } => ActionView::Finish { outcome },
        }
    }
}

/// Whole seconds between the job's start and its end.
pub open spec fn seconds_taken(run: RunView) -> nat {
    if run.finished_at >= run.started_at {
        ((run.finished_at - run.started_at) / 1000) as nat
    } else {
        0
    }
}

/// The job, failed with `error`: the job is over, and nothing else of it
/// changes.
pub open spec fn failed(run: RunView, error: JobError) -> (RunView, ActionView) {
    (RunView { phase: Phase::Failed, ..run }, ActionView::Finish { outcome: Err(error) })
}

/// What an event that the job did not wait for leads to: a job that is
/// over stays as it is, any other fails.
pub open spec fn out_of_turn(run: RunView) -> (RunView, ActionView) {
    if run.phase == Phase::Finished || run.phase == Phase::Failed {
        (run, ActionView::Finish { outcome: Err(JobError::OutOfTurn) })
    } else {
        failed(run, JobError::OutOfTurn)
    }
}

/// What a status that tells of unfinished work leads to: a progress
/// update if one is due, the pause before the next poll otherwise.
pub open spec fn after_status(run: RunView, status: JobStatus, now: u64) -> (RunView, ActionView) {
    let policy = ProgressPolicy {
        last: run.policy.last,
        long_wait: long_wait_after(run.policy, status),
    };
    if is_due(policy, status, now) {
        (
            RunView { phase: Phase::Showing, policy, pending: Some(status), ..run },
            ActionView::ShowStatus {
                text: status_text(status, escaped_text(run.prompt), policy.long_wait),
                edit: run.status_message,
            },
        )
    } else {
        (RunView { phase: Phase::Sleeping, policy, ..run }, ActionView::Sleep {
            millis: POLL_INTERVAL_MILLIS,
        })
    }
}

/// What the results of a job lead to: the final message, with the
/// composite of the pictures and the caption that names the workers.
pub open spec fn after_results(run: RunView, results: Seq<WorkerResult>) -> (RunView, ActionView) {
    (
        RunView { phase: Phase::Delivering, ..run },
        ActionView::Deliver {
            composite: composite_of(pictures_of(payloads(results)), run.size as nat),
            caption: caption_text(
                escaped_text(run.prompt),
                seconds_taken(run),
                attribution_text(ranking_of(worker_names(results))),
            ),
        },
    )
}

/// What the loss of the chat leads to: a job that is under way fails at
/// once, and a job that is over stays as it is.
pub open spec fn cancelled(run: RunView) -> (RunView, ActionView) {
    if run.phase == Phase::Finished || run.phase == Phase::Failed {
        (run, ActionView::Finish { outcome: Err(JobError::Cancelled) })
    } else {
        failed(run, JobError::Cancelled)
    }
}

/// The job after `event`, and what to do next.
pub open spec fn step_of(run: RunView, event: Event) -> (RunView, ActionView) {
    match (run.phase, event, run.job_id) {
        (_, Event::Cancelled, _) => cancelled(run),
        (Phase::Submitting, Event::Submitted { outcome: Ok(id), now }, _) => (
            RunView { phase: Phase::Polling, job_id: Some(id@), started_at: now, ..run },
            ActionView::Poll { job_id: id@ },
        ),
        (Phase::Submitting, Event::Submitted { outcome: Err(cause), now }, _) => failed(
            run,
            JobError::Submission(cause),
        ),
        (Phase::Polling, Event::Polled { outcome: Ok(status), now }, Some(id)) => if status.done {
            (
                RunView { phase: Phase::Fetching, finished_at: now, ..run },
                ActionView::Fetch { job_id: id },
            )
        } else {
            after_status(run, status, now)
        },
        (Phase::Polling, Event::Polled { outcome: Err(cause), now }, Some(id)) => failed(
            run,
            JobError::Poll(cause),
        ),
        (Phase::Showing, Event::StatusShown { message: Some(message), now }, Some(id)) => (
            RunView {
                phase: Phase::Sleeping,
                policy: ProgressPolicy {
                    last: match run.pending {
                        Some(status) => Some(Emission { status, at: now }),
                        None => run.policy.last,
                    },
                    long_wait: run.policy.long_wait,
                },
                pending: None,
                status_message: Some(message),
                ..run
            },
            ActionView::Sleep { millis: POLL_INTERVAL_MILLIS },
        ),
        (Phase::Showing, Event::StatusShown { message: None, now }, Some(id)) => failed(
            run,
            JobError::Delivery,
        ),
        (Phase::Sleeping, Event::Slept, Some(id)) => (
            RunView { phase: Phase::Polling, ..run },
            ActionView::Poll { job_id: id },
        ),
        (Phase::Fetching, Event::Fetched { outcome: Ok(results) }, _) => after_results(
            run,
            results@,
        ),
        (Phase::Fetching, Event::Fetched { outcome: Err(cause) }, _) => failed(
            run,
            JobError::Fetch(cause),
        ),
        (Phase::Delivering, Event::Delivered { sent }, _) => if !sent {
            failed(run, JobError::Delivery)
        } else {
            match run.status_message {
                Some(message) => (
                    RunView { phase: Phase::Cleaning, ..run },
                    ActionView::DeleteStatus { message },
                ),
                None => (
                    RunView { phase: Phase::Finished, ..run },
                    ActionView::Finish { outcome: Ok(()) },
                ),
            }
        },
        (Phase::Cleaning, Event::StatusDeleted, _) => (
            RunView { phase: Phase::Finished, ..run },
            ActionView::Finish { outcome: Ok(()) },
        ),
        _ => out_of_turn(run),
    }
}

/// Why a job does not start, if it does not: the rate limit comes
/// first, then the shape of the prompt.
pub open spec fn start_error(admitted: bool, prompt: Seq<char>) -> Option<JobError> {
    if !admitted {
        Some(JobError::AdmissionDenied)
    } else {
        match prompt_issue(prompt) {
            Some(issue) => Some(JobError::Validation(issue)),
            None => None,
        }
    }
}

/// A job that has just been handed to the remote service.
pub open spec fn initial_run(user_id: i64, prompt: Seq<char>, model: Seq<char>, size: u32)
    -> RunView {
    RunView {
        phase: Phase::Submitting,
        user_id,
        prompt,
        model,
        size,
        job_id: None,
        started_at: 0,
        finished_at: 0,
        policy: ProgressPolicy { last: None, long_wait: false },
        pending: None,
        status_message: None,
    }
}

/// Whether the job has seen its remote work done, or is over.
pub open spec fn past_polling(phase: Phase) -> bool {
    phase == Phase::Fetching || phase == Phase::Delivering || phase == Phase::Cleaning || phase
        == Phase::Finished || phase == Phase::Failed
}

fn copy_of(text: &Option<String>) -> (copy: Option<String>)
    ensures
        match (*text, copy) {
            (Some(a), Some(b)) => a@ == b@,
            (None, None) => true,
            _ => false,
        },
{
    match text {
        Some(t) => Some(t.clone()),
        None => None,
    }
}

impl JobRun {
    fn fail(&mut self, error: JobError) -> (action: Action)
        ensures
            (final(self)@, action@) == failed(old(self)@, error),
    {
        self.phase = Phase::Failed;
        Action::Finish { outcome: Err(error) }
    }

    fn refuse(&mut self) -> (action: Action)
        ensures
            (final(self)@, action@) == out_of_turn(old(self)@),
    {
        if self.phase == Phase::Finished || self.phase == Phase::Failed {
            Action::Finish { outcome: Err(JobError::OutOfTurn) }
        } else {
            self.fail(JobError::OutOfTurn)
        }
    }

    fn on_status(&mut self, status: JobStatus, now: u64) -> (action: Action)
        ensures
            (final(self)@, action@) == after_status(old(self)@, status, now),
    {
        self.policy.note(&status);
        if self.policy.due(&status, now) {
            let escaped = escape_markdown(self.prompt.as_str());
            let text = format_status(&status, escaped.as_str(), self.policy.long_wait);
            self.phase = Phase::Showing;
            self.pending = Some(status);
            Action::ShowStatus { text, edit: self.status_message }
        } else {
            self.phase = Phase::Sleeping;
            Action::Sleep { millis: POLL_INTERVAL_MILLIS }
        }
    }

    fn on_results(&mut self, results: Vec<WorkerResult>) -> (action: Action)
        ensures
            (final(self)@, action@) == after_results(old(self)@, results@),
    {
        let out = ResultAggregator::new(self.size).aggregate(&results);
        let seconds: u64 = if self.finished_at >= self.started_at {
            (self.finished_at - self.started_at) / 1000
        } else {
            0
        };
        let escaped = escape_markdown(self.prompt.as_str());
        let caption = caption(escaped.as_str(), seconds, out.attribution.as_str());
        self.phase = Phase::Delivering;
        Action::Deliver { composite: out.composite, caption }
    }

    /// The job as the remote service has taken it on, once it has.
    pub fn job(&self) -> (job: Option<Job>)
        ensures
            match (self@.job_id, job) {
                (Some(id), Some(j)) => j.id@ == id && j.user_id == self.user_id && j.prompt@
                    == self@.prompt && j.size == self.size,
                (None, None) => true,
                _ => false,
            },
    {
        match &self.job_id {
            Some(id) => Some(
                Job {
                    id: id.clone(),
                    user_id: self.user_id,
                    prompt: self.prompt.clone(),
                    size: self.size,
                },
            ),
            None => None,
        }
    }

    /// Takes in what has happened outside and says what to do next.
    pub fn step(&mut self, event: Event) -> (action: Action)
        ensures
            (final(self)@, action@) == step_of(old(self)@, event),
    {
        let job_id = copy_of(&self.job_id);
        match event {
            Event::Submitted { outcome, now } => {
                if self.phase == Phase::Submitting {
                    match outcome {
                        Ok(id) => {
                            let job_id = id.clone();
                            self.phase = Phase::Polling;
                            self.job_id = Some(id);
                            self.started_at = now;
                            Action::Poll { job_id }
                        },
                        Err(cause) => self.fail(JobError::Submission(cause)),
                    }
                } else {
                    self.refuse()
                }
            },
            Event::Polled { outcome, now } => {
                match (self.phase, job_id) {
                    (Phase::Polling, Some(job_id)) => match outcome {
                        Ok(status) => {
                            if status.done {
                                self.phase = Phase::Fetching;
                                self.finished_at = now;
                                Action::Fetch { job_id }
                            } else {
                                self.on_status(status, now)
                            }
                        },
                        Err(cause) => self.fail(JobError::Poll(cause)),
                    },
                    _ => self.refuse(),
                }
            },
            Event::StatusShown { message, now } => {
                match (self.phase, job_id) {
                    (Phase::Showing, Some(_)) => match message {
                        Some(message) => {
                            if let Some(status) = self.pending {
                                self.policy.record(status, now);
                            }
                            self.pending = None;
                            self.status_message = Some(message);
                            self.phase = Phase::Sleeping;
                            Action::Sleep { millis: POLL_INTERVAL_MILLIS }
                        },
                        None => self.fail(JobError::Delivery),
                    },
                    _ => self.refuse(),
                }
            },
            Event::Slept => {
                match (self.phase, job_id) {
                    (Phase::Sleeping, Some(job_id)) => {
                        self.phase = Phase::Polling;
                        Action::Poll { job_id }
                    },
                    _ => self.refuse(),
                }
            },
            Event::Fetched { outcome } => {
                if self.phase == Phase::Fetching {
                    match outcome {
                        Ok(results) => self.on_results(results),
                        Err(cause) => self.fail(JobError::Fetch(cause)),
                    }
                } else {
                    self.refuse()
                }
            },
            Event::Delivered { sent } => {
                if self.phase == Phase::Delivering {
                    if !sent {
                        self.fail(JobError::Delivery)
                    } else {
                        match self.status_message {
                            Some(message) => {
                                self.phase = Phase::Cleaning;
                                Action::DeleteStatus { message }
                            },
                            None => {
                                self.phase = Phase::Finished;
                                Action::Finish { outcome: Ok(()) }
                            },
                        }
                    }
                } else {
                    self.refuse()
                }
            },
            Event::StatusDeleted => {
                if self.phase == Phase::Cleaning {
                    self.phase = Phase::Finished;
                    Action::Finish { outcome: Ok(()) }
                } else {
                    self.refuse()
                }
            },
            Event::Cancelled => {
                if self.phase == Phase::Finished || self.phase == Phase::Failed {
                    Action::Finish { outcome: Err(JobError::Cancelled) }
                } else {
                    self.fail(JobError::Cancelled)
                }
            },
        }
    }
}

/// Starts jobs: the one way into a `JobRun`.
pub struct JobOrchestrator {}

impl JobOrchestrator {
    /// Counts the request against the user's rate limit, then checks the
    /// prompt. A request that passes both becomes a job, to be submitted
    /// next; one that does not ends here, before anything is sent. `now`
    /// is read in the unit of the limiter's window.
    pub fn start(
        limiter: &mut RateLimiter,
        user_id: i64,
        prompt: String,
        model: String,
        size: u32,
        now: u64,
    ) -> (started: Result<(JobRun, Action), JobError>)
        ensures
            final(limiter)@ == state_after(old(limiter)@, user_id, now),
            match start_error(admits(old(limiter)@, user_id, now), prompt@) {
                Some(error) => started == Err::<(JobRun, Action), JobError>(error),
                None => started is Ok && started->Ok_0.0@ == initial_run(
                    user_id,
                    prompt@,
                    model@,
                    size,
                ) && started->Ok_0.1@ == (ActionView::Submit {
                    prompt: prompt@,
                    model: model@,
                    size,
                }),
            },
    {
        if !limiter.try_acquire(user_id, now) {
            return Err(JobError::AdmissionDenied);
        }
        if let Some(issue) = classify_prompt(prompt.as_str()) {
            return Err(JobError::Validation(issue));
        }
        let action = Action::Submit { prompt: prompt.clone(), model: model.clone(), size };
        let run = JobRun {
            phase: Phase::Submitting,
            user_id,
            prompt,
            model,
            size,
            job_id: None,
            started_at: 0,
            finished_at: 0,
            policy: ProgressPolicy::new(),
            pending: None,
            status_message: None,
        };
        Ok((run, action))
    }
}

/// Once a job has seen its remote work done it never polls, pauses or
/// shows progress again, whatever comes.
pub proof fn lemma_done_is_terminal(run: RunView, event: Event)
    requires
        past_polling(run.phase),
    ensures
        past_polling(step_of(run, event).0.phase),
        !(step_of(run, event).1 is Poll),
        !(step_of(run, event).1 is Sleep),
        !(step_of(run, event).1 is ShowStatus),
        !(step_of(run, event).1 is Submit),
{
}

/// A status that tells of finished work ends the polling at once: the
/// results are fetched next and no progress is shown for it.
pub proof fn lemma_done_ends_polling(run: RunView, status: JobStatus, now: u64)
    requires
        run.phase == Phase::Polling,
        run.job_id is Some,
        status.done,
    ensures
        step_of(run, Event::Polled { outcome: Ok(status), now }).0.phase == Phase::Fetching,
        step_of(run, Event::Polled { outcome: Ok(status), now }).1 == (ActionView::Fetch {
            job_id: run.job_id->0,
        }),
{
}

/// Once the chat is gone a job that is under way is over: it fails at
/// once, and by `lemma_done_is_terminal` it never polls again.
pub proof fn lemma_cancellation_stops_the_job(run: RunView)
    requires
        run.phase != Phase::Finished,
    ensures
        step_of(run, Event::Cancelled).0.phase == Phase::Failed,
        past_polling(step_of(run, Event::Cancelled).0.phase),
        step_of(run, Event::Cancelled).1 == (ActionView::Finish {
            outcome: Err(JobError::Cancelled),
        }),
{
}

/// The progress message is deleted only after the final message was
/// sent; a job that fails leaves it in place.
pub proof fn lemma_cleanup_follows_delivery(run: RunView, event: Event)
    ensures
        step_of(run, event).1 is DeleteStatus ==> run.phase == Phase::Delivering && event
            == (Event::Delivered { sent: true }) && run.status_message == Some(
            step_of(run, event).1->DeleteStatus_message,
        ),
        step_of(run, event).0.phase == Phase::Failed ==> step_of(run, event).0.status_message
            == run.status_message,
{
}

/// A job has one progress message: the first update makes it, and each
/// later one goes into the message that the job holds.
pub proof fn lemma_one_progress_message(run: RunView, event: Event)
    ensures
        step_of(run, event).1 matches ActionView::ShowStatus { text, edit } ==> edit
            == run.status_message,
        step_of(run, event).0.status_message != run.status_message ==> run.phase
            == Phase::Showing && event is StatusShown,
{
}

/// The progress text of a job carries the notice from the first long
/// wait on: the flag that the job keeps is never cleared.
pub proof fn lemma_long_wait_is_kept(run: RunView, event: Event)
    requires
        run.policy.long_wait,
    ensures
        step_of(run, event).0.policy.long_wait,
{
}

/// A job keeps to the progress policy. A status that is seen at `seen`
/// and, where it is due, shown at `sent` leaves the job's policy as one
/// observation of the policy does: so what holds of every run of the
/// policy holds of the updates of every job.
pub proof fn lemma_job_follows_policy(
    run: RunView,
    status: JobStatus,
    seen: u64,
    message: i64,
    sent: u64,
)
    requires
        run.phase == Phase::Polling,
        run.job_id is Some,
        !status.done,
    ensures
        ({
            let polled = step_of(run, Event::Polled { outcome: Ok(status), now: seen });
            let shown = step_of(polled.0, Event::StatusShown { message: Some(message), now: sent });
            let observed = policy_after(run.policy, Observation { status, seen, sent });
            &&& polled.1 is ShowStatus <==> is_due(run.policy, status, seen)
            &&& polled.1 is ShowStatus ==> shown.0.policy == observed && shown.0.phase
                == Phase::Sleeping
            &&& !(polled.1 is ShowStatus) ==> polled.0.policy == observed && polled.0.phase
                == Phase::Sleeping
        }),
{
}

} // verus!
