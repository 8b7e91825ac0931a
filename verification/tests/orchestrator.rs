use chatbot::job::WorkerResult;
use chatbot::orchestrator::{
    Action, Event, JobError, JobOrchestrator, JobRun, Phase, RemoteFailure, POLL_INTERVAL_MILLIS,
};
use chatbot::rate_limit::RateLimiter;
use chatbot::retry::TransportError;
use chatbot::status::JobStatus;
use chatbot::text_utils::PromptIssue;

const NOTICE: &str = "\n\nStable Horde is run by volunteers\\. to make waiting times shorter, [consider joining yourself](https://stablehorde.net/)\\!";

fn status(wait_time: u32, done: bool) -> JobStatus {
    JobStatus { waiting: 1, processing: 0, finished: 0, queue_position: 0, wait_time, done }
}

fn begin(prompt: &str) -> (JobRun, Action) {
    let mut limiter = RateLimiter::new(3, 300);
    match JobOrchestrator::start(
        &mut limiter,
        42,
        prompt.to_string(),
        "stable_diffusion".to_string(),
        512,
        0,
    ) {
        Ok(started) => started,
        Err(e) => panic!("{:?}", e),
    }
}

fn submitted(prompt: &str) -> JobRun {
    let (mut run, _) = begin(prompt);
    let action = run.step(Event::Submitted { outcome: Ok("job-1".to_string()), now: 1_000 });
    assert!(matches!(action, Action::Poll { ref job_id } if job_id == "job-1"));
    run
}

fn poll(run: &mut JobRun, wait_time: u32, done: bool, now: u64) -> Action {
    run.step(Event::Polled { outcome: Ok(status(wait_time, done)), now })
}

#[allow(deprecated)]
fn payload(tag: u8) -> String {
    let mut file = Vec::new();
    image::codecs::webp::WebPEncoder::new_lossless(&mut file)
        .encode(&[tag, tag, tag, 255], 1, 1, image::ExtendedColorType::Rgba8)
        .unwrap();
    base64::encode(file)
}

#[test]
fn start_submits_the_job() {
    let (run, action) = begin("a cat");
    assert_eq!(run.phase, Phase::Submitting);
    assert_eq!(run.user_id, 42);
    assert_eq!(run.prompt, "a cat");
    assert_eq!(run.size, 512);
    assert_eq!(run.job_id, None);
    assert!(run.job().is_none());
    assert_eq!(run.status_message, None);
    match action {
        Action::Submit { prompt, model, size } => {
            assert_eq!(prompt, "a cat");
            assert_eq!(model, "stable_diffusion");
            assert_eq!(size, 512);
        }
        _ => panic!("no submit"),
    }
}

#[test]
fn start_is_denied_over_the_limit() {
    let mut limiter = RateLimiter::new(1, 300);
    let first = JobOrchestrator::start(&mut limiter, 1, "p".into(), "m".into(), 512, 10);
    assert!(first.is_ok());
    let second = JobOrchestrator::start(&mut limiter, 1, "p".into(), "m".into(), 512, 20);
    assert_eq!(second.err(), Some(JobError::AdmissionDenied));
    let other = JobOrchestrator::start(&mut limiter, 2, "p".into(), "m".into(), 512, 20);
    assert!(other.is_ok());
    let later = JobOrchestrator::start(&mut limiter, 1, "p".into(), "m".into(), 512, 310);
    assert!(later.is_ok());
}

#[test]
fn start_refuses_a_bad_prompt() {
    let mut limiter = RateLimiter::new(5, 300);
    let long = JobOrchestrator::start(&mut limiter, 1, "x".repeat(1025), "m".into(), 512, 0);
    assert_eq!(long.err(), Some(JobError::Validation(PromptIssue::TooLong)));
    let lines =
        JobOrchestrator::start(&mut limiter, 1, "\n".repeat(9), "m".into(), 512, 0);
    assert_eq!(lines.err(), Some(JobError::Validation(PromptIssue::TooManyLines)));
}

#[test]
fn denial_comes_before_validation() {
    let mut limiter = RateLimiter::new(1, 300);
    assert!(JobOrchestrator::start(&mut limiter, 1, "ok".into(), "m".into(), 512, 0).is_ok());
    let second = JobOrchestrator::start(&mut limiter, 1, "x".repeat(2000), "m".into(), 512, 1);
    assert_eq!(second.err(), Some(JobError::AdmissionDenied));
}

#[test]
fn refused_prompt_still_counts_against_the_limit() {
    let mut limiter = RateLimiter::new(1, 300);
    assert!(JobOrchestrator::start(&mut limiter, 1, "x".repeat(2000), "m".into(), 512, 0).is_err());
    let second = JobOrchestrator::start(&mut limiter, 1, "ok".into(), "m".into(), 512, 1);
    assert_eq!(second.err(), Some(JobError::AdmissionDenied));
}

#[test]
fn failed_submission_fails_the_job() {
    let (mut run, _) = begin("p");
    let action = run.step(Event::Submitted { outcome: Err(RemoteFailure::Rejected), now: 5 });
    assert!(matches!(
        action,
        Action::Finish { outcome: Err(JobError::Submission(RemoteFailure::Rejected)) }
    ));
    assert_eq!(run.phase, Phase::Failed);
}

#[test]
fn end_to_end_with_a_long_wait() {
    let mut run = submitted("a.cat");
    assert_eq!(run.started_at, 1_000);
    let job = run.job().unwrap();
    assert_eq!((job.id.as_str(), job.user_id, job.prompt.as_str(), job.size), ("job-1", 42, "a.cat", 512));

    // first status: shown at once, without the notice
    match poll(&mut run, 5, false, 1_100) {
        Action::ShowStatus { text, edit } => {
            assert_eq!(text, "generating a\\.cat\u{2026}\n`[     ]` ETA: 5s");
            assert_eq!(edit, None);
        }
        _ => panic!("no update"),
    }
    assert_eq!(run.phase, Phase::Showing);
    let action = run.step(Event::StatusShown { message: Some(77), now: 1_200 });
    assert!(matches!(action, Action::Sleep { millis: 2_000 }));
    assert_eq!(run.status_message, Some(77));
    assert!(matches!(run.step(Event::Slept), Action::Poll { ref job_id } if job_id == "job-1"));

    // second status, after the debounce time: shown with the notice, in place
    match poll(&mut run, 35, false, 13_200) {
        Action::ShowStatus { text, edit } => {
            assert_eq!(text, format!("generating a\\.cat\u{2026}\n`[     ]` ETA: 35s{}", NOTICE));
            assert_eq!(edit, Some(77));
        }
        _ => panic!("no update"),
    }
    assert!(matches!(
        run.step(Event::StatusShown { message: Some(77), now: 13_300 }),
        Action::Sleep { .. }
    ));
    assert!(matches!(run.step(Event::Slept), Action::Poll { .. }));

    // done: no update, the results are fetched
    let action = poll(&mut run, 0, true, 15_400);
    assert!(matches!(action, Action::Fetch { ref job_id } if job_id == "job-1"));
    assert_eq!(run.phase, Phase::Fetching);
    assert_eq!(run.finished_at, 15_400);

    let results = vec![
        WorkerResult { worker_name: "A".into(), image_base64: payload(1) },
        WorkerResult { worker_name: "B".into(), image_base64: payload(2) },
        WorkerResult { worker_name: "A".into(), image_base64: payload(3) },
    ];
    match run.step(Event::Fetched { outcome: Ok(results) }) {
        Action::Deliver { composite, caption } => {
            assert_eq!(caption, "generated *a\\.cat* in 14s by A \\(2\\), B\\.");
            assert_eq!(composite.width(), 1032);
            assert_eq!(composite.height(), 1032);
            assert_eq!(&composite.rows()[0][0..4], &[1, 1, 1, 255]);
            assert_eq!(&composite.rows()[0][4 * 520..4 * 520 + 4], &[2, 2, 2, 255]);
            assert_eq!(&composite.rows()[520][0..4], &[3, 3, 3, 255]);
            assert_eq!(&composite.rows()[520][4 * 520..4 * 520 + 4], &[0, 0, 0, 0]);
        }
        _ => panic!("no delivery"),
    }
    assert_eq!(run.phase, Phase::Delivering);

    // success: the progress message goes
    let action = run.step(Event::Delivered { sent: true });
    assert!(matches!(action, Action::DeleteStatus { message: 77 }));
    assert!(matches!(run.step(Event::StatusDeleted), Action::Finish { outcome: Ok(()) }));
    assert_eq!(run.phase, Phase::Finished);
}

#[test]
fn status_inside_the_debounce_time_is_held_back() {
    let mut run = submitted("p");
    assert!(matches!(poll(&mut run, 9, false, 2_000), Action::ShowStatus { .. }));
    run.step(Event::StatusShown { message: Some(1), now: 2_500 });
    run.step(Event::Slept);
    // the update was sent at 2500: 14499 is too early, 14500 is not
    assert!(matches!(poll(&mut run, 8, false, 14_499), Action::Sleep { millis: POLL_INTERVAL_MILLIS }));
    assert_eq!(run.phase, Phase::Sleeping);
    run.step(Event::Slept);
    assert!(matches!(poll(&mut run, 7, false, 14_500), Action::ShowStatus { .. }));
}

#[test]
fn equal_status_is_not_shown_again() {
    let mut run = submitted("p");
    assert!(matches!(poll(&mut run, 9, false, 2_000), Action::ShowStatus { .. }));
    run.step(Event::StatusShown { message: Some(1), now: 2_000 });
    run.step(Event::Slept);
    assert!(matches!(poll(&mut run, 9, false, 60_000), Action::Sleep { .. }));
}

#[test]
fn job_without_progress_has_nothing_to_delete() {
    let mut run = submitted("p");
    assert!(matches!(poll(&mut run, 0, true, 1_500), Action::Fetch { .. }));
    match run.step(Event::Fetched { outcome: Ok(Vec::new()) }) {
        Action::Deliver { composite, caption } => {
            assert_eq!(caption, "generated *p* in 0s by \\.");
            assert_eq!(composite.height(), 0);
        }
        _ => panic!("no delivery"),
    }
    assert!(matches!(run.step(Event::Delivered { sent: true }), Action::Finish { outcome: Ok(()) }));
    assert_eq!(run.phase, Phase::Finished);
}

#[test]
fn failed_poll_leaves_the_progress_message() {
    let mut run = submitted("p");
    poll(&mut run, 9, false, 2_000);
    run.step(Event::StatusShown { message: Some(5), now: 2_000 });
    run.step(Event::Slept);
    let cause = RemoteFailure::Transport(TransportError::Status(502));
    let action = run.step(Event::Polled { outcome: Err(cause), now: 4_000 });
    assert!(matches!(action, Action::Finish { outcome: Err(JobError::Poll(c)) } if c == cause));
    assert_eq!(run.phase, Phase::Failed);
    assert_eq!(run.status_message, Some(5));
}

#[test]
fn failed_fetch_fails_the_job() {
    let mut run = submitted("p");
    poll(&mut run, 0, true, 2_000);
    let cause = RemoteFailure::Transport(TransportError::Network);
    let action = run.step(Event::Fetched { outcome: Err(cause) });
    assert!(matches!(action, Action::Finish { outcome: Err(JobError::Fetch(c)) } if c == cause));
}

#[test]
fn failed_delivery_keeps_the_progress_message() {
    let mut run = submitted("p");
    poll(&mut run, 9, false, 2_000);
    run.step(Event::StatusShown { message: Some(5), now: 2_000 });
    run.step(Event::Slept);
    poll(&mut run, 0, true, 4_000);
    run.step(Event::Fetched { outcome: Ok(Vec::new()) });
    let action = run.step(Event::Delivered { sent: false });
    assert!(matches!(action, Action::Finish { outcome: Err(JobError::Delivery) }));
    assert_eq!(run.status_message, Some(5));
    assert_eq!(run.phase, Phase::Failed);
}

#[test]
fn progress_that_cannot_be_shown_fails_the_job() {
    let mut run = submitted("p");
    poll(&mut run, 9, false, 2_000);
    let action = run.step(Event::StatusShown { message: None, now: 2_100 });
    assert!(matches!(action, Action::Finish { outcome: Err(JobError::Delivery) }));
}

#[test]
fn event_out_of_turn_fails_the_job() {
    let mut run = submitted("p");
    let action = run.step(Event::Slept);
    assert!(matches!(action, Action::Finish { outcome: Err(JobError::OutOfTurn) }));
    assert_eq!(run.phase, Phase::Failed);
    let again = poll(&mut run, 1, false, 5);
    assert!(matches!(again, Action::Finish { outcome: Err(JobError::OutOfTurn) }));
    assert_eq!(run.phase, Phase::Failed);
}

#[test]
fn finished_job_stays_finished() {
    let mut run = submitted("p");
    poll(&mut run, 0, true, 2_000);
    run.step(Event::Fetched { outcome: Ok(Vec::new()) });
    run.step(Event::Delivered { sent: true });
    assert_eq!(run.phase, Phase::Finished);
    let action = poll(&mut run, 1, false, 3_000);
    assert!(matches!(action, Action::Finish { outcome: Err(JobError::OutOfTurn) }));
    assert_eq!(run.phase, Phase::Finished);
}

#[test]
fn done_is_never_polled_again() {
    let mut run = submitted("p");
    poll(&mut run, 0, true, 2_000);
    for event in [Event::Slept, Event::StatusDeleted] {
        let action = run.step(event);
        assert!(!matches!(action, Action::Poll { .. } | Action::Sleep { .. }));
    }
}

#[test]
fn cancellation_stops_the_polling() {
    let mut run = submitted("p");
    poll(&mut run, 9, false, 2_000);
    run.step(Event::StatusShown { message: Some(5), now: 2_000 });
    let action = run.step(Event::Cancelled);
    assert!(matches!(action, Action::Finish { outcome: Err(JobError::Cancelled) }));
    assert_eq!(run.phase, Phase::Failed);
    assert_eq!(run.status_message, Some(5));
    let next = run.step(Event::Slept);
    assert!(matches!(next, Action::Finish { outcome: Err(JobError::OutOfTurn) }));
}

#[test]
fn cancellation_leaves_a_finished_job() {
    let mut run = submitted("p");
    poll(&mut run, 0, true, 2_000);
    run.step(Event::Fetched { outcome: Ok(Vec::new()) });
    run.step(Event::Delivered { sent: true });
    let action = run.step(Event::Cancelled);
    assert!(matches!(action, Action::Finish { outcome: Err(JobError::Cancelled) }));
    assert_eq!(run.phase, Phase::Finished);
}
