use chatbot::progress::{Emission, ProgressPolicy, ProgressUpdate, DEBOUNCE_MILLIS};
use chatbot::status::JobStatus;

fn waiting(wait_time: u32) -> JobStatus {
    JobStatus { waiting: 1, processing: 0, finished: 0, queue_position: 0, wait_time, done: false }
}

#[test]
fn first_status_is_shown() {
    let mut policy = ProgressPolicy::new();
    assert_eq!(
        policy.observe(waiting(5), 0),
        Some(ProgressUpdate { status: waiting(5), long_wait_notice: false, first: true })
    );
    assert_eq!(policy.last, Some(Emission { status: waiting(5), at: 0 }));
}

#[test]
fn equal_statuses_in_a_row_are_shown_once() {
    let mut policy = ProgressPolicy::new();
    assert!(policy.observe(waiting(5), 1_000).is_some());
    assert_eq!(policy.observe(waiting(5), 3_000), None);
    assert_eq!(policy.observe(waiting(5), 50_000), None);
    assert_eq!(policy.last, Some(Emission { status: waiting(5), at: 1_000 }));
}

#[test]
fn changed_status_waits_for_the_debounce_time() {
    let mut policy = ProgressPolicy::new();
    assert!(policy.observe(waiting(9), 1_000).is_some());
    assert_eq!(policy.observe(waiting(8), 3_000), None);
    assert_eq!(policy.observe(waiting(7), 12_999), None);
    assert_eq!(
        policy.observe(waiting(6), 13_000),
        Some(ProgressUpdate { status: waiting(6), long_wait_notice: false, first: false })
    );
    assert_eq!(DEBOUNCE_MILLIS, 12_000);
}

#[test]
fn updates_are_twelve_seconds_apart() {
    let mut policy = ProgressPolicy::new();
    let mut shown: Vec<u64> = Vec::new();
    let mut now: u64 = 500;
    let mut wait: u32 = 1_000;
    while now < 100_000 {
        if policy.observe(waiting(wait), now).is_some() {
            shown.push(now);
        }
        now += 2_000;
        wait -= 1;
    }
    assert_eq!(shown, vec![500, 12_500, 24_500, 36_500, 48_500, 60_500, 72_500, 84_500, 96_500]);
    for pair in shown.windows(2) {
        assert!(pair[1] - pair[0] >= 12_000);
    }
}

#[test]
fn skipped_status_is_never_shown() {
    let mut policy = ProgressPolicy::new();
    assert!(policy.observe(waiting(9), 0).is_some());
    assert_eq!(policy.observe(waiting(8), 2_000), None);
    let update = policy.observe(waiting(7), 12_000);
    assert_eq!(update.map(|u| u.status), Some(waiting(7)));
}

#[test]
fn status_shown_before_is_shown_again_after_another() {
    let mut policy = ProgressPolicy::new();
    assert!(policy.observe(waiting(9), 0).is_some());
    assert!(policy.observe(waiting(8), 12_000).is_some());
    assert!(policy.observe(waiting(9), 24_000).is_some());
}

#[test]
fn long_wait_notice_is_sticky() {
    let mut policy = ProgressPolicy::new();
    let first = policy.observe(waiting(29), 0);
    assert_eq!(first.map(|u| u.long_wait_notice), Some(false));
    let second = policy.observe(waiting(30), 12_000);
    assert_eq!(second.map(|u| u.long_wait_notice), Some(true));
    let third = policy.observe(waiting(3), 24_000);
    assert_eq!(third.map(|u| u.long_wait_notice), Some(true));
    assert!(policy.long_wait);
}

#[test]
fn long_wait_is_noted_when_the_update_is_held_back() {
    let mut policy = ProgressPolicy::new();
    assert!(policy.observe(waiting(5), 0).is_some());
    assert_eq!(policy.observe(waiting(45), 2_000), None);
    assert!(policy.long_wait);
    let later = policy.observe(waiting(4), 12_000);
    assert_eq!(
        later,
        Some(ProgressUpdate { status: waiting(4), long_wait_notice: true, first: false })
    );
}

#[test]
fn clock_that_reads_earlier_holds_updates_back() {
    let mut policy = ProgressPolicy::new();
    assert!(policy.observe(waiting(5), 50_000).is_some());
    assert_eq!(policy.observe(waiting(4), 10_000), None);
}

#[test]
fn due_and_record_agree_with_observe() {
    let mut policy = ProgressPolicy::new();
    assert!(policy.due(&waiting(5), 7));
    policy.note(&waiting(31));
    policy.record(waiting(5), 9);
    assert!(!policy.due(&waiting(5), 100_000));
    assert!(!policy.due(&waiting(6), 12_008));
    assert!(policy.due(&waiting(6), 12_009));
    assert_eq!(
        policy,
        ProgressPolicy { last: Some(Emission { status: waiting(5), at: 9 }), long_wait: true }
    );
}
