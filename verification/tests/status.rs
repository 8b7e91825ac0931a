use chatbot::status::{format_status, progress_bar, JobStatus};

fn status(
    waiting: u32,
    processing: u32,
    finished: u32,
    queue_position: u32,
    wait_time: u32,
) -> JobStatus {
    JobStatus { waiting, processing, finished, queue_position, wait_time, done: false }
}

#[test]
fn bar_of_nothing() {
    assert_eq!(progress_bar(0, 0, 0), "[]");
}

#[test]
fn bar_orders_finished_processing_waiting() {
    assert_eq!(progress_bar(1, 1, 1), "[=====-----     ]");
    assert_eq!(progress_bar(2, 0, 1), "[=====          ]");
    assert_eq!(progress_bar(0, 3, 0), "[---------------]");
}

#[test]
fn status_text_without_queue() {
    assert_eq!(
        format_status(&status(1, 2, 1, 0, 75), "a cat", false),
        "generating a cat\u{2026}\n`[=====----------     ]` ETA: 1m 15s"
    );
}

#[test]
fn status_text_with_queue_position() {
    assert_eq!(
        format_status(&status(4, 0, 0, 12, 5), "x\\.y", false),
        "generating x\\.y\u{2026}\nqueue position: 12\n`[                    ]` ETA: 5s"
    );
}

#[test]
fn status_text_with_notice() {
    assert_eq!(
        format_status(&status(0, 1, 0, 0, 35), "p", true),
        "generating p\u{2026}\n`[-----]` ETA: 35s\n\nStable Horde is run by volunteers\\. to make waiting times shorter, [consider joining yourself](https://stablehorde.net/)\\!"
    );
}

#[test]
fn statuses_compare_by_value() {
    assert_eq!(status(1, 2, 3, 4, 5), status(1, 2, 3, 4, 5));
    assert_ne!(status(1, 2, 3, 4, 5), status(1, 2, 3, 4, 6));
    let mut done = status(1, 2, 3, 4, 5);
    done.done = true;
    assert_ne!(done, status(1, 2, 3, 4, 5));
}
