use vstd::prelude::*;
use vstd::string::StringExecFns;
use crate::text_utils::{decimal, duration_text, format_duration, push_decimal};

verus! {

/// A snapshot of the remote queue for one job, compared by value.
#[derive(Clone, Copy, Debug, PartialEq, Eq, Structural)]
pub struct JobStatus {
    pub waiting: u32,
    pub processing: u32,
    pub finished: u32,
    pub queue_position: u32,
    /// Estimated seconds that remain.
    pub wait_time: u32,
    pub done: bool,
}

/// `n` copies of `c`.
pub open spec fn repeated(c: char, n: nat) -> Seq<char> {
    Seq::new(n, |i: int| c)
}

/// Cells that the bar draws for each worker.
pub const BAR_CELLS_PER_WORKER: usize = 5;

/// The bar of a job: finished workers first, then those at work, then
/// those that wait, five cells each, between square brackets.
pub open spec fn bar_text(waiting: nat, processing: nat, finished: nat) -> Seq<char> {
    seq!['['] + repeated('=', 5 * finished) + repeated('-', 5 * processing) + repeated(
        ' ',
        5 * waiting,
    ) + seq![']']
}

/// Appends five copies of `c` for each of `workers`.
fn push_cells(out: &mut String, c: char, workers: usize)
    ensures
        final(out)@ == old(out)@ + repeated(c, 5 * workers as nat),
{
    let mut done: usize = 0;
    while done < workers
        invariant
            done <= workers,
            out@ == old(out)@ + repeated(c, 5 * done as nat),
        decreases workers - done,
    {
        out.push(c);
        out.push(c);
        out.push(c);
        out.push(c);
        out.push(c);
        done = done + 1;
        assert(out@ =~= old(out)@ + repeated(c, 5 * done as nat));
    }
}

pub fn progress_bar(waiting: usize, processing: usize, finished: usize) -> (bar: String)
    ensures
        bar@ == bar_text(waiting as nat, processing as nat, finished as nat),
{
    let mut bar = String::new();
    bar.push('[');
    push_cells(&mut bar, '=', finished);
    push_cells(&mut bar, '-', processing);
    push_cells(&mut bar, ' ', waiting);
    bar.push(']');
    assert(bar@ =~= bar_text(waiting as nat, processing as nat, finished as nat));
    bar
}

/// The line that tells the place in the queue; nothing at the head of it.
pub open spec fn queue_text(queue_position: nat) -> Seq<char> {
    if queue_position > 0 {
        "queue position: "@ + decimal(queue_position) + seq!['\n']
    } else {
        Seq::<char>::empty()
    }
}

/// What is added to a progress text once a long wait was seen.
pub open spec fn volunteer_notice_text() -> Seq<char> {
    "\n\nStable Horde is run by volunteers\\. to make waiting times shorter, [consider joining yourself](https://stablehorde.net/)\\!"@
}

/// The progress text of a job: the prompt, the place in the queue, the
/// bar, the estimated wait and, if asked for, the volunteers' notice.
pub open spec fn status_text(
    status: JobStatus,
    escaped_prompt: Seq<char>,
    notice: bool,
) -> Seq<char> {
    "generating "@ + escaped_prompt + "\u{2026}\n"@ + queue_text(status.queue_position as nat)
        + seq!['`'] + bar_text(
        status.waiting as nat,
        status.processing as nat,
        status.finished as nat,
    ) + "` ETA: "@ + duration_text(status.wait_time as nat) + if notice {
        volunteer_notice_text()
    } else {
        Seq::<char>::empty()
    }
}

pub fn format_status(
    status: &JobStatus,
    escaped_prompt: &str,
    volunteer_notice: bool,
) -> (text: String)
    ensures
        text@ == status_text(*status, escaped_prompt@, volunteer_notice),
{
    let mut text = String::new();
    text.append("generating ");
    text.append(escaped_prompt);
    text.append("\u{2026}\n");
    if status.queue_position > 0 {
        text.append("queue position: ");
        push_decimal(&mut text, status.queue_position as u128);
        text.push('\n');
    }
    text.push('`');
    let bar = progress_bar(
        status.waiting as usize,
        status.processing as usize,
        status.finished as usize,
    );
    text.append(bar.as_str());
    text.append("` ETA: ");
    let eta = format_duration(status.wait_time as u64);
    text.append(eta.as_str());
    if volunteer_notice {
        text.append(
            "\n\nStable Horde is run by volunteers\\. to make waiting times shorter, [consider joining yourself](https://stablehorde.net/)\\!",
        );
    }
    assert(text@ =~= status_text(*status, escaped_prompt@, volunteer_notice));
    text
}

} // verus!
