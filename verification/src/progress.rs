use vstd::prelude::*;
use crate::status::JobStatus;

verus! {

/// Milliseconds that lie at least between two progress updates of a job.
pub const DEBOUNCE_MILLIS: u64 = 12_000;

/// Estimated seconds of waiting from which on a wait counts as long.
pub const LONG_WAIT_SECS: u32 = 30;

/// The last update that was shown: its status and when it was sent.
#[derive(Clone, Copy, Debug, PartialEq, Eq, Structural)]
pub struct Emission {
    pub status: JobStatus,
    pub at: u64,
}

/// One progress update to show.
#[derive(Clone, Copy, Debug, PartialEq, Eq, Structural)]
pub struct ProgressUpdate {
    pub status: JobStatus,
    /// Whether the update carries the notice about long waits.
    pub long_wait_notice: bool,
    /// Whether this is the first update of the job, which creates the
    /// progress message; every later one edits that message.
    pub first: bool,
}

/// What one job remembers between polls to decide on progress updates.
#[derive(Clone, Copy, Debug, PartialEq, Eq, Structural)]
pub struct ProgressPolicy {
    pub last: Option<Emission>,
    /// Set once a long wait was seen; never cleared.
    pub long_wait: bool,
}

/// The long-wait flag once `status` was seen.
pub open spec fn long_wait_after(p: ProgressPolicy, status: JobStatus) -> bool {
    p.long_wait || status.wait_time >= LONG_WAIT_SECS
}

/// Whether `status`, seen at `now`, is to be shown: it differs from what
/// was shown last, and no update was shown yet or the last one is at
/// least the debounce time old.
pub open spec fn is_due(p: ProgressPolicy, status: JobStatus, now: u64) -> bool {
    match p.last {
        None => true,
        Some(e) => e.status != status && now >= e.at && now - e.at >= DEBOUNCE_MILLIS,
    }
}

/// One poll as the policy meets it: the status, when it was seen and,
/// should it be shown, when the update is sent.
pub struct Observation {
    pub status: JobStatus,
    pub seen: u64,
    pub sent: u64,
}

/// The policy after one observation.
pub open spec fn policy_after(p: ProgressPolicy, o: Observation) -> ProgressPolicy {
    ProgressPolicy {
        last: if is_due(p, o.status, o.seen) {
            Some(Emission { status: o.status, at: o.sent })
        } else {
            p.last
        },
        long_wait: long_wait_after(p, o.status),
    }
}

/// The policy after the first `n` observations of `trace`.
pub open spec fn policy_after_all(p: ProgressPolicy, trace: Seq<Observation>, n: nat)
    -> ProgressPolicy
    decreases n,
{
    if n == 0 {
        p
    } else {
        policy_after(policy_after_all(p, trace, (n - 1) as nat), trace[n - 1])
    }
}

/// Whether observation `i` of `trace` leads to an update.
pub open spec fn emits(p: ProgressPolicy, trace: Seq<Observation>, i: nat) -> bool {
    is_due(policy_after_all(p, trace, i), trace[i as int].status, trace[i as int].seen)
}

/// Whether an update for observation `i` of `trace` carries the notice.
pub open spec fn carries_notice(p: ProgressPolicy, trace: Seq<Observation>, i: nat) -> bool {
    long_wait_after(policy_after_all(p, trace, i), trace[i as int].status)
}

/// Whether the times of `trace` come from one clock that does not run
/// backwards: each update is sent no earlier than its status was seen,
/// and no later than the next status is seen.
pub open spec fn in_clock_order(trace: Seq<Observation>) -> bool {
    &&& forall|i: int| 0 <= i < trace.len() ==> (#[trigger] trace[i]).seen <= trace[i].sent
    &&& forall|i: int, j: int|
        0 <= i < j < trace.len() ==> (#[trigger] trace[i]).sent <= (#[trigger] trace[j]).seen
}

impl ProgressPolicy {
    /// The policy of a job that has shown nothing and seen no long wait.
    pub fn new() -> (p: Self)
        ensures
            p == (ProgressPolicy { last: None, long_wait: false }),
    {
        ProgressPolicy { last: None, long_wait: false }
    }

    /// Takes note of a status for the long-wait flag.
    pub fn note(&mut self, status: &JobStatus)
        ensures
            *final(self) == (ProgressPolicy {
                last: old(self).last,
                long_wait: long_wait_after(*old(self), *status),
            }),
    {
        if status.wait_time >= LONG_WAIT_SECS {
            self.long_wait = true;
        }
    }

    /// Whether `status`, seen at `now`, is to be shown.
    pub fn due(&self, status: &JobStatus, now: u64) -> (due: bool)
        ensures
            due == is_due(*self, *status, now),
    {
        match self.last {
            None => true,
            Some(e) => !(e.status == *status) && now >= e.at && now - e.at >= DEBOUNCE_MILLIS,
        }
    }

    /// Records that an update with `status` was sent at `at`.
    pub fn record(&mut self, status: JobStatus, at: u64)
        ensures
            *final(self) == (ProgressPolicy {
                last: Some(Emission { status, at }),
                long_wait: old(self).long_wait,
            }),
    {
        self.last = Some(Emission { status, at });
    }

    /// Feeds the policy a status that was seen at `now` and is sent at
    /// once if it is due. Gives the update to show, if there is one.
    pub fn observe(&mut self, status: JobStatus, now: u64) -> (update: Option<ProgressUpdate>)
        ensures
            *final(self) == policy_after(
                *old(self),
                Observation { status, seen: now, sent: now },
            ),
            update == if is_due(*old(self), status, now) {
                Some(
                    ProgressUpdate {
                        status,
                        long_wait_notice: long_wait_after(*old(self), status),
                        first: old(self).last is None,
                    },
                )
            } else {
                None
            },
    {
        self.note(&status);
        if self.due(&status, now) {
            let first = self.last.is_none();
            self.record(status, now);
            Some(ProgressUpdate { status, long_wait_notice: self.long_wait, first })
        } else {
            None
        }
    }
}

/// Two statuses in a row that are equal by value never lead to two
/// updates.
pub proof fn lemma_equal_statuses_emit_once(p: ProgressPolicy, trace: Seq<Observation>, i: nat)
    requires
        i + 1 < trace.len(),
        trace[i as int].status == trace[i as int + 1].status,
    ensures
        !(emits(p, trace, i) && emits(p, trace, i + 1)),
{
    assert(policy_after_all(p, trace, i + 1) == policy_after(
        policy_after_all(p, trace, i),
        trace[i as int],
    ));
}

/// After an update for observation `i`, the policy holds an update that
/// was sent no earlier than that one and no later than the last of the
/// observations it has met.
proof fn lemma_last_emission_is_recent(
    p: ProgressPolicy,
    trace: Seq<Observation>,
    i: nat,
    n: nat,
)
    requires
        i < n <= trace.len(),
        in_clock_order(trace),
        emits(p, trace, i),
    ensures
        policy_after_all(p, trace, n).last is Some,
        policy_after_all(p, trace, n).last->0.at >= trace[i as int].sent,
        policy_after_all(p, trace, n).last->0.at <= trace[n - 1].sent,
    decreases n,
{
    if n > i + 1 {
        lemma_last_emission_is_recent(p, trace, i, (n - 1) as nat);
        assert(trace[n - 2].sent <= trace[n - 1].seen);
        assert(trace[n - 1].seen <= trace[n - 1].sent);
        assert(trace[i as int].sent <= trace[n - 1].seen);
    }
}

/// No two updates of one job are sent less than the debounce time
/// apart, on a clock that does not run backwards.
pub proof fn lemma_updates_are_debounced(
    p: ProgressPolicy,
    trace: Seq<Observation>,
    i: nat,
    j: nat,
)
    requires
        i < j < trace.len(),
        in_clock_order(trace),
        emits(p, trace, i),
        emits(p, trace, j),
    ensures
        trace[j as int].sent - trace[i as int].sent >= DEBOUNCE_MILLIS,
{
    lemma_last_emission_is_recent(p, trace, i, j);
    assert(trace[j as int].seen <= trace[j as int].sent);
}

/// The long-wait flag, once set, stays set.
proof fn lemma_long_wait_is_sticky(p: ProgressPolicy, trace: Seq<Observation>, i: nat, n: nat)
    requires
        i < n <= trace.len(),
        trace[i as int].status.wait_time >= LONG_WAIT_SECS,
    ensures
        policy_after_all(p, trace, n).long_wait,
    decreases n,
{
    if n > i + 1 {
        lemma_long_wait_is_sticky(p, trace, i, (n - 1) as nat);
    }
}

/// Once a status with a long wait was seen, the update for it and for
/// every later status carries the notice, also where a later status
/// tells of a short wait.
pub proof fn lemma_notice_after_long_wait(
    p: ProgressPolicy,
    trace: Seq<Observation>,
    i: nat,
    j: nat,
)
    requires
        i <= j < trace.len(),
        trace[i as int].status.wait_time >= LONG_WAIT_SECS,
    ensures
        carries_notice(p, trace, j),
{
    if i < j {
        lemma_long_wait_is_sticky(p, trace, i, j);
    }
}

} // verus!
