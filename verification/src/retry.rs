use vstd::prelude::*;

verus! {

/// How often a failed call is tried again.
pub const RETRY_COUNT: u32 = 3;

/// Seconds between a failed attempt and the next.
pub const RETRY_DELAY_SECS: u64 = 2;

/// Why one attempt of a remote call failed.
#[derive(Clone, Copy, Debug, PartialEq, Eq, Structural)]
pub enum TransportError {
    /// The request did not get an answer.
    Network,
    /// The answer carried a status that is no success.
    Status(u16),
}

/// What to do after one attempt of a remote call.
#[derive(Clone, Copy, Debug, PartialEq, Eq, Structural)]
pub enum RetryDecision {
    /// The attempt succeeded: hand its response back.
    Return,
    /// The attempt failed: note it as retry number `retry`, wait
    /// `delay_secs` and try again.
    RetryAfter { delay_secs: u64, retry: u32 },
    /// The attempt failed and no retry is left: hand its error back.
    GiveUp { attempts: u32 },
}

/// The decision after an attempt, given how many attempts of this call
/// failed before it.
pub open spec fn decision(failures: nat, succeeded: bool) -> RetryDecision {
    if succeeded {
        RetryDecision::Return
    } else if failures < RETRY_COUNT {
        RetryDecision::RetryAfter { delay_secs: RETRY_DELAY_SECS, retry: (failures + 1) as u32 }
    } else {
        RetryDecision::GiveUp { attempts: (failures + 1) as u32 }
    }
}

/// The failures on record after an attempt: one more for a failure that
/// is retried.
pub open spec fn failures_after(failures: nat, succeeded: bool) -> nat {
    if !succeeded && failures < RETRY_COUNT {
        failures + 1
    } else {
        failures
    }
}

/// Whether attempt `k`, counted from zero, decides a call whose attempts
/// end as `outcomes` tells (`true` for a success): every attempt before it
/// failed and was retried, and it succeeds or is the last one allowed.
pub open spec fn settles_at(outcomes: Seq<bool>, k: int) -> bool {
    &&& 0 <= k < outcomes.len()
    &&& k <= RETRY_COUNT
    &&& forall|j: int| 0 <= j < k ==> !#[trigger] outcomes[j]
    &&& (outcomes[k] || k == RETRY_COUNT)
}

/// The retry policy of one remote call: bounded retries, a fixed delay.
pub struct RetryingTransport {
    failures: u32,
}

impl View for RetryingTransport {
    type V = nat;

    closed spec fn view(&self) -> nat {
        self.failures as nat
    }
}

impl RetryingTransport {
    #[verifier::type_invariant]
    spec fn within_bound(self) -> bool {
        self.failures <= RETRY_COUNT
    }

    /// The policy before the first attempt of a call.
    pub fn new() -> (policy: Self)
        ensures
            policy@ == 0,
    {
        RetryingTransport { failures: 0 }
    }

    /// Takes note of how one attempt ended and says what to do next.
    pub fn on_attempt(&mut self, succeeded: bool) -> (next: RetryDecision)
        ensures
            next == decision(old(self)@, succeeded),
            final(self)@ == failures_after(old(self)@, succeeded),
    {
        proof {
            use_type_invariant(&*self);
        }
        if succeeded {
            RetryDecision::Return
        } else if self.failures < RETRY_COUNT {
            self.failures = self.failures + 1;
            RetryDecision::RetryAfter { delay_secs: RETRY_DELAY_SECS, retry: self.failures }
        } else {
            RetryDecision::GiveUp { attempts: self.failures + 1 }
        }
    }

    /// Runs the policy over a call whose attempts end as `outcomes` tells,
    /// in order. Gives the attempt that decides the call, counted from
    /// zero, and whether it succeeded: the call returns what that attempt
    /// returned. Gives nothing if the attempts end before the call is
    /// decided.
    pub fn settle(outcomes: &Vec<bool>) -> (verdict: Option<(usize, bool)>)
        ensures
            match verdict {
                Some((k, succeeded)) => settles_at(outcomes@, k as int) && succeeded
                    == outcomes@[k as int],
                None => forall|k: int| !settles_at(outcomes@, k),
            },
    {
        let mut policy = RetryingTransport::new();
        let mut k: usize = 0;
        while k < outcomes.len()
            invariant
                k <= outcomes.len(),
                policy@ == k,
                k <= RETRY_COUNT,
                forall|j: int| 0 <= j < k ==> !#[trigger] outcomes@[j],
            decreases outcomes.len() - k,
        {
            let succeeded = outcomes[k];
            match policy.on_attempt(succeeded) {
                RetryDecision::RetryAfter { .. } => {
                    k = k + 1;
                },
                _ => {
                    return Some((k, succeeded));
                },
            }
        }
        assert forall|i: int| !settles_at(outcomes@, i) by {
            if 0 <= i < outcomes@.len() && i <= RETRY_COUNT {
                if i < k {
                    assert(!outcomes@[i]);
                }
            }
        }
        None
    }
}

/// At most one attempt decides a call.
pub proof fn lemma_settles_once(outcomes: Seq<bool>, a: int, b: int)
    requires
        settles_at(outcomes, a),
        settles_at(outcomes, b),
    ensures
        a == b,
{
    if a < b {
        assert(!outcomes[a]);
    } else if b < a {
        assert(!outcomes[b]);
    }
}

/// A call whose first attempt succeeds is decided by it: nothing is
/// retried.
pub proof fn lemma_success_needs_no_retry(outcomes: Seq<bool>)
    requires
        outcomes.len() > 0,
        outcomes[0],
    ensures
        settles_at(outcomes, 0),
{
}

/// A call that fails no more often than it may be retried and then
/// succeeds is decided by that success.
pub proof fn lemma_success_after_failures(outcomes: Seq<bool>, failures: int)
    requires
        0 <= failures <= RETRY_COUNT,
        failures < outcomes.len(),
        forall|j: int| 0 <= j < failures ==> !#[trigger] outcomes[j],
        outcomes[failures],
    ensures
        settles_at(outcomes, failures),
{
}

/// A call that fails once more than it may be retried is decided by that
/// last failure, whatever a later attempt would have brought.
pub proof fn lemma_failure_after_last_retry(outcomes: Seq<bool>)
    requires
        outcomes.len() > RETRY_COUNT,
        forall|j: int| 0 <= j <= RETRY_COUNT ==> !#[trigger] outcomes[j],
    ensures
        settles_at(outcomes, RETRY_COUNT as int),
        !outcomes[RETRY_COUNT as int],
{
}

} // verus!
