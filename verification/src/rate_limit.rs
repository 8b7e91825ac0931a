use std::collections::HashMap;
use vstd::prelude::*;

verus! {

broadcast use vstd::std_specs::hash::group_hash_axioms;

/// The running window of one user: how many requests it has seen and
/// when it began.
#[derive(Clone, Copy, Debug, PartialEq, Eq, Structural)]
pub struct Window {
    pub count: u64,
    pub started: u64,
}

/// What a limiter is, to its contracts: its two settings and the window
/// of each user that has one.
pub struct LimiterState {
    pub limit: nat,
    pub window: nat,
    pub windows: Map<i64, Window>,
}

/// Time that has passed since `started`; none if the clock reads earlier.
pub open spec fn elapsed(started: nat, now: nat) -> nat {
    if now >= started {
        (now - started) as nat
    } else {
        0
    }
}

/// Whether `user` has a window that has not yet run out at `now`.
pub open spec fn has_active_window(s: LimiterState, user: i64, now: nat) -> bool {
    s.windows.contains_key(user) && elapsed(s.windows[user].started as nat, now) < s.window
}

/// A count raised by one, held at the largest value once it is reached.
pub open spec fn next_count(count: u64) -> u64 {
    if count < u64::MAX {
        (count + 1) as u64
    } else {
        count
    }
}

/// The window of `user` after a request at `now`: the running window with
/// its count raised, or a fresh one that has counted this request.
pub open spec fn window_after(s: LimiterState, user: i64, now: u64) -> Window {
    if has_active_window(s, user, now as nat) {
        Window { count: next_count(s.windows[user].count), started: s.windows[user].started }
    } else {
        Window { count: 1, started: now }
    }
}

/// The limiter after a request of `user` at `now`: only that user's
/// window changes.
pub open spec fn state_after(s: LimiterState, user: i64, now: u64) -> LimiterState {
    LimiterState {
        limit: s.limit,
        window: s.window,
        windows: s.windows.insert(user, window_after(s, user, now)),
    }
}

/// Whether a request of `user` at `now` is let in: always when it opens a
/// window, else while the raised count stays within the limit.
pub open spec fn admits(s: LimiterState, user: i64, now: u64) -> bool {
    !has_active_window(s, user, now as nat) || window_after(s, user, now).count <= s.limit
}

/// The limiter after the requests of `user` at the first `n` of `times`.
pub open spec fn state_after_all(s: LimiterState, user: i64, times: Seq<u64>, n: nat)
    -> LimiterState
    decreases n,
{
    if n == 0 {
        s
    } else {
        state_after(state_after_all(s, user, times, (n - 1) as nat), user, times[n - 1])
    }
}

/// Fixed-window admission control, one window for each user.
pub struct RateLimiter {
    limit: u32,
    window: u64,
    windows: HashMap<i64, Window>,
}

impl View for RateLimiter {
    type V = LimiterState;

    closed spec fn view(&self) -> LimiterState {
        LimiterState {
            limit: self.limit as nat,
            window: self.window as nat,
            windows: self.windows@,
        }
    }
}

impl RateLimiter {
    /// A limiter that lets each user make `limit` requests in a window of
    /// `window` time units. No user has a window yet.
    pub fn new(limit: u32, window: u64) -> (limiter: Self)
        ensures
            limiter@.limit == limit,
            limiter@.window == window,
            limiter@.windows == Map::<i64, Window>::empty(),
    {
        RateLimiter { limit, window, windows: HashMap::new() }
    }

    pub fn limit(&self) -> (limit: u32)
        ensures
            limit == self@.limit,
    {
        self.limit
    }

    pub fn window(&self) -> (window: u64)
        ensures
            window == self@.window,
    {
        self.window
    }

    /// Counts a request of `user_id` at `now` and says whether it is let
    /// in. `now` is read from one clock, in the unit of the window.
    pub fn try_acquire(&mut self, user_id: i64, now: u64) -> (allowed: bool)
        ensures
            allowed == admits(old(self)@, user_id, now),
            final(self)@ == state_after(old(self)@, user_id, now),
    {
        let ghost before = self@;
        let running: Option<Window> = match self.windows.get(&user_id) {
            Some(w) => Some(*w),
            None => None,
        };
        let mut next = Window { count: 1, started: now };
        let mut allowed = true;
        if let Some(w) = running {
            let passed: u64 = if now >= w.started {
                now - w.started
            } else {
                0
            };
            if passed < self.window {
                let count: u64 = if w.count < u64::MAX {
                    w.count + 1
                } else {
                    w.count
                };
                next = Window { count, started: w.started };
                allowed = count <= self.limit as u64;
            }
        }
        self.windows.insert(user_id, next);
        assert(self@.windows =~= state_after(before, user_id, now).windows);
        allowed
    }
}

/// A request that finds no running window opens one, is let in, and is
/// the first that the new window counts: so it is after a window has run
/// out, whatever that window had counted.
pub proof fn lemma_fresh_window_admits(s: LimiterState, user: i64, now: u64)
    requires
        !has_active_window(s, user, now as nat),
    ensures
        admits(s, user, now),
        state_after(s, user, now).windows[user] == (Window { count: 1, started: now }),
{
}

/// Once a user's window has run out, the next request of that user is
/// let in and starts the count anew, whatever the old window had counted.
pub proof fn lemma_window_runs_out(s: LimiterState, user: i64, now: u64)
    requires
        s.windows.contains_key(user),
        now - s.windows[user].started >= s.window,
    ensures
        admits(s, user, now),
        state_after(s, user, now).windows[user] == (Window { count: 1, started: now }),
{
}

/// A request of one user leaves the window of every other user as it was.
pub proof fn lemma_users_are_independent(s: LimiterState, user: i64, other: i64, now: u64)
    requires
        user != other,
    ensures
        state_after(s, user, now).windows.contains_key(other) == s.windows.contains_key(other),
        s.windows.contains_key(other) ==> state_after(s, user, now).windows[other]
            == s.windows[other],
        forall|t: u64| admits(state_after(s, user, now), other, t) == admits(s, other, t),
{
}

/// The window of `user` while requests at `times` keep arriving inside
/// the window that the first of them opened.
proof fn lemma_window_while_running(s: LimiterState, user: i64, times: Seq<u64>, n: nat)
    requires
        0 < n <= times.len(),
        s.limit <= u32::MAX,
        !has_active_window(s, user, times[0] as nat),
        forall|i: int| 0 <= i < times.len() ==> times[0] <= #[trigger] times[i],
        forall|i: int| 0 <= i < times.len() ==> #[trigger] times[i] - times[0] < s.window,
    ensures
        state_after_all(s, user, times, n).limit == s.limit,
        state_after_all(s, user, times, n).window == s.window,
        state_after_all(s, user, times, n).windows.contains_key(user),
        state_after_all(s, user, times, n).windows[user].started == times[0],
        state_after_all(s, user, times, n).windows[user].count == if n <= u64::MAX {
            n
        } else {
            u64::MAX as nat
        },
    decreases n,
{
    if n > 1 {
        lemma_window_while_running(s, user, times, (n - 1) as nat);
        let before = state_after_all(s, user, times, (n - 1) as nat);
        assert(times[0] <= times[n - 1]);
        assert(times[n - 1] - times[0] < s.window);
        assert(has_active_window(before, user, times[n - 1] as nat));
    } else {
        assert(state_after_all(s, user, times, 0) == s);
    }
}

/// Of the requests that one user makes inside one window, the first
/// `limit` are let in and every later one is refused. The window is the
/// one that the first request opens; the limit is at least one.
pub proof fn lemma_excess_is_denied(s: LimiterState, user: i64, times: Seq<u64>, k: nat)
    requires
        k < times.len(),
        1 <= s.limit <= u32::MAX,
        !has_active_window(s, user, times[0] as nat),
        forall|i: int| 0 <= i < times.len() ==> times[0] <= #[trigger] times[i],
        forall|i: int| 0 <= i < times.len() ==> #[trigger] times[i] - times[0] < s.window,
    ensures
        admits(state_after_all(s, user, times, k), user, times[k as int]) == (k < s.limit),
{
    if k > 0 {
        lemma_window_while_running(s, user, times, k);
        let before = state_after_all(s, user, times, k);
        assert(times[0] <= times[k as int]);
        assert(times[k as int] - times[0] < s.window);
        assert(has_active_window(before, user, times[k as int] as nat));
    }
}

} // verus!
