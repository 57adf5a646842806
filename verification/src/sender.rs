//! Delivery engine decisions: global rate limiting and bounded retry.
//!
//! The engine keeps one last-successful-send timestamp shared by every
//! fragment of every alert; before any send, at least the minimum interval
//! must have passed since that timestamp. Each fragment is attempted a
//! bounded number of times with a fixed delay between attempts; exhausting
//! them surfaces exactly one failure and never aborts the run. The waits,
//! the subprocess that performs a send, and the clock live outside this
//! crate: callers feed timestamps and attempt outcomes in, and act on the
//! decisions handed back.

use vstd::prelude::*;

verus! {

/// Minimum interval between successful sends, in milliseconds.
pub const MIN_SEND_INTERVAL_MS: u64 = 20000;

/// Fixed delay between delivery attempts of one fragment, in milliseconds.
pub const RETRY_DELAY_MS: u64 = 5000;

/// Total delivery attempts per fragment: the first try plus the retries.
pub const MAX_ATTEMPTS: u32 = 4;

/// The delivery engine's state: the timestamp of the last successful send,
/// or nothing before the first one.
#[derive(Debug)]
pub struct MessageSender {
    pub last_send_ms: Option<u64>,
}

/// A recorded timestamp leaves room for one more interval, so the next
/// send's deadline always fits the clock's type.
pub open spec fn sender_wf(s: MessageSender) -> bool {
    match s.last_send_ms {
        Some(t) => t <= u64::MAX - MIN_SEND_INTERVAL_MS,
        None => true,
    }
}

/// Milliseconds that must still pass at `now` before the next send: zero
/// before the first send, zero once the interval since the last success has
/// elapsed, the remainder of that interval otherwise.
pub open spec fn spec_wait(last: Option<u64>, now: u64) -> int {
    match last {
        None => 0,
        Some(t) => if now >= t + MIN_SEND_INTERVAL_MS {
            0
        } else {
            t + MIN_SEND_INTERVAL_MS - now
        },
    }
}

impl MessageSender {
    /// A fresh engine that has sent nothing yet.
    pub fn new() -> (s: Self)
        ensures
            s.last_send_ms is None,
            sender_wf(s),
    {
        MessageSender { last_send_ms: None }
    }

    /// How long a send starting at `now_ms` must still wait.
    pub fn wait_before_send(&self, now_ms: u64) -> (w: u64)
        requires
            sender_wf(*self),
        ensures
            w == spec_wait(self.last_send_ms, now_ms),
    {
        match self.last_send_ms {
            None => 0,
            Some(t) => {
                if now_ms >= t {
                    let elapsed = now_ms - t;
                    if elapsed >= MIN_SEND_INTERVAL_MS {
                        0
                    } else {
                        MIN_SEND_INTERVAL_MS - elapsed
                    }
                } else {
                    MIN_SEND_INTERVAL_MS + (t - now_ms)
                }
            },
        }
    }

    /// Record a successful send at `now_ms`. The caller must have waited the
    /// engine out: no wait may be pending at `now_ms`.
    pub fn record_success(&mut self, now_ms: u64)
        requires
            sender_wf(*old(self)),
            spec_wait(old(self).last_send_ms, now_ms) == 0,
            now_ms <= u64::MAX - MIN_SEND_INTERVAL_MS,
        ensures
            final(self).last_send_ms == Some(now_ms),
            sender_wf(*final(self)),
    {
        self.last_send_ms = Some(now_ms);
    }
}

/// Law: successful sends are rate limited. When a send is recorded at `t1`
/// and a later send is allowed to go out at `t2` (no wait pending), the two
/// timestamps are at least the minimum interval apart.
pub proof fn lemma_rate_limit_gap(t1: u64, t2: u64)
    requires
        spec_wait(Some(t1), t2) == 0,
    ensures
        t2 - t1 >= MIN_SEND_INTERVAL_MS,
{
}

/// What the retry loop does after one attempt.
#[derive(Clone, Copy, PartialEq, Eq, Structural, Debug)]
pub enum RetryAction {
    /// The attempt succeeded: record the send and move on.
    Succeeded,
    /// The attempt failed and attempts remain: wait this long, then retry.
    RetryAfterMs(u64),
    /// The last attempt failed: log one failure and move on.
    Failed,
}

/// Decide what follows delivery attempt number `attempt` (counted from 0).
pub fn retry_decision(attempt: u32, delivered: bool) -> (a: RetryAction)
    requires
        attempt < MAX_ATTEMPTS,
    ensures
        delivered ==> a == RetryAction::Succeeded,
        !delivered && attempt + 1 < MAX_ATTEMPTS ==> a == RetryAction::RetryAfterMs(
            RETRY_DELAY_MS,
        ),
        !delivered && attempt + 1 == MAX_ATTEMPTS ==> a == RetryAction::Failed,
{
    if delivered {
        RetryAction::Succeeded
    } else if attempt + 1 < MAX_ATTEMPTS {
        RetryAction::RetryAfterMs(RETRY_DELAY_MS)
    } else {
        RetryAction::Failed
    }
}

/// Index of the first successful attempt, if any.
pub open spec fn spec_first_true(outcomes: Seq<bool>) -> Option<int>
    decreases outcomes.len(),
{
    if outcomes.len() == 0 {
        None
    } else if outcomes[0] {
        Some(0)
    } else {
        match spec_first_true(outcomes.drop_first()) {
            Some(i) => Some(i + 1),
            None => None,
        }
    }
}

/// Failures surfaced for one fragment: none when some attempt succeeds,
/// exactly one when they are exhausted.
pub open spec fn spec_failures_logged(outcomes: Seq<bool>) -> int {
    if spec_first_true(outcomes) is Some {
        0
    } else {
        1
    }
}

/// How one fragment's delivery ends.
#[derive(Debug)]
pub struct DeliveryReport {
    pub delivered: bool,
    pub attempts_made: u32,
    pub failures_logged: u32,
}

/// The outcome of the bounded retry loop for one fragment, given the result
/// each attempt would have: attempts stop at the first success, never
/// re-sending, and exhaustion surfaces exactly one failure.
pub fn delivery_report(outcomes: &Vec<bool>) -> (r: DeliveryReport)
    requires
        outcomes@.len() == MAX_ATTEMPTS as int,
    ensures
        r.delivered == (spec_first_true(outcomes@) is Some),
        match spec_first_true(outcomes@) {
            Some(i) => r.attempts_made == i + 1,
            None => r.attempts_made == MAX_ATTEMPTS,
        },
        r.failures_logged == spec_failures_logged(outcomes@),
{
    let n = outcomes.len();
    let mut attempt: u32 = 0;
    proof {
        assert(outcomes@.skip(0) =~= outcomes@);
    }
    while attempt < MAX_ATTEMPTS
        invariant
            attempt <= MAX_ATTEMPTS,
            n == MAX_ATTEMPTS,
            outcomes@.len() == MAX_ATTEMPTS as int,
            forall|k: int| 0 <= k < attempt ==> !outcomes@[k],
        decreases MAX_ATTEMPTS - attempt,
    {
        if outcomes[attempt as usize] {
            proof {
                lemma_first_true_at(outcomes@, attempt as int);
            }
            return DeliveryReport {
                delivered: true,
                attempts_made: attempt + 1,
                failures_logged: 0,
            };
        }
        attempt = attempt + 1;
    }
    proof {
        lemma_first_true_none(outcomes@);
    }
    DeliveryReport { delivered: false, attempts_made: MAX_ATTEMPTS, failures_logged: 1 }
}

/// `spec_first_true` names the least successful index, and `None` only when
/// every attempt fails.
proof fn lemma_first_true_char(outcomes: Seq<bool>)
    ensures
        match spec_first_true(outcomes) {
            Some(i) => 0 <= i < outcomes.len() && outcomes[i] && forall|k: int|
                0 <= k < i ==> !outcomes[k],
            None => forall|k: int| 0 <= k < outcomes.len() ==> !outcomes[k],
        },
    decreases outcomes.len(),
{
    if outcomes.len() > 0 && !outcomes[0] {
        lemma_first_true_char(outcomes.drop_first());
        match spec_first_true(outcomes.drop_first()) {
            Some(i) => {
                assert(outcomes[i + 1] == outcomes.drop_first()[i]);
                assert forall|k: int| 0 <= k < i + 1 implies !outcomes[k] by {
                    if k >= 1 {
                        assert(outcomes[k] == outcomes.drop_first()[k - 1]);
                    }
                }
            },
            None => {
                assert forall|k: int| 0 <= k < outcomes.len() implies !outcomes[k] by {
                    if k >= 1 {
                        assert(outcomes[k] == outcomes.drop_first()[k - 1]);
                    }
                }
            },
        }
    }
}

/// A success at `at` preceded only by failures is the first success.
proof fn lemma_first_true_at(outcomes: Seq<bool>, at: int)
    requires
        0 <= at < outcomes.len(),
        outcomes[at],
        forall|k: int| 0 <= k < at ==> !outcomes[k],
    ensures
        spec_first_true(outcomes) == Some(at),
{
    lemma_first_true_char(outcomes);
    match spec_first_true(outcomes) {
        Some(i) => {
            if i < at {
                assert(!outcomes[i]);
            }
            if at < i {
                assert(!outcomes[at]);
            }
        },
        None => {
            assert(!outcomes[at]);
        },
    }
}

/// With no successful attempt at all, there is no first success.
proof fn lemma_first_true_none(outcomes: Seq<bool>)
    requires
        forall|k: int| 0 <= k < outcomes.len() ==> !outcomes[k],
    ensures
        spec_first_true(outcomes) is None,
{
    lemma_first_true_char(outcomes);
    match spec_first_true(outcomes) {
        Some(i) => {
            assert(!outcomes[i]);
        },
        None => {},
    }
}

/// Law: a delivery that fails on every attempt logs exactly one failure —
/// and, being the contract of a total function, never aborts the run.
pub proof fn lemma_exhausted_delivery(outcomes: Seq<bool>)
    requires
        outcomes.len() == MAX_ATTEMPTS as int,
        forall|k: int| 0 <= k < outcomes.len() ==> !outcomes[k],
    ensures
        spec_first_true(outcomes) is None,
        spec_failures_logged(outcomes) == 1,
{
    lemma_first_true_none(outcomes);
}

} // verus!
