//! The default retry policy: a fixed pause, counted from the oldest failure
//! that is still remembered.

use crate::sender::{RetryLevel, RetryManager, Timestamp};
use std::collections::VecDeque;
use vstd::prelude::*;

verus! {

/// What a constant-delay policy is made of.
#[verifier::ext_equal]
pub struct DelayState {
    /// The failures that are remembered, newest first.
    pub history: Seq<Timestamp>,
    /// How many failures are remembered at most.
    pub max_errors: nat,
    /// The pause after the oldest remembered failure, in nanoseconds.
    pub wait: nat,
}

impl DelayState {
    /// The policy that has seen no failure, remembers up to 100 of them and
    /// asks for 50 milliseconds.
    pub open spec fn fresh() -> DelayState {
        DelayState { history: Seq::empty(), max_errors: 100, wait: 50_000_000 }
    }

    /// No more failures are remembered than the policy allows.
    pub open spec fn bounded(self) -> bool {
        self.history.len() <= self.max_errors
    }

    /// The policy after every failure is forgotten.
    pub open spec fn reset(self) -> DelayState {
        DelayState { history: Seq::empty(), ..self }
    }

    /// The policy after a failure at `now`: `now` goes to the front, and
    /// where that makes more than `max_errors` the oldest, at the back,
    /// leaves.
    pub open spec fn record_error(self, now: Timestamp) -> DelayState {
        let pushed = seq![now] + self.history;
        if pushed.len() > self.max_errors {
            DelayState { history: pushed.drop_last(), ..self }
        } else {
            DelayState { history: pushed, ..self }
        }
    }

    /// The verdict at `now`: given up where more failures are remembered
    /// than allowed; ready where none is remembered, or where `wait` has
    /// passed since the oldest of them; else wait.
    pub open spec fn attempt(self, now: Timestamp) -> RetryLevel {
        if self.history.len() > self.max_errors {
            RetryLevel::AttemptsExceeded
        } else if self.history.len() == 0 {
            RetryLevel::Ready
        } else if now.since(self.history.last()) >= self.wait {
            RetryLevel::Ready
        } else {
            RetryLevel::Wait
        }
    }

    /// The policy after the failures `errors`, recorded in that order.
    pub open spec fn after_errors(self, errors: Seq<Timestamp>) -> DelayState
        decreases errors.len(),
    {
        if errors.len() == 0 {
            self
        } else {
            self.after_errors(errors.drop_last()).record_error(errors.last())
        }
    }
}

/// How many of `recorded` failures a policy with room for `max_errors` still
/// remembers.
pub open spec fn retained(recorded: nat, max_errors: nat) -> nat {
    if recorded <= max_errors {
        recorded
    } else {
        max_errors
    }
}

/// Forgetting twice is forgetting once.
pub proof fn lemma_reset_is_idempotent(state: DelayState)
    ensures
        state.reset().reset() == state.reset(),
        state.reset().history.len() == 0,
{
}

/// After forgetting, the policy is ready at any time.
pub proof fn lemma_reset_is_ready(state: DelayState, now: Timestamp)
    ensures
        state.reset().attempt(now) == RetryLevel::Ready,
{
}

/// Recording a failure never takes the history over its bound, and touches
/// neither the bound nor the pause. With room left the history grows by the
/// new failure at the front; without, the oldest leaves at the back.
pub proof fn lemma_record_keeps_bound(state: DelayState, now: Timestamp)
    requires
        state.bounded(),
    ensures
        state.record_error(now).bounded(),
        state.record_error(now).max_errors == state.max_errors,
        state.record_error(now).wait == state.wait,
        state.history.len() < state.max_errors ==> state.record_error(now).history == seq![now]
            + state.history,
        state.history.len() == state.max_errors && state.max_errors > 0 ==> state.record_error(
            now,
        ).history == seq![now] + state.history.drop_last(),
        state.max_errors == 0 ==> state.record_error(now).history.len() == 0,
{
    let pushed = seq![now] + state.history;
    if state.history.len() == state.max_errors && state.max_errors > 0 {
        assert(pushed.drop_last() =~= seq![now] + state.history.drop_last());
    }
    if state.max_errors == 0 {
        assert(pushed.drop_last().len() == 0);
    }
}

/// A policy within its bound never gives up.
pub proof fn lemma_bounded_never_exceeded(state: DelayState, now: Timestamp)
    requires
        state.bounded(),
    ensures
        state.attempt(now) != RetryLevel::AttemptsExceeded,
{
}

/// What a policy that started empty remembers after the failures `errors`:
/// the newest of them, as many as it has room for, newest first.
pub proof fn lemma_history_after_errors(start: DelayState, errors: Seq<Timestamp>)
    requires
        start.history.len() == 0,
    ensures
        ({
            let end = start.after_errors(errors);
            let kept = retained(errors.len(), start.max_errors);
            &&& end.max_errors == start.max_errors
            &&& end.wait == start.wait
            &&& end.bounded()
            &&& end.history.len() == kept
            &&& forall|k: int| 0 <= k < kept ==> end.history[k] == errors[errors.len() - 1 - k]
        }),
    decreases errors.len(),
{
    if errors.len() > 0 {
        let before = start.after_errors(errors.drop_last());
        lemma_history_after_errors(start, errors.drop_last());
        lemma_record_keeps_bound(before, errors.last());
        let end = before.record_error(errors.last());
        let kept = retained(errors.len(), start.max_errors);
        assert forall|k: int| 0 <= k < kept implies end.history[k] == errors[errors.len() - 1
            - k] by {
            if k > 0 {
                assert(end.history[k] == before.history[k - 1]);
                assert(before.history[k - 1] == errors.drop_last()[errors.drop_last().len() - 1 - (k
                    - 1)]);
            }
        }
    }
}

/// The verdict of a policy that started empty, has room for at least one
/// failure and was told of `errors`, in that order: ready exactly where
/// there was no failure, or where the pause has passed since the oldest
/// failure that is still remembered; and never given up.
pub proof fn lemma_ready_after_errors(start: DelayState, errors: Seq<Timestamp>, now: Timestamp)
    requires
        start.history.len() == 0,
        start.max_errors > 0,
    ensures
        ({
            let verdict = start.after_errors(errors).attempt(now);
            let oldest = errors[errors.len() - retained(errors.len(), start.max_errors)];
            &&& verdict != RetryLevel::AttemptsExceeded
            &&& verdict == RetryLevel::Ready <==> errors.len() == 0 || now.since(oldest)
                >= start.wait
        }),
{
    lemma_history_after_errors(start, errors);
    let end = start.after_errors(errors);
    let kept = retained(errors.len(), start.max_errors);
    if errors.len() > 0 {
        assert(end.history.last() == end.history[kept - 1]);
    }
}

/// The default policy, told of `errors` in that order, is ready at `now`
/// exactly where there was no failure, or where 50 milliseconds have passed
/// since the oldest of the last hundred failures.
pub proof fn lemma_default_ready_after_errors(errors: Seq<Timestamp>, now: Timestamp)
    ensures
        ({
            let verdict = DelayState::fresh().after_errors(errors).attempt(now);
            let oldest = errors[errors.len() - retained(errors.len(), 100)];
            &&& verdict != RetryLevel::AttemptsExceeded
            &&& verdict == RetryLevel::Ready <==> errors.len() == 0 || now.since(oldest)
                >= 50_000_000
        }),
{
    lemma_ready_after_errors(DelayState::fresh(), errors, now);
}

/// Retry policy with a constant pause.
pub struct ConstantDelay {
    error_records: VecDeque<Timestamp>,
    max_errors: usize,
    wait: u128,
}

impl View for ConstantDelay {
    type V = DelayState;

    closed spec fn view(&self) -> DelayState {
        DelayState {
            history: self.error_records@,
            max_errors: self.max_errors as nat,
            wait: self.wait as nat,
        }
    }
}

impl ConstantDelay {
    /// A policy that has seen no failure, remembers up to 100 of them and
    /// asks for 50 milliseconds.
    pub fn default() -> (policy: ConstantDelay)
        ensures
            policy@ == DelayState::fresh(),
    {
        ConstantDelay {
            error_records: VecDeque::with_capacity(100),
            max_errors: 100,
            wait: 50_000_000,
        }
    }

    /// How many failures are remembered.
    pub fn error_count(&self) -> (count: usize)
        ensures
            count == self@.history.len(),
    {
        self.error_records.len()
    }
}

impl RetryManager for ConstantDelay {
    open spec fn answers(&self, now: Timestamp, level: RetryLevel) -> bool {
        level == self@.attempt(now)
    }

    open spec fn resets_to(&self, after: &Self) -> bool {
        after@ == self@.reset()
    }

    open spec fn records_to(&self, now: Timestamp, after: &Self) -> bool {
        after@ == self@.record_error(now)
    }

    fn reset(&mut self)
        ensures
            final(self)@ == old(self)@.reset(),
    {
        self.error_records.clear();
    }

    fn record_error(&mut self, now: Timestamp)
        ensures
            final(self)@ == old(self)@.record_error(now),
    {
        self.error_records.push_front(now);
        if self.error_records.len() > self.max_errors {
            self.error_records.pop_back();
        }
    }

    fn attempt(&self, now: Timestamp) -> (level: RetryLevel)
        ensures
            level == self@.attempt(now),
    {
        let len = self.error_records.len();
        if len > self.max_errors {
            RetryLevel::AttemptsExceeded
        } else if len == 0 {
            RetryLevel::Ready
        } else {
            let last = self.error_records[len - 1];
            if now.elapsed_since(last) >= self.wait {
                RetryLevel::Ready
            } else {
                RetryLevel::Wait
            }
        }
    }
}

} // verus!
