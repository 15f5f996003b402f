//! Sending with retries. The dispatcher decides; the caller sends. After
//! every attempt the caller reports how it went and is told whether to stop
//! or to send a fresh copy of the request again, at once.

use vstd::prelude::*;
use crate::outcome::{
    OutcomeModel, RequestOutcome, ResponseHead, ResponseHeadModel, SendFailure, SendFailureModel,
};
use crate::text::{decimal, push_decimal};

verus! {

/// How one attempt went.
#[derive(Clone, Debug, PartialEq, Eq)]
pub enum AttemptResult {
    /// A response arrived.
    Response(ResponseHead),
    /// The attempt failed; a timeout is a failure like any other.
    Failed(SendFailure),
}

pub enum AttemptModel {
    Response(ResponseHeadModel),
    Failed(SendFailureModel),
}

impl View for AttemptResult {
    type V = AttemptModel;

    open spec fn view(&self) -> AttemptModel {
        match self {
            AttemptResult::Response(head) => AttemptModel::Response(head@),
            AttemptResult::Failed(failure) => AttemptModel::Failed(failure@),
        }
    }
}

/// What the caller does after an attempt.
#[derive(Clone, Debug, PartialEq, Eq)]
pub enum RetryStep {
    /// Stop: this is the outcome.
    Done(RequestOutcome),
    /// Print `diagnostic`, if there is one, and send again without delay.
    Retry { diagnostic: Option<String> },
}

pub enum RetryStepModel {
    Done(OutcomeModel),
    Retry { diagnostic: Option<Seq<char>> },
}

impl View for RetryStep {
    type V = RetryStepModel;

    open spec fn view(&self) -> RetryStepModel {
        match self {
            RetryStep::Done(outcome) => RetryStepModel::Done(outcome@),
            RetryStep::Retry { diagnostic } => RetryStepModel::Retry {
                diagnostic: match diagnostic {
                    Some(d) => Some(d@),
                    None => None,
                },
            },
        }
    }
}

/// The diagnostic of verbose mode for a failed attempt that is retried.
pub open spec fn retry_diagnostic(attempt: u32, failure: SendFailureModel) -> Seq<char> {
    "Attempt "@ + decimal(attempt as nat) + " failed, retrying... ("@ + failure.detail + ")"@
}

/// The state of one dispatch: the bound, whether to emit diagnostics, and
/// the attempts made so far.
#[derive(Clone, Copy, Debug, PartialEq, Eq, Structural)]
pub struct RetryDispatcher {
    pub max_attempts: u32,
    pub verbose: bool,
    pub attempts: u32,
}

impl RetryDispatcher {
    /// The number of attempts allowed: `max_attempts`, and one where that is
    /// zero.
    pub open spec fn limit(self) -> u32 {
        if self.max_attempts == 0 {
            1
        } else {
            self.max_attempts
        }
    }

    /// The state before the first attempt.
    pub open spec fn fresh(max_attempts: u32, verbose: bool) -> RetryDispatcher {
        RetryDispatcher { max_attempts, verbose, attempts: 0 }
    }

    /// The attempts made once one more is made. The count stops at the
    /// largest number it can hold.
    pub open spec fn counted(self) -> u32 {
        if self.attempts < u32::MAX {
            (self.attempts + 1) as u32
        } else {
            self.attempts
        }
    }

    /// The state after one more attempt.
    pub open spec fn advanced(self) -> RetryDispatcher {
        RetryDispatcher { attempts: self.counted(), ..self }
    }

    /// What follows an attempt that went as `result`. A response ends the
    /// dispatch. A failure ends it if it was the last attempt allowed, with
    /// the failure and the number of attempts made; otherwise the request
    /// is sent again, after a diagnostic in verbose mode.
    pub open spec fn decided(self, result: AttemptModel) -> RetryStepModel {
        match result {
            AttemptModel::Response(head) => RetryStepModel::Done(OutcomeModel::Success(head)),
            AttemptModel::Failed(failure) => if self.counted() >= self.limit() {
                RetryStepModel::Done(
                    OutcomeModel::Failure { failure, attempts: self.counted() },
                )
            } else {
                RetryStepModel::Retry {
                    diagnostic: if self.verbose {
                        Some(retry_diagnostic(self.counted(), failure))
                    } else {
                        None
                    },
                }
            },
        }
    }

    /// The dispatch against a transport whose attempts go as `script` says,
    /// one entry per attempt: the state at the end, and the outcome if the
    /// dispatch ended before the script did.
    pub open spec fn run(self, script: Seq<AttemptModel>) -> (RetryDispatcher, Option<OutcomeModel>)
        decreases script.len(),
    {
        if script.len() == 0 {
            (self, None)
        } else {
            match self.decided(script[0]) {
                RetryStepModel::Done(outcome) => (self.advanced(), Some(outcome)),
                RetryStepModel::Retry { .. } => self.advanced().run(script.drop_first()),
            }
        }
    }

    /// A dispatcher for at most `max_attempts` attempts; zero means one.
    pub fn new(max_attempts: u32, verbose: bool) -> (d: RetryDispatcher)
        ensures
            d == RetryDispatcher::fresh(max_attempts, verbose),
    {
        RetryDispatcher { max_attempts, verbose, attempts: 0 }
    }

    /// The number of the attempt to make next, counting from one.
    pub fn next_attempt(&self) -> (n: u32)
        ensures
            n == self.counted(),
    {
        if self.attempts < u32::MAX {
            self.attempts + 1
        } else {
            self.attempts
        }
    }

    /// Takes in how the attempt went and says what to do next.
    pub fn record(&mut self, result: AttemptResult) -> (step: RetryStep)
        ensures
            *final(self) == old(self).advanced(),
            step@ == old(self).decided(result@),
    {
        let attempt = self.next_attempt();
        let limit: u32 = if self.max_attempts == 0 {
            1
        } else {
            self.max_attempts
        };
        self.attempts = attempt;
        match result {
            AttemptResult::Response(head) => RetryStep::Done(RequestOutcome::Success(head)),
            AttemptResult::Failed(failure) => {
                if attempt >= limit {
                    RetryStep::Done(RequestOutcome::Failure { failure, attempts: attempt })
                } else if self.verbose {
                    let mut d = "Attempt ".to_owned();
                    push_decimal(&mut d, attempt as u128);
                    d.append(" failed, retrying... (");
                    d.append(failure.detail.as_str());
                    d.append(")");
                    assert(d@ =~= retry_diagnostic(attempt, failure@));
                    RetryStep::Retry { diagnostic: Some(d) }
                } else {
                    RetryStep::Retry { diagnostic: None }
                }
            },
        }
    }
}

/// Whether the first `count` attempts of `script` all fail.
pub open spec fn fails_first(script: Seq<AttemptModel>, count: int) -> bool {
    forall|i: int| 0 <= i < count ==> #[trigger] script[i] is Failed
}

/// While attempts fail and the bound is not reached, the dispatch goes on:
/// `count` failures from a state with room for more than `count` attempts
/// only move the counter.
pub proof fn lemma_failures_are_retried(d: RetryDispatcher, script: Seq<AttemptModel>, count: int)
    requires
        0 <= count <= script.len(),
        fails_first(script, count),
        d.attempts + count < d.limit(),
    ensures
        d.run(script) == (RetryDispatcher { attempts: (d.attempts + count) as u32, ..d }).run(
            script.skip(count),
        ),
    decreases count,
{
    if count == 0 {
        assert(script.skip(0) =~= script);
    } else {
        assert(script[0] is Failed);
        let next = d.advanced();
        let rest = script.drop_first();
        assert forall|i: int| 0 <= i < count - 1 implies #[trigger] rest[i] is Failed by {
            assert(script[i + 1] is Failed);
        }
        lemma_failures_are_retried(next, rest, count - 1);
        assert(rest.skip(count - 1) =~= script.skip(count));
    }
}

/// Against a transport that always fails, a dispatch allowed `n >= 1`
/// attempts makes exactly `n` and then reports the last failure with the
/// attempt count `n`. (A bound of zero stands for one attempt.)
pub proof fn lemma_retry_bound(max_attempts: u32, verbose: bool, script: Seq<AttemptModel>)
    requires
        script.len() >= RetryDispatcher::fresh(max_attempts, verbose).limit(),
        fails_first(script, script.len() as int),
    ensures
        ({
            let start = RetryDispatcher::fresh(max_attempts, verbose);
            let n = start.limit();
            &&& start.run(script).0.attempts == n
            &&& start.run(script).1 == Some(
                OutcomeModel::Failure { failure: script[n - 1]->Failed_0, attempts: n },
            )
            &&& max_attempts >= 1 ==> n == max_attempts
        }),
{
    let start = RetryDispatcher::fresh(max_attempts, verbose);
    let n = start.limit();
    assert forall|i: int| 0 <= i < n - 1 implies #[trigger] script[i] is Failed by {}
    lemma_failures_are_retried(start, script, n - 1);
    let last = RetryDispatcher { attempts: (n - 1) as u32, ..start };
    let rest = script.skip(n - 1);
    assert(rest[0] == script[n - 1]);
    assert(rest[0] is Failed);
    assert(last.counted() == n);
}

/// Against a transport that fails on the attempts before the `k`-th and
/// answers the `k`-th, with `k` within the bound, the outcome is that
/// response and no attempt beyond the `k`-th is made.
pub proof fn lemma_retry_success(
    max_attempts: u32,
    verbose: bool,
    script: Seq<AttemptModel>,
    k: int,
)
    requires
        1 <= k <= RetryDispatcher::fresh(max_attempts, verbose).limit(),
        k <= script.len(),
        fails_first(script, k - 1),
        script[k - 1] is Response,
    ensures
        ({
            let start = RetryDispatcher::fresh(max_attempts, verbose);
            &&& start.run(script).0.attempts == k
            &&& start.run(script).1 == Some(OutcomeModel::Success(script[k - 1]->Response_0))
        }),
{
    let start = RetryDispatcher::fresh(max_attempts, verbose);
    lemma_failures_are_retried(start, script, k - 1);
    let last = RetryDispatcher { attempts: (k - 1) as u32, ..start };
    let rest = script.skip(k - 1);
    assert(rest[0] == script[k - 1]);
}

} // verus!
