//! What comes back from sending a request: the head of a response, or a
//! failure with the number of attempts that were made.

use vstd::prelude::*;
use crate::text::{copy_pairs, decimal, pair_texts, push_decimal};

verus! {

/// Why a send failed.
#[derive(Clone, Copy, Debug, PartialEq, Eq, Structural)]
pub enum FailureKind {
    /// The connection could not be made or was lost.
    Network,
    /// The attempt ran into its time limit.
    Timeout,
    /// Anything else that the transport reports.
    Transport,
}

/// A failed attempt: its kind and the transport's description of it.
#[derive(Clone, Debug, PartialEq, Eq)]
pub struct SendFailure {
    pub kind: FailureKind,
    pub detail: String,
}

pub struct SendFailureModel {
    pub kind: FailureKind,
    pub detail: Seq<char>,
}

impl View for SendFailure {
    type V = SendFailureModel;

    open spec fn view(&self) -> SendFailureModel {
        SendFailureModel { kind: self.kind, detail: self.detail@ }
    }
}

/// The head of a response: what is known before the body is read.
#[derive(Clone, Debug, PartialEq, Eq)]
pub struct ResponseHead {
    /// The status code.
    pub status: u16,
    /// The reason phrase that goes with the code; empty if there is none.
    pub reason: String,
    /// The headers in the order received. A name may occur more than once.
    pub headers: Vec<(String, String)>,
    /// The size of the body, where the response declares it.
    pub content_length: Option<u64>,
}

pub struct ResponseHeadModel {
    pub status: u16,
    pub reason: Seq<char>,
    pub headers: Seq<(Seq<char>, Seq<char>)>,
    pub content_length: Option<u64>,
}

impl View for ResponseHead {
    type V = ResponseHeadModel;

    open spec fn view(&self) -> ResponseHeadModel {
        ResponseHeadModel {
            status: self.status,
            reason: self.reason@,
            headers: pair_texts(self.headers@),
            content_length: self.content_length,
        }
    }
}

/// How one request ended.
#[derive(Clone, Debug, PartialEq, Eq)]
pub enum RequestOutcome {
    /// A response arrived.
    Success(ResponseHead),
    /// No response arrived in `attempts` attempts; `failure` is the last one.
    Failure { failure: SendFailure, attempts: u32 },
}

pub enum OutcomeModel {
    Success(ResponseHeadModel),
    Failure { failure: SendFailureModel, attempts: u32 },
}

impl View for RequestOutcome {
    type V = OutcomeModel;

    open spec fn view(&self) -> OutcomeModel {
        match self {
            RequestOutcome::Success(head) => OutcomeModel::Success(head@),
            RequestOutcome::Failure { failure, attempts } => OutcomeModel::Failure {
                failure: failure@,
                attempts: *attempts,
            },
        }
    }
}

/// What a failure is called in a message: a timeout with a known limit is
/// named as such, anything else by the transport's own words.
pub open spec fn failure_text(failure: SendFailureModel, timeout_seconds: Option<u64>) -> Seq<
    char,
> {
    match timeout_seconds {
        Some(t) if failure.kind == FailureKind::Timeout => "request timed out after "@ + decimal(
            t as nat,
        ) + " seconds"@,
        _ => failure.detail,
    }
}

/// The message for a request that got no response. Without retries it
/// names the failure only; with retries it also names the attempts made.
pub open spec fn failure_report(
    failure: SendFailureModel,
    attempts: u32,
    retry_count: u32,
    timeout_seconds: Option<u64>,
) -> Seq<char> {
    if retry_count == 0 {
        "Request failed: "@ + failure_text(failure, timeout_seconds)
    } else {
        "Request failed after "@ + decimal(attempts as nat) + " attempts: "@ + failure_text(
            failure,
            timeout_seconds,
        )
    }
}

impl SendFailure {
    /// A copy of this failure.
    pub fn duplicate(&self) -> (copy: SendFailure)
        ensures
            copy@ == self@,
    {
        SendFailure { kind: self.kind, detail: self.detail.clone() }
    }

    /// Appends what this failure is called in a message.
    pub fn describe_into(&self, out: &mut String, timeout_seconds: Option<u64>)
        ensures
            final(out)@ == old(out)@ + failure_text(self@, timeout_seconds),
    {
        let is_timeout = match self.kind {
            FailureKind::Timeout => true,
            _ => false,
        };
        match timeout_seconds {
            Some(t) if is_timeout => {
                out.append("request timed out after ");
                push_decimal(out, t as u128);
                out.append(" seconds");
                assert(out@ =~= old(out)@ + failure_text(self@, timeout_seconds));
            },
            _ => {
                out.append(self.detail.as_str());
            },
        }
    }
}

impl ResponseHead {
    /// A copy of this head.
    pub fn duplicate(&self) -> (copy: ResponseHead)
        ensures
            copy@ == self@,
    {
        ResponseHead {
            status: self.status,
            reason: self.reason.clone(),
            headers: copy_pairs(&self.headers),
            content_length: self.content_length,
        }
    }
}

impl RequestOutcome {
    /// A copy of this outcome.
    pub fn duplicate(&self) -> (copy: RequestOutcome)
        ensures
            copy@ == self@,
    {
        match self {
            RequestOutcome::Success(head) => RequestOutcome::Success(head.duplicate()),
            RequestOutcome::Failure { failure, attempts } => RequestOutcome::Failure {
                failure: failure.duplicate(),
                attempts: *attempts,
            },
        }
    }

    /// The message for the error stream: `None` for a response, and for a
    /// failure the report of it.
    pub fn failure_message(&self, retry_count: u32, timeout_seconds: Option<u64>) -> (message:
        Option<String>)
        ensures
            match self@ {
                OutcomeModel::Success(_) => message is None,
                OutcomeModel::Failure { failure, attempts } => message matches Some(m) && m@
                    == failure_report(failure, attempts, retry_count, timeout_seconds),
            },
    {
        match self {
            RequestOutcome::Success(_) => None,
            RequestOutcome::Failure { failure, attempts } => {
                let mut m = String::new();
                if retry_count == 0 {
                    m.append("Request failed: ");
                } else {
                    m.append("Request failed after ");
                    push_decimal(&mut m, *attempts as u128);
                    m.append(" attempts: ");
                }
                failure.describe_into(&mut m, timeout_seconds);
                assert(m@ =~= failure_report(failure@, *attempts, retry_count, timeout_seconds));
                Some(m)
            },
        }
    }
}

} // verus!
