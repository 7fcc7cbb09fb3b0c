use vstd::prelude::*;

verus! {

/// Execution status carried by the signed effects of a transaction response.
#[derive(PartialEq, Eq, Structural, Clone, Copy, Debug)]
pub enum ExecutionOutcome {
    Success,
    Failure,
}

/// The shape of one reply once decoded: all the inspector looks at.
#[derive(PartialEq, Eq, Structural, Clone, Copy, Debug)]
pub enum DecodedReply {
    /// A transaction response, with the status of its signed effects if it
    /// carries any.
    TransactionResponse { effects: Option<ExecutionOutcome> },
    /// The reply was a transport error or could not be decoded.
    Error,
    /// Any other kind of response.
    Other,
}

/// What to log for one reply.
#[derive(PartialEq, Eq, Structural, Clone, Copy, Debug)]
pub enum ReplyVerdict {
    /// Nothing to report.
    Quiet,
    /// Informational line: the validator rejected the transaction.
    ExecutionError,
    /// Error line: the reply was an error.
    ReceivedError,
    /// Error line: the reply was not a transaction response.
    InvalidResponse,
}

/// Decides what a reply is worth logging: a failed execution is noted, an
/// error or an unexpected response is reported as an error, and a successful
/// or effect-less transaction response is passed over.
pub fn check_transaction_response(reply: DecodedReply) -> (r: ReplyVerdict)
    ensures
        r == match reply {
            DecodedReply::TransactionResponse { effects: Some(ExecutionOutcome::Failure) } =>
                ReplyVerdict::ExecutionError,
            DecodedReply::TransactionResponse { .. } => ReplyVerdict::Quiet,
            DecodedReply::Error => ReplyVerdict::ReceivedError,
            DecodedReply::Other => ReplyVerdict::InvalidResponse,
        },
{
    match reply {
        DecodedReply::TransactionResponse { effects } => match effects {
            Some(ExecutionOutcome::Failure) => ReplyVerdict::ExecutionError,
            _ => ReplyVerdict::Quiet,
        },
        DecodedReply::Error => ReplyVerdict::ReceivedError,
        DecodedReply::Other => ReplyVerdict::InvalidResponse,
    }
}

} // verus!
