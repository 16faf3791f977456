//! One job from the backend's answer to what the caller is told: the page,
//! or the failure.

use vstd::prelude::*;
use vstd::string::StringExecFns;
use crate::assembler::{assemble, assembled, AssembleError};
use crate::relay::RelayError;
use crate::response::BackendResponse;

verus! {

/// The status under which every failure of a job is reported.
pub const FAILURE_STATUS: u16 = 500;

/// What the caller is told when the backend could not be reached.
pub const NETWORK_FAILURE: &'static str = "failed to reach the compiler service";

/// What precedes the backend's own text when it reported an error.
pub const BACKEND_FAILURE: &'static str = "Compiler service returned an error: ";

/// What the caller is told when the backend's answer could not be decoded.
pub const DECODE_FAILURE: &'static str = "failed to decode the compiler response";

/// What the caller is told when the script names no entry point.
pub const MALFORMED_SCRIPT: &'static str = "no default-exported entry point found";

/// Why a job gave no page.
#[derive(Clone, Debug, PartialEq, Eq)]
pub enum JobError {
    /// The exchange with the backend failed.
    Relay(RelayError),
    /// The backend's response could not be assembled.
    Assemble(AssembleError),
}

/// What the caller is told of `error`: nothing of the cause where the
/// transport failed or the answer could not be decoded, the backend's own
/// text where it reported an error.
pub open spec fn failure_text(error: JobError) -> Seq<char> {
    match error {
        JobError::Relay(RelayError::Network(_)) => NETWORK_FAILURE@,
        JobError::Relay(RelayError::Backend(text)) => BACKEND_FAILURE@ + text@,
        JobError::Relay(RelayError::Decode(_)) => DECODE_FAILURE@,
        JobError::Assemble(AssembleError::MalformedScript) => MALFORMED_SCRIPT@,
    }
}

impl JobError {
    /// The text under which the failure is reported.
    pub fn message(&self) -> (text: String)
        ensures
            text@ == failure_text(*self),
    {
        match self {
            JobError::Relay(RelayError::Network(_)) => String::from_str(NETWORK_FAILURE),
            JobError::Relay(RelayError::Backend(text)) => {
                let mut message = String::from_str(BACKEND_FAILURE);
                message.append(text.as_str());
                message
            },
            JobError::Relay(RelayError::Decode(_)) => String::from_str(DECODE_FAILURE),
            JobError::Assemble(AssembleError::MalformedScript) => String::from_str(
                MALFORMED_SCRIPT,
            ),
        }
    }
}

/// Finishes a job with what the exchange delivered: an error of the exchange
/// is passed on as it is, a response is assembled. A compile error is a
/// response like any other and gives its message as the page.
pub fn respond(delivered: Result<BackendResponse, RelayError>) -> (result: Result<
    String,
    JobError,
>)
    ensures
        match delivered {
            Err(error) => result == Err::<String, JobError>(JobError::Relay(error)),
            Ok(response) => match assembled(response@) {
                Ok(html) => result is Ok && result->Ok_0@ == html,
                Err(error) => result == Err::<String, JobError>(JobError::Assemble(error)),
            },
        },
{
    match delivered {
        Err(error) => Err(JobError::Relay(error)),
        Ok(response) => match assemble(response) {
            Ok(html) => Ok(html),
            Err(error) => Err(JobError::Assemble(error)),
        },
    }
}

} // verus!
