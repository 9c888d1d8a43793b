//! Why a batch was given up.

use vstd::prelude::*;

verus! {

/// Why a batch was given up.
#[derive(Debug, PartialEq, Eq)]
pub enum BatchFailure {
    /// The provider takes no recordings in one piece.
    DirectBatchUnsupported { provider: String },
    /// The request failed; `message` is meant for the user.
    DirectRequestFailed { provider: String, message: String },
    /// The provider did not answer in time.
    DirectRequestTimedOut { provider: String, timeout_seconds: u64 },
}

/// What a `BatchFailure` says.
pub enum BatchFailureView {
    DirectBatchUnsupported { provider: Seq<char> },
    DirectRequestFailed { provider: Seq<char>, message: Seq<char> },
    DirectRequestTimedOut { provider: Seq<char>, timeout_seconds: u64 },
}

impl View for BatchFailure {
    type V = BatchFailureView;

    open spec fn view(&self) -> BatchFailureView {
        match self {
            BatchFailure::DirectBatchUnsupported { provider } => {
                BatchFailureView::DirectBatchUnsupported { provider: provider@ }
            },
            BatchFailure::DirectRequestFailed { provider, message } => {
                BatchFailureView::DirectRequestFailed { provider: provider@, message: message@ }
            },
            BatchFailure::DirectRequestTimedOut { provider, timeout_seconds } => {
                BatchFailureView::DirectRequestTimedOut {
                    provider: provider@,
                    timeout_seconds: *timeout_seconds,
                }
            },
        }
    }
}

/// A failure says of which kind it is, and all that it holds.
pub proof fn law_failures_say_what_they_hold(
    provider: String,
    message: String,
    timeout_seconds: u64,
)
    ensures
        (BatchFailure::DirectBatchUnsupported { provider })@ == (
        BatchFailureView::DirectBatchUnsupported { provider: provider@ }),
        (BatchFailure::DirectRequestFailed { provider, message })@ == (
        BatchFailureView::DirectRequestFailed { provider: provider@, message: message@ }),
        (BatchFailure::DirectRequestTimedOut { provider, timeout_seconds })@ == (
        BatchFailureView::DirectRequestTimedOut { provider: provider@, timeout_seconds }),
{
}

} // verus!
