//! When a download of the OpenAPI document is tried again.

use vstd::prelude::*;

use super::SchemaError;
use crate::time::{Duration, NANOS_PER_SEC};

verus! {

/// How often a download is tried again.
pub const MAX_RETRIES: u32 = 1;

/// What one attempt to download came to.
#[derive(Debug)]
pub enum FetchOutcome {
    /// The whole body of a response that is no error.
    Body(Vec<u8>),
    /// A response with an error status, or a body that broke off.
    Refused(String),
    /// No response: the connection could not be made or timed out.
    NoConnection(String),
    /// No response, for another reason.
    Broken(String),
}

/// What to do after an attempt.
#[derive(Debug)]
pub enum FetchStep {
    /// The download is complete.
    Done(Vec<u8>),
    /// It has failed.
    Failed(SchemaError),
    /// Wait, then try again.
    RetryAfter(Duration),
}

/// Whether `r` is what to do after attempt number `attempt`, counted from 0.
pub open spec fn is_after_attempt(attempt: u32, outcome: FetchOutcome, r: FetchStep) -> bool {
    match outcome {
        FetchOutcome::Body(b) => r == FetchStep::Done(b),
        FetchOutcome::Refused(e) => r == FetchStep::Failed(SchemaError::Fetch(e)),
        FetchOutcome::Broken(e) => r == FetchStep::Failed(SchemaError::Fetch(e)),
        FetchOutcome::NoConnection(e) => if attempt < MAX_RETRIES {
            r matches FetchStep::RetryAfter(d) && d@ == NANOS_PER_SEC
        } else {
            r == FetchStep::Failed(SchemaError::Fetch(e))
        },
    }
}

/// What to do after attempt number `attempt`, counted from 0: only a missing
/// connection is worth another try, and only so many.
pub fn after_attempt(attempt: u32, outcome: FetchOutcome) -> (r: FetchStep)
    ensures
        is_after_attempt(attempt, outcome, r),
{
    match outcome {
        FetchOutcome::Body(b) => FetchStep::Done(b),
        FetchOutcome::Refused(e) => FetchStep::Failed(SchemaError::Fetch(e)),
        FetchOutcome::Broken(e) => FetchStep::Failed(SchemaError::Fetch(e)),
        FetchOutcome::NoConnection(e) => if attempt < MAX_RETRIES {
            FetchStep::RetryAfter(Duration::from_secs(1))
        } else {
            FetchStep::Failed(SchemaError::Fetch(e))
        },
    }
}

/// A download is tried again once, a second later, and only where no connection was
/// made; what arrived is taken as it is, and any other failure is final.
pub proof fn downloads_are_tried_twice(attempt: u32, outcome: FetchOutcome, r: FetchStep)
    requires
        is_after_attempt(attempt, outcome, r),
    ensures
        r is RetryAfter <==> outcome is NoConnection && attempt == 0,
        r matches FetchStep::RetryAfter(d) ==> d@ == 1_000_000_000,
        r matches FetchStep::Done(bytes) ==> outcome == FetchOutcome::Body(bytes),
        outcome is Body ==> r is Done,
{
}

} // verus!
