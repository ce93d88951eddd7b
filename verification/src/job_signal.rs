use vstd::prelude::*;
use crate::errors::{AppError, error_message};
use std::sync::atomic::{AtomicBool, Ordering};

verus! {

/// A cancellation flag that a running job can be asked to honour.
#[derive(Debug)]
pub struct JobSignal {
    aborted: AtomicBool,
}

/// What a job told of its cancellation answers: an error when it was cancelled.
pub fn cancellation_check(aborted: bool) -> (r: Result<(), AppError>)
    ensures
        r is Ok <==> !aborted,
        r matches Err(e) ==> e is Job && error_message(e) == "Job was cancelled"@,
{
    if aborted {
        Err(AppError::Job(String::from_str("Job was cancelled")))
    } else {
        Ok(())
    }
}

impl JobSignal {
    /// A flag that is not set.
    pub fn new() -> (r: JobSignal) {
        JobSignal { aborted: AtomicBool::new(false) }
    }

    /// Sets the flag.
    pub fn abort(&self) {
        self.aborted.store(true, Ordering::SeqCst);
    }

    /// Reads the flag.
    pub fn aborted(&self) -> bool {
        self.aborted.load(Ordering::SeqCst)
    }

    /// Fails with the cancellation error when the flag is set at the time of the call;
    /// the flag may be set by another thread at any time, so which of the two comes back
    /// is decided by `cancellation_check` on the value read.
    pub fn throw_if_aborted(&self) -> (r: Result<(), AppError>)
        ensures
            r matches Err(e) ==> e is Job && error_message(e) == "Job was cancelled"@,
    {
        cancellation_check(self.aborted())
    }
}

impl Default for JobSignal {
    fn default() -> (r: JobSignal) {
        JobSignal::new()
    }
}

} // verus!
