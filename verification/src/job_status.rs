use vstd::prelude::*;

verus! {

/// How a run of a job ended.
#[derive(Debug, Clone, Copy, PartialEq, Eq, Structural)]
pub enum JobStatus {
    Success,
    Failed,
    Cancelled,
    Timeout,
}

/// The displayed name of a status.
pub open spec fn status_text(s: JobStatus) -> Seq<char> {
    match s {
        JobStatus::Success => "success"@,
        JobStatus::Failed => "failed"@,
        JobStatus::Cancelled => "cancelled"@,
        JobStatus::Timeout => "timeout"@,
    }
}

impl JobStatus {
    /// The displayed name of the status, in lowercase.
    pub fn to_string(&self) -> (r: String)
        ensures
            r@ == status_text(*self),
    {
        match self {
            JobStatus::Success => String::from_str("success"),
            JobStatus::Failed => String::from_str("failed"),
            JobStatus::Cancelled => String::from_str("cancelled"),
            JobStatus::Timeout => String::from_str("timeout"),
        }
    }
}

} // verus!
