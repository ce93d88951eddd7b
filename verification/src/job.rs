use vstd::prelude::*;
use crate::job_signal::JobSignal;
use crate::job_status::JobStatus;
use std::sync::Arc;

verus! {

/// What a running job is handed: its cancellation flag.
#[derive(Debug, Clone)]
pub struct JobContext {
    pub signal: Arc<JobSignal>,
}

/// The record of one run of a job.
#[derive(Debug, Clone)]
pub struct JobResult {
    pub job: String,
    pub status: JobStatus,
    pub duration_ms: u64,
    pub error: Option<String>,
}

impl JobResult {
    /// A run record from its four parts.
    pub fn new(job: String, status: JobStatus, duration_ms: u64, error: Option<String>) -> (r: JobResult)
        ensures
            r.job == job,
            r.status == status,
            r.duration_ms == duration_ms,
            r.error == error,
    {
        JobResult { job, status, duration_ms, error }
    }
}

/// The description of a scheduled job; the work it does is given elsewhere.
pub trait BaseJob {
    /// The job's unique name.
    fn name(&self) -> &str;

    /// The job's cron expression.
    fn schedule(&self) -> &str;

    /// What the job does.
    fn description(&self) -> &str;

    /// Whether the job is to be scheduled; jobs are unless they say otherwise.
    fn enabled(&self) -> (r: bool)
        default_ensures
            r,
    {
        true
    }
}

/// How a run ended, as the code that ran it saw it.
#[derive(Debug, Clone)]
pub enum RunOutcome {
    Completed,
    Failed(String),
    TimedOut,
}

/// The status and error of a run that ended as `outcome`.
pub fn run_result(job: String, outcome: RunOutcome, duration_ms: u64) -> (r: JobResult)
    ensures
        r.job == job,
        r.duration_ms == duration_ms,
        match outcome {
            RunOutcome::Completed => r.status == JobStatus::Success && r.error is None,
            RunOutcome::Failed(e) => r.status == JobStatus::Failed && r.error == Some(e),
            RunOutcome::TimedOut => r.status == JobStatus::Timeout && r.error is None,
        },
{
    match outcome {
        RunOutcome::Completed => JobResult::new(job, JobStatus::Success, duration_ms, None),
        RunOutcome::Failed(e) => JobResult::new(job, JobStatus::Failed, duration_ms, Some(e)),
        RunOutcome::TimedOut => JobResult::new(job, JobStatus::Timeout, duration_ms, None),
    }
}

} // verus!
