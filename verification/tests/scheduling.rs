use job_service::cron::CronExpressionAdapter;
use job_service::errors::AppError;
use job_service::health::{HealthCheckJob, HealthCheckResult, HealthSnapshot};
use job_service::job::{run_result, JobResult, RunOutcome};
use job_service::job_info::JobInfo;
use job_service::job_signal::{cancellation_check, JobSignal};
use job_service::job_status::JobStatus;
use job_service::scheduler::{register_jobs, Scheduler};

fn job(name: &str, schedule: &str, enabled: bool) -> JobInfo {
    JobInfo::new(name.into(), schedule.into(), enabled, "d".into())
}

#[test]
fn test_handle_healthy() {
    let job = HealthCheckJob::new(HealthSnapshot {
        pg: HealthCheckResult::up(5),
        rd: HealthCheckResult::up(1),
        rq: HealthCheckResult::disabled(),
    });
    let (status, line, pg, _, rq) = job.handle("2026-01-01T00:00:00Z");
    assert_eq!(status, "healthy");
    assert_eq!(line, "[HealthCheck 2026-01-01T00:00:00Z] postgres=up redis=up rabbitmq=disabled");
    assert_eq!(pg.latency_ms, Some(5));
    assert_eq!(rq.status, "disabled");
}

#[test]
fn test_handle_degraded_pg_down() {
    let pg_down = HealthCheckJob::new(HealthSnapshot {
        pg: HealthCheckResult::down(10, "refused".into()),
        rd: HealthCheckResult::up(1),
        rq: HealthCheckResult::disabled(),
    });
    assert_eq!(pg_down.handle("t").0, "degraded");
}

#[test]
fn test_handle_degraded_redis_down() {
    let redis_down = HealthCheckJob::new(HealthSnapshot {
        pg: HealthCheckResult::up(5),
        rd: HealthCheckResult::down(1, "timeout".into()),
        rq: HealthCheckResult::disabled(),
    });
    let (status, line, ..) = redis_down.handle("t");
    assert_eq!(status, "degraded");
    assert_eq!(line, "[HealthCheck t] postgres=up redis=down rabbitmq=disabled");
}

#[test]
fn test_register_jobs_returns_scheduler() {
    let s = register_jobs(true, "*/1 * * * * *".into(), CronExpressionAdapter).unwrap();
    let jobs = s.list_jobs();
    assert_eq!(jobs.len(), 1);
    assert_eq!(jobs[0].name, "health-check");
    assert!(jobs[0].enabled);
}

#[test]
fn test_register_jobs_disabled() {
    let off = register_jobs(false, "0 0 * * * *".into(), CronExpressionAdapter).unwrap();
    assert!(!off.list_jobs()[0].enabled);
    assert_eq!(off.job(0).schedule, "0 0 * * * *");
}

#[test]
fn duplicate_job_names_are_refused() {
    let jobs = vec![job("a", "* * * * * *", true), job("b", "* * * * * *", true), job("a", "* * * * * *", false)];
    let err = Scheduler::new(jobs, CronExpressionAdapter).err().unwrap();
    assert!(matches!(err, AppError::Validation(_)));
    assert_eq!(err.message(), "Duplicate job name: a");
}

#[test]
fn start_checks_enabled_expressions() {
    let jobs = vec![job("a", "*/5 * * * * *", true), job("off", "bad", false), job("b", "nope", true)];
    let mut s = Scheduler::new(jobs, CronExpressionAdapter).unwrap();
    let err = s.start(1_735_689_600).unwrap_err();
    assert!(matches!(err, AppError::Validation(_)));
    assert_eq!(err.message(), "Invalid cron expression for job b: nope");

    let ok = vec![job("a", "*/5 * * * * *", true), job("off", "bad", false)];
    let mut s2 = Scheduler::new(ok, CronExpressionAdapter).unwrap();
    assert!(s2.start(1_735_689_600).is_ok());
}

#[test]
fn due_jobs_and_runs() {
    let jobs = vec![job("a", "*/5 * * * * *", true), job("off", "*/5 * * * * *", false), job("b", "0 0 * * * *", true)];
    let mut s = Scheduler::new(jobs, CronExpressionAdapter).unwrap();
    assert_eq!(s.due_jobs(0), vec![0, 2]);
    assert!(s.begin_run(0));
    assert!(!s.begin_run(0));
    assert!(s.is_running("a"));
    assert_eq!(s.running_count(), 1);
    s.finish_run(0, 0);
    assert!(!s.is_running("a"));
    assert_eq!(s.running_count(), 0);
    assert_eq!(s.due_jobs(0), vec![2]);
    s.skip_run(2, 0);
    assert!(s.due_jobs(0).is_empty());
    assert!(!s.is_stopped());
    s.stop();
    assert!(s.is_stopped());
    assert_eq!(s.job_count(), 3);
}

#[test]
fn run_results() {
    let r = run_result("a".into(), RunOutcome::Completed, 5);
    assert_eq!(r.status, JobStatus::Success);
    assert!(r.error.is_none());
    let f = run_result("a".into(), RunOutcome::Failed("boom".into()), 6);
    assert_eq!(f.status, JobStatus::Failed);
    assert_eq!(f.error, Some("boom".to_string()));
    assert_eq!(run_result("a".into(), RunOutcome::TimedOut, 7).status, JobStatus::Timeout);
    let n = JobResult::new("x".into(), JobStatus::Cancelled, 1, None);
    assert_eq!(n.job, "x");
}

#[test]
fn job_signal_cancellation() {
    let s = JobSignal::new();
    assert!(!s.aborted());
    assert!(s.throw_if_aborted().is_ok());
    s.abort();
    assert!(s.aborted());
    let e = s.throw_if_aborted().unwrap_err();
    assert!(matches!(e, AppError::Job(_)));
    assert_eq!(e.message(), "Job was cancelled");
    assert!(cancellation_check(false).is_ok());
}

#[test]
fn test_handle_prints_stdout() {
    let job = HealthCheckJob::new(HealthSnapshot {
        pg: HealthCheckResult::up(5),
        rd: HealthCheckResult::up(1),
        rq: HealthCheckResult::disabled(),
    });
    let (status, line, _, rd, _) = job.handle("2026-05-22T10:00:00Z");
    assert_eq!(status, "healthy");
    assert!(line.starts_with("[HealthCheck 2026-05-22T10:00:00Z]"));
    assert_eq!(rd.latency_ms, Some(1));
}

#[test]
fn handle_reports_the_gathered_states() {
    let job = HealthCheckJob::new(HealthSnapshot {
        pg: HealthCheckResult::down(7, "refused".into()),
        rd: HealthCheckResult::up(3),
        rq: HealthCheckResult::disabled(),
    });
    let (_, _, pg, rd, rq) = job.handle("t");
    assert_eq!((pg.status.as_str(), pg.latency_ms, pg.error.as_deref()), ("down", Some(7), Some("refused")));
    assert_eq!((rd.status.as_str(), rd.latency_ms, rd.error.as_deref()), ("up", Some(3), None));
    assert_eq!((rq.status.as_str(), rq.latency_ms, rq.error.as_deref()), ("disabled", None, None));
}
