use job_service::cron::{CronAdapter, CronExpressionAdapter};
use job_service::errors::AppError;
use job_service::job_info::JobInfo;
use job_service::job_status::JobStatus;

#[test]
fn test_is_valid_valid_expression() {
    let adapter = CronExpressionAdapter;
    assert!(adapter.is_valid("*/5 * * * * *"));
    assert!(adapter.is_valid("0 0 * * * *"));
}

#[test]
fn test_is_valid_invalid_expression() {
    let adapter = CronExpressionAdapter;
    assert!(!adapter.is_valid("invalid"));
    assert!(!adapter.is_valid(""));
}

#[test]
fn test_next_run_date_returns_some() {
    let adapter = CronExpressionAdapter;
    // 2025-01-01T00:00:00Z
    let from: i64 = 1735689600;
    let next = adapter.next_run_date("*/5 * * * * *", from);
    assert!(next.is_some());
    assert!(next.unwrap() > from);
}

#[test]
fn test_next_run_date_invalid_returns_none() {
    let adapter = CronExpressionAdapter;
    let next = adapter.next_run_date("invalid", 1735689600);
    assert!(next.is_none());
}

#[test]
fn test_display_configuration() {
    let err = AppError::Configuration("missing key".to_string());
    assert_eq!(err.to_string(), "Configuration error: missing key");
}

#[test]
fn test_display_connection() {
    let err = AppError::Connection("refused".to_string());
    assert_eq!(err.to_string(), "Connection error: refused");
}

#[test]
fn test_display_job() {
    let err = AppError::Job("failed".to_string());
    assert_eq!(err.to_string(), "Job error: failed");
}

#[test]
fn test_display_validation() {
    let err = AppError::Validation("bad value".to_string());
    assert_eq!(err.to_string(), "Validation error: bad value");
}

#[test]
fn test_from_string() {
    let err: AppError = "oops".to_string().into();
    assert_eq!(err.to_string(), "Job error: oops");
}

#[test]
fn test_message_without_prefix() {
    let err = AppError::BadRequest("x".to_string());
    assert_eq!(err.message(), "x");
    assert_eq!(err.to_string(), "Bad request: x");
}

#[test]
fn test_job_info_new() {
    let info = JobInfo::new("test".into(), "*/5 * * * *".into(), true, "A test job".into());
    assert_eq!(info.name, "test");
    assert_eq!(info.schedule, "*/5 * * * *");
    assert!(info.enabled);
    assert_eq!(info.description, "A test job");
}

#[test]
fn test_display() {
    let info = JobInfo::new("x".into(), "* * * * * *".into(), true, "desc".into());
    let s = info.to_string();
    assert!(s.contains("x"));
    assert!(s.contains("desc"));
    assert_eq!(
        s,
        "JobInfo { name: x, schedule: * * * * * *, enabled: true, description: desc }"
    );
}

#[test]
fn test_job_info_disabled() {
    let info = JobInfo::new("a".into(), "* * * * *".into(), false, "".into());
    assert!(!info.enabled);
}

#[test]
fn test_display_success() {
    assert_eq!(JobStatus::Success.to_string(), "success");
}

#[test]
fn test_display_failed() {
    assert_eq!(JobStatus::Failed.to_string(), "failed");
}

#[test]
fn test_display_cancelled() {
    assert_eq!(JobStatus::Cancelled.to_string(), "cancelled");
}

#[test]
fn test_display_timeout() {
    assert_eq!(JobStatus::Timeout.to_string(), "timeout");
}

#[test]
fn test_debug() {
    assert_eq!(format!("{:?}", JobStatus::Success), "Success");
}

#[test]
fn job_status_test_clone() {
    let a = JobStatus::Success;
    let b = a;
    assert_eq!(a, b);
}

#[test]
fn test_copy() {
    let a = JobStatus::Failed;
    let _b = a;
    let _c = a;
}
