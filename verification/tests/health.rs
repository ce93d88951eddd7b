use job_service::errors::AppError;
use job_service::health::{
    health_report_line, overall_status, postgres_health, rabbitmq_health, redis_health,
    HealthCheckJob, HealthCheckResult,
};
use job_service::job::BaseJob;

#[test]
fn test_health_check_result_up() {
    let r = HealthCheckResult::up(5);
    assert_eq!(r.status, "up");
    assert_eq!(r.latency_ms, Some(5));
    assert!(r.error.is_none());
}

#[test]
fn test_health_check_result_down() {
    let r = HealthCheckResult::down(10, "error msg".into());
    assert_eq!(r.status, "down");
    assert_eq!(r.latency_ms, Some(10));
    assert_eq!(r.error, Some("error msg".into()));
}

#[test]
fn test_health_check_result_disabled() {
    let r = HealthCheckResult::disabled();
    assert_eq!(r.status, "disabled");
    assert!(r.latency_ms.is_none());
    assert!(r.error.is_none());
}

#[test]
fn health_test_clone() {
    let a = HealthCheckResult::up(1);
    let b = a.clone();
    assert_eq!(a.status, b.status);
}

#[test]
fn test_check_postgres_states() {
    assert_eq!(postgres_health(true, 3).status, "up");
    let down = postgres_health(false, 4);
    assert_eq!(down.status, "down");
    assert_eq!(down.error, Some("Database ping failed".to_string()));
}

#[test]
fn test_check_redis_states() {
    assert_eq!(redis_health(&Ok(()), 1).status, "up");
    let down = redis_health(&Err(AppError::Connection("Redis ping: refused".into())), 2);
    assert_eq!(down.status, "down");
    assert_eq!(down.error, Some("Connection error: Redis ping: refused".to_string()));
}

#[test]
fn test_check_rabbitmq_disabled() {
    let r = rabbitmq_health(false, false, 7);
    assert_eq!(r.status, "disabled");
    assert!(r.latency_ms.is_none());
    assert_eq!(rabbitmq_health(true, true, 7).status, "up");
    let down = rabbitmq_health(false, true, 7);
    assert_eq!(down.status, "down");
    assert_eq!(down.error, Some("Not connected".to_string()));
}

#[test]
fn test_overall_status() {
    let up = HealthCheckResult::up(1);
    let disabled = HealthCheckResult::disabled();
    let down = HealthCheckResult::down(1, "x".into());
    assert_eq!(overall_status(&up, &up, &disabled), "healthy");
    assert_eq!(overall_status(&up, &up, &up), "healthy");
    assert_eq!(overall_status(&down, &up, &disabled), "degraded");
    assert_eq!(overall_status(&up, &down, &disabled), "degraded");
    assert_eq!(overall_status(&up, &up, &down), "degraded");
}

#[test]
fn test_report_line() {
    let up = HealthCheckResult::up(1);
    let disabled = HealthCheckResult::disabled();
    assert_eq!(
        health_report_line("T", &up, &up, &disabled),
        "[HealthCheck T] postgres=up redis=up rabbitmq=disabled"
    );
}

#[test]
fn test_name() {
    let job = HealthCheckJob::new(());
    assert_eq!(job.name(), "health-check");
}

#[test]
fn test_schedule() {
    let job = HealthCheckJob { checker: (), enabled: true, schedule: "0 3 * * *".into() };
    assert_eq!(job.schedule(), "0 3 * * *");
}

#[test]
fn test_description() {
    let job = HealthCheckJob::new(());
    assert!(job.description().contains("PostgreSQL"));
}

#[test]
fn test_enabled_default() {
    let job = HealthCheckJob::new(());
    assert!(job.enabled());
    assert_eq!(job.schedule(), "*/1 * * * *");
}
