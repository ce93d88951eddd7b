use vstd::prelude::*;
use crate::errors::{AppError, error_prefix, error_message};
use crate::job::BaseJob;
use crate::numbers::str_equal;

verus! {

/// The state of one dependency: `up`, `down` or `disabled`, how long the check took, and
/// why it failed.
#[derive(Debug, Clone)]
pub struct HealthCheckResult {
    pub status: String,
    pub latency_ms: Option<u64>,
    pub error: Option<String>,
}

impl HealthCheckResult {
    /// A dependency that answered.
    pub fn up(latency_ms: u64) -> (r: HealthCheckResult)
        ensures
            r.status@ == "up"@,
            r.latency_ms == Some(latency_ms),
            r.error is None,
    {
        HealthCheckResult { status: String::from_str("up"), latency_ms: Some(latency_ms), error: None }
    }

    /// A dependency that did not answer, and why.
    pub fn down(latency_ms: u64, error: String) -> (r: HealthCheckResult)
        ensures
            r.status@ == "down"@,
            r.latency_ms == Some(latency_ms),
            r.error == Some(error),
    {
        HealthCheckResult { status: String::from_str("down"), latency_ms: Some(latency_ms), error: Some(error) }
    }

    /// A dependency that is switched off.
    pub fn disabled() -> (r: HealthCheckResult)
        ensures
            r.status@ == "disabled"@,
            r.latency_ms is None,
            r.error is None,
    {
        HealthCheckResult { status: String::from_str("disabled"), latency_ms: None, error: None }
    }
}

/// The state of the database from whether its ping succeeded.
pub fn postgres_health(ping_ok: bool, latency_ms: u64) -> (r: HealthCheckResult)
    ensures
        ping_ok ==> r.status@ == "up"@ && r.error is None,
        !ping_ok ==> r.status@ == "down"@ && r.error is Some && r.error->0@ == "Database ping failed"@,
        r.latency_ms == Some(latency_ms),
{
    if ping_ok {
        HealthCheckResult::up(latency_ms)
    } else {
        HealthCheckResult::down(latency_ms, String::from_str("Database ping failed"))
    }
}

/// The state of the cache from how its ping ended: a failure is reported with its
/// displayed error.
pub fn redis_health(ping: &Result<(), AppError>, latency_ms: u64) -> (r: HealthCheckResult)
    ensures
        ping is Ok ==> r.status@ == "up"@ && r.error is None,
        ping is Err ==> r.status@ == "down"@ && r.error is Some && r.error->0@ == error_prefix(ping->Err_0)
            + error_message(ping->Err_0),
        r.latency_ms == Some(latency_ms),
{
    match ping {
        Ok(()) => HealthCheckResult::up(latency_ms),
        Err(e) => HealthCheckResult::down(latency_ms, e.to_string()),
    }
}

/// The state of the message broker: up when connected, disabled when switched off,
/// down otherwise.
pub fn rabbitmq_health(is_open: bool, enabled: bool, latency_ms: u64) -> (r: HealthCheckResult)
    ensures
        is_open ==> r.status@ == "up"@ && r.latency_ms == Some(latency_ms) && r.error is None,
        !is_open && !enabled ==> r.status@ == "disabled"@ && r.latency_ms is None && r.error is None,
        !is_open && enabled ==> r.status@ == "down"@ && r.latency_ms == Some(latency_ms) && r.error is Some
            && r.error->0@ == "Not connected"@,
{
    if is_open {
        HealthCheckResult::up(latency_ms)
    } else if !enabled {
        HealthCheckResult::disabled()
    } else {
        HealthCheckResult::down(latency_ms, String::from_str("Not connected"))
    }
}

/// Whether the service as a whole is healthy: database and cache up, broker up or disabled.
pub open spec fn all_up(pg: Seq<char>, rd: Seq<char>, rq: Seq<char>) -> bool {
    pg == "up"@ && rd == "up"@ && (rq == "up"@ || rq == "disabled"@)
}

/// `healthy` when every dependency is as it should be, `degraded` otherwise.
pub fn overall_status(pg: &HealthCheckResult, rd: &HealthCheckResult, rq: &HealthCheckResult) -> (r: String)
    ensures
        all_up(pg.status@, rd.status@, rq.status@) ==> r@ == "healthy"@,
        !all_up(pg.status@, rd.status@, rq.status@) ==> r@ == "degraded"@,
{
    let ok = str_equal(pg.status.as_str(), "up") && str_equal(rd.status.as_str(), "up") && (str_equal(
        rq.status.as_str(),
        "up",
    ) || str_equal(rq.status.as_str(), "disabled"));
    if ok {
        String::from_str("healthy")
    } else {
        String::from_str("degraded")
    }
}

/// The line that a health check prints.
pub fn health_report_line(timestamp: &str, pg: &HealthCheckResult, rd: &HealthCheckResult, rq: &HealthCheckResult) -> (r: String)
    ensures
        r@ == "[HealthCheck "@ + timestamp@ + "] postgres="@ + pg.status@ + " redis="@ + rd.status@
            + " rabbitmq="@ + rq.status@,
{
    let mut s = String::from_str("[HealthCheck ");
    s.append(timestamp);
    s.append("] postgres=");
    s.append(pg.status.as_str());
    s.append(" redis=");
    s.append(rd.status.as_str());
    s.append(" rabbitmq=");
    s.append(rq.status.as_str());
    s
}

/// What reaches the database, the cache and the broker to report their state.
pub trait HealthChecker {
    /// Whether `r` is a report that the database check may give.
    spec fn postgres_report(&self, r: HealthCheckResult) -> bool;

    /// Whether `r` is a report that the cache check may give.
    spec fn redis_report(&self, r: HealthCheckResult) -> bool;

    /// Whether `r` is a report that the broker check may give.
    spec fn rabbitmq_report(&self, r: HealthCheckResult) -> bool;

    fn check_postgres(&self) -> (r: HealthCheckResult)
        ensures
            self.postgres_report(r),
    ;

    fn check_redis(&self) -> (r: HealthCheckResult)
        ensures
            self.redis_report(r),
    ;

    fn check_rabbitmq(&self) -> (r: HealthCheckResult)
        ensures
            self.rabbitmq_report(r),
    ;
}

/// Whether two reports say the same: same status, latency and error.
pub open spec fn same_report(a: HealthCheckResult, b: HealthCheckResult) -> bool {
    &&& a.status@ == b.status@
    &&& a.latency_ms == b.latency_ms
    &&& a.error.is_some() == b.error.is_some()
    &&& a.error.is_some() ==> a.error->0@ == b.error->0@
}

/// A copy of a report.
pub fn copy_report(r: &HealthCheckResult) -> (c: HealthCheckResult)
    ensures
        same_report(c, *r),
{
    let error = match &r.error {
        Some(e) => Some(e.clone()),
        None => None,
    };
    HealthCheckResult { status: r.status.clone(), latency_ms: r.latency_ms, error }
}

/// The states that one round of checks gathered, handed out as the checker's answers.
pub struct HealthSnapshot {
    pub pg: HealthCheckResult,
    pub rd: HealthCheckResult,
    pub rq: HealthCheckResult,
}

impl HealthChecker for HealthSnapshot {
    open spec fn postgres_report(&self, r: HealthCheckResult) -> bool {
        same_report(r, self.pg)
    }

    open spec fn redis_report(&self, r: HealthCheckResult) -> bool {
        same_report(r, self.rd)
    }

    open spec fn rabbitmq_report(&self, r: HealthCheckResult) -> bool {
        same_report(r, self.rq)
    }

    fn check_postgres(&self) -> (r: HealthCheckResult) {
        copy_report(&self.pg)
    }

    fn check_redis(&self) -> (r: HealthCheckResult) {
        copy_report(&self.rd)
    }

    fn check_rabbitmq(&self) -> (r: HealthCheckResult) {
        copy_report(&self.rq)
    }
}

/// The job that reports the state of the database, the cache and the broker, using
/// `checker` to reach them.
pub struct HealthCheckJob<C> {
    pub checker: C,
    pub enabled: bool,
    pub schedule: String,
}

impl<C> HealthCheckJob<C> {
    /// The health check job, enabled, running every minute.
    pub fn new(checker: C) -> (r: HealthCheckJob<C>)
        ensures
            r.checker == checker,
            r.enabled,
            r.schedule@ == "*/1 * * * *"@,
    {
        HealthCheckJob { checker, enabled: true, schedule: String::from_str("*/1 * * * *") }
    }
}

impl<C: HealthChecker> HealthCheckJob<C> {
    /// Runs one check at `timestamp`: asks the checker for the three states and returns
    /// them with the overall status and the report line made from them.
    pub fn handle(&self, timestamp: &str) -> (r: (String, String, HealthCheckResult, HealthCheckResult, HealthCheckResult))
        ensures
            self.checker.postgres_report(r.2),
            self.checker.redis_report(r.3),
            self.checker.rabbitmq_report(r.4),
            r.0@ == (if all_up(r.2.status@, r.3.status@, r.4.status@) {
                "healthy"@
            } else {
                "degraded"@
            }),
            r.1@ == "[HealthCheck "@ + timestamp@ + "] postgres="@ + r.2.status@ + " redis="@ + r.3.status@
                + " rabbitmq="@ + r.4.status@,
    {
        let pg = self.checker.check_postgres();
        let rd = self.checker.check_redis();
        let rq = self.checker.check_rabbitmq();
        let status = overall_status(&pg, &rd, &rq);
        let line = health_report_line(timestamp, &pg, &rd, &rq);
        (status, line, pg, rd, rq)
    }
}

impl<C> BaseJob for HealthCheckJob<C> {
    fn name(&self) -> (r: &str)
        ensures
            r@ == "health-check"@,
    {
        "health-check"
    }

    fn schedule(&self) -> (r: &str)
        ensures
            r@ == self.schedule@,
    {
        self.schedule.as_str()
    }

    fn description(&self) -> (r: &str)
        ensures
            r@ == "Reports connection status with PostgreSQL, Redis and RabbitMQ"@,
    {
        "Reports connection status with PostgreSQL, Redis and RabbitMQ"
    }

    fn enabled(&self) -> (r: bool)
        ensures
            r == self.enabled,
    {
        self.enabled
    }
}

} // verus!
