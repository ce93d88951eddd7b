use vstd::prelude::*;

verus! {

/// The schedule type of the `cron` crate, carried through opaquely.
#[verifier::external_type_specification]
#[verifier::external_body]
pub struct ExSchedule(::cron::Schedule);

/// Whether the `cron` crate's `Schedule::from_str` accepts an expression.
pub uninterp spec fn cron_expression_parses(expr: Seq<char>) -> bool;

/// Calls `cron::Schedule::from_str`; the result is present exactly when that function
/// accepts the expression, which is the named result above.
#[verifier::external_body]
fn parse_schedule(expr: &str) -> (r: Option<::cron::Schedule>)
    ensures
        r is Some <==> cron_expression_parses(expr@),
{
    match expr.parse::<::cron::Schedule>() {
        Ok(s) => Some(s),
        Err(_) => None,
    }
}

/// Whether the schedule that the `cron` crate reads from `expr` includes the second `t`
/// (Unix seconds, UTC).
pub uninterp spec fn cron_fires(expr: Seq<char>, t: int) -> bool;

/// Calls `cron::Schedule::from_str` and, on success, `Schedule::upcoming` with
/// `chrono::Utc`, and takes the first time that it yields, as a Unix timestamp in seconds.
/// Which time that is depends on the clock, and none comes back once the schedule has no
/// later time; what holds of every outcome is stated: a time comes back only for an
/// expression the crate accepts, and it is a time of that schedule.
#[verifier::external_body]
fn upcoming_time(expr: &str) -> (r: Option<i64>)
    ensures
        r matches Some(t) ==> cron_expression_parses(expr@) && cron_fires(expr@, t as int),
        !cron_expression_parses(expr@) ==> r is None,
{
    match expr.parse::<::cron::Schedule>() {
        Ok(s) => match s.upcoming(chrono::Utc).next() {
            Some(t) => Some(t.timestamp()),
            None => None,
        },
        Err(_) => None,
    }
}

/// Reads cron expressions and tells when they next fire.
pub trait CronAdapter {
    /// The expressions that the adapter accepts.
    spec fn accepts(&self, expr: Seq<char>) -> bool;

    /// Whether `r` is an answer that the adapter may give for the next run of `expr` asked
    /// at `from`.
    spec fn next_run(&self, expr: Seq<char>, from: int, r: Option<i64>) -> bool;

    /// Whether the adapter accepts the expression.
    fn is_valid(&self, expr: &str) -> (r: bool)
        ensures
            r == self.accepts(expr@),
    ;

    /// The next time, as a Unix timestamp in seconds, at which the expression fires;
    /// none for an expression that the adapter does not accept.
    fn next_run_date(&self, expr: &str, from: i64) -> (r: Option<i64>)
        ensures
            !self.accepts(expr@) ==> r is None,
            self.next_run(expr@, from as int, r),
    ;
}

/// The cron adapter backed by the `cron` crate (six or seven fields, seconds first).
#[derive(Debug, Clone, Copy)]
pub struct CronExpressionAdapter;

impl CronAdapter for CronExpressionAdapter {
    open spec fn accepts(&self, expr: Seq<char>) -> bool {
        cron_expression_parses(expr)
    }

    /// A time comes back only for an accepted expression, and it is a time of its
    /// schedule; which one depends on the clock, not on `from`.
    open spec fn next_run(&self, expr: Seq<char>, from: int, r: Option<i64>) -> bool {
        r matches Some(t) ==> cron_expression_parses(expr) && cron_fires(expr, t as int)
    }

    fn is_valid(&self, expr: &str) -> (r: bool) {
        parse_schedule(expr).is_some()
    }

    /// The first upcoming time after the present moment; `from` is not consulted.
    fn next_run_date(&self, expr: &str, _from: i64) -> (r: Option<i64>) {
        upcoming_time(expr)
    }
}

} // verus!
