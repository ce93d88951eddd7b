use vstd::prelude::*;
use crate::cron::CronAdapter;
use crate::errors::{AppError, error_message};
use crate::job_info::JobInfo;
use crate::numbers::str_equal;

verus! {

/// The view of a job description: name, schedule, whether enabled, description.
pub open spec fn job_view(j: JobInfo) -> (Seq<char>, Seq<char>, bool, Seq<char>) {
    (j.name@, j.schedule@, j.enabled, j.description@)
}

/// The views of a list of job descriptions.
pub open spec fn jobs_view(v: Seq<JobInfo>) -> Seq<(Seq<char>, Seq<char>, bool, Seq<char>)> {
    v.map_values(|j: JobInfo| job_view(j))
}

/// The names of a list of job descriptions.
pub open spec fn job_names(v: Seq<JobInfo>) -> Seq<Seq<char>> {
    v.map_values(|j: JobInfo| j.name@)
}

/// The first name, in order, that repeats an earlier one.
pub open spec fn first_duplicate(names: Seq<Seq<char>>) -> Option<Seq<char>>
    decreases names.len(),
{
    if names.len() == 0 {
        None
    } else {
        match first_duplicate(names.drop_last()) {
            Some(n) => Some(n),
            None => if names.drop_last().contains(names.last()) {
                Some(names.last())
            } else {
                None
            },
        }
    }
}

/// No text occurs twice in `s`.
pub open spec fn no_repeats(s: Seq<Seq<char>>) -> bool {
    forall|i: int, j: int| 0 <= i < j < s.len() ==> s[i] != s[j]
}

/// Without a first duplicate, no name repeats.
pub proof fn lemma_no_duplicate_distinct(names: Seq<Seq<char>>)
    requires
        first_duplicate(names) is None,
    ensures
        no_repeats(names),
    decreases names.len(),
{
    if names.len() > 0 {
        let rest = names.drop_last();
        lemma_no_duplicate_distinct(rest);
        assert forall|i: int, j: int| 0 <= i < j < names.len() implies names[i] != names[j] by {
            if j == names.len() - 1 {
                assert(rest[i] == names[i]);
                if names[i] == names[j] {
                    assert(rest.contains(names.last()));
                }
            } else {
                assert(rest[i] == names[i] && rest[j] == names[j]);
            }
        }
    }
}

/// `running` with `name` added.
pub open spec fn with_running(running: Seq<Seq<char>>, name: Seq<char>) -> Seq<Seq<char>> {
    running.push(name)
}

/// `running` with every occurrence of `name` taken out, the others kept in order.
pub open spec fn without_running(running: Seq<Seq<char>>, name: Seq<char>) -> Seq<Seq<char>>
    decreases running.len(),
{
    if running.len() == 0 {
        running
    } else {
        let rest = without_running(running.drop_last(), name);
        if running.last() == name {
            rest
        } else {
            rest.push(running.last())
        }
    }
}

/// Starting a job that is not running and then finishing it leaves the set of running
/// jobs as it was.
pub proof fn law_start_then_finish_restores(running: Seq<Seq<char>>, name: Seq<char>)
    requires
        !running.contains(name),
    ensures
        without_running(with_running(running, name), name) == running,
{
    assert(running.push(name).drop_last() =~= running);
    lemma_without_absent(running, name);
}

/// A job is never run twice at once: once its name is among the running ones, starting it
/// again is refused, and after it finishes it is no longer running.
pub proof fn law_no_double_run(running: Seq<Seq<char>>, name: Seq<char>)
    ensures
        with_running(running, name).contains(name),
        !without_running(running, name).contains(name),
{
    assert(with_running(running, name)[running.len() as int] == name);
    lemma_without_members(running, name, name);
}

/// Taking out a name that does not occur changes nothing.
proof fn lemma_without_absent(s: Seq<Seq<char>>, name: Seq<char>)
    requires
        !s.contains(name),
    ensures
        without_running(s, name) == s,
    decreases s.len(),
{
    if s.len() > 0 {
        assert(!s.drop_last().contains(name)) by {
            if s.drop_last().contains(name) {
                let k = choose|k: int| 0 <= k < s.drop_last().len() && s.drop_last()[k] == name;
                assert(s[k] == name);
            }
        }
        lemma_without_absent(s.drop_last(), name);
        assert(s.last() != name) by {
            if s.last() == name {
                assert(s[s.len() - 1] == name);
            }
        }
        assert(s.drop_last().push(s.last()) =~= s);
    }
}

/// Every name left after taking `name` out was there before, and is not `name`.
proof fn lemma_without_members(s: Seq<Seq<char>>, name: Seq<char>, x: Seq<char>)
    ensures
        without_running(s, name).contains(x) ==> s.contains(x) && x != name,
    decreases s.len(),
{
    if s.len() > 0 {
        lemma_without_members(s.drop_last(), name, x);
        let rest = without_running(s.drop_last(), name);
        if without_running(s, name).contains(x) {
            let k = choose|k: int| 0 <= k < without_running(s, name).len() && without_running(s, name)[k] == x;
            if s.last() != name && k == rest.len() {
                assert(s[s.len() - 1] == x);
            } else {
                assert(rest[k] == x);
                let c = choose|c: int| 0 <= c < s.drop_last().len() && s.drop_last()[c] == x;
                assert(s[c] == x);
            }
        }
    }
}

/// The jobs that a tick runs at `now`: each enabled job that was never scheduled or
/// whose next run is due.
pub open spec fn is_due(enabled: bool, next: Option<i64>, now: i64) -> bool {
    enabled && match next {
        None => true,
        Some(t) => now >= t,
    }
}

/// The scheduling state of a set of named jobs: their descriptions, the next time each
/// is due, the names of those running, and whether the scheduler was stopped.
pub struct Scheduler<C> {
    jobs: Vec<JobInfo>,
    next_runs: Vec<Option<i64>>,
    running: Vec<String>,
    cron: C,
    stopped: bool,
}

impl<C: CronAdapter> Scheduler<C> {
    /// The job descriptions, in registration order.
    pub closed spec fn spec_jobs(&self) -> Seq<JobInfo> {
        self.jobs@
    }

    /// The next time each job is due, by position.
    pub closed spec fn spec_next_runs(&self) -> Seq<Option<i64>> {
        self.next_runs@
    }

    /// The names of the jobs running now.
    pub closed spec fn spec_running(&self) -> Seq<Seq<char>> {
        self.running@.map_values(|s: String| s@)
    }

    /// Whether the scheduler was stopped.
    pub closed spec fn spec_stopped(&self) -> bool {
        self.stopped
    }

    /// The cron adapter.
    pub closed spec fn spec_cron(&self) -> C {
        self.cron
    }

    /// One next time per job, job names distinct, each running name once.
    pub open spec fn wf(&self) -> bool {
        &&& self.spec_next_runs().len() == self.spec_jobs().len()
        &&& no_repeats(job_names(self.spec_jobs()))
        &&& no_repeats(self.spec_running())
    }

    /// A scheduler for `jobs`, none of them scheduled yet; refused with a validation error
    /// naming the first job whose name repeats an earlier one.
    pub fn new(jobs: Vec<JobInfo>, cron: C) -> (r: Result<Scheduler<C>, AppError>)
        ensures
            match r {
                Ok(s) => first_duplicate(job_names(jobs@)) is None && s.wf() && s.spec_jobs() == jobs@
                    && s.spec_cron() == cron && !s.spec_stopped() && s.spec_running().len() == 0
                    && forall|i: int| 0 <= i < jobs@.len() ==> #[trigger] s.spec_next_runs()[i] is None,
                Err(e) => e is Validation && first_duplicate(job_names(jobs@)) is Some && error_message(e)
                    == "Duplicate job name: "@ + first_duplicate(job_names(jobs@))->0,
            },
    {
        let n = jobs.len();
        let ghost names = job_names(jobs@);
        let mut i: usize = 0;
        while i < n
            invariant
                i <= n,
                n == jobs@.len(),
                names == job_names(jobs@),
                first_duplicate(names.take(i as int)) is None,
            decreases n - i,
        {
            assert(names.take(i + 1).drop_last() =~= names.take(i as int));
            assert(names.take(i + 1).last() == jobs@[i as int].name@);
            let mut j: usize = 0;
            while j < i
                invariant
                    j <= i < n,
                    n == jobs@.len(),
                    names == job_names(jobs@),
                    first_duplicate(names.take(i as int)) is None,
                    names.take(i + 1).drop_last() == names.take(i as int),
                    names.take(i + 1).last() == names[i as int],
                    forall|k: int| 0 <= k < j ==> #[trigger] names[k] != names[i as int],
                decreases i - j,
            {
                if str_equal(jobs[j].name.as_str(), jobs[i].name.as_str()) {
                    assert(names.take(i as int)[j as int] == names[i as int]);
                    assert(first_duplicate(names.take(i + 1)) == Some(names[i as int]));
                    proof {
                        lemma_duplicate_prefix(names, i + 1);
                    }
                    let mut msg = String::from_str("Duplicate job name: ");
                    msg.append(jobs[i].name.as_str());
                    return Err(AppError::Validation(msg));
                }
                j = j + 1;
            }
            assert(!names.take(i as int).contains(names[i as int])) by {
                if names.take(i as int).contains(names[i as int]) {
                    let k = choose|k: int| 0 <= k < i && names.take(i as int)[k] == names[i as int];
                    assert(names[k] != names[i as int]);
                }
            }
            i = i + 1;
        }
        assert(names.take(n as int) =~= names);
        proof {
            lemma_no_duplicate_distinct(names);
        }
        let mut next_runs: Vec<Option<i64>> = Vec::new();
        let mut k: usize = 0;
        while k < n
            invariant
                k <= n,
                next_runs@.len() == k,
                forall|m: int| 0 <= m < k ==> #[trigger] next_runs@[m] is None,
            decreases n - k,
        {
            next_runs.push(None);
            k = k + 1;
        }
        let s = Scheduler { jobs, next_runs, running: Vec::new(), cron, stopped: false };
        assert(s.spec_running() =~= Seq::<Seq<char>>::empty());
        Ok(s)
    }

    /// The descriptions of the registered jobs, in registration order.
    pub fn list_jobs(&self) -> (r: Vec<JobInfo>)
        ensures
            jobs_view(r@) == jobs_view(self.spec_jobs()),
    {
        let n = self.jobs.len();
        let mut out: Vec<JobInfo> = Vec::new();
        let mut i: usize = 0;
        while i < n
            invariant
                i <= n,
                n == self.jobs@.len(),
                out@.len() == i,
                forall|k: int| 0 <= k < i ==> #[trigger] job_view(out@[k]) == job_view(self.jobs@[k]),
            decreases n - i,
        {
            let j = &self.jobs[i];
            out.push(JobInfo::new(j.name.clone(), j.schedule.clone(), j.enabled, j.description.clone()));
            i = i + 1;
        }
        assert(jobs_view(out@) =~= jobs_view(self.jobs@));
        out
    }

    /// Checks every enabled job's cron expression, in order, and sets its next run. A job
    /// with an expression that the adapter refuses stops the start with a validation
    /// error; the jobs before it keep the next runs just set. Disabled jobs are left alone.
    pub fn start(&mut self, now: i64) -> (r: Result<(), AppError>)
        requires
            old(self).wf(),
        ensures
            final(self).wf(),
            final(self).spec_jobs() == old(self).spec_jobs(),
            final(self).spec_running() == old(self).spec_running(),
            final(self).spec_stopped() == old(self).spec_stopped(),
            final(self).spec_cron() == old(self).spec_cron(),
            forall|i: int| 0 <= i < old(self).spec_jobs().len() && !old(self).spec_jobs()[i].enabled
                ==> #[trigger] final(self).spec_next_runs()[i] == old(self).spec_next_runs()[i],
            match r {
                Ok(()) => forall|i: int| 0 <= i < old(self).spec_jobs().len() && old(self).spec_jobs()[i].enabled
                    ==> #[trigger] old(self).spec_cron().accepts(old(self).spec_jobs()[i].schedule@)
                    && old(self).spec_cron().next_run(old(self).spec_jobs()[i].schedule@, now as int, final(self).spec_next_runs()[i]),
                Err(e) => e is Validation && exists|i: int|
                    0 <= i < old(self).spec_jobs().len() && #[trigger] old(self).spec_jobs()[i].enabled
                        && !old(self).spec_cron().accepts(old(self).spec_jobs()[i].schedule@)
                        && error_message(e) == "Invalid cron expression for job "@
                        + old(self).spec_jobs()[i].name@ + ": "@ + old(self).spec_jobs()[i].schedule@
                        && forall|k: int| 0 <= k < i && #[trigger] old(self).spec_jobs()[k].enabled
                            ==> old(self).spec_cron().accepts(old(self).spec_jobs()[k].schedule@)
                            && old(self).spec_cron().next_run(old(self).spec_jobs()[k].schedule@, now as int, final(self).spec_next_runs()[k])
                        && forall|k: int| i <= k < old(self).spec_jobs().len() ==> #[trigger] final(self).spec_next_runs()[k]
                            == old(self).spec_next_runs()[k],
            },
    {
        let n = self.jobs.len();
        let ghost before = self.next_runs@;
        let mut i: usize = 0;
        while i < n
            invariant
                i <= n,
                n == self.jobs@.len(),
                self.jobs@ == old(self).jobs@,
                self.running@ == old(self).running@,
                self.stopped == old(self).stopped,
                self.cron == old(self).cron,
                self.next_runs@.len() == n,
                old(self).wf(),
                forall|k: int| 0 <= k < n && !self.jobs@[k].enabled ==> #[trigger] self.next_runs@[k] == old(self).next_runs@[k],
                forall|k: int| 0 <= k < i && #[trigger] self.jobs@[k].enabled ==> self.cron.accepts(self.jobs@[k].schedule@)
                    && self.cron.next_run(self.jobs@[k].schedule@, now as int, self.next_runs@[k]),
                forall|k: int| i <= k < n ==> #[trigger] self.next_runs@[k] == old(self).next_runs@[k],
            decreases n - i,
        {
            if self.jobs[i].enabled {
                if !self.cron.is_valid(self.jobs[i].schedule.as_str()) {
                    let mut msg = String::from_str("Invalid cron expression for job ");
                    msg.append(self.jobs[i].name.as_str());
                    msg.append(": ");
                    msg.append(self.jobs[i].schedule.as_str());
                    return Err(AppError::Validation(msg));
                }
                let next = self.cron.next_run_date(self.jobs[i].schedule.as_str(), now);
                self.next_runs.set(i, next);
            }
            i = i + 1;
        }
        Ok(())
    }

    /// Marks the scheduler as stopped.
    pub fn stop(&mut self)
        requires
            old(self).wf(),
        ensures
            final(self).wf(),
            final(self).spec_stopped(),
            final(self).spec_jobs() == old(self).spec_jobs(),
            final(self).spec_next_runs() == old(self).spec_next_runs(),
            final(self).spec_running() == old(self).spec_running(),
            final(self).spec_cron() == old(self).spec_cron(),
    {
        self.stopped = true;
    }

    /// Whether the scheduler was stopped.
    pub fn is_stopped(&self) -> (r: bool)
        ensures
            r == self.spec_stopped(),
    {
        self.stopped
    }

    /// Whether a job of that name is running.
    pub fn is_running(&self, name: &str) -> (r: bool)
        ensures
            r == self.spec_running().contains(name@),
    {
        let n = self.running.len();
        let mut i: usize = 0;
        while i < n
            invariant
                i <= n,
                n == self.running@.len(),
                forall|k: int| 0 <= k < i ==> #[trigger] self.running@[k]@ != name@,
            decreases n - i,
        {
            if str_equal(self.running[i].as_str(), name) {
                assert(self.spec_running()[i as int] == name@);
                return true;
            }
            i = i + 1;
        }
        assert forall|k: int| 0 <= k < self.spec_running().len() implies self.spec_running()[k] != name@ by {
            assert(self.running@[k]@ != name@);
        }
        false
    }

    /// How many jobs are running.
    pub fn running_count(&self) -> (r: usize)
        ensures
            r == self.spec_running().len(),
    {
        self.running.len()
    }

    /// The positions of the jobs that a tick at `now` runs, in order.
    pub fn due_jobs(&self, now: i64) -> (r: Vec<usize>)
        requires
            self.wf(),
        ensures
            forall|k: int| 0 <= k < r@.len() ==> #[trigger] r@[k] < self.spec_jobs().len(),
            forall|k: int, m: int| 0 <= k < m < r@.len() ==> r@[k] < r@[m],
            forall|i: int| 0 <= i < self.spec_jobs().len() ==> (r@.contains(i as usize) <==> #[trigger] is_due(
                self.spec_jobs()[i].enabled,
                self.spec_next_runs()[i],
                now,
            )),
    {
        let n = self.jobs.len();
        let mut out: Vec<usize> = Vec::new();
        let mut i: usize = 0;
        while i < n
            invariant
                i <= n,
                n == self.jobs@.len(),
                self.next_runs@.len() == n,
                forall|k: int| 0 <= k < out@.len() ==> #[trigger] out@[k] < i,
                forall|k: int, m: int| 0 <= k < m < out@.len() ==> out@[k] < out@[m],
                forall|j: int| 0 <= j < i ==> (out@.contains(j as usize) <==> #[trigger] is_due(
                    self.jobs@[j].enabled,
                    self.next_runs@[j],
                    now,
                )),
            decreases n - i,
        {
            let due = self.jobs[i].enabled && match self.next_runs[i] {
                None => true,
                Some(t) => now >= t,
            };
            let ghost before = out@;
            if due {
                out.push(i);
                assert(out@ == before.push(i));
            }
            assert forall|j: int| 0 <= j <= i implies (out@.contains(j as usize) <==> #[trigger] is_due(
                self.jobs@[j].enabled,
                self.next_runs@[j],
                now,
            )) by {
                if j < i {
                    if before.contains(j as usize) {
                        let k = choose|k: int| 0 <= k < before.len() && before[k] == j as usize;
                        assert(out@[k] == j as usize);
                    }
                    if out@.contains(j as usize) {
                        let k = choose|k: int| 0 <= k < out@.len() && out@[k] == j as usize;
                        if k < before.len() {
                            assert(before[k] == j as usize);
                        }
                    }
                } else {
                    if out@.contains(j as usize) {
                        let k = choose|k: int| 0 <= k < out@.len() && out@[k] == j as usize;
                        if k < before.len() {
                            assert(before[k] < i);
                        }
                    }
                    if due {
                        assert(out@[out@.len() - 1] == i);
                    }
                }
            }
            i = i + 1;
        }
        out
    }

    /// Marks job `i` as running, unless a job of its name already is; returns whether it
    /// was marked. A job is never run twice at once.
    pub fn begin_run(&mut self, i: usize) -> (r: bool)
        requires
            old(self).wf(),
            i < old(self).spec_jobs().len(),
        ensures
            final(self).wf(),
            r == !old(self).spec_running().contains(old(self).spec_jobs()[i as int].name@),
            r ==> final(self).spec_running() == with_running(old(self).spec_running(), old(self).spec_jobs()[i as int].name@),
            !r ==> final(self).spec_running() == old(self).spec_running(),
            final(self).spec_jobs() == old(self).spec_jobs(),
            final(self).spec_next_runs() == old(self).spec_next_runs(),
            final(self).spec_stopped() == old(self).spec_stopped(),
            final(self).spec_cron() == old(self).spec_cron(),
    {
        let name = self.jobs[i].name.clone();
        if self.is_running(name.as_str()) {
            return false;
        }
        let ghost before = self.spec_running();
        self.running.push(name);
        assert(self.spec_running() =~= before.push(self.jobs@[i as int].name@));
        assert(no_repeats(self.spec_running())) by {
            assert forall|a: int, b: int| 0 <= a < b < self.spec_running().len() implies self.spec_running()[a] != self.spec_running()[b] by {
                if b == before.len() {
                    assert(before[a] == self.spec_running()[a]);
                }
            }
        }
        true
    }

    /// Marks job `i` as no longer running and sets its next run from the cron adapter.
    pub fn finish_run(&mut self, i: usize, now: i64)
        requires
            old(self).wf(),
            i < old(self).spec_jobs().len(),
        ensures
            final(self).wf(),
            final(self).spec_running() == without_running(old(self).spec_running(), old(self).spec_jobs()[i as int].name@),
            final(self).spec_jobs() == old(self).spec_jobs(),
            final(self).spec_stopped() == old(self).spec_stopped(),
            final(self).spec_cron() == old(self).spec_cron(),
            forall|k: int| 0 <= k < old(self).spec_jobs().len() && k != i ==> #[trigger] final(self).spec_next_runs()[k]
                == old(self).spec_next_runs()[k],
            !old(self).spec_cron().accepts(old(self).spec_jobs()[i as int].schedule@) ==> final(self).spec_next_runs()[i as int] is None,
            old(self).spec_cron().next_run(old(self).spec_jobs()[i as int].schedule@, now as int, final(self).spec_next_runs()[i as int]),
    {
        let ghost name = self.jobs@[i as int].name@;
        let ghost before = self.spec_running();
        let n = self.running.len();
        let mut kept: Vec<String> = Vec::new();
        let mut k: usize = 0;
        while k < n
            invariant
                i < self.jobs@.len(),
                k <= n,
                n == self.running@.len(),
                before == self.running@.map_values(|s: String| s@),
                no_repeats(before),
                name == self.jobs@[i as int].name@,
                kept@.map_values(|s: String| s@) == without_running(before.take(k as int), name),
            decreases n - k,
        {
            assert(before.take(k + 1).drop_last() =~= before.take(k as int));
            assert(before.take(k + 1).last() == self.running@[k as int]@);
            let ghost kv = kept@.map_values(|s: String| s@);
            if !str_equal(self.running[k].as_str(), self.jobs[i].name.as_str()) {
                kept.push(self.running[k].clone());
                assert(kept@.map_values(|s: String| s@) =~= kv.push(before[k as int]));
            }
            k = k + 1;
        }
        assert(before.take(n as int) =~= before);
        proof {
            lemma_without_no_repeats(before, name);
        }
        self.running = kept;
        let next = self.cron.next_run_date(self.jobs[i].schedule.as_str(), now);
        self.next_runs.set(i, next);
    }

    /// Sets the next run of job `i` from the cron adapter, as a tick does for a due job
    /// that is still running.
    pub fn skip_run(&mut self, i: usize, now: i64)
        requires
            old(self).wf(),
            i < old(self).spec_jobs().len(),
        ensures
            final(self).wf(),
            final(self).spec_running() == old(self).spec_running(),
            final(self).spec_jobs() == old(self).spec_jobs(),
            final(self).spec_stopped() == old(self).spec_stopped(),
            final(self).spec_cron() == old(self).spec_cron(),
            forall|k: int| 0 <= k < old(self).spec_jobs().len() && k != i ==> #[trigger] final(self).spec_next_runs()[k]
                == old(self).spec_next_runs()[k],
            !old(self).spec_cron().accepts(old(self).spec_jobs()[i as int].schedule@) ==> final(self).spec_next_runs()[i as int] is None,
            old(self).spec_cron().next_run(old(self).spec_jobs()[i as int].schedule@, now as int, final(self).spec_next_runs()[i as int]),
    {
        let next = self.cron.next_run_date(self.jobs[i].schedule.as_str(), now);
        self.next_runs.set(i, next);
    }

    /// The description of job `i`.
    pub fn job(&self, i: usize) -> (r: &JobInfo)
        requires
            i < self.spec_jobs().len(),
        ensures
            *r == self.spec_jobs()[i as int],
    {
        &self.jobs[i]
    }

    /// The number of registered jobs.
    pub fn job_count(&self) -> (r: usize)
        ensures
            r == self.spec_jobs().len(),
    {
        self.jobs.len()
    }
}

/// Taking a name out keeps a list free of repeats.
proof fn lemma_without_no_repeats(s: Seq<Seq<char>>, name: Seq<char>)
    requires
        no_repeats(s),
    ensures
        no_repeats(without_running(s, name)),
    decreases s.len(),
{
    if s.len() > 0 {
        let rest = without_running(s.drop_last(), name);
        assert(no_repeats(s.drop_last())) by {
            assert forall|a: int, b: int| 0 <= a < b < s.drop_last().len() implies s.drop_last()[a] != s.drop_last()[b] by {
                assert(s[a] != s[b]);
            }
        }
        lemma_without_no_repeats(s.drop_last(), name);
        if s.last() != name {
            assert forall|a: int, b: int| 0 <= a < b < rest.push(s.last()).len() implies rest.push(s.last())[a] != rest.push(s.last())[b] by {
                if b == rest.len() {
                    lemma_without_members(s.drop_last(), name, rest[a]);
                    assert(rest.contains(rest[a]));
                    let c = choose|c: int| 0 <= c < s.drop_last().len() && s.drop_last()[c] == rest[a];
                    assert(s[c] != s[s.len() - 1]);
                }
            }
        }
    }
}

/// Once a prefix of the names has a duplicate, the whole list has the same one.
proof fn lemma_duplicate_prefix(names: Seq<Seq<char>>, k: int)
    requires
        0 <= k <= names.len(),
        first_duplicate(names.take(k)) is Some,
    ensures
        first_duplicate(names) == first_duplicate(names.take(k)),
    decreases names.len() - k,
{
    if k < names.len() {
        assert(names.take(k + 1).drop_last() =~= names.take(k));
        lemma_duplicate_prefix(names, k + 1);
    } else {
        assert(names.take(k) =~= names);
    }
}

/// The scheduler with the jobs the service runs: the health check, switched on or off
/// and scheduled as configured.
pub fn register_jobs<C: CronAdapter>(health_check_enabled: bool, health_check_cron: String, cron: C) -> (r: Result<
    Scheduler<C>,
    AppError,
>)
    ensures
        r matches Ok(s) && s.wf() && s.spec_jobs().len() == 1 && s.spec_jobs()[0].name@ == "health-check"@
            && s.spec_jobs()[0].schedule == health_check_cron && s.spec_jobs()[0].enabled == health_check_enabled
            && s.spec_jobs()[0].description@ == "Reports connection status with PostgreSQL, Redis and RabbitMQ"@,
{
    let job = JobInfo::new(
        String::from_str("health-check"),
        health_check_cron,
        health_check_enabled,
        String::from_str("Reports connection status with PostgreSQL, Redis and RabbitMQ"),
    );
    let jobs = vec![job];
    proof {
        let names = job_names(jobs@);
        assert(names =~= seq![jobs@[0].name@]);
        assert(names.drop_last() =~= Seq::<Seq<char>>::empty());
        assert(first_duplicate(names.drop_last()) is None);
        assert(!names.drop_last().contains(names.last()));
        assert(first_duplicate(names) is None);
    }
    Scheduler::new(jobs, cron)
}

/// When a job comes due: an enabled job whose next run is `t` is due at `t` and at every
/// later tick, and at no tick before; once due it stays due as time goes on; an enabled
/// job that was never scheduled is due at once; a disabled job is never due.
pub proof fn law_due_from_next_run(t: i64, now: i64, later: i64, next: Option<i64>)
    requires
        now <= later,
    ensures
        is_due(true, Some(t), now) <==> t <= now,
        is_due(true, Some(t), t),
        is_due(true, next, now) ==> is_due(true, next, later),
        is_due(true, None, now),
        !is_due(false, next, now),
{
}

} // verus!
