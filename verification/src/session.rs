use vstd::prelude::*;
use crate::errors::{AppError, error_message};

verus! {

/// The key of a user's session version.
pub fn session_version_key(user_id: &str) -> (r: String)
    ensures
        r@ == "session:user:"@ + user_id@ + ":version"@,
{
    crate::query_parser::join3("session:user:", user_id, ":version")
}

/// The key of one session token of a user.
pub fn session_token_key(user_id: &str, token: &str) -> (r: String)
    ensures
        r@ == "session:user:"@ + user_id@ + ":token:"@ + token@,
{
    let mut s = String::from_str("session:user:");
    s.append(user_id);
    s.append(":token:");
    s.append(token);
    s
}

/// How long, in seconds, a user's cached permissions live.
pub const PERMISSIONS_TTL_SEC: i64 = 3600;

/// The key under which a user's permissions are cached.
pub fn permissions_key(user_id: &str) -> (r: String)
    ensures
        r@ == "session:"@ + user_id@ + ":permissions"@,
{
    crate::query_parser::join3("session:", user_id, ":permissions")
}

/// The key of a client's request window.
pub fn rate_limit_key(rate_key: &str) -> (r: String)
    ensures
        r@ == "ratelimit:"@ + rate_key@,
{
    let mut s = String::from_str("ratelimit:");
    s.append(rate_key);
    s
}

/// Whether a session is valid from what the cache holds: the version stored with the token
/// and the user's current version (zero when unset). A token that is not stored is invalid;
/// one stored with an older version was revoked.
pub open spec fn session_valid(token_version: Option<i64>, current_version: Option<i64>) -> bool {
    match token_version {
        None => false,
        Some(v) => v == match current_version {
            Some(c) => c,
            None => 0,
        },
    }
}

/// Whether a session is valid, from the two values that the cache returns for the token
/// key and the version key; a failed read counts as neither being present.
pub fn validate_session_reply(reply: &Option<Vec<Option<i64>>>) -> (r: bool)
    ensures
        r == match reply {
            Some(v) => session_valid(
                if v@.len() > 0 { v@[0] } else { None },
                if v@.len() > 1 { v@[1] } else { None },
            ),
            None => false,
        },
{
    match reply {
        None => false,
        Some(v) => {
            let token_version = if v.len() > 0 { v[0] } else { None };
            let current = if v.len() > 1 { v[1] } else { None };
            match token_version {
                None => false,
                Some(t) => t == match current {
                    Some(c) => c,
                    None => 0,
                },
            }
        },
    }
}

/// Revoking a user's sessions bumps the version, so that every token stored before no
/// longer validates.
pub proof fn law_revocation_invalidates(token_version: i64, current: Option<i64>)
    requires
        session_valid(Some(token_version), current),
        token_version < i64::MAX,
    ensures
        !session_valid(Some(token_version), Some((token_version + 1) as i64)),
{
}

/// The verdict of the request counter: whether the request is admitted, how many requests
/// remain in the window (never below zero), and the limit. The counter answers with a flag
/// (1 for admitted) and the count after the request; a missing count is taken as `limit`.
pub open spec fn rate_limit_verdict(reply: Seq<i64>, limit: i64) -> (bool, int, int) {
    let allowed = reply.len() > 0 && reply[0] == 1;
    let count: int = if reply.len() > 1 { reply[1] as int } else { limit as int };
    let remaining: int = if allowed { limit - count } else { 0 };
    (allowed, if remaining > 0 { remaining } else { 0 }, limit as int)
}

/// The verdict of the request counter, as `rate_limit_verdict` gives it.
pub fn rate_limit_outcome(reply: &Vec<i64>, limit: i64) -> (r: (bool, i64, i64))
    requires
        reply@.len() > 1 && reply@[0] == 1 ==> i64::MIN <= limit - reply@[1] <= i64::MAX,
    ensures
        (r.0, r.1 as int, r.2 as int) == rate_limit_verdict(reply@, limit),
{
    let allowed = reply.len() > 0 && reply[0] == 1;
    let count = if reply.len() > 1 { reply[1] } else { limit };
    let remaining = if allowed { limit - count } else { 0 };
    (allowed, if remaining > 0 { remaining } else { 0 }, limit)
}

/// A sliding window of admitted request times, in milliseconds, as the cache keeps it.
#[derive(Debug, Clone)]
pub struct RequestWindow {
    pub hits: Vec<i64>,
}

/// The times in `hits` after `clear_before`.
pub open spec fn recent(hits: Seq<i64>, clear_before: int) -> Seq<i64>
    decreases hits.len(),
{
    if hits.len() == 0 {
        hits
    } else {
        let rest = recent(hits.drop_last(), clear_before);
        if hits.last() > clear_before {
            rest.push(hits.last())
        } else {
            rest
        }
    }
}

/// The script that the cache runs, atomically, for each request: the counter's step of
/// `window_step`, with the key of the window, `now`, the window's start, the limit and
/// the window's length in seconds as its arguments; it replies the flag and the count
/// that `record_request` answers.
pub const RATE_LIMIT_SCRIPT: &'static str = "
            local key = KEYS[1]
            local now = tonumber(ARGV[1])
            local clear_before = tonumber(ARGV[2])
            local limit = tonumber(ARGV[3])
            local window_sec = tonumber(ARGV[4])
            redis.call('ZREMRANGEBYSCORE', key, '-inf', clear_before)
            local count = tonumber(redis.call('ZCARD', key) or \"0\")
            if count >= limit then
                return {0, count}
            end
            redis.call('ZADD', key, now, now)
            redis.call('EXPIRE', key, window_sec)
            return {1, count + 1}
            ";

/// The counter's step for a request at `now` (milliseconds), as the cache's script takes
/// it: the times at or before `now - window_sec * 1000` are dropped; with `limit` or more
/// left the request is refused; otherwise `now` is added to the set of times (where it is
/// already there, the set stays as it is). Gives whether the request was admitted and
/// the window after it.
pub open spec fn window_step(hits: Seq<i64>, now: i64, limit: int, window_sec: int) -> (bool, Seq<i64>) {
    let kept = recent(hits, now - window_sec * 1000);
    if kept.len() >= limit {
        (false, kept)
    } else if kept.contains(now) {
        (true, kept)
    } else {
        (true, kept.push(now))
    }
}

impl RequestWindow {
    /// An empty window.
    pub fn new() -> (r: RequestWindow)
        ensures
            r.hits@.len() == 0,
    {
        RequestWindow { hits: Vec::new() }
    }

    /// The counter's step for a request at `now` (milliseconds), as `window_step` gives it.
    /// Answers the flag (1 admitted, 0 refused) and the count that the script replies: the
    /// times left in the window, one more when the request is admitted.
    pub fn record_request(&mut self, now: i64, limit: i64, window_sec: i64) -> (r: (i64, i64))
        requires
            0 <= window_sec <= 1_000_000_000,
            0 <= now,
            old(self).hits@.len() < i64::MAX,
        ensures
            ({
                let kept = recent(old(self).hits@, now - window_sec * 1000);
                let (admitted, after) = window_step(old(self).hits@, now, limit as int, window_sec as int);
                &&& final(self).hits@ == after
                &&& r == (if admitted {
                    (1i64, (kept.len() + 1) as i64)
                } else {
                    (0i64, kept.len() as i64)
                })
            }),
    {
        let clear_before = now - window_sec * 1000;
        let n = self.hits.len();
        let ghost h = self.hits@;
        let mut kept: Vec<i64> = Vec::new();
        let mut seen = false;
        let mut i: usize = 0;
        while i < n
            invariant
                i <= n,
                n == h.len(),
                h == self.hits@,
                kept@ == recent(h.take(i as int), clear_before as int),
                kept@.len() <= i,
                seen == kept@.contains(now),
            decreases n - i,
        {
            assert(h.take(i + 1).drop_last() =~= h.take(i as int));
            if self.hits[i] > clear_before {
                let x = self.hits[i];
                proof {
                    if kept@.push(x).contains(now) && !kept@.contains(now) {
                        let w = choose|w: int| 0 <= w < kept@.push(x).len() && kept@.push(x)[w] == now;
                        assert(w == kept@.len());
                    }
                    if kept@.contains(now) {
                        let w = choose|w: int| 0 <= w < kept@.len() && kept@[w] == now;
                        assert(kept@.push(x)[w] == now);
                    }
                    if x == now {
                        assert(kept@.push(x)[kept@.len() as int] == now);
                    }
                }
                kept.push(x);
                seen = seen || x == now;
            }
            i = i + 1;
        }
        assert(h.take(n as int) =~= h);
        assert(kept@.len() < i64::MAX);
        let count = kept.len() as i64;
        if count >= limit {
            self.hits = kept;
            (0, count)
        } else {
            if !seen {
                kept.push(now);
            }
            self.hits = kept;
            (1, count + 1)
        }
    }
}

/// Every time kept in the window lies after the window's start, so that a window never
/// holds more than `limit` admitted times after a refusal-free run of admissions.
pub proof fn law_recent_within_window(hits: Seq<i64>, clear_before: int)
    ensures
        forall|k: int| 0 <= k < recent(hits, clear_before).len() ==> #[trigger] recent(hits, clear_before)[k] > clear_before,
        recent(hits, clear_before).len() <= hits.len(),
    decreases hits.len(),
{
    if hits.len() > 0 {
        law_recent_within_window(hits.drop_last(), clear_before);
    }
}

/// What the counter answers to requests at `times`, in order, starting from an empty
/// window (whether each was admitted), and the window after them.
pub open spec fn window_run(times: Seq<i64>, limit: int, window_sec: int) -> (Seq<bool>, Seq<i64>)
    decreases times.len(),
{
    if times.len() == 0 {
        (Seq::empty(), Seq::empty())
    } else {
        let before = window_run(times.drop_last(), limit, window_sec);
        let step = window_step(before.1, times.last(), limit, window_sec);
        (before.0.push(step.0), step.1)
    }
}

/// The count that the counter replies to each of the requests at `times`, in order,
/// starting from an empty window: the times left in the request's window, one more when
/// the request is admitted.
pub open spec fn window_counts(times: Seq<i64>, limit: int, window_sec: int) -> Seq<int>
    decreases times.len(),
{
    if times.len() == 0 {
        Seq::empty()
    } else {
        let before = window_run(times.drop_last(), limit, window_sec);
        let kept = recent(before.1, times.last() - window_sec * 1000);
        let step = window_step(before.1, times.last(), limit, window_sec);
        window_counts(times.drop_last(), limit, window_sec).push(
            if step.0 {
                kept.len() + 1int
            } else {
                kept.len() as int
            },
        )
    }
}

/// The times of the admitted requests among the first `k` that lie after `clear_before`.
pub open spec fn admitted_after(times: Seq<i64>, admitted: Seq<bool>, k: int, clear_before: int) -> Seq<i64>
    decreases k,
{
    if k <= 0 {
        Seq::empty()
    } else {
        let rest = admitted_after(times, admitted, k - 1, clear_before);
        if admitted[k - 1] && times[k - 1] > clear_before {
            rest.push(times[k - 1])
        } else {
            rest
        }
    }
}

proof fn lemma_admitted_prefix(times: Seq<i64>, admitted: Seq<bool>, k: int, c: int)
    requires
        0 <= k < times.len(),
        admitted.len() == times.len(),
    ensures
        admitted_after(times.drop_last(), admitted.drop_last(), k, c) == admitted_after(times, admitted, k, c),
    decreases k,
{
    if k > 0 {
        lemma_admitted_prefix(times, admitted, k - 1, c);
    }
}

proof fn lemma_admitted_recent(times: Seq<i64>, admitted: Seq<bool>, k: int, c1: int, c2: int)
    requires
        0 <= k <= times.len(),
        k <= admitted.len(),
        c1 <= c2,
    ensures
        recent(admitted_after(times, admitted, k, c1), c2) == admitted_after(times, admitted, k, c2),
    decreases k,
{
    if k > 0 {
        lemma_admitted_recent(times, admitted, k - 1, c1, c2);
        let rest = admitted_after(times, admitted, k - 1, c1);
        if admitted[k - 1] && times[k - 1] > c1 {
            assert(rest.push(times[k - 1]).drop_last() =~= rest);
        }
    }
}

proof fn lemma_admitted_below(times: Seq<i64>, admitted: Seq<bool>, k: int, c: int, bound: int)
    requires
        0 <= k <= times.len(),
        k <= admitted.len(),
        forall|i: int| 0 <= i < k ==> times[i] < bound,
    ensures
        forall|m: int| 0 <= m < admitted_after(times, admitted, k, c).len() ==> #[trigger] admitted_after(times, admitted, k, c)[m] < bound,
    decreases k,
{
    if k > 0 {
        lemma_admitted_below(times, admitted, k - 1, c, bound);
        let rest = admitted_after(times, admitted, k - 1, c);
        if admitted[k - 1] && times[k - 1] > c {
            assert forall|m: int| 0 <= m < rest.len() + 1 implies #[trigger] rest.push(times[k - 1])[m] < bound by {
                if m < rest.len() {
                    assert(rest.push(times[k - 1])[m] == rest[m]);
                }
            }
        }
    }
}

proof fn lemma_window_run(times: Seq<i64>, limit: int, window_sec: int)
    requires
        limit >= 1,
        window_sec >= 1,
        forall|a: int, b: int| 0 <= a < b < times.len() ==> times[a] < times[b],
    ensures
        ({
            let (admitted, hits) = window_run(times, limit, window_sec);
            &&& admitted.len() == times.len()
            &&& window_counts(times, limit, window_sec).len() == times.len()
            &&& hits.len() <= limit
            &&& times.len() > 0 ==> hits == admitted_after(times, admitted, times.len() as int, times.last() - window_sec * 1000)
            &&& forall|j: int| 0 <= j < times.len() ==> {
                let c = times[j] - window_sec * 1000;
                &&& #[trigger] admitted[j] == (admitted_after(times, admitted, j, c).len() < limit)
                &&& admitted_after(times, admitted, j + 1, c).len() <= limit
                &&& window_counts(times, limit, window_sec)[j] == admitted_after(times, admitted, j, c).len() + (if admitted[j] {
                    1int
                } else {
                    0int
                })
            }
        }),
    decreases times.len(),
{
    let n = times.len() as int;
    if n > 0 {
        let pre = times.drop_last();
        lemma_window_run(pre, limit, window_sec);
        let (adm0, hits0) = window_run(pre, limit, window_sec);
        let t = times.last();
        let c = t - window_sec * 1000;
        let kept = recent(hits0, c);
        let (a, h) = window_step(hits0, t, limit, window_sec);
        let adm = adm0.push(a);
        assert(window_run(times, limit, window_sec) == (adm, h));
        assert(adm.drop_last() =~= adm0);
        law_recent_within_window(hits0, c);
        assert(kept == admitted_after(pre, adm0, n - 1, c)) by {
            if n - 1 > 0 {
                lemma_admitted_recent(pre, adm0, n - 1, pre.last() - window_sec * 1000, c);
            }
        }
        lemma_admitted_prefix(times, adm, n - 1, c);
        assert(kept == admitted_after(times, adm, n - 1, c));
        lemma_admitted_below(times, adm, n - 1, c, t as int);
        assert(!kept.contains(t)) by {
            if kept.contains(t) {
                let m = choose|m: int| 0 <= m < kept.len() && kept[m] == t;
                assert(kept[m] < t);
            }
        }
        assert(h == admitted_after(times, adm, n, c));
        let counts = window_counts(times, limit, window_sec);
        let counts0 = window_counts(pre, limit, window_sec);
        assert(counts == counts0.push(if a { kept.len() + 1int } else { kept.len() as int }));
        assert forall|j: int| 0 <= j < n implies {
            let cj = times[j] - window_sec * 1000;
            &&& #[trigger] adm[j] == (admitted_after(times, adm, j, cj).len() < limit)
            &&& admitted_after(times, adm, j + 1, cj).len() <= limit
            &&& counts[j] == admitted_after(times, adm, j, cj).len() + (if adm[j] {
                1int
            } else {
                0int
            })
        } by {
            if j < n - 1 {
                assert(counts[j] == counts0[j]);
                let cj = times[j] - window_sec * 1000;
                assert(pre[j] == times[j]);
                assert(adm[j] == adm0[j]);
                lemma_admitted_prefix(times, adm, j, cj);
                lemma_admitted_prefix(times, adm, j + 1, cj);
            }
        }
    }
}

/// The request counter, run on requests at strictly increasing times (milliseconds)
/// from an empty window with `limit` and `window_sec` at least 1: request `j` is
/// admitted exactly when fewer than `limit` earlier admitted requests lie in its window
/// (after `times[j] - 1000 * window_sec`), the count it is answered is that number, one
/// more when admitted (so that `rate_limit_outcome` reports `limit - earlier - 1`
/// remaining to an admitted request and 0 to a refused one), and no window ever holds
/// more than `limit` admitted requests. (With two requests in the same millisecond the set of times keeps
/// one entry for both, and more than `limit` may be admitted.)
pub proof fn law_rate_limit_run(times: Seq<i64>, limit: int, window_sec: int, j: int)
    requires
        limit >= 1,
        window_sec >= 1,
        forall|a: int, b: int| 0 <= a < b < times.len() ==> times[a] < times[b],
        0 <= j < times.len(),
    ensures
        ({
            let admitted = window_run(times, limit, window_sec).0;
            let c = times[j] - window_sec * 1000;
            let earlier = admitted_after(times, admitted, j, c).len();
            let count = window_counts(times, limit, window_sec)[j];
            &&& admitted.len() == times.len()
            &&& admitted[j] == (earlier < limit)
            &&& count == earlier + (if admitted[j] { 1int } else { 0int })
            &&& admitted[j] ==> limit - count == limit - earlier - 1 >= 0
            &&& admitted_after(times, admitted, j + 1, c).len() <= limit
        }),
{
    lemma_window_run(times, limit, window_sec);
}

/// The message when a user's old sessions cannot be expired.
pub fn expire_sessions_error(detail: &str) -> (r: AppError)
    ensures
        r is Internal && error_message(r) == "Erro ao expirar sessões antigas: "@ + detail@,
{
    let mut s = String::from_str("Erro ao expirar sessões antigas: ");
    s.append(detail);
    AppError::Internal(s)
}

/// The message when permissions cannot be cached.
pub fn save_permissions_error(detail: &str) -> (r: AppError)
    ensures
        r is Internal && error_message(r) == "Erro ao salvar permissões no Redis: "@ + detail@,
{
    let mut s = String::from_str("Erro ao salvar permissões no Redis: ");
    s.append(detail);
    AppError::Internal(s)
}

} // verus!
