use vstd::prelude::*;

use crate::keyed::{
    keys_unique, latest, lemma_latest_absent, lemma_latest_at, lemma_latest_finite, lemma_latest_len, lemma_latest_lookup, lemma_latest_push,
    lemma_latest_remove, lemma_latest_update,
};
use crate::text::str_eq;

verus! {

/// One minute, in milliseconds.
pub const MINUTE_MS: u64 = 60_000;

/// One hour, in milliseconds.
pub const HOUR_MS: u64 = 3_600_000;

/// Limits on requests per user, overall and per operation.
#[derive(Debug, Clone)]
pub struct RateLimitConfig {
    pub requests_per_minute: u32,
    pub requests_per_hour: u32,
    pub burst_size: u32,
    pub enable_per_operation_limits: bool,
    /// Requests per minute for given operations; a later entry for an
    /// operation replaces an earlier one.
    pub operation_limits: Vec<(String, u32)>,
}

pub open spec fn limit_entries(v: Seq<(String, u32)>) -> Seq<(Seq<char>, u32)> {
    v.map_values(|e: (String, u32)| (e.0@, e.1))
}

impl RateLimitConfig {
    /// Per-operation limits by operation name.
    pub open spec fn operation_limit_map(&self) -> Map<Seq<char>, u32> {
        latest(limit_entries(self.operation_limits@))
    }
}

impl Default for RateLimitConfig {
    fn default() -> (r: Self)
        ensures
            r.requests_per_minute == 60,
            r.requests_per_hour == 1000,
            r.burst_size == 10,
            r.enable_per_operation_limits,
            r.operation_limits@.len() == 3,
            r.operation_limits@[0].0@ == "stress_test"@ && r.operation_limits@[0].1 == 5,
            r.operation_limits@[1].0@ == "experiment"@ && r.operation_limits@[1].1 == 20,
            r.operation_limits@[2].0@ == "observe"@ && r.operation_limits@[2].1 == 100,
    {
        let mut operation_limits: Vec<(String, u32)> = Vec::new();
        operation_limits.push((String::from_str("stress_test"), 5));
        operation_limits.push((String::from_str("experiment"), 20));
        operation_limits.push((String::from_str("observe"), 100));
        RateLimitConfig {
            requests_per_minute: 60,
            requests_per_hour: 1000,
            burst_size: 10,
            enable_per_operation_limits: true,
            operation_limits,
        }
    }
}

/// Counters of one user's requests; times are milliseconds on a monotonic clock.
#[derive(Debug, Clone, Copy, PartialEq, Eq, Structural)]
pub struct RateLimitBucket {
    pub requests_this_minute: u32,
    pub requests_this_hour: u32,
    pub minute_reset_time: u64,
    pub hour_reset_time: u64,
    pub burst_tokens: u32,
    pub last_refill: u64,
}

/// `now + d`, held at the largest time.
pub open spec fn later(now: u64, d: u64) -> u64 {
    if now + d <= u64::MAX {
        (now + d) as u64
    } else {
        u64::MAX
    }
}

fn later_exec(now: u64, d: u64) -> (r: u64)
    ensures
        r == later(now, d),
{
    if now <= u64::MAX - d {
        now + d
    } else {
        u64::MAX
    }
}

/// Burst tokens earned since the last refill: `burst` per minute, whole tokens
/// only.
pub open spec fn tokens_earned(last_refill: u64, now: u64, burst: u32) -> int {
    let elapsed: int = if now >= last_refill {
        now - last_refill
    } else {
        0
    };
    let t = elapsed * burst / (MINUTE_MS as int);
    if t <= u32::MAX {
        t
    } else {
        u32::MAX as int
    }
}

/// The bucket at time `now` before any request is counted: the windows that
/// ended start anew, and earned burst tokens are added up to the burst size.
pub open spec fn refreshed(b: RateLimitBucket, cfg: RateLimitConfig, now: u64) -> RateLimitBucket {
    let b1 = if now >= b.minute_reset_time {
        RateLimitBucket { requests_this_minute: 0, minute_reset_time: later(now, MINUTE_MS), ..b }
    } else {
        b
    };
    let b2 = if now >= b1.hour_reset_time {
        RateLimitBucket { requests_this_hour: 0, hour_reset_time: later(now, HOUR_MS), ..b1 }
    } else {
        b1
    };
    let add = tokens_earned(b2.last_refill, now, cfg.burst_size);
    if add > 0 {
        let sum = b2.burst_tokens + add;
        RateLimitBucket {
            burst_tokens: (if sum <= cfg.burst_size {
                sum
            } else {
                cfg.burst_size as int
            }) as u32,
            last_refill: now,
            ..b2
        }
    } else {
        b2
    }
}

/// A request is allowed when both windows and the burst have room.
pub open spec fn admits(b: RateLimitBucket, cfg: RateLimitConfig) -> bool {
    b.requests_this_minute < cfg.requests_per_minute && b.requests_this_hour < cfg.requests_per_hour
        && b.burst_tokens > 0
}

/// A request at `now` against a bucket: whether it is allowed, and the bucket
/// after it.
pub open spec fn bucket_after(b: RateLimitBucket, cfg: RateLimitConfig, now: u64) -> (bool, RateLimitBucket) {
    let f = refreshed(b, cfg, now);
    if admits(f, cfg) {
        (
            true,
            RateLimitBucket {
                requests_this_minute: (f.requests_this_minute + 1) as u32,
                requests_this_hour: (f.requests_this_hour + 1) as u32,
                burst_tokens: (f.burst_tokens - 1) as u32,
                ..f
            },
        )
    } else {
        (false, f)
    }
}

/// A bucket that starts at `now` with a full burst.
pub open spec fn fresh_bucket(cfg: RateLimitConfig, now: u64) -> RateLimitBucket {
    RateLimitBucket {
        requests_this_minute: 0,
        requests_this_hour: 0,
        minute_reset_time: later(now, MINUTE_MS),
        hour_reset_time: later(now, HOUR_MS),
        burst_tokens: cfg.burst_size,
        last_refill: now,
    }
}

impl RateLimitBucket {
    /// A fresh bucket at time `now`, with a full burst.
    pub fn new(config: &RateLimitConfig, now: u64) -> (r: Self)
        ensures
            r == fresh_bucket(*config, now),
    {
        RateLimitBucket {
            requests_this_minute: 0,
            requests_this_hour: 0,
            minute_reset_time: later_exec(now, MINUTE_MS),
            hour_reset_time: later_exec(now, HOUR_MS),
            burst_tokens: config.burst_size,
            last_refill: now,
        }
    }

    /// Counts a request at time `now` if the limits allow it.
    pub fn try_consume(&mut self, config: &RateLimitConfig, now: u64) -> (r: bool)
        ensures
            (r, *final(self)) == bucket_after(*old(self), *config, now),
    {
        if now >= self.minute_reset_time {
            self.requests_this_minute = 0;
            self.minute_reset_time = later_exec(now, MINUTE_MS);
        }
        if now >= self.hour_reset_time {
            self.requests_this_hour = 0;
            self.hour_reset_time = later_exec(now, HOUR_MS);
        }
        let elapsed: u64 = if now >= self.last_refill {
            now - self.last_refill
        } else {
            0
        };
        let e128: u128 = elapsed as u128;
        let b128: u128 = config.burst_size as u128;
        proof {
            assert(e128 * b128 <= u64::MAX * u32::MAX) by (nonlinear_arith)
                requires
                    e128 <= u64::MAX,
                    b128 <= u32::MAX,
            ;
        }
        let t: u128 = e128 * b128 / (MINUTE_MS as u128);
        let add: u32 = if t <= u32::MAX as u128 {
            t as u32
        } else {
            u32::MAX
        };
        if add > 0 {
            let sum: u64 = self.burst_tokens as u64 + add as u64;
            self.burst_tokens = if sum <= config.burst_size as u64 {
                sum as u32
            } else {
                config.burst_size
            };
            self.last_refill = now;
        }
        if self.requests_this_minute < config.requests_per_minute && self.requests_this_hour
            < config.requests_per_hour && self.burst_tokens > 0 {
            self.requests_this_minute = self.requests_this_minute + 1;
            self.requests_this_hour = self.requests_this_hour + 1;
            self.burst_tokens = self.burst_tokens - 1;
            true
        } else {
            false
        }
    }
}

/// Counter of one user's requests for one operation.
#[derive(Debug, Clone, Copy, PartialEq, Eq, Structural)]
pub struct OperationBucket {
    pub requests_this_minute: u32,
    pub minute_reset_time: u64,
}

/// A request at `now` against an operation bucket with limit `limit`: whether
/// it is allowed, and the bucket after it.
pub open spec fn operation_after(b: OperationBucket, limit: u32, now: u64) -> (bool, OperationBucket) {
    let expired = now >= b.minute_reset_time;
    let count = if expired {
        0
    } else {
        b.requests_this_minute
    };
    let reset = if expired {
        later(now, MINUTE_MS)
    } else {
        b.minute_reset_time
    };
    if count < limit {
        (true, OperationBucket { requests_this_minute: (count + 1) as u32, minute_reset_time: reset })
    } else {
        (false, OperationBucket { requests_this_minute: count, minute_reset_time: reset })
    }
}

pub open spec fn fresh_operation_bucket(now: u64) -> OperationBucket {
    OperationBucket { requests_this_minute: 0, minute_reset_time: later(now, MINUTE_MS) }
}

impl OperationBucket {
    pub fn new(now: u64) -> (r: Self)
        ensures
            r == fresh_operation_bucket(now),
    {
        OperationBucket { requests_this_minute: 0, minute_reset_time: later_exec(now, MINUTE_MS) }
    }

    /// Counts a request at time `now` if fewer than `limit` were counted in the
    /// current minute.
    pub fn try_consume(&mut self, limit: u32, now: u64) -> (r: bool)
        ensures
            (r, *final(self)) == operation_after(*old(self), limit, now),
    {
        if now >= self.minute_reset_time {
            self.requests_this_minute = 0;
            self.minute_reset_time = later_exec(now, MINUTE_MS);
        }
        if self.requests_this_minute < limit {
            self.requests_this_minute = self.requests_this_minute + 1;
            true
        } else {
            false
        }
    }
}

/// A user's remaining allowance.
#[derive(Debug, Clone, Copy, PartialEq, Eq, Structural)]
pub struct RateLimitStatus {
    pub requests_remaining_minute: u32,
    pub requests_remaining_hour: u32,
    pub burst_tokens_remaining: u32,
    pub minute_reset_in_seconds: u64,
    pub hour_reset_in_seconds: u64,
}

/// Per-user request limits, overall and per operation. Times are milliseconds
/// on a monotonic clock, handed in by the caller.
#[derive(Debug)]
pub struct RateLimiter {
    config: RateLimitConfig,
    user_buckets: Vec<(String, RateLimitBucket)>,
    operation_buckets: Vec<((String, String), OperationBucket)>,
    violation_count: u64,
}

pub open spec fn user_entries(v: Seq<(String, RateLimitBucket)>) -> Seq<(Seq<char>, RateLimitBucket)> {
    v.map_values(|e: (String, RateLimitBucket)| (e.0@, e.1))
}

pub open spec fn operation_entries(v: Seq<((String, String), OperationBucket)>) -> Seq<
    ((Seq<char>, Seq<char>), OperationBucket),
> {
    v.map_values(|e: ((String, String), OperationBucket)| ((e.0.0@, e.0.1@), e.1))
}

/// The operation buckets of users other than `user`.
pub open spec fn without_user(
    m: Map<(Seq<char>, Seq<char>), OperationBucket>,
    user: Seq<char>,
) -> Map<(Seq<char>, Seq<char>), OperationBucket> {
    m.restrict(Set::new(|k: (Seq<char>, Seq<char>)| k.0 != user))
}

/// The user buckets whose hour window has not ended by `now`.
pub open spec fn live_users(m: Map<Seq<char>, RateLimitBucket>, now: u64) -> Map<Seq<char>, RateLimitBucket> {
    m.restrict(Set::new(|k: Seq<char>| m.contains_key(k) && !(now > m[k].hour_reset_time)))
}

/// Every operation bucket of `user` has a minute window that ended by `now`.
pub open spec fn user_idle(m: Map<(Seq<char>, Seq<char>), OperationBucket>, user: Seq<char>, now: u64) -> bool {
    forall|k: (Seq<char>, Seq<char>)|
        #[trigger] m.contains_key(k) && k.0 == user ==> now > m[k].minute_reset_time
}

/// The operation buckets of users that are not idle at `now`.
pub open spec fn active_operations(
    m: Map<(Seq<char>, Seq<char>), OperationBucket>,
    now: u64,
) -> Map<(Seq<char>, Seq<char>), OperationBucket> {
    m.restrict(Set::new(|k: (Seq<char>, Seq<char>)| !user_idle(m, k.0, now)))
}

/// The entries of `m` whose user is not idle in `base`.
pub open spec fn restrict_active(
    m: Map<(Seq<char>, Seq<char>), OperationBucket>,
    base: Map<(Seq<char>, Seq<char>), OperationBucket>,
    now: u64,
) -> Map<(Seq<char>, Seq<char>), OperationBucket> {
    m.restrict(Set::new(|k: (Seq<char>, Seq<char>)| !user_idle(base, k.0, now)))
}

/// `n`, held at `usize::MAX`.
pub open spec fn min_usize(n: int) -> int {
    if n <= usize::MAX {
        n
    } else {
        usize::MAX as int
    }
}

/// `a - b`, or zero.
pub open spec fn sat_sub(a: int, b: int) -> int {
    if a > b {
        a - b
    } else {
        0
    }
}

impl RateLimiter {
    pub closed spec fn settings(&self) -> RateLimitConfig {
        self.config
    }

    /// Each user's bucket.
    pub closed spec fn users(&self) -> Map<Seq<char>, RateLimitBucket> {
        latest(user_entries(self.user_buckets@))
    }

    /// Each user's bucket per operation.
    pub closed spec fn operations(&self) -> Map<(Seq<char>, Seq<char>), OperationBucket> {
        latest(operation_entries(self.operation_buckets@))
    }

    /// Requests refused so far.
    pub closed spec fn violations(&self) -> u64 {
        self.violation_count
    }

    pub closed spec fn wf(&self) -> bool {
        keys_unique(user_entries(self.user_buckets@)) && keys_unique(
            operation_entries(self.operation_buckets@),
        )
    }

    pub fn new(config: RateLimitConfig) -> (r: Self)
        ensures
            r.wf(),
            r.settings() == config,
            r.users() == Map::<Seq<char>, RateLimitBucket>::empty(),
            r.operations() == Map::<(Seq<char>, Seq<char>), OperationBucket>::empty(),
            r.violations() == 0,
    {
        let r = RateLimiter {
            config,
            user_buckets: Vec::new(),
            operation_buckets: Vec::new(),
            violation_count: 0,
        };
        assert(user_entries(r.user_buckets@) =~= Seq::empty());
        assert(operation_entries(r.operation_buckets@) =~= Seq::empty());
        r
    }

    /// Requests refused so far.
    pub fn get_violation_count(&self) -> (r: u64)
        ensures
            r == self.violations(),
    {
        self.violation_count
    }

    fn user_index(&self, user_id: &str) -> (r: Option<usize>)
        requires
            self.wf(),
        ensures
            r is None ==> !self.users().contains_key(user_id@),
            r matches Some(i) ==> i < self.user_buckets@.len() && self.user_buckets@[i as int].0@
                == user_id@,
    {
        let ghost e = user_entries(self.user_buckets@);
        let mut i: usize = 0;
        while i < self.user_buckets.len()
            invariant
                i <= self.user_buckets@.len(),
                e == user_entries(self.user_buckets@),
                forall|j: int| 0 <= j < i ==> (#[trigger] e[j]).0 != user_id@,
            decreases self.user_buckets@.len() - i,
        {
            if str_eq(self.user_buckets[i].0.as_str(), user_id) {
                return Some(i);
            }
            i = i + 1;
        }
        proof {
            lemma_latest_absent(e, user_id@);
        }
        None
    }

    fn operation_index(&self, user_id: &str, operation: &str) -> (r: Option<usize>)
        requires
            self.wf(),
        ensures
            r is None ==> !self.operations().contains_key((user_id@, operation@)),
            r matches Some(i) ==> i < self.operation_buckets@.len() && self.operation_buckets@[i as int].0.0@
                == user_id@ && self.operation_buckets@[i as int].0.1@ == operation@,
    {
        let ghost e = operation_entries(self.operation_buckets@);
        let mut i: usize = 0;
        while i < self.operation_buckets.len()
            invariant
                i <= self.operation_buckets@.len(),
                e == operation_entries(self.operation_buckets@),
                forall|j: int| 0 <= j < i ==> (#[trigger] e[j]).0 != (user_id@, operation@),
            decreases self.operation_buckets@.len() - i,
        {
            if str_eq(self.operation_buckets[i].0.0.as_str(), user_id) && str_eq(
                self.operation_buckets[i].0.1.as_str(),
                operation,
            ) {
                return Some(i);
            }
            i = i + 1;
        }
        proof {
            lemma_latest_absent(e, (user_id@, operation@));
        }
        None
    }

    /// The per-minute limit configured for an operation, if any.
    fn operation_limit(&self, operation: &str) -> (r: Option<u32>)
        ensures
            r is None <==> !self.config.operation_limit_map().contains_key(operation@),
            r matches Some(l) ==> l == self.config.operation_limit_map()[operation@],
    {
        let ghost e = limit_entries(self.config.operation_limits@);
        let mut i: usize = self.config.operation_limits.len();
        while i > 0
            invariant
                i <= self.config.operation_limits@.len(),
                e == limit_entries(self.config.operation_limits@),
                forall|j: int| i <= j < e.len() ==> (#[trigger] e[j]).0 != operation@,
            decreases i,
        {
            i = i - 1;
            assert(e[i as int] == (self.config.operation_limits@[i as int].0@, self.config.operation_limits@[i as int].1));
            if str_eq(self.config.operation_limits[i].0.as_str(), operation) {
                proof {
                    lemma_latest_lookup(e, operation@, i as int);
                }
                return Some(self.config.operation_limits[i].1);
            }
        }
        proof {
            lemma_latest_lookup(e, operation@, -1);
        }
        None
    }

    /// Counts a request of `user_id` for `operation` at `now` against the
    /// user's limits and, where one is configured, the operation's limit.
    pub fn check_limit(&mut self, user_id: &str, operation: &str, now: u64) -> (r: bool)
        requires
            old(self).wf(),
        ensures
            final(self).wf(),
            final(self).settings() == old(self).settings(),
            ({
                let cfg = old(self).settings();
                let ub = if old(self).users().contains_key(user_id@) {
                    old(self).users()[user_id@]
                } else {
                    fresh_bucket(cfg, now)
                };
                let (user_ok, ub1) = bucket_after(ub, cfg, now);
                let key = (user_id@, operation@);
                let limited = user_ok && cfg.enable_per_operation_limits
                    && cfg.operation_limit_map().contains_key(operation@);
                let ob = if old(self).operations().contains_key(key) {
                    old(self).operations()[key]
                } else {
                    fresh_operation_bucket(now)
                };
                let (op_ok, ob1) = operation_after(ob, cfg.operation_limit_map()[operation@], now);
                &&& final(self).users() == old(self).users().insert(user_id@, ub1)
                &&& limited ==> final(self).operations() == old(self).operations().insert(key, ob1)
                &&& !limited ==> final(self).operations() == old(self).operations()
                &&& r == (user_ok && (!limited || op_ok))
                &&& final(self).violations() == if r || old(self).violations() == u64::MAX {
                    old(self).violations()
                } else {
                    (old(self).violations() + 1) as u64
                }
            }),
    {
        let cfg = &self.config;
        let ghost ue = user_entries(self.user_buckets@);
        let user_ok = match self.user_index(user_id) {
            Some(i) => {
                proof {
                    lemma_latest_at(ue, i as int);
                    assert(ue[i as int].0 == user_id@);
                }
                let mut b = self.user_buckets[i].1;
                let ok = b.try_consume(&self.config, now);
                let key = self.user_buckets[i].0.clone();
                self.user_buckets.set(i, (key, b));
                proof {
                    assert(user_entries(self.user_buckets@) =~= ue.update(i as int, (user_id@, b)));
                    lemma_latest_update(ue, i as int, b);
                }
                ok
            },
            None => {
                let mut b = RateLimitBucket::new(&self.config, now);
                let ok = b.try_consume(&self.config, now);
                self.user_buckets.push((String::from_str(user_id), b));
                proof {
                    assert(user_entries(self.user_buckets@) =~= ue.push((user_id@, b)));
                    lemma_latest_push(ue, user_id@, b);
                    assert forall|a: int, c: int|
                        0 <= a < c < ue.len() + 1 implies (#[trigger] user_entries(self.user_buckets@)[a]).0
                        != (#[trigger] user_entries(self.user_buckets@)[c]).0 by {
                        if c == ue.len() {
                            lemma_latest_at(ue, a);
                        }
                    }
                }
                ok
            },
        };
        if !user_ok {
            self.count_violation();
            return false;
        }
        if self.config.enable_per_operation_limits {
            match self.operation_limit(operation) {
                Some(limit) => {
                    let ghost oe = operation_entries(self.operation_buckets@);
                    let ghost key = (user_id@, operation@);
                    let op_ok = match self.operation_index(user_id, operation) {
                        Some(i) => {
                            proof {
                                lemma_latest_at(oe, i as int);
                                assert(oe[i as int].0 == key);
                            }
                            let mut b = self.operation_buckets[i].1;
                            let ok = b.try_consume(limit, now);
                            let k = (
                                self.operation_buckets[i].0.0.clone(),
                                self.operation_buckets[i].0.1.clone(),
                            );
                            self.operation_buckets.set(i, (k, b));
                            proof {
                                assert(operation_entries(self.operation_buckets@) =~= oe.update(i as int, (key, b)));
                                lemma_latest_update(oe, i as int, b);
                            }
                            ok
                        },
                        None => {
                            let mut b = OperationBucket::new(now);
                            let ok = b.try_consume(limit, now);
                            self.operation_buckets.push(
                                ((String::from_str(user_id), String::from_str(operation)), b),
                            );
                            proof {
                                assert(operation_entries(self.operation_buckets@) =~= oe.push((key, b)));
                                lemma_latest_push(oe, key, b);
                                assert forall|a: int, c: int|
                                    0 <= a < c < oe.len() + 1 implies (#[trigger] operation_entries(
                                        self.operation_buckets@,
                                    )[a]).0 != (#[trigger] operation_entries(self.operation_buckets@)[c]).0 by {
                                    if c == oe.len() {
                                        lemma_latest_at(oe, a);
                                    }
                                }
                            }
                            ok
                        },
                    };
                    if !op_ok {
                        self.count_violation();
                        return false;
                    }
                },
                None => {},
            }
        }
        true
    }

    fn count_violation(&mut self)
        ensures
            final(self).violation_count == if old(self).violation_count == u64::MAX {
                old(self).violation_count
            } else {
                (old(self).violation_count + 1) as u64
            },
            final(self).config == old(self).config,
            final(self).user_buckets == old(self).user_buckets,
            final(self).operation_buckets == old(self).operation_buckets,
    {
        if self.violation_count < u64::MAX {
            self.violation_count = self.violation_count + 1;
        }
    }

    /// A user's remaining allowance at `now`; a user without a bucket has the
    /// full allowance.
    pub fn get_user_status(&self, user_id: &str, now: u64) -> (r: RateLimitStatus)
        requires
            self.wf(),
        ensures
            self.users().contains_key(user_id@) ==> ({
                let b = self.users()[user_id@];
                &&& r.requests_remaining_minute == sat_sub(
                    self.settings().requests_per_minute as int,
                    b.requests_this_minute as int,
                )
                &&& r.requests_remaining_hour == sat_sub(
                    self.settings().requests_per_hour as int,
                    b.requests_this_hour as int,
                )
                &&& r.burst_tokens_remaining == b.burst_tokens
                &&& r.minute_reset_in_seconds == sat_sub(b.minute_reset_time as int, now as int) / 1000
                &&& r.hour_reset_in_seconds == sat_sub(b.hour_reset_time as int, now as int) / 1000
            }),
            !self.users().contains_key(user_id@) ==> r == (RateLimitStatus {
                requests_remaining_minute: self.settings().requests_per_minute,
                requests_remaining_hour: self.settings().requests_per_hour,
                burst_tokens_remaining: self.settings().burst_size,
                minute_reset_in_seconds: 60,
                hour_reset_in_seconds: 3600,
            }),
    {
        match self.user_index(user_id) {
            Some(i) => {
                proof {
                    lemma_latest_at(user_entries(self.user_buckets@), i as int);
                }
                let b = &self.user_buckets[i].1;
                RateLimitStatus {
                    requests_remaining_minute: self.config.requests_per_minute.saturating_sub(
                        b.requests_this_minute,
                    ),
                    requests_remaining_hour: self.config.requests_per_hour.saturating_sub(
                        b.requests_this_hour,
                    ),
                    burst_tokens_remaining: b.burst_tokens,
                    minute_reset_in_seconds: b.minute_reset_time.saturating_sub(now) / 1000,
                    hour_reset_in_seconds: b.hour_reset_time.saturating_sub(now) / 1000,
                }
            },
            None => RateLimitStatus {
                requests_remaining_minute: self.config.requests_per_minute,
                requests_remaining_hour: self.config.requests_per_hour,
                burst_tokens_remaining: self.config.burst_size,
                minute_reset_in_seconds: 60,
                hour_reset_in_seconds: 3600,
            },
        }
    }

    /// Forgets every bucket of a user.
    pub fn reset_user_limits(&mut self, user_id: &str)
        requires
            old(self).wf(),
        ensures
            final(self).wf(),
            final(self).settings() == old(self).settings(),
            final(self).violations() == old(self).violations(),
            final(self).users() == old(self).users().remove(user_id@),
            final(self).operations() == without_user(old(self).operations(), user_id@),
    {
        match self.user_index(user_id) {
            Some(i) => {
                let ghost ue = user_entries(self.user_buckets@);
                let _ = self.user_buckets.remove(i);
                proof {
                    assert(user_entries(self.user_buckets@) =~= ue.remove(i as int));
                    lemma_latest_remove(ue, i as int);
                }
            },
            None => {
                assert(old(self).users().remove(user_id@) =~= old(self).users());
            },
        }
        let ghost m = self.operations();
        let mut i: usize = 0;
        while i < self.operation_buckets.len()
            invariant
                i <= self.operation_buckets@.len(),
                keys_unique(operation_entries(self.operation_buckets@)),
                without_user(self.operations(), user_id@) == without_user(m, user_id@),
                forall|j: int|
                    0 <= j < i ==> (#[trigger] operation_entries(self.operation_buckets@)[j]).0.0
                        != user_id@,
                self.users() == old(self).users().remove(user_id@),
                keys_unique(user_entries(self.user_buckets@)),
                self.config == old(self).config,
                self.violation_count == old(self).violation_count,
            decreases self.operation_buckets@.len() - i,
        {
            let ghost oe = operation_entries(self.operation_buckets@);
            if str_eq(self.operation_buckets[i].0.0.as_str(), user_id) {
                let ghost key = oe[i as int].0;
                let _ = self.operation_buckets.remove(i);
                proof {
                    assert(operation_entries(self.operation_buckets@) =~= oe.remove(i as int));
                    lemma_latest_remove(oe, i as int);
                    assert(without_user(latest(oe).remove(key), user_id@) =~= without_user(
                        latest(oe),
                        user_id@,
                    ));
                }
            } else {
                i = i + 1;
            }
        }
        proof {
            let oe = operation_entries(self.operation_buckets@);
            assert forall|k: (Seq<char>, Seq<char>)| k.0 == user_id@ implies !latest(oe).contains_key(k) by {
                assert forall|j: int| 0 <= j < oe.len() implies (#[trigger] oe[j]).0 != k by {}
                lemma_latest_absent(oe, k);
            }
            assert(without_user(latest(oe), user_id@) =~= latest(oe));
        }
    }

    /// Whether every operation bucket of `user` has an ended minute window.
    fn is_idle(&self, user: &String, now: u64) -> (r: bool)
        requires
            self.wf(),
        ensures
            r == user_idle(self.operations(), user@, now),
    {
        let ghost oe = operation_entries(self.operation_buckets@);
        let mut j: usize = 0;
        while j < self.operation_buckets.len()
            invariant
                j <= self.operation_buckets@.len(),
                oe == operation_entries(self.operation_buckets@),
                keys_unique(oe),
                forall|a: int| 0 <= a < j && (#[trigger] oe[a]).0.0 == user@ ==> now > oe[a].1.minute_reset_time,
            decreases self.operation_buckets@.len() - j,
        {
            if str_eq(self.operation_buckets[j].0.0.as_str(), user.as_str()) {
                if !(now > self.operation_buckets[j].1.minute_reset_time) {
                    proof {
                        lemma_latest_at(oe, j as int);
                        assert(oe[j as int].0.0 == user@);
                    }
                    return false;
                }
            }
            j = j + 1;
        }
        proof {
            lemma_latest_finite(oe);
            assert forall|k: (Seq<char>, Seq<char>)|
                #[trigger] latest(oe).contains_key(k) && k.0 == user@ implies now > latest(oe)[k].minute_reset_time by {
                let a = choose|a: int| 0 <= a < oe.len() && (#[trigger] oe[a]).0 == k;
                lemma_latest_at(oe, a);
            }
        }
        true
    }

    /// Drops the user buckets whose hour window ended by `now`, and the
    /// operation buckets of users all of whose minute windows ended by `now`;
    /// says how many buckets went.
    pub fn cleanup_expired_buckets(&mut self, now: u64) -> (r: usize)
        requires
            old(self).wf(),
        ensures
            final(self).wf(),
            final(self).settings() == old(self).settings(),
            final(self).violations() == old(self).violations(),
            final(self).users() == live_users(old(self).users(), now),
            final(self).operations() == active_operations(old(self).operations(), now),
            r == min_usize(
                (old(self).users().dom().len() - final(self).users().dom().len()) + (old(
                    self,
                ).operations().dom().len() - final(self).operations().dom().len()),
            ),
    {
        proof {
            lemma_latest_len(user_entries(self.user_buckets@));
            lemma_latest_len(operation_entries(self.operation_buckets@));
        }
        let mut cleaned: usize = 0;
        let user_len = self.user_buckets.len();
        // user buckets
        let ghost um = self.users();
        let mut i: usize = 0;
        while i < self.user_buckets.len()
            invariant
                i <= self.user_buckets@.len(),
                user_len == old(self).user_buckets@.len(),
                cleaned == old(self).user_buckets@.len() - self.user_buckets@.len(),
                self.user_buckets@.len() <= old(self).user_buckets@.len(),
                keys_unique(user_entries(self.user_buckets@)),
                live_users(self.users(), now) == live_users(um, now),
                forall|j: int|
                    0 <= j < i ==> !(now > (#[trigger] user_entries(self.user_buckets@)[j]).1.hour_reset_time),
                self.operation_buckets == old(self).operation_buckets,
                keys_unique(operation_entries(self.operation_buckets@)),
                self.config == old(self).config,
                self.violation_count == old(self).violation_count,
            decreases self.user_buckets@.len() - i,
        {
            let ghost ue = user_entries(self.user_buckets@);
            if now > self.user_buckets[i].1.hour_reset_time {
                let ghost key = ue[i as int].0;
                proof {
                    lemma_latest_at(ue, i as int);
                }
                let _ = self.user_buckets.remove(i);
                cleaned = cleaned + 1;
                proof {
                    assert(user_entries(self.user_buckets@) =~= ue.remove(i as int));
                    lemma_latest_remove(ue, i as int);
                    assert(live_users(latest(ue).remove(key), now) =~= live_users(latest(ue), now));
                }
            } else {
                i = i + 1;
            }
        }
        proof {
            let ue = user_entries(self.user_buckets@);
            lemma_latest_finite(ue);
            assert forall|k: Seq<char>| #[trigger] latest(ue).contains_key(k) implies !(now
                > latest(ue)[k].hour_reset_time) by {
                let a = choose|a: int| 0 <= a < ue.len() && (#[trigger] ue[a]).0 == k;
                lemma_latest_at(ue, a);
            }
            assert(live_users(latest(ue), now) =~= latest(ue));
        }
        // operation buckets: judge each entry by the map as it was on entry
        let ghost om = self.operations();
        assert(self.operation_buckets@ == old(self).operation_buckets@);
        let mut idle: Vec<bool> = Vec::new();
        let mut j: usize = 0;
        while j < self.operation_buckets.len()
            invariant
                j <= self.operation_buckets@.len(),
                idle@.len() == j,
                self.operations() == om,
                self.wf(),
                self.operation_buckets@ == old(self).operation_buckets@,
                self.user_buckets@.len() <= old(self).user_buckets@.len(),
                cleaned == old(self).user_buckets@.len() - self.user_buckets@.len(),
                self.users() == live_users(um, now),
                self.config == old(self).config,
                self.violation_count == old(self).violation_count,
                forall|a: int|
                    0 <= a < j ==> idle@[a] == user_idle(
                        om,
                        (#[trigger] operation_entries(self.operation_buckets@)[a]).0.0,
                        now,
                    ),
            decreases self.operation_buckets@.len() - j,
        {
            let b = self.is_idle(&self.operation_buckets[j].0.0, now);
            assert(operation_entries(self.operation_buckets@)[j as int].0.0 == self.operation_buckets@[j as int].0.0@);
            idle.push(b);
            j = j + 1;
        }
        let mut k: usize = 0;
        while k < self.operation_buckets.len()
            invariant
                k <= self.operation_buckets@.len(),
                idle@.len() == self.operation_buckets@.len(),
                keys_unique(operation_entries(self.operation_buckets@)),
                keys_unique(user_entries(self.user_buckets@)),
                cleaned == min_usize(
                    (old(self).user_buckets@.len() - self.user_buckets@.len()) + (old(
                        self,
                    ).operation_buckets@.len() - self.operation_buckets@.len()),
                ),
                self.user_buckets@.len() <= old(self).user_buckets@.len(),
                self.operation_buckets@.len() <= old(self).operation_buckets@.len(),
                restrict_active(self.operations(), om, now) == active_operations(om, now),
                forall|a: int|
                    0 <= a < idle@.len() ==> idle@[a] == user_idle(
                        om,
                        (#[trigger] operation_entries(self.operation_buckets@)[a]).0.0,
                        now,
                    ),
                forall|a: int| 0 <= a < k ==> !idle@[a],
                forall|key: (Seq<char>, Seq<char>)| #[trigger] self.operations().contains_key(key)
                    ==> om.contains_key(key) && self.operations()[key] == om[key],
                self.users() == live_users(um, now),
                self.config == old(self).config,
                self.violation_count == old(self).violation_count,
            decreases self.operation_buckets@.len() - k,
        {
            let ghost oe = operation_entries(self.operation_buckets@);
            if idle[k] {
                let ghost key = oe[k as int].0;
                proof {
                    lemma_latest_at(oe, k as int);
                }
                let _ = self.operation_buckets.remove(k);
                let _ = idle.remove(k);
                proof {
                    assert(operation_entries(self.operation_buckets@) =~= oe.remove(k as int));
                    lemma_latest_remove(oe, k as int);
                    assert(restrict_active(latest(oe).remove(key), om, now) =~= restrict_active(
                        latest(oe),
                        om,
                        now,
                    ));
                    assert forall|a: int| 0 <= a < idle@.len() implies idle@[a] == user_idle(
                        om,
                        (#[trigger] operation_entries(self.operation_buckets@)[a]).0.0,
                        now,
                    ) by {
                        if a < k {
                            assert(operation_entries(self.operation_buckets@)[a] == oe[a]);
                        } else {
                            assert(operation_entries(self.operation_buckets@)[a] == oe[a + 1]);
                        }
                    }
                }
                if cleaned < usize::MAX {
                    cleaned = cleaned + 1;
                }
            } else {
                k = k + 1;
            }
        }
        proof {
            let oe = operation_entries(self.operation_buckets@);
            lemma_latest_len(oe);
            lemma_latest_len(user_entries(self.user_buckets@));
            lemma_latest_finite(oe);
            assert forall|key: (Seq<char>, Seq<char>)| #[trigger] latest(oe).contains_key(key) implies !user_idle(
                om,
                key.0,
                now,
            ) by {
                let a = choose|a: int| 0 <= a < oe.len() && (#[trigger] oe[a]).0 == key;
                assert(!idle@[a]);
            }
            assert(restrict_active(latest(oe), om, now) =~= latest(oe));
            assert(active_operations(om, now) =~= restrict_active(om, om, now));
        }
        cleaned
    }
}

} // verus!
