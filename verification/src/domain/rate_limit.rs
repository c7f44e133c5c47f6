//! Fixed-window rate limiting by bucket key.
//!
//! A limiter counts the requests of each bucket in a window that starts with
//! the first request of the bucket; a request is allowed while the count is
//! under the limit, and the window restarts once it has fully elapsed.
use std::time::Duration;
use std::time::Instant;
use vstd::prelude::*;

use crate::domain::ids::{uuid_hyphenated, uuid_to_string};
use crate::text::{chars_of, lower_seq, push_str, string_of, to_ascii_lowercase, trim, trim_seq};

verus! {

pub const AUTH_LOGIN_LIMIT: u32 = 5;

pub const AUTH_LOGIN_WINDOW_SECONDS: u64 = 60;

pub const AUTH_REGISTER_LIMIT: u32 = 5;

pub const AUTH_REGISTER_WINDOW_SECONDS: u64 = 60;

pub const ATTACHMENT_PRESIGN_LIMIT: u32 = 5;

pub const ATTACHMENT_PRESIGN_WINDOW_SECONDS: u64 = 60;

pub const ATTACHMENT_UPLOAD_LIMIT: u32 = 10;

pub const ATTACHMENT_UPLOAD_WINDOW_SECONDS: u64 = 60;

pub const COMPAT_REST_BOT_LIMIT: u32 = 10;

pub const COMPAT_REST_BOT_WINDOW_SECONDS: u64 = 60;

pub const COMPAT_GATEWAY_IDENTIFY_LIMIT: u32 = 1;

pub const COMPAT_GATEWAY_IDENTIFY_WINDOW_SECONDS: u64 = 5;

pub const MESSAGE_CREATE_LIMIT: u32 = 5;

pub const MESSAGE_CREATE_WINDOW_SECONDS: u64 = 60;

pub const PUBLIC_WEBHOOK_EXECUTION_LIMIT: u32 = 5;

pub const PUBLIC_WEBHOOK_EXECUTION_WINDOW_SECONDS: u64 = 60;

pub const NANOS_PER_SECOND: u128 = 1_000_000_000;

/// Window lengths are durations: whole seconds fit in a `u64`.
pub open spec fn max_window_nanos() -> u128 {
    ((u64::MAX as u128) * NANOS_PER_SECOND + 999_999_999) as u128
}

/// `std::time::Instant`, carried through as an opaque value.
#[verifier::external_type_specification]
#[verifier::external_body]
pub struct ExInstant(Instant);

/// `Instant::now`: a reading of the monotonic clock.
#[verifier::external_body]
fn instant_now() -> Instant {
    Instant::now()
}

/// `Instant::elapsed`: the time since `origin`, by the monotonic clock.
#[verifier::external_body]
fn instant_elapsed(origin: &Instant) -> Duration {
    origin.elapsed()
}

/// The whole nanoseconds of a `Duration` (`Duration::as_nanos`).
pub uninterp spec fn duration_nanos(d: Duration) -> u128;

/// `Duration::as_nanos`: whole nanoseconds of `d`. The seconds of a
/// `Duration` are a `u64` and its sub-second part is below one second, so
/// the result is at most `max_window_nanos()`.
#[verifier::external_body]
fn duration_as_nanos(d: &Duration) -> (r: u128)
    ensures
        r == duration_nanos(*d),
        r <= max_window_nanos(),
{
    d.as_nanos()
}

/// `Duration::from_secs`: `secs` whole seconds, so `as_nanos` gives
/// `secs` times 10⁹.
#[verifier::external_body]
fn duration_from_secs(secs: u64) -> (r: Duration)
    ensures
        duration_nanos(r) == secs * NANOS_PER_SECOND,
{
    Duration::from_secs(secs)
}

#[derive(Clone, Debug, PartialEq, Eq)]
pub struct RateLimitDecision {
    pub bucket: String,
    pub allowed: bool,
    pub limit: u32,
    pub remaining: u32,
    pub reset_after_seconds: u64,
}

/// The window of one bucket: when it started (nanoseconds since the
/// limiter's clock origin) and how many requests it allowed.
pub struct BucketState {
    pub key: String,
    pub started_at: u128,
    pub count: u32,
}

/// A fixed-window limiter over text-keyed buckets. The buckets are a `Vec`
/// with distinct keys and a ghost map of their windows: vstd specifies
/// `HashMap` only for keys that obey its hash model, which it grants to
/// integers and `bool` but not to `String`.
pub struct FixedWindowRateLimiter {
    limit: u32,
    window: u128,
    origin: Instant,
    last_reading: u128,
    buckets: Vec<BucketState>,
    state: Ghost<Map<Seq<char>, (u128, u32)>>,
}

/// Time elapsed from `start` to `now`, zero when `now` is earlier
/// (`Instant::duration_since`).
pub open spec fn elapsed(now: u128, start: u128) -> u128 {
    if now >= start {
        (now - start) as u128
    } else {
        0
    }
}

/// The window that a request at `now` counts in: a fresh one for a new
/// bucket or once the previous window has fully elapsed.
pub open spec fn current_window(prior: Option<(u128, u32)>, now: u128, window: u128) -> (
    u128,
    u32,
) {
    match prior {
        None => (now, 0),
        Some((start, count)) => if elapsed(now, start) >= window {
            (now, 0)
        } else {
            (start, count)
        },
    }
}

/// Whole seconds until the window ends, at least one.
pub open spec fn reset_seconds(window: u128, now: u128, start: u128) -> u64 {
    let left = if window >= elapsed(now, start) {
        (window - elapsed(now, start)) as u128
    } else {
        0
    };
    let secs = left / NANOS_PER_SECOND;
    if secs < 1 {
        1
    } else {
        secs as u64
    }
}

impl FixedWindowRateLimiter {
    pub closed spec fn spec_limit(&self) -> u32 {
        self.limit
    }

    /// Window length in nanoseconds.
    pub closed spec fn spec_window(&self) -> u128 {
        self.window
    }

    /// The latest clock reading a request was counted at.
    pub closed spec fn spec_last_reading(&self) -> u128 {
        self.last_reading
    }

    /// Window start and count of each bucket seen so far.
    pub closed spec fn buckets(&self) -> Map<Seq<char>, (u128, u32)> {
        self.state@
    }

    pub closed spec fn wf(&self) -> bool {
        &&& self.window <= max_window_nanos()
        &&& forall|i: int, j: int|
            0 <= i < j < self.buckets@.len() ==> #[trigger] self.buckets@[i].key@
                != #[trigger] self.buckets@[j].key@
        &&& forall|i: int|
            0 <= i < self.buckets@.len() ==> self.state@.contains_key(
                #[trigger] self.buckets@[i].key@,
            ) && self.state@[self.buckets@[i].key@] == (
                self.buckets@[i].started_at,
                self.buckets@[i].count,
            )
        &&& forall|k: Seq<char>|
            #[trigger] self.state@.contains_key(k) ==> exists|i: int|
                0 <= i < self.buckets@.len() && #[trigger] self.buckets@[i].key@ == k
        &&& forall|k: Seq<char>| #[trigger] self.state@.contains_key(k) ==> self.state@[k].1 <= self.limit
    }

    /// A limiter that allows `limit` requests per bucket in each window of
    /// `window_nanos` nanoseconds.
    pub fn with_window_nanos(limit: u32, window_nanos: u128) -> (r: Self)
        requires
            window_nanos <= max_window_nanos(),
        ensures
            r.wf(),
            r.spec_limit() == limit,
            r.spec_window() == window_nanos,
            r.spec_window() <= max_window_nanos(),
            r.buckets() == Map::<Seq<char>, (u128, u32)>::empty(),
    {
        FixedWindowRateLimiter {
            limit,
            window: window_nanos,
            origin: instant_now(),
            last_reading: 0,
            buckets: Vec::new(),
            state: Ghost(Map::empty()),
        }
    }

    /// A limiter whose window is given in whole seconds.
    pub fn with_window_seconds(limit: u32, seconds: u64) -> (r: Self)
        ensures
            r.wf(),
            r.spec_limit() == limit,
            r.spec_window() == seconds * NANOS_PER_SECOND,
            r.spec_window() <= max_window_nanos(),
            r.buckets() == Map::<Seq<char>, (u128, u32)>::empty(),
    {
        let nanos = (seconds as u128) * NANOS_PER_SECOND;
        Self::with_window_nanos(limit, nanos)
    }

    /// A limiter that allows `limit` requests per bucket in each `window`.
    pub fn new(limit: u32, window: Duration) -> (r: Self)
        ensures
            r.wf(),
            r.spec_limit() == limit,
            r.spec_window() == duration_nanos(window),
            r.spec_window() <= max_window_nanos(),
            r.buckets() == Map::<Seq<char>, (u128, u32)>::empty(),
    {
        let nanos = duration_as_nanos(&window);
        Self::with_window_nanos(limit, nanos)
    }

    pub fn public_webhook_execution() -> (r: Self)
        ensures
            r.wf(),
            r.spec_limit() == PUBLIC_WEBHOOK_EXECUTION_LIMIT,
            r.spec_window() == PUBLIC_WEBHOOK_EXECUTION_WINDOW_SECONDS * NANOS_PER_SECOND,
            r.spec_window() <= max_window_nanos(),
            r.buckets() == Map::<Seq<char>, (u128, u32)>::empty(),
    {
        Self::new(PUBLIC_WEBHOOK_EXECUTION_LIMIT, duration_from_secs(PUBLIC_WEBHOOK_EXECUTION_WINDOW_SECONDS))
    }

    pub fn auth_register() -> (r: Self)
        ensures
            r.wf(),
            r.spec_limit() == AUTH_REGISTER_LIMIT,
            r.spec_window() == AUTH_REGISTER_WINDOW_SECONDS * NANOS_PER_SECOND,
            r.spec_window() <= max_window_nanos(),
            r.buckets() == Map::<Seq<char>, (u128, u32)>::empty(),
    {
        Self::new(AUTH_REGISTER_LIMIT, duration_from_secs(AUTH_REGISTER_WINDOW_SECONDS))
    }

    pub fn auth_login() -> (r: Self)
        ensures
            r.wf(),
            r.spec_limit() == AUTH_LOGIN_LIMIT,
            r.spec_window() == AUTH_LOGIN_WINDOW_SECONDS * NANOS_PER_SECOND,
            r.spec_window() <= max_window_nanos(),
            r.buckets() == Map::<Seq<char>, (u128, u32)>::empty(),
    {
        Self::new(AUTH_LOGIN_LIMIT, duration_from_secs(AUTH_LOGIN_WINDOW_SECONDS))
    }

    pub fn message_create() -> (r: Self)
        ensures
            r.wf(),
            r.spec_limit() == MESSAGE_CREATE_LIMIT,
            r.spec_window() == MESSAGE_CREATE_WINDOW_SECONDS * NANOS_PER_SECOND,
            r.spec_window() <= max_window_nanos(),
            r.buckets() == Map::<Seq<char>, (u128, u32)>::empty(),
    {
        Self::new(MESSAGE_CREATE_LIMIT, duration_from_secs(MESSAGE_CREATE_WINDOW_SECONDS))
    }

    pub fn attachment_presign() -> (r: Self)
        ensures
            r.wf(),
            r.spec_limit() == ATTACHMENT_PRESIGN_LIMIT,
            r.spec_window() == ATTACHMENT_PRESIGN_WINDOW_SECONDS * NANOS_PER_SECOND,
            r.spec_window() <= max_window_nanos(),
            r.buckets() == Map::<Seq<char>, (u128, u32)>::empty(),
    {
        Self::new(ATTACHMENT_PRESIGN_LIMIT, duration_from_secs(ATTACHMENT_PRESIGN_WINDOW_SECONDS))
    }

    pub fn attachment_upload() -> (r: Self)
        ensures
            r.wf(),
            r.spec_limit() == ATTACHMENT_UPLOAD_LIMIT,
            r.spec_window() == ATTACHMENT_UPLOAD_WINDOW_SECONDS * NANOS_PER_SECOND,
            r.spec_window() <= max_window_nanos(),
            r.buckets() == Map::<Seq<char>, (u128, u32)>::empty(),
    {
        Self::new(ATTACHMENT_UPLOAD_LIMIT, duration_from_secs(ATTACHMENT_UPLOAD_WINDOW_SECONDS))
    }

    pub fn compat_rest_bot() -> (r: Self)
        ensures
            r.wf(),
            r.spec_limit() == COMPAT_REST_BOT_LIMIT,
            r.spec_window() == COMPAT_REST_BOT_WINDOW_SECONDS * NANOS_PER_SECOND,
            r.spec_window() <= max_window_nanos(),
            r.buckets() == Map::<Seq<char>, (u128, u32)>::empty(),
    {
        Self::new(COMPAT_REST_BOT_LIMIT, duration_from_secs(COMPAT_REST_BOT_WINDOW_SECONDS))
    }

    pub fn compat_gateway_identify() -> (r: Self)
        ensures
            r.wf(),
            r.spec_limit() == COMPAT_GATEWAY_IDENTIFY_LIMIT,
            r.spec_window() == COMPAT_GATEWAY_IDENTIFY_WINDOW_SECONDS * NANOS_PER_SECOND,
            r.spec_window() <= max_window_nanos(),
            r.buckets() == Map::<Seq<char>, (u128, u32)>::empty(),
    {
        Self::new(COMPAT_GATEWAY_IDENTIFY_LIMIT, duration_from_secs(COMPAT_GATEWAY_IDENTIFY_WINDOW_SECONDS))
    }

    /// The outcome of a request on `bucket` at `now`: `r` is the decision and
    /// `new` the limiter after it.
    pub open spec fn check_outcome(self, new: Self, bucket: Seq<char>, now: u128, r: RateLimitDecision) -> bool {
        let prior = if self.buckets().contains_key(bucket) {
            Some(self.buckets()[bucket])
        } else {
            None
        };
        let (start, count) = current_window(prior, now, self.spec_window());
        let allowed = count < self.spec_limit();
        &&& new.wf()
        &&& new.spec_limit() == self.spec_limit()
        &&& new.spec_window() == self.spec_window()
        &&& r.bucket@ == bucket
        &&& r.allowed == allowed
        &&& r.limit == self.spec_limit()
        &&& r.remaining == (if allowed {
            (self.spec_limit() - count - 1) as u32
        } else {
            0
        })
        &&& r.reset_after_seconds == reset_seconds(self.spec_window(), now, start)
        &&& new.buckets() == self.buckets().insert(
            bucket,
            (
                start,
                if allowed {
                    (count + 1) as u32
                } else {
                    count
                },
            ),
        )
    }

    fn find(&self, key: &String) -> (r: Option<usize>)
        requires
            self.wf(),
        ensures
            match r {
                Some(i) => i < self.buckets@.len() && self.buckets@[i as int].key@ == key@,
                None => !self.buckets().contains_key(key@),
            },
    {
        let mut i: usize = 0;
        while i < self.buckets.len()
            invariant
                i <= self.buckets@.len(),
                forall|k: int| 0 <= k < i ==> self.buckets@[k].key@ != key@,
            decreases self.buckets.len() - i,
        {
            if self.buckets[i].key == *key {
                return Some(i);
            }
            i += 1;
        }
        proof {
            if self.buckets().contains_key(key@) {
                let j = choose|j: int|
                    0 <= j < self.buckets@.len() && #[trigger] self.buckets@[j].key@ == key@;
                assert(self.buckets@[j].key@ == key@);
            }
        }
        None
    }

    /// Counts a request on `bucket` at `now`, nanoseconds since the
    /// limiter's clock origin.
    pub fn check_at(&mut self, bucket: String, now: u128) -> (r: RateLimitDecision)
        requires
            old(self).wf(),
        ensures
            old(self).check_outcome(*final(self), bucket@, now, r),
            final(self).spec_last_reading() == old(self).spec_last_reading(),
    {
        let found = self.find(&bucket);
        let (start, count) = match found {
            Some(i) => {
                let b = &self.buckets[i];
                let e = if now >= b.started_at {
                    now - b.started_at
                } else {
                    0
                };
                if e >= self.window {
                    (now, 0u32)
                } else {
                    (b.started_at, b.count)
                }
            },
            None => (now, 0u32),
        };
        let e = if now >= start {
            now - start
        } else {
            0
        };
        let left = if self.window >= e {
            self.window - e
        } else {
            0
        };
        let secs = left / NANOS_PER_SECOND;
        assert(secs <= u64::MAX) by {
            assert(left <= max_window_nanos());
            assert(max_window_nanos() / NANOS_PER_SECOND == u64::MAX as u128) by (nonlinear_arith);
            assert(left / NANOS_PER_SECOND <= max_window_nanos() / NANOS_PER_SECOND) by (nonlinear_arith)
                requires left <= max_window_nanos();
        }
        let reset_after_seconds: u64 = if secs < 1 {
            1
        } else {
            secs as u64
        };
        let allowed = count < self.limit;
        let new_count = if allowed {
            count + 1
        } else {
            count
        };
        let remaining = if allowed {
            self.limit - new_count
        } else {
            0
        };
        let ghost old_self = *old(self);
        proof {
            if let Some(i) = found {
                assert(old_self.buckets().contains_key(bucket@));
            }
        }
        match found {
            Some(i) => {
                self.buckets.set(i, BucketState { key: bucket.clone(), started_at: start, count: new_count });
            },
            None => {
                self.buckets.push(BucketState { key: bucket.clone(), started_at: start, count: new_count });
            },
        }
        self.state = Ghost(self.state@.insert(bucket@, (start, new_count)));
        proof {
            let bs = self.buckets@;
            let obs = old_self.buckets@;
            assert forall|a: int, b: int|
                0 <= a < b < bs.len() implies #[trigger] bs[a].key@ != #[trigger] bs[b].key@ by {
                match found {
                    Some(i) => {
                        assert(obs[a].key@ != obs[b].key@);
                    },
                    None => {
                        if b < obs.len() {
                            assert(obs[a].key@ != obs[b].key@);
                        } else {
                            assert(old_self.state@.contains_key(obs[a].key@));
                        }
                    },
                }
            }
            assert forall|a: int|
                0 <= a < bs.len() implies self.state@.contains_key(#[trigger] bs[a].key@)
                && self.state@[bs[a].key@] == (bs[a].started_at, bs[a].count) by {
                match found {
                    Some(i) => {
                        if a != i {
                            assert(obs[a].key@ != obs[i as int].key@);
                            assert(bs[a] == obs[a]);
                        }
                    },
                    None => {
                        if a < obs.len() {
                            assert(bs[a] == obs[a]);
                            assert(old_self.state@.contains_key(obs[a].key@));
                        }
                    },
                }
            }
            assert forall|k: Seq<char>| #[trigger] self.state@.contains_key(k) implies exists|a: int|
                0 <= a < bs.len() && #[trigger] bs[a].key@ == k by {
                if k == bucket@ {
                    match found {
                        Some(i) => {
                            assert(bs[i as int].key@ == k);
                        },
                        None => {
                            assert(bs[obs.len() as int].key@ == k);
                        },
                    }
                } else {
                    assert(old_self.state@.contains_key(k));
                    let a = choose|a: int| 0 <= a < obs.len() && #[trigger] obs[a].key@ == k;
                    match found {
                        Some(i) => {
                            assert(a != i);
                            assert(bs[a] == obs[a]);
                        },
                        None => {
                            assert(bs[a] == obs[a]);
                        },
                    }
                }
            }
        }
        RateLimitDecision {
            bucket,
            allowed,
            limit: self.limit,
            remaining,
            reset_after_seconds,
        }
    }

    /// The instant a request with clock reading `reading` is counted at:
    /// the reading itself, or the latest earlier one if the clock reads
    /// less (std documents `Instant` as monotonic).
    pub open spec fn counted_at(&self, reading: u128) -> u128 {
        if reading < self.spec_last_reading() {
            self.spec_last_reading()
        } else {
            reading
        }
    }

    /// Counts a request on `bucket` whose clock reading is `reading`
    /// nanoseconds since the limiter was made: it is decided as `check_at`
    /// decides at `counted_at(reading)`, which becomes the latest reading.
    pub fn check_reading(&mut self, bucket: String, reading: u128) -> (r: RateLimitDecision)
        requires
            old(self).wf(),
        ensures
            old(self).check_outcome(*final(self), bucket@, old(self).counted_at(reading), r),
            final(self).spec_last_reading() == old(self).counted_at(reading),
    {
        let now = if reading < self.last_reading {
            self.last_reading
        } else {
            reading
        };
        let ghost before = *old(self);
        let ghost b = bucket@;
        let r = self.check_at(bucket, now);
        let ghost mid = *self;
        self.last_reading = now;
        proof {
            assert(self.buckets@ == mid.buckets@);
            assert(self.state@ == mid.state@);
            assert(self.window == mid.window && self.limit == mid.limit);
            assert(self.buckets() == mid.buckets());
            assert(mid.wf());
            assert(self.wf());
            assert(before.check_outcome(*self, b, now, r));
        }
        r
    }

    /// Counts a request on `bucket` now: `check_reading` with the monotonic
    /// clock's reading, the time elapsed since the limiter was made. That
    /// reading is the clock's, so it is not stated.
    pub fn check(&mut self, bucket: String) -> (r: RateLimitDecision)
        requires
            old(self).wf(),
        ensures
            exists|reading: u128| {
                &&& #[trigger] old(self).check_outcome(*final(self), bucket@, old(self).counted_at(reading), r)
                &&& final(self).spec_last_reading() == old(self).counted_at(reading)
            },
    {
        let elapsed = instant_elapsed(&self.origin);
        let reading = duration_as_nanos(&elapsed);
        self.check_reading(bucket, reading)
    }
}

/// A request is counted at the later of its clock reading and the latest
/// earlier reading; once the bucket's window has fully elapsed by that
/// reading, the request opens a new window there and is allowed whenever
/// the limit is not zero, leaving `limit - 1`.
pub proof fn law_request_after_window_is_allowed(
    before: FixedWindowRateLimiter,
    after: FixedWindowRateLimiter,
    bucket: Seq<char>,
    reading: u128,
    r: RateLimitDecision,
)
    requires
        before.wf(),
        before.check_outcome(after, bucket, before.counted_at(reading), r),
        after.spec_last_reading() == before.counted_at(reading),
        before.spec_limit() > 0,
        before.buckets().contains_key(bucket) ==> reading >= before.buckets()[bucket].0 + before.spec_window(),
    ensures
        after.spec_last_reading() >= reading,
        after.spec_last_reading() >= before.spec_last_reading(),
        after.spec_last_reading() == reading || after.spec_last_reading() == before.spec_last_reading(),
        r.allowed,
        r.limit == before.spec_limit(),
        r.remaining == before.spec_limit() - 1,
        after.buckets()[bucket] == (after.spec_last_reading(), 1u32),
{
}

/// Every limiter's window fits in a `Duration`: at most `max_window_nanos()`.
pub proof fn lemma_window_bounded(l: FixedWindowRateLimiter)
    requires
        l.wf(),
    ensures
        l.spec_window() <= max_window_nanos(),
{
}

/// The first request of a window on a bucket (one the limiter does not
/// know, or whose previous window has fully elapsed) is allowed when the
/// limit is not zero, leaves `limit - 1` (none when the limit is zero), and
/// resets after the whole window in seconds, at least one.
pub proof fn law_first_request_on_a_bucket(
    before: FixedWindowRateLimiter,
    after: FixedWindowRateLimiter,
    bucket: Seq<char>,
    now: u128,
    r: RateLimitDecision,
)
    requires
        before.wf(),
        opens_window(before, bucket, now),
        before.check_outcome(after, bucket, now, r),
    ensures
        r.bucket@ == bucket,
        r.limit == before.spec_limit(),
        r.allowed == (before.spec_limit() > 0),
        r.remaining == (if before.spec_limit() > 0 {
            (before.spec_limit() - 1) as u32
        } else {
            0
        }),
        r.reset_after_seconds == (if before.spec_window() / NANOS_PER_SECOND < 1 {
            1
        } else {
            (before.spec_window() / NANOS_PER_SECOND) as u64
        }),
        1 <= r.reset_after_seconds,
        r.reset_after_seconds <= (if before.spec_window() / NANOS_PER_SECOND < 1 {
            1
        } else {
            before.spec_window() / NANOS_PER_SECOND
        }),
{
}

/// Every decision resets after at least one second and at most the whole
/// window in seconds (one when the window is shorter than a second).
pub proof fn law_reset_within_window(
    before: FixedWindowRateLimiter,
    after: FixedWindowRateLimiter,
    bucket: Seq<char>,
    now: u128,
    r: RateLimitDecision,
)
    requires
        before.wf(),
        before.check_outcome(after, bucket, now, r),
    ensures
        1 <= r.reset_after_seconds,
        r.reset_after_seconds <= (if before.spec_window() / NANOS_PER_SECOND < 1 {
            1
        } else {
            before.spec_window() / NANOS_PER_SECOND
        }),
{
    let prior = if before.buckets().contains_key(bucket) {
        Some(before.buckets()[bucket])
    } else {
        None
    };
    let (start, count) = current_window(prior, now, before.spec_window());
    let w = before.spec_window();
    let left: int = if w >= elapsed(now, start) {
        w - elapsed(now, start)
    } else {
        0
    };
    vstd::arithmetic::div_mod::lemma_div_is_ordered(left, w as int, NANOS_PER_SECOND as int);
}

/// Two limiters with the same limit, window and bucket state decide a
/// request at the same instant alike and are left in the same state: so a
/// preset such as `compat_gateway_identify()` and `new` with the same limit
/// and `Duration::from_secs` window answer every run of requests alike.
pub proof fn law_same_settings_same_decisions(
    a: FixedWindowRateLimiter,
    a2: FixedWindowRateLimiter,
    b: FixedWindowRateLimiter,
    b2: FixedWindowRateLimiter,
    bucket: Seq<char>,
    now: u128,
    ra: RateLimitDecision,
    rb: RateLimitDecision,
)
    requires
        a.wf(),
        b.wf(),
        a.spec_limit() == b.spec_limit(),
        a.spec_window() == b.spec_window(),
        a.buckets() == b.buckets(),
        a.check_outcome(a2, bucket, now, ra),
        b.check_outcome(b2, bucket, now, rb),
    ensures
        ra.bucket@ == rb.bucket@ && ra.allowed == rb.allowed && ra.limit == rb.limit,
        ra.remaining == rb.remaining && ra.reset_after_seconds == rb.reset_after_seconds,
        a2.spec_limit() == b2.spec_limit() && a2.spec_window() == b2.spec_window(),
        a2.buckets() == b2.buckets(),
{
}

/// A request is allowed only while its bucket's count is under the limit,
/// and each allowed request adds one: no window of a bucket ever allows more
/// than `limit` requests, and a denied request changes nothing.
pub proof fn law_window_admits_at_most_limit(
    before: FixedWindowRateLimiter,
    after: FixedWindowRateLimiter,
    bucket: Seq<char>,
    now: u128,
    r: RateLimitDecision,
)
    requires
        before.wf(),
        before.check_outcome(after, bucket, now, r),
    ensures
        after.buckets()[bucket].1 <= after.spec_limit(),
        r.allowed ==> after.buckets()[bucket].1 + r.remaining == after.spec_limit(),
        !r.allowed && before.spec_limit() > 0 ==> after.buckets() == before.buckets(),
        before.buckets().contains_key(bucket) && elapsed(now, before.buckets()[bucket].0)
            < before.spec_window() ==> after.buckets()[bucket].0 == before.buckets()[bucket].0 && (
        r.allowed ==> after.buckets()[bucket].1 == before.buckets()[bucket].1 + 1),
{
    if !r.allowed && before.spec_limit() > 0 {
        assert(before.buckets().contains_key(bucket));
        assert(after.buckets() =~= before.buckets());
    }
}

/// Once a bucket's window has fully elapsed, the next request opens a new
/// window and is allowed whenever the limit is not zero.
pub proof fn law_elapsed_window_resets(
    before: FixedWindowRateLimiter,
    after: FixedWindowRateLimiter,
    bucket: Seq<char>,
    now: u128,
    r: RateLimitDecision,
)
    requires
        before.wf(),
        before.check_outcome(after, bucket, now, r),
        before.spec_limit() > 0,
        !before.buckets().contains_key(bucket) || elapsed(now, before.buckets()[bucket].0)
            >= before.spec_window(),
    ensures
        r.allowed,
        r.remaining == before.spec_limit() - 1,
        after.buckets()[bucket] == (now, 1u32),
{
}

/// How many of the first `n` calls were on bucket `b`.
pub open spec fn calls_on(bs: Seq<Seq<char>>, n: int, b: Seq<char>) -> nat
    decreases n,
{
    if n <= 0 {
        0
    } else {
        calls_on(bs, n - 1, b) + if bs[n - 1] == b {
            1nat
        } else {
            0nat
        }
    }
}

/// The decision on bucket `b` after `n` earlier calls on it in the same
/// window: allowed while `n` is under the limit, with what is left.
pub open spec fn decision_in_window(d: RateLimitDecision, limit: u32, n: nat) -> bool {
    &&& d.limit == limit
    &&& d.allowed == (n < limit)
    &&& d.remaining == (if n < limit {
        (limit - n - 1) as u32
    } else {
        0
    })
}

/// A request on `b` at `now` opens a new window: the limiter has not seen
/// `b`, or `b`'s previous window has fully elapsed.
pub open spec fn opens_window(l: FixedWindowRateLimiter, b: Seq<char>, now: u128) -> bool {
    !l.buckets().contains_key(b) || elapsed(now, l.buckets()[b].0) >= l.spec_window()
}

proof fn lemma_run_state(
    ls: Seq<FixedWindowRateLimiter>,
    ds: Seq<RateLimitDecision>,
    bs: Seq<Seq<char>>,
    ts: Seq<u128>,
    b: Seq<char>,
    k: int,
)
    requires
        ls.len() == ds.len() + 1,
        bs.len() == ds.len(),
        ts.len() == ds.len(),
        ds.len() > 0,
        0 <= k <= ds.len(),
        ls[0].wf(),
        opens_window(ls[0], b, ts[0]),
        bs[0] == b,
        forall|i: int| 0 <= i < ds.len() ==> #[trigger] ls[i].check_outcome(ls[i + 1], bs[i], ts[i], ds[i]),
        forall|i: int|
            0 <= i < ds.len() && #[trigger] bs[i] == b ==> ts[0] <= ts[i] && ts[i] - ts[0] < ls[0].spec_window(),
    ensures
        ls[k].wf(),
        ls[k].spec_limit() == ls[0].spec_limit(),
        ls[k].spec_window() == ls[0].spec_window(),
        calls_on(bs, k, b) == 0 ==> ls[k].buckets().contains_key(b) == ls[0].buckets().contains_key(b) && (
        ls[0].buckets().contains_key(b) ==> ls[k].buckets()[b] == ls[0].buckets()[b]),
        calls_on(bs, k, b) > 0 ==> ls[k].buckets().contains_key(b) && ls[k].buckets()[b] == (
            ts[0],
            (if calls_on(bs, k, b) < ls[0].spec_limit() {
                calls_on(bs, k, b)
            } else {
                ls[0].spec_limit() as nat
            }) as u32,
        ),
        forall|i: int|
            0 <= i < k && #[trigger] bs[i] == b ==> decision_in_window(ds[i], ls[0].spec_limit(), calls_on(bs, i, b)),
    decreases k,
{
    if k > 0 {
        lemma_run_state(ls, ds, bs, ts, b, k - 1);
        let i = k - 1;
        assert(ls[i].check_outcome(ls[i + 1], bs[i], ts[i], ds[i]));
        if bs[i] == b {
            assert(ts[0] <= ts[i] && ts[i] - ts[0] < ls[0].spec_window());
            if calls_on(bs, i, b) == 0 {
                assert(i == 0) by {
                    if i > 0 {
                        lemma_calls_on_first(bs, i, b);
                    }
                }
            }
        }
    }
}

proof fn lemma_calls_on_first(bs: Seq<Seq<char>>, n: int, b: Seq<char>)
    requires
        0 < n <= bs.len(),
        bs[0] == b,
    ensures
        calls_on(bs, n, b) > 0,
    decreases n,
{
    if n > 1 {
        lemma_calls_on_first(bs, n - 1, b);
    }
}

/// Over any run of requests, interleaved with requests on other buckets,
/// whose first request opens a window on a bucket (the limiter has not seen
/// it, or its previous window has fully elapsed) and that reaches the
/// bucket again only within that window, so over every window of every
/// bucket: the `n`-th request on
/// the bucket (counting from zero) is allowed exactly when `n` is under the
/// limit, and leaves `limit - n - 1` requests. Requests on other buckets do
/// not change its count.
pub proof fn law_run_within_one_window(
    ls: Seq<FixedWindowRateLimiter>,
    ds: Seq<RateLimitDecision>,
    bs: Seq<Seq<char>>,
    ts: Seq<u128>,
    b: Seq<char>,
)
    requires
        ls.len() == ds.len() + 1,
        bs.len() == ds.len(),
        ts.len() == ds.len(),
        ds.len() > 0,
        ls[0].wf(),
        opens_window(ls[0], b, ts[0]),
        bs[0] == b,
        forall|i: int| 0 <= i < ds.len() ==> #[trigger] ls[i].check_outcome(ls[i + 1], bs[i], ts[i], ds[i]),
        forall|i: int|
            0 <= i < ds.len() && #[trigger] bs[i] == b ==> ts[0] <= ts[i] && ts[i] - ts[0] < ls[0].spec_window(),
    ensures
        forall|i: int|
            0 <= i < ds.len() && #[trigger] bs[i] == b ==> decision_in_window(ds[i], ls[0].spec_limit(), calls_on(bs, i, b)),
{
    lemma_run_state(ls, ds, bs, ts, b, ds.len() as int);
}

/// Public webhook execution allows 5 requests per bucket in a minute: in a
/// run as in `law_run_within_one_window` on a limiter made by
/// `public_webhook_execution`, the first five requests on the bucket are
/// allowed, leaving 4, 3, 2, 1 and 0, and every later one is refused.
pub proof fn law_webhook_five_per_minute(
    ls: Seq<FixedWindowRateLimiter>,
    ds: Seq<RateLimitDecision>,
    bs: Seq<Seq<char>>,
    ts: Seq<u128>,
    b: Seq<char>,
)
    requires
        ls.len() == ds.len() + 1,
        bs.len() == ds.len(),
        ts.len() == ds.len(),
        ds.len() > 0,
        ls[0].wf(),
        ls[0].spec_limit() == PUBLIC_WEBHOOK_EXECUTION_LIMIT,
        ls[0].spec_window() == PUBLIC_WEBHOOK_EXECUTION_WINDOW_SECONDS * NANOS_PER_SECOND,
        opens_window(ls[0], b, ts[0]),
        bs[0] == b,
        forall|i: int| 0 <= i < ds.len() ==> #[trigger] ls[i].check_outcome(ls[i + 1], bs[i], ts[i], ds[i]),
        forall|i: int|
            0 <= i < ds.len() && #[trigger] bs[i] == b ==> ts[0] <= ts[i] && ts[i] - ts[0] < ls[0].spec_window(),
    ensures
        forall|i: int|
            0 <= i < ds.len() && #[trigger] bs[i] == b ==> decision_in_window(ds[i], 5, calls_on(bs, i, b)),
{
    law_run_within_one_window(ls, ds, bs, ts, b);
}

/// Compatibility REST routes allow 10 requests per bot application in a
/// minute: in a run as in `law_run_within_one_window` on a limiter made by
/// `compat_rest_bot`, the first ten requests on the bucket are allowed,
/// leaving 9 down to 0, and every later one is refused.
pub proof fn law_compat_rest_ten_per_minute(
    ls: Seq<FixedWindowRateLimiter>,
    ds: Seq<RateLimitDecision>,
    bs: Seq<Seq<char>>,
    ts: Seq<u128>,
    b: Seq<char>,
)
    requires
        ls.len() == ds.len() + 1,
        bs.len() == ds.len(),
        ts.len() == ds.len(),
        ds.len() > 0,
        ls[0].wf(),
        ls[0].spec_limit() == COMPAT_REST_BOT_LIMIT,
        ls[0].spec_window() == COMPAT_REST_BOT_WINDOW_SECONDS * NANOS_PER_SECOND,
        opens_window(ls[0], b, ts[0]),
        bs[0] == b,
        forall|i: int| 0 <= i < ds.len() ==> #[trigger] ls[i].check_outcome(ls[i + 1], bs[i], ts[i], ds[i]),
        forall|i: int|
            0 <= i < ds.len() && #[trigger] bs[i] == b ==> ts[0] <= ts[i] && ts[i] - ts[0] < ls[0].spec_window(),
    ensures
        forall|i: int|
            0 <= i < ds.len() && #[trigger] bs[i] == b ==> decision_in_window(ds[i], 10, calls_on(bs, i, b)),
{
    law_run_within_one_window(ls, ds, bs, ts, b);
}

/// The bucket key of registration attempts for an email.
pub open spec fn email_bucket_key(email: Seq<char>) -> Seq<char> {
    lower_seq(trim_seq(email))
}

fn normalized_email_key(email: &str) -> (r: Vec<char>)
    ensures
        r@ == email_bucket_key(email@),
{
    to_ascii_lowercase(&trim(&chars_of(email)))
}

fn prefixed(prefix: &str, key: Vec<char>) -> (r: String)
    ensures
        r@ == prefix@ + key@,
{
    let mut s = string_of(&chars_of(prefix));
    let k = string_of(&key);
    s.append(k.as_str());
    s
}

/// `auth:register:` and the trimmed, lower-cased email.
pub fn auth_register_bucket(email: &str) -> (r: String)
    ensures
        r@ == "auth:register:"@ + email_bucket_key(email@),
{
    prefixed("auth:register:", normalized_email_key(email))
}

/// `auth:login:` and the trimmed, lower-cased email.
pub fn auth_login_bucket(email: &str) -> (r: String)
    ensures
        r@ == "auth:login:"@ + email_bucket_key(email@),
{
    prefixed("auth:login:", normalized_email_key(email))
}

/// `compat-rest:bot:` and the application id.
pub fn compat_rest_bot_bucket(application_id: u128) -> (r: String)
    ensures
        r@ == "compat-rest:bot:"@ + uuid_hyphenated(application_id),
{
    let mut v = chars_of("compat-rest:bot:");
    push_str(&mut v, uuid_to_string(application_id).as_str());
    string_of(&v)
}

/// `compat-gateway:identify:` and the application id.
pub fn compat_gateway_identify_bucket(application_id: u128) -> (r: String)
    ensures
        r@ == "compat-gateway:identify:"@ + uuid_hyphenated(application_id),
{
    let mut v = chars_of("compat-gateway:identify:");
    push_str(&mut v, uuid_to_string(application_id).as_str());
    string_of(&v)
}

/// `message:create:`, the user and the channel.
pub fn message_create_bucket(user_id: u128, channel_id: u128) -> (r: String)
    ensures
        r@ == "message:create:"@ + uuid_hyphenated(user_id) + ":"@ + uuid_hyphenated(channel_id),
{
    let mut v = chars_of("message:create:");
    push_str(&mut v, uuid_to_string(user_id).as_str());
    push_str(&mut v, ":");
    push_str(&mut v, uuid_to_string(channel_id).as_str());
    string_of(&v)
}

/// `attachment:presign:`, the user and the channel.
pub fn attachment_presign_bucket(user_id: u128, channel_id: u128) -> (r: String)
    ensures
        r@ == "attachment:presign:"@ + uuid_hyphenated(user_id) + ":"@ + uuid_hyphenated(channel_id),
{
    let mut v = chars_of("attachment:presign:");
    push_str(&mut v, uuid_to_string(user_id).as_str());
    push_str(&mut v, ":");
    push_str(&mut v, uuid_to_string(channel_id).as_str());
    string_of(&v)
}

/// `attachment:upload:` and the user.
pub fn attachment_upload_bucket(user_id: u128) -> (r: String)
    ensures
        r@ == "attachment:upload:"@ + uuid_hyphenated(user_id),
{
    let mut v = chars_of("attachment:upload:");
    push_str(&mut v, uuid_to_string(user_id).as_str());
    string_of(&v)
}

} // verus!
