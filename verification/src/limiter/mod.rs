//! A rate limiter per domain: one leaky bucket per host name, letting three
//! requests a second through.
use vstd::prelude::*;

use dashmap::DashMap;
use ratelimit_meter::{DirectRateLimiter, LeakyBucket};
use std::hash::RandomState;

verus! {

#[verifier::external_type_specification]
#[verifier::external_body]
#[verifier::reject_recursive_types(K)]
#[verifier::reject_recursive_types(V)]
#[verifier::reject_recursive_types(S)]
pub struct ExDashMap<K, V, S>(DashMap<K, V, S>);

/// A leaky bucket of `ratelimit_meter`; its clones share one bucket.
/// Kept opaque, because `ratelimit_meter` bounds the type by traits of
/// its own.
#[verifier::external_body]
pub struct Bucket(pub DirectRateLimiter<LeakyBucket>);

/// The rate limiter of one domain: the domain it is kept under, a leaky
/// bucket, and the number of requests a second it was made to let through.
pub struct DomainLimiter {
    key: String,
    rate: u32,
    bucket: Bucket,
}

impl DomainLimiter {
    /// Every domain's bucket lets [`REQUESTS_PER_SECOND`] requests a
    /// second through.
    #[verifier::type_invariant]
    spec fn made_at_the_crawl_rate(self) -> bool {
        self.rate == REQUESTS_PER_SECOND
    }

    /// The domain under which the table keeps this bucket.
    pub closed spec fn key(&self) -> Seq<char> {
        self.key@
    }

    /// The number of requests a second the bucket lets through.
    pub closed spec fn rate(&self) -> u32 {
        self.rate
    }

    /// The number of requests a second the bucket lets through.
    pub fn requests_per_second(&self) -> (r: u32)
        ensures
            r == self.rate(),
            r == REQUESTS_PER_SECOND,
    {
        proof {
            use_type_invariant(self);
        }
        self.rate
    }

    /// The bucket, to wait on.
    pub fn into_bucket(self) -> (r: Bucket) {
        self.bucket
    }
}

/// The number of requests a second that each domain is allowed.
pub const REQUESTS_PER_SECOND: u32 = 3;

/// An empty concurrent map. Calls `DashMap::new`.
#[verifier::external_body]
fn empty_map() -> (r: DashMap<String, DomainLimiter, RandomState>) {
    DashMap::new()
}

/// A leaky bucket that lets `capacity` requests a second through.
/// Calls `DirectRateLimiter::per_second`; `NonZeroU32::new` of a positive
/// number gives `Some`.
#[verifier::external_body]
fn leaky_bucket_per_second(capacity: u32) -> (r: Bucket)
    requires
        capacity > 0,
{
    Bucket(DirectRateLimiter::<LeakyBucket>::per_second(
        std::num::NonZeroU32::new(capacity).unwrap(),
    ))
}

/// A handle on the limiter kept under `id`, if there is one.
/// Calls `DashMap::get` and clones the entry (`DirectRateLimiter::clone`
/// for the bucket, which then shares the kept bucket); the handle is
/// labelled with `id`, the key it was found under. Whether there is one is
/// not said: the map is shared by concurrent tasks, which may have added
/// an entry at any time.
#[verifier::external_body]
fn limiter_under(map: &DashMap<String, DomainLimiter, RandomState>, id: &String) -> (r: Option<
    DomainLimiter,
>)
    ensures
        r matches Some(lim) ==> lim.key() == id@,
{
    match map.get(id) {
        Some(entry) => Some(
            DomainLimiter { key: id.clone(), rate: entry.rate, bucket: Bucket(entry.bucket.0.clone()) },
        ),
        None => None,
    }
}

/// A handle on the limiter kept under `id`, which is `fresh` when there
/// was none. Calls `DashMap::entry(..).or_insert(..)` and clones the entry;
/// the handle is labelled with `id`, the key it is kept under. Which
/// bucket it holds is not said: another task may have put a limiter under
/// `id` first, and that one is returned then.
#[verifier::external_body]
fn limiter_under_or_insert(
    map: &DashMap<String, DomainLimiter, RandomState>,
    id: String,
    fresh: DomainLimiter,
) -> (r: DomainLimiter)
    ensures
        r.key() == id@,
{
    let key = id.clone();
    let entry = map.entry(id).or_insert(fresh);
    DomainLimiter { key, rate: entry.rate, bucket: Bucket(entry.bucket.0.clone()) }
}

/// The rate limiters of the domains crawled so far, and the number of
/// requests a second that a new domain's limiter lets through.
pub struct Limiter {
    hash: DashMap<String, DomainLimiter, RandomState>,
    requests_per_second: u32,
}

impl Limiter {
    /// New domains get buckets at the crawl's rate.
    #[verifier::type_invariant]
    spec fn at_the_crawl_rate(self) -> bool {
        self.requests_per_second == REQUESTS_PER_SECOND
    }

    /// The number of requests a second that the limiter of a domain it
    /// has not seen before lets through.
    pub closed spec fn requests_per_second(&self) -> u32 {
        self.requests_per_second
    }

    /// A limiter that has seen no domain yet, letting
    /// [`REQUESTS_PER_SECOND`] requests a second through for each domain.
    pub fn new() -> (r: Self)
        ensures
            r.requests_per_second() == REQUESTS_PER_SECOND,
    {
        Limiter { hash: empty_map(), requests_per_second: REQUESTS_PER_SECOND }
    }

    /// The rate limiter of the domain `id`: the one already kept for it,
    /// or else a new one letting [`Limiter::requests_per_second`] requests
    /// a second through, kept for the next requests. Which one comes back
    /// is decided by the shared table, which other tasks fill concurrently;
    /// either way it lets the limiter's rate of requests a second through.
    pub fn rate_limiter_for(&self, id: &String) -> (r: DomainLimiter)
        ensures
            r.rate() == self.requests_per_second(),
            r.key() == id@,
    {
        proof {
            use_type_invariant(self);
        }
        match limiter_under(&self.hash, id) {
            Some(lim) => {
                proof {
                    use_type_invariant(&lim);
                }
                lim
            },
            None => {
                let rate = self.requests_per_second;
                let fresh = DomainLimiter {
                    key: id.clone(),
                    rate,
                    bucket: leaky_bucket_per_second(rate),
                };
                let lim = limiter_under_or_insert(&self.hash, id.clone(), fresh);
                proof {
                    use_type_invariant(&lim);
                }
                lim
            },
        }
    }
}

} // verus!
