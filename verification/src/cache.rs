//! The rules of the response cache: when a cached entry is still fresh, and
//! what is stored and returned after a value has been computed again. The
//! store itself lives outside this library.

use vstd::prelude::*;

verus! {

/// A cached outcome: a value, or the message of an error.
pub enum CacheResult<T> {
    Success(T),
    Failure(String),
}

impl<T> CacheResult<T> {
    /// The outcome as a `Result`.
    pub fn into_result(self) -> (r: Result<T, String>)
        ensures
            match self {
                CacheResult::Success(v) => r == Ok::<T, String>(v),
                CacheResult::Failure(e) => r matches Err(m) && m@ == e@,
            },
    {
        match self {
            CacheResult::Success(v) => Ok(v),
            CacheResult::Failure(e) => Err(e),
        }
    }
}

/// How an entry is looked up and kept. Durations are in milliseconds.
pub struct CacheGetOptions {
    pub key: String,
    pub topic: String,
    /// How long a computed value is fresh.
    pub soft_ttl: u64,
    /// How long the store keeps an entry.
    pub hard_ttl: u64,
    /// How long a failure (or a stale value served after one) is kept.
    pub negative_ttl: u64,
    /// A stale value may be served when computing a new one fails.
    pub allow_stale: bool,
}

/// What computing a value gave.
pub enum CacheComputeResult<T> {
    /// A value, fresh for the soft time to live.
    Value(T),
    /// A value, fresh for the given number of milliseconds.
    WithTtl(T, u64),
}

/// A cached entry is served while the time is before its expiry.
pub fn is_fresh(expires_ms: i64, now_ms: i64) -> (r: bool)
    ensures
        r == (now_ms < expires_ms),
{
    now_ms < expires_ms
}

/// The outcome of computing a value again, as far as the cache cares.
#[derive(Clone, Copy, Debug, PartialEq, Eq, Structural)]
pub enum ComputeOutcome {
    /// A value fresh for the soft time to live.
    Value,
    /// A value fresh for this many milliseconds.
    WithTtl(u64),
    /// The computation failed.
    Failed,
}

/// What the previous (expired) entry held, when it could be read.
#[derive(Clone, Copy, Debug, PartialEq, Eq, Structural)]
pub enum PriorEntry {
    Value,
    Error,
}

/// What is written to the store, and what the caller is given.
#[derive(Clone, Copy, Debug, PartialEq, Eq, Structural)]
pub enum StorePlan {
    /// Store the new value, expiring at the given time, and return it.
    StoreValue { expires_ms: i64 },
    /// Store the prior entry again with a new expiry and return its outcome;
    /// a prior error takes the new error's message.
    StoreStale { expires_ms: i64, replace_error: bool },
    /// Store the new error, expiring at the given time, and return it.
    StoreError { expires_ms: i64 },
}

/// What to store after computing a value at `now_ms`: a value expires after
/// its own time to live or the soft one; after a failure, a prior entry is
/// served again for the negative time to live when stale values are
/// allowed, else the error is stored for that time.
pub open spec fn spec_store_plan(
    outcome: ComputeOutcome,
    prior: Option<PriorEntry>,
    soft_ttl: u64,
    negative_ttl: u64,
    allow_stale: bool,
    now_ms: i64,
) -> StorePlan {
    match outcome {
        ComputeOutcome::WithTtl(ttl) => StorePlan::StoreValue { expires_ms: (now_ms + ttl) as i64 },
        ComputeOutcome::Value => StorePlan::StoreValue { expires_ms: (now_ms + soft_ttl) as i64 },
        ComputeOutcome::Failed => match prior {
            Some(p) if allow_stale => StorePlan::StoreStale {
                expires_ms: (now_ms + negative_ttl) as i64,
                replace_error: p == PriorEntry::Error,
            },
            _ => StorePlan::StoreError { expires_ms: (now_ms + negative_ttl) as i64 },
        },
    }
}

/// The time to live that an outcome uses.
pub open spec fn outcome_ttl(outcome: ComputeOutcome, soft_ttl: u64, negative_ttl: u64) -> int {
    match outcome {
        ComputeOutcome::WithTtl(ttl) => ttl as int,
        ComputeOutcome::Value => soft_ttl as int,
        ComputeOutcome::Failed => negative_ttl as int,
    }
}

/// Decides what to store after computing a value at `now_ms`.
pub fn plan_store(
    outcome: ComputeOutcome,
    prior: Option<PriorEntry>,
    options: &CacheGetOptions,
    now_ms: i64,
) -> (r: StorePlan)
    requires
        outcome_ttl(outcome, options.soft_ttl, options.negative_ttl) <= i64::MAX,
        now_ms + outcome_ttl(outcome, options.soft_ttl, options.negative_ttl) <= i64::MAX,
    ensures
        r == spec_store_plan(outcome, prior, options.soft_ttl, options.negative_ttl, options.allow_stale, now_ms),
{
    match outcome {
        ComputeOutcome::WithTtl(ttl) => StorePlan::StoreValue { expires_ms: now_ms + (ttl as i64) },
        ComputeOutcome::Value => StorePlan::StoreValue { expires_ms: now_ms + (options.soft_ttl as i64) },
        ComputeOutcome::Failed => {
            let expires_ms = now_ms + (options.negative_ttl as i64);
            match prior {
                Some(p) if options.allow_stale => StorePlan::StoreStale {
                    expires_ms,
                    replace_error: p == PriorEntry::Error,
                },
                _ => StorePlan::StoreError { expires_ms },
            }
        },
    }
}

/// A value is stored only when one was computed; a stale entry is served
/// only when that is allowed and there is one; and what is stored expires
/// no earlier than the time it was stored.
pub proof fn lemma_store_plan(
    outcome: ComputeOutcome,
    prior: Option<PriorEntry>,
    soft_ttl: u64,
    negative_ttl: u64,
    allow_stale: bool,
    now_ms: i64,
)
    requires
        now_ms + outcome_ttl(outcome, soft_ttl, negative_ttl) <= i64::MAX,
    ensures
        spec_store_plan(outcome, prior, soft_ttl, negative_ttl, allow_stale, now_ms) is StoreValue
            <==> !(outcome is Failed),
        spec_store_plan(outcome, prior, soft_ttl, negative_ttl, allow_stale, now_ms) is StoreStale
            ==> allow_stale && prior is Some,
        match spec_store_plan(outcome, prior, soft_ttl, negative_ttl, allow_stale, now_ms) {
            StorePlan::StoreValue { expires_ms } => expires_ms >= now_ms,
            StorePlan::StoreStale { expires_ms, .. } => expires_ms >= now_ms,
            StorePlan::StoreError { expires_ms } => expires_ms >= now_ms,
        },
{
}

} // verus!
