//! API lockout state: which failures of the cloud APIs put the bridge into
//! LAN-only mode, for how long, and when to try the API again.

use vstd::prelude::*;
use crate::strings::{chars_of, contains_seq, str_contains, to_lowercase, spec_to_lowercase, owned};
use crate::clock::{now_millis, CLOCK_BOUND_MS};
use std::time::Duration;

verus! {

/// The duration of a whole number of seconds.
pub uninterp spec fn spec_duration_secs(secs: u64) -> Duration;

/// `Duration::from_secs` makes a duration of whole seconds. The duration type
/// is opaque here: the contract names the result after the seconds it was
/// made from, and says nothing more of it.
pub assume_specification[ Duration::from_secs ](secs: u64) -> (r: Duration)
    ensures
        r == spec_duration_secs(secs),
;

/// Declares `anyhow::Error`.
#[verifier::external_type_specification]
#[verifier::external_body]
pub struct ExAnyhowError(anyhow::Error);

/// The text of an error and of its chain of causes, as anyhow's alternate
/// `Display` writes it.
pub uninterp spec fn spec_error_text(err: anyhow::Error) -> Seq<char>;

/// The text of an error and of its chain of causes, as `format!("{err:#}")`
/// gives it. The error is opaque here: the contract names the text after
/// the error it was written from, and says nothing more of it.
#[verifier::external_body]
fn error_text(err: &anyhow::Error) -> (r: String)
    ensures
        r@ == spec_error_text(*err),
{
    format!("{err:#}")
}

/// Seconds in a day.
pub const TWENTY_FOUR_HOURS_SECS: u64 = 86400;
/// Seconds in an hour.
pub const ONE_HOUR_SECS: u64 = 3600;
/// Seconds in five minutes.
pub const FIVE_MINUTES_SECS: u64 = 300;
/// Seconds in fifteen minutes.
pub const FIFTEEN_MINUTES_SECS: u64 = 900;

/// The key under which the lockout state is cached.
pub const LOCKOUT_CACHE_KEY: &'static str = "api-lockout-state";
/// The cache topic of the lockout state.
pub const LOCKOUT_CACHE_TOPIC: &'static str = "lockout";

/// Types of API lockouts that can occur.
#[derive(Clone, Copy, Debug, PartialEq, Eq, Structural)]
pub enum LockoutType {
    /// "Your account is abnormal" - triggered by rapid login attempts
    AbnormalActivity,
    /// HTTP 429 - Daily rate limit exceeded
    RateLimit,
    /// HTTP 401 - Authentication failure
    Unauthorized,
    /// Network error (DNS, timeout, connection refused)
    NetworkError,
    /// Unknown/other error
    Unknown,
}

/// The lockout period of a lockout type, in seconds.
pub open spec fn spec_lockout_secs(t: LockoutType) -> u64 {
    match t {
        LockoutType::AbnormalActivity => TWENTY_FOUR_HOURS_SECS,
        LockoutType::RateLimit => TWENTY_FOUR_HOURS_SECS,
        LockoutType::Unauthorized => TWENTY_FOUR_HOURS_SECS,
        LockoutType::NetworkError => FIVE_MINUTES_SECS,
        LockoutType::Unknown => FIFTEEN_MINUTES_SECS,
    }
}

/// The lockout type of an error, from its lower-cased text.
pub open spec fn spec_classify(lower: Seq<char>) -> LockoutType {
    if contains_seq(lower, "abnormal"@) || contains_seq(lower, "too many"@) {
        LockoutType::AbnormalActivity
    } else if contains_seq(lower, "429"@) || contains_seq(lower, "rate limit"@) {
        LockoutType::RateLimit
    } else if contains_seq(lower, "401"@) || contains_seq(lower, "unauthorized"@) {
        LockoutType::Unauthorized
    } else if contains_seq(lower, "dns"@) || contains_seq(lower, "timeout"@) || contains_seq(
        lower,
        "connect"@,
    ) || contains_seq(lower, "network"@) {
        LockoutType::NetworkError
    } else {
        LockoutType::Unknown
    }
}

/// How an error text (lower-cased) is classified, and for how long the APIs
/// are then locked out: abnormal activity ("abnormal", "too many") for a
/// day; else a rate limit ("429", "rate limit") for a day; else an
/// authorization failure ("401", "unauthorized") for a day; else a network
/// error ("dns", "timeout", "connect", "network") for five minutes; else an
/// unknown error for fifteen minutes.
pub proof fn lemma_classification(lower: Seq<char>)
    ensures
        ({
            let t = spec_classify(lower);
            let abnormal = contains_seq(lower, "abnormal"@) || contains_seq(lower, "too many"@);
            let rate = contains_seq(lower, "429"@) || contains_seq(lower, "rate limit"@);
            let auth = contains_seq(lower, "401"@) || contains_seq(lower, "unauthorized"@);
            let network = contains_seq(lower, "dns"@) || contains_seq(lower, "timeout"@) || contains_seq(
                lower,
                "connect"@,
            ) || contains_seq(lower, "network"@);
            &&& abnormal ==> t == LockoutType::AbnormalActivity && spec_lockout_secs(t) == 86400
            &&& !abnormal && rate ==> t == LockoutType::RateLimit && spec_lockout_secs(t) == 86400
            &&& !abnormal && !rate && auth ==> t == LockoutType::Unauthorized && spec_lockout_secs(t) == 86400
            &&& !abnormal && !rate && !auth && network ==> t == LockoutType::NetworkError && spec_lockout_secs(t)
                == 300
            &&& !abnormal && !rate && !auth && !network ==> t == LockoutType::Unknown && spec_lockout_secs(t)
                == 900
        }),
{
}

/// The name of a lockout type.
pub open spec fn spec_lockout_name(t: LockoutType) -> Seq<char> {
    match t {
        LockoutType::AbnormalActivity => "abnormal_activity"@,
        LockoutType::RateLimit => "rate_limit"@,
        LockoutType::Unauthorized => "unauthorized"@,
        LockoutType::NetworkError => "network_error"@,
        LockoutType::Unknown => "unknown"@,
    }
}

impl LockoutType {
    /// The recommended lockout period for this error type, in seconds.
    pub fn lockout_secs(&self) -> (r: u64)
        ensures
            r == spec_lockout_secs(*self),
    {
        match self {
            LockoutType::AbnormalActivity => TWENTY_FOUR_HOURS_SECS,
            LockoutType::RateLimit => TWENTY_FOUR_HOURS_SECS,
            LockoutType::Unauthorized => TWENTY_FOUR_HOURS_SECS,
            LockoutType::NetworkError => FIVE_MINUTES_SECS,
            LockoutType::Unknown => FIFTEEN_MINUTES_SECS,
        }
    }

    /// The recommended lockout duration for this error type: the seconds of
    /// `lockout_secs`.
    pub fn lockout_duration(&self) -> (r: Duration)
        ensures
            r == spec_duration_secs(spec_lockout_secs(*self)),
    {
        Duration::from_secs(self.lockout_secs())
    }

    /// Classify an error from its text.
    pub fn from_error_text(text: &str) -> (r: Self)
        ensures
            r == spec_classify(spec_to_lowercase(text@)),
    {
        let lower = to_lowercase(text);
        let l = chars_of(lower.as_str());
        if str_contains(&l, "abnormal") || str_contains(&l, "too many") {
            LockoutType::AbnormalActivity
        } else if str_contains(&l, "429") || str_contains(&l, "rate limit") {
            LockoutType::RateLimit
        } else if str_contains(&l, "401") || str_contains(&l, "unauthorized") {
            LockoutType::Unauthorized
        } else if str_contains(&l, "dns") || str_contains(&l, "timeout") || str_contains(
            &l,
            "connect",
        ) || str_contains(&l, "network") {
            LockoutType::NetworkError
        } else {
            LockoutType::Unknown
        }
    }

    /// Classify an error into a lockout type, from the text of the error and
    /// its causes.
    pub fn from_error(err: &anyhow::Error) -> (r: Self)
        ensures
            r == spec_classify(spec_to_lowercase(spec_error_text(*err))),
    {
        let text = error_text(err);
        Self::from_error_text(text.as_str())
    }

    /// The name of the lockout type.
    pub fn as_str(&self) -> (r: &'static str)
        ensures
            r@ == spec_lockout_name(*self),
    {
        match self {
            LockoutType::AbnormalActivity => "abnormal_activity",
            LockoutType::RateLimit => "rate_limit",
            LockoutType::Unauthorized => "unauthorized",
            LockoutType::NetworkError => "network_error",
            LockoutType::Unknown => "unknown",
        }
    }
}

/// The error texts that mean the API is unavailable for now rather than
/// misused for good.
pub open spec fn spec_is_recoverable(lower: Seq<char>) -> bool {
    contains_seq(lower, "abnormal"@) || contains_seq(lower, "rate limit"@) || contains_seq(
        lower,
        "429"@,
    ) || contains_seq(lower, "401"@) || contains_seq(lower, "unauthorized"@) || contains_seq(
        lower,
        "timeout"@,
    ) || contains_seq(lower, "dns"@) || contains_seq(lower, "connect"@) || contains_seq(
        lower,
        "network"@,
    ) || contains_seq(lower, "connection refused"@) || contains_seq(lower, "no route"@)
        || contains_seq(lower, "unreachable"@)
}

/// Determine from its text if an error is recoverable (should trigger
/// degraded mode) vs fatal (should bail completely).
pub fn is_recoverable_text(text: &str) -> (r: bool)
    ensures
        r == spec_is_recoverable(spec_to_lowercase(text@)),
{
    let lower = to_lowercase(text);
    let l = chars_of(lower.as_str());
    str_contains(&l, "abnormal") || str_contains(&l, "rate limit") || str_contains(&l, "429")
        || str_contains(&l, "401") || str_contains(&l, "unauthorized") || str_contains(
        &l,
        "timeout",
    ) || str_contains(&l, "dns") || str_contains(&l, "connect") || str_contains(&l, "network")
        || str_contains(&l, "connection refused") || str_contains(&l, "no route") || str_contains(
        &l,
        "unreachable",
    )
}

/// Determine if an error is recoverable (should trigger degraded mode) vs
/// fatal (should bail completely), from the text of the error and its causes.
pub fn is_recoverable_error(err: &anyhow::Error) -> (r: bool)
    ensures
        r == spec_is_recoverable(spec_to_lowercase(spec_error_text(*err))),
{
    let text = error_text(err);
    is_recoverable_text(text.as_str())
}

/// Every error classified as a known lockout type is recoverable (abnormal
/// activity, rate limits, authorization failures and network errors all leave
/// the bridge running in LAN-only mode), except one whose only sign is
/// "too many", which starts a lockout but is not recoverable.
pub proof fn lemma_classified_errors_are_recoverable(lower: Seq<char>)
    requires
        !contains_seq(lower, "too many"@),
    ensures
        spec_classify(lower) != LockoutType::Unknown ==> spec_is_recoverable(lower),
{
}

/// Persistent API lockout state. Times are milliseconds since the Unix epoch.
pub struct ApiLockout {
    /// Type of lockout
    pub lockout_type: LockoutType,
    /// When the lockout expires
    pub lockout_until: i64,
    /// Number of consecutive failures
    pub retry_count: u32,
    /// Last error message
    pub last_error: String,
    /// When this lockout was created
    pub created_at: i64,
}

/// The latest time at which a lockout can start without its end overflowing:
/// `i64::MAX` less one day of milliseconds.
pub const LATEST_LOCKOUT_START: i64 = 9_223_372_036_768_375_807;

impl ApiLockout {
    /// A new lockout at `now` for an error with the given text.
    pub fn from_error_text_at(text: &str, now: i64) -> (r: Self)
        requires
            now <= LATEST_LOCKOUT_START,
        ensures
            r.lockout_type == spec_classify(spec_to_lowercase(text@)),
            r.lockout_until == now + 1000 * spec_lockout_secs(r.lockout_type),
            r.retry_count == 1,
            r.last_error@ == text@,
            r.created_at == now,
    {
        let lockout_type = LockoutType::from_error_text(text);
        let secs = lockout_type.lockout_secs();
        ApiLockout {
            lockout_type,
            lockout_until: now + 1000 * (secs as i64),
            retry_count: 1,
            last_error: owned(text),
            created_at: now,
        }
    }

    /// Create a new lockout from an error, now: always a lockout, started at
    /// the current time, classified by the error's text and lasting the
    /// period of its type.
    pub fn from_error(err: &anyhow::Error) -> (r: Self)
        ensures
            r.lockout_until == r.created_at + 1000 * spec_lockout_secs(r.lockout_type),
            r.retry_count == 1,
            r.lockout_type == spec_classify(spec_to_lowercase(spec_error_text(*err))),
            r.last_error@ == spec_error_text(*err),
            -CLOCK_BOUND_MS < r.created_at < CLOCK_BOUND_MS,
    {
        let now = now_millis();
        let text = error_text(err);
        Self::from_error_text_at(text.as_str(), now)
    }

    /// The lockout is still active at `now`.
    pub fn is_active_at(&self, now: i64) -> (r: bool)
        ensures
            r == (now < self.lockout_until),
    {
        now < self.lockout_until
    }

    /// Time remaining at `now` until the lockout expires, in milliseconds.
    pub fn time_remaining_at(&self, now: i64) -> (r: Option<i64>)
        requires
            i64::MIN <= self.lockout_until - now <= i64::MAX,
        ensures
            r matches Some(d) ==> d == self.lockout_until - now && d > 0,
            r is None <==> self.lockout_until - now <= 0,
    {
        let remaining = self.lockout_until - now;
        if remaining > 0 {
            Some(remaining)
        } else {
            None
        }
    }

    /// Count another failure at `now`; from the fourth failure on, the
    /// lockout is restarted at `now` for the full period of its type.
    pub fn increment_retry_at(&mut self, text: &str, now: i64)
        requires
            old(self).retry_count < u32::MAX,
            now <= LATEST_LOCKOUT_START,
        ensures
            final(self).retry_count == old(self).retry_count + 1,
            final(self).last_error@ == text@,
            final(self).lockout_type == old(self).lockout_type,
            final(self).created_at == old(self).created_at,
            final(self).lockout_until == if old(self).retry_count + 1 > 3 {
                now + 1000 * spec_lockout_secs(old(self).lockout_type)
            } else {
                old(self).lockout_until as int
            },
    {
        self.retry_count = self.retry_count + 1;
        self.last_error = owned(text);
        if self.retry_count > 3 {
            let secs = self.lockout_type.lockout_secs();
            self.lockout_until = now + 1000 * (secs as i64);
        }
    }
}

/// Whether to attempt an API call at `now`, given the stored lockout: only
/// when there is none or it has expired.
pub fn should_attempt_api_call_at(lockout: Option<&ApiLockout>, now: i64) -> (r: bool)
    ensures
        r == match lockout {
            Some(l) => !(now < l.lockout_until),
            None => true,
        },
{
    match lockout {
        Some(l) => !l.is_active_at(now),
        None => true,
    }
}

/// The cache entry to remove so that the API may be used again: the
/// lockout topic and key.
pub fn clear_api_lockout() -> (r: (String, String))
    ensures
        r.0@ == LOCKOUT_CACHE_TOPIC@,
        r.1@ == LOCKOUT_CACHE_KEY@,
{
    (crate::strings::owned(LOCKOUT_CACHE_TOPIC), crate::strings::owned(LOCKOUT_CACHE_KEY))
}

} // verus!
