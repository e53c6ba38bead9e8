//! Account-reported Codex activity and the optional web supplement, kept apart
//! from locally reconstructed token history.
use vstd::prelude::*;
use crate::models::{CodexStatisticsSource, ProviderStatus};

verus! {

/// A binary64 number carried by its IEEE-754 encoding, so that finiteness and
/// order can be decided exactly on integers.
#[derive(Clone, Copy, Debug, PartialEq, Eq, Structural)]
pub struct Amount {
    pub bits: u64,
}

pub open spec fn amount_finite(a: Amount) -> bool {
    (a.bits >> 52u64) & 0x7ffu64 != 0x7ffu64
}

/// Finite and not below zero (negative zero included).
pub open spec fn amount_nonnegative(a: Amount) -> bool {
    amount_finite(a) && (a.bits < 0x8000_0000_0000_0000u64 || a.bits == 0x8000_0000_0000_0000u64)
}

/// Finite and within 0 ..= 100: for non-negative encodings, order of the bits
/// is the order of the values, and 100 is encoded as 0x4059_0000_0000_0000.
pub open spec fn amount_percent(a: Amount) -> bool {
    amount_finite(a) && (a.bits == 0x8000_0000_0000_0000u64 || a.bits <= 0x4059_0000_0000_0000u64)
}

pub open spec fn amount_nan(a: Amount) -> bool {
    !amount_finite(a) && a.bits & 0x000f_ffff_ffff_ffffu64 != 0
}

pub open spec fn amount_zero(a: Amount) -> bool {
    a.bits & 0x7fff_ffff_ffff_ffffu64 == 0
}

/// IEEE-754 equality: NaN equals nothing, and both zeros are equal.
pub open spec fn amount_eq(a: Amount, b: Amount) -> bool {
    !amount_nan(a) && !amount_nan(b) && (a.bits == b.bits || (amount_zero(a) && amount_zero(b)))
}

impl Amount {
    pub fn is_nan(self) -> (r: bool)
        ensures
            r == amount_nan(self),
    {
        !self.is_finite() && self.bits & 0x000f_ffff_ffff_ffffu64 != 0
    }

    /// Numeric equality of the encoded values.
    pub fn equals(self, other: Amount) -> (r: bool)
        ensures
            r == amount_eq(self, other),
    {
        !self.is_nan() && !other.is_nan() && (self.bits == other.bits
            || (self.bits & 0x7fff_ffff_ffff_ffffu64 == 0 && other.bits & 0x7fff_ffff_ffff_ffffu64 == 0))
    }

    pub fn is_finite(self) -> (r: bool)
        ensures
            r == amount_finite(self),
    {
        (self.bits >> 52u64) & 0x7ffu64 != 0x7ffu64
    }

    pub fn is_nonnegative(self) -> (r: bool)
        ensures
            r == amount_nonnegative(self),
    {
        self.is_finite() && (self.bits < 0x8000_0000_0000_0000u64 || self.bits == 0x8000_0000_0000_0000u64)
    }

    pub fn is_percent(self) -> (r: bool)
        ensures
            r == amount_percent(self),
    {
        self.is_finite() && (self.bits == 0x8000_0000_0000_0000u64 || self.bits <= 0x4059_0000_0000_0000u64)
    }
}

#[derive(Clone, Copy, Debug, PartialEq, Eq, Structural)]
pub struct AccountUsageSummary {
    pub lifetime_tokens: Option<u64>,
    pub peak_daily_tokens: Option<u64>,
    pub longest_running_turn_sec: Option<u64>,
    pub current_streak_days: Option<u64>,
    pub longest_streak_days: Option<u64>,
}

impl AccountUsageSummary {
    pub fn unknown() -> (s: AccountUsageSummary)
        ensures
            s.lifetime_tokens is None && s.peak_daily_tokens is None && s.longest_running_turn_sec is None
                && s.current_streak_days is None && s.longest_streak_days is None,
    {
        AccountUsageSummary {
            lifetime_tokens: None,
            peak_daily_tokens: None,
            longest_running_turn_sec: None,
            current_streak_days: None,
            longest_streak_days: None,
        }
    }
}

#[derive(Clone, Debug)]
pub struct DailyTokenUsage {
    pub date: String,
    pub tokens: u64,
}

#[derive(Clone, Debug)]
pub struct WebServiceAmount {
    pub service: String,
    pub amount: Amount,
}

#[derive(Clone, Debug)]
pub struct WebUsageDay {
    pub date: String,
    pub amounts: Vec<WebServiceAmount>,
}

#[derive(Clone, Debug)]
pub struct WebCreditEvent {
    pub date: String,
    pub service: String,
    pub credits: Amount,
}

/// Supplementary figures read from the user's own usage web page.
#[derive(Clone, Debug)]
pub struct WebUsageSnapshot {
    pub status: ProviderStatus,
    pub message: Option<String>,
    pub account: Option<String>,
    pub credits_remaining: Option<Amount>,
    pub code_review_remaining_percent: Option<Amount>,
    pub usage_unit: Option<String>,
    pub usage_breakdown: Option<Vec<WebUsageDay>>,
    pub credit_events: Option<Vec<WebCreditEvent>>,
    pub updated_at: Option<String>,
}

/// Codex account activity as reported by the service.
#[derive(Clone, Debug)]
pub struct AccountUsageSnapshot {
    pub source: CodexStatisticsSource,
    pub status: ProviderStatus,
    pub message: Option<String>,
    pub account: Option<String>,
    pub account_id: Option<String>,
    pub summary: AccountUsageSummary,
    pub daily_usage: Option<Vec<DailyTokenUsage>>,
    pub service_updated_at: Option<String>,
    pub updated_at: Option<String>,
    pub web: Option<WebUsageSnapshot>,
}

/// A snapshot that carries only a status and a message: no account, figures or dates.
pub open spec fn is_empty_snapshot(s: AccountUsageSnapshot) -> bool {
    s.account is None && s.account_id is None && s.summary.lifetime_tokens is None
        && s.summary.peak_daily_tokens is None && s.summary.longest_running_turn_sec is None
        && s.summary.current_streak_days is None && s.summary.longest_streak_days is None
        && s.daily_usage is None && s.service_updated_at is None && s.updated_at is None && s.web is None
}

/// A snapshot that reports only `status` and `message`.
pub fn empty_snapshot(source: CodexStatisticsSource, status: ProviderStatus, message: &str) -> (s: AccountUsageSnapshot)
    ensures
        s.source == source,
        s.status == status,
        s.message matches Some(m) && m@ == message@,
        is_empty_snapshot(s),
{
    AccountUsageSnapshot {
        source,
        status,
        message: Some(String::from_str(message)),
        account: None,
        account_id: None,
        summary: AccountUsageSummary::unknown(),
        daily_usage: None,
        service_updated_at: None,
        updated_at: None,
        web: None,
    }
}

} // verus!
