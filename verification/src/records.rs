//! The rows that the router stores and reads back.

use vstd::prelude::*;

verus! {

/// An amount of US dollars, as the bits of its IEEE 754 double. Amounts are
/// carried from place to place here; sums and products are left to the caller.
#[derive(Debug, Clone, Copy, PartialEq, Eq, Structural)]
pub struct Usd {
    pub bits: u64,
}

impl Usd {
    pub open spec fn zero_spec() -> Usd {
        Usd { bits: 0 }
    }

    /// No money at all: positive zero.
    pub fn zero() -> (r: Usd)
        ensures
            r == Usd::zero_spec(),
    {
        Usd { bits: 0 }
    }

    /// Whether the amount is above zero. Of the doubles those are the ones with
    /// no sign bit, from the smallest up to infinity.
    pub open spec fn positive(self) -> bool {
        0 < self.bits <= 0x7ff0_0000_0000_0000
    }

    pub fn is_positive(&self) -> (r: bool)
        ensures
            r == self.positive(),
    {
        0 < self.bits && self.bits <= 0x7ff0_0000_0000_0000
    }

    /// Where the amount stands among all: the bits count up from zero, and with
    /// the sign bit set they count down.
    pub open spec fn rank(self) -> int {
        if self.bits < 0x8000_0000_0000_0000 {
            self.bits as int
        } else {
            0x8000_0000_0000_0000 - self.bits
        }
    }

    /// Whether this is a number at all.
    pub open spec fn is_number(self) -> bool {
        -0x7ff0_0000_0000_0000 <= self.rank() <= 0x7ff0_0000_0000_0000
    }

    /// Whether this amount is above another.
    pub open spec fn above(self, other: Usd) -> bool {
        self.is_number() && other.is_number() && self.rank() > other.rank()
    }

    fn place(&self) -> (r: i128)
        ensures
            r == self.rank(),
    {
        if self.bits < 0x8000_0000_0000_0000 {
            self.bits as i128
        } else {
            0x8000_0000_0000_0000 - self.bits as i128
        }
    }

    pub fn exceeds(&self, other: &Usd) -> (r: bool)
        ensures
            r == self.above(*other),
    {
        let (a, b): (i128, i128) = (self.place(), other.place());
        let top: i128 = 0x7ff0_0000_0000_0000;
        -top <= a && a <= top && -top <= b && b <= top && a > b
    }
}

/// What a resolved target expression was pinned to.
#[derive(Debug, Clone, PartialEq, Eq)]
pub struct VariantTarget {
    pub target: String,
    pub provider: String,
    pub model: String,
}

#[derive(Debug, Clone, Copy, PartialEq, Eq, Structural)]
pub enum ExperimentStatus {
    Active,
    Closed,
}

/// A variant's pinned targets, by requested model.
pub type PinnedOverlay = Vec<(String, VariantTarget)>;

/// An experiment as it is stored.
#[derive(Debug, Clone, PartialEq, Eq)]
pub struct Experiment {
    pub id: i64,
    pub name: String,
    /// The variants by ascending label.
    pub variants: Vec<(String, PinnedOverlay)>,
    pub allowed_user_ids: Vec<i64>,
    pub status: ExperimentStatus,
    pub feed_learning: bool,
    /// Seconds since the epoch, 0 for never.
    pub expires_at: i64,
    pub created_at: String,
    pub closed_at: Option<String>,
    pub retain_content: bool,
    /// 0 for ever.
    pub content_retention_days: i64,
}

/// An experiment to be stored.
#[derive(Debug, Clone, PartialEq, Eq)]
pub struct NewExperiment {
    pub name: String,
    pub variants: Vec<(String, PinnedOverlay)>,
    pub allowed_user_ids: Vec<i64>,
    pub feed_learning: bool,
    pub expires_at: i64,
    pub retain_content: bool,
    pub content_retention_days: i64,
}

/// What a caller reported of a run.
#[derive(Debug, Clone, PartialEq, Eq)]
pub struct RunOutcome {
    pub user_id: i64,
    pub attribution_correlation_id: String,
    pub outcome: String,
    /// The bits of a double between 0 and 1.
    pub score: Option<u64>,
    pub rating: Option<i64>,
    pub note: Option<String>,
    pub experiment_id: Option<i64>,
    pub experiment_variant: Option<String>,
    pub created_at: String,
    pub updated_at: String,
}

/// A caller, with the API key it came with.
#[derive(Debug, Clone, PartialEq, Eq)]
pub struct User {
    pub id: i64,
    pub name: String,
    pub email: Option<String>,
    pub group_name: Option<String>,
    pub enabled: bool,
    pub created_at: String,
    pub api_key_id: Option<i64>,
    /// The project that the key is labelled with.
    pub api_key_project: Option<String>,
    pub session_window_secs: Option<i64>,
    pub metadata: String,
}

/// A caller to be stored.
#[derive(Debug, Clone, PartialEq, Eq)]
pub struct NewUser {
    pub name: String,
    pub group_name: Option<String>,
    pub email: Option<String>,
}

/// An API key as it is stored: never the key itself, only its hash.
#[derive(Debug, Clone, PartialEq, Eq)]
pub struct ApiKey {
    pub id: i64,
    pub user_id: i64,
    pub key_hash: String,
    pub label: Option<String>,
    pub enabled: bool,
    pub created_at: String,
    pub disabled_at: Option<String>,
    pub expires_at: Option<String>,
    pub project: Option<String>,
}

/// An API key to be stored.
#[derive(Debug, Clone, PartialEq, Eq)]
pub struct NewApiKey {
    pub user_id: i64,
    pub key_hash: String,
    pub label: Option<String>,
    pub expires_at: Option<String>,
    pub project: Option<String>,
}

/// Someone who may use the dashboard.
#[derive(Debug, Clone, PartialEq, Eq)]
pub struct AdminUser {
    pub id: i64,
    pub name: String,
    pub password_hash: String,
    pub role: String,
    pub enabled: bool,
    pub created_at: String,
    pub last_login_at: Option<String>,
}

/// An admin to be stored.
#[derive(Debug, Clone, PartialEq, Eq)]
pub struct NewAdminUser {
    pub name: String,
    pub password_hash: String,
    pub role: String,
}

/// One line of the audit log, to be stored.
#[derive(Debug, Clone, PartialEq, Eq)]
pub struct NewAuditLogEntry {
    pub actor_id: Option<i64>,
    pub actor_name: String,
    pub action: String,
    pub target: Option<String>,
    pub before_json: Option<String>,
    pub after_json: Option<String>,
}

/// A prompt to be stored.
#[derive(Debug, Clone, PartialEq, Eq)]
pub struct NewPrompt {
    pub user_id: i64,
    pub session_id: Option<String>,
    pub request_model: String,
    pub routed_model: String,
    pub provider: String,
    /// The messages, as JSON text.
    pub messages: String,
    pub response: Option<String>,
    pub finish_reason: Option<String>,
    pub prompt_tokens: i64,
    pub completion_tokens: i64,
    pub cache_read_tokens: i64,
    pub cache_write_tokens: i64,
    pub cost_usd: Usd,
    pub latency_ms: Option<i64>,
    pub ttft_ms: Option<i64>,
    pub attempts: Option<i64>,
    /// Tags, as JSON text.
    pub tags: String,
    pub project: Option<String>,
    pub attribution_correlation_id: Option<String>,
    pub attribution_tags: String,
    pub experiment_id: Option<i64>,
    pub experiment_variant: Option<String>,
}

/// A row of the cost ledger to be stored.
#[derive(Debug, Clone, PartialEq, Eq)]
pub struct NewCostLedgerEntry {
    pub user_id: i64,
    pub prompt_id: Option<i64>,
    pub model: String,
    pub provider: String,
    pub project: Option<String>,
    pub tokens_in: i64,
    pub tokens_out: i64,
    pub cost_usd: Usd,
    pub api_key_id: Option<i64>,
    pub attribution_correlation_id: Option<String>,
    pub attribution_tags: String,
    pub experiment_id: Option<i64>,
    pub experiment_variant: Option<String>,
    pub tokens_estimated: bool,
}

/// Amounts compare as numbers do: one is above another or not above it, never both ways, and
/// what is no number is above nothing; a positive amount is above nothing at all.
pub proof fn amounts_are_in_order(a: Usd, b: Usd, c: Usd)
    ensures
        !a.above(a),
        a.above(b) ==> !b.above(a),
        a.above(b) && b.above(c) ==> a.above(c),
        a.is_number() && b.is_number() && a.rank() != b.rank() ==> a.above(b) || b.above(a),
        !a.is_number() || !b.is_number() ==> !a.above(b),
        a.positive() <==> a.is_number() && a.rank() > 0,
        a.positive() ==> a.above(Usd::zero_spec()),
        Usd::zero_spec().bits == 0,
        a.bits < b.bits < 0x7ff0_0000_0000_0000 ==> b.above(a),
{
}

} // verus!
