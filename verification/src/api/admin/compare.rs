//! Side-by-side comparison of two arms.
//!
//! An arm is a slice of recorded traffic: one model, one provider, one tag
//! value, one correlation id, or one variant of a controlled experiment. The
//! router never assigns the first four; a client forms them by choosing a model
//! per arm and tagging each request. This module only partitions what was
//! recorded.
//!
//! One builder serves the endpoint, the dashboard panels and the command line,
//! so all of them show the same numbers. Quotients are kept as their two sides
//! and divided where they are shown.

use crate::api::admin::attribution::{
    window_bounds, window_range_at, AttributionFilter, AttributionFilterModel, UNSAFE_TAG_KEY,
};
use crate::api::admin::dashboard::DashboardError;
use crate::api::admin::experiments::{is_valid_label, positive_id, valid_label};
use crate::api::attribution::{is_safe_tag_key, safe_tag_key};
use crate::api::error::ApiError;
use crate::clock::now;
use crate::json::{
    json_int, json_real, list_models, real_or_null, text_of_json, Json, JsonModel,
};
use crate::ordered::with_entry;
use crate::records::{Experiment, ExperimentStatus, PinnedOverlay, Usd};
use crate::sums::{lemma_picked_selects, picked, selects, selects_at};
use crate::text::{holds_text, i64_text, int_text, opt_text, parse_i64, same, texts, trim, trimmed};
use vstd::prelude::*;

verus! {

/// Statements that every comparison carries. The page and the command line
/// print them verbatim.
pub const CAVEAT_QUALITY: &'static str =
    "This comparison has no quality column. A difference in cost or latency is not evidence of a difference in answer quality.";

/// Stands in its place where variants are compared: the outcomes that were
/// reported for their runs are read elsewhere.
pub const CAVEAT_QUALITY_VARIANT: &'static str =
    "This comparison has no quality column. A difference in cost or latency is not evidence of a difference in answer quality; the outcomes reported for this experiment's runs are on its results page under /admin/experiments.";

pub const CAVEAT_STREAMING: &'static str =
    "Streamed responses record estimated or zero tokens and, on the messages API, a placeholder latency; they are indistinguishable from measured rows here. Send experiment traffic with stream: false.";

pub const TTFT_NOTE: &'static str =
    "Time to first token is not recorded by the router today, so it cannot be compared.";

// ---------------------------------------------------------------------------
// The question
// ---------------------------------------------------------------------------

/// What to compare.
#[derive(Debug, Clone, PartialEq, Eq)]
pub struct CompareQuery {
    pub dimension: String,
    /// The tag key where tags are compared, the experiment id where variants
    /// are; ignored otherwise.
    pub key: String,
    pub a: String,
    pub b: String,
    pub window: String,
}

/// Which rows make up an arm.
#[derive(Debug, Clone, PartialEq, Eq)]
pub enum ArmFilter {
    Model(String),
    Provider(String),
    Attribution(AttributionFilter),
    Variant { experiment_id: i64, variant: String },
}

pub enum ArmFilterModel {
    Model(Seq<char>),
    Provider(Seq<char>),
    Attribution(AttributionFilterModel),
    Variant { experiment_id: i64, variant: Seq<char> },
}

impl View for ArmFilter {
    type V = ArmFilterModel;

    open spec fn view(&self) -> ArmFilterModel {
        match self {
            ArmFilter::Model(v) => ArmFilterModel::Model(v@),
            ArmFilter::Provider(v) => ArmFilterModel::Provider(v@),
            ArmFilter::Attribution(f) => ArmFilterModel::Attribution(f@),
            ArmFilter::Variant { experiment_id, variant } => ArmFilterModel::Variant {
                experiment_id: *experiment_id,
                variant: variant@,
            },
        }
    }
}

/// A question that has been accepted: two arms and a window.
#[derive(Debug, Clone, PartialEq, Eq)]
pub struct ValidatedQuery {
    pub dimension: String,
    pub key: Option<String>,
    /// The experiment whose variants are compared.
    pub experiment_id: Option<i64>,
    pub a: String,
    pub b: String,
    pub arm_a: ArmFilter,
    pub arm_b: ArmFilter,
    pub window: String,
    pub start: String,
    pub end: String,
}

pub struct ValidatedModel {
    pub dimension: Seq<char>,
    pub key: Option<Seq<char>>,
    pub experiment_id: Option<i64>,
    pub a: Seq<char>,
    pub b: Seq<char>,
    pub arm_a: ArmFilterModel,
    pub arm_b: ArmFilterModel,
    pub window: Seq<char>,
    pub start: Seq<char>,
    pub end: Seq<char>,
}

impl View for ValidatedQuery {
    type V = ValidatedModel;

    open spec fn view(&self) -> ValidatedModel {
        ValidatedModel {
            dimension: self.dimension@,
            key: opt_text(self.key),
            experiment_id: self.experiment_id,
            a: self.a@,
            b: self.b@,
            arm_a: self.arm_a@,
            arm_b: self.arm_b@,
            window: self.window@,
            start: self.start@,
            end: self.end@,
        }
    }
}

/// Why there is no comparison.
#[derive(Debug, Clone, PartialEq, Eq)]
pub enum CompareError {
    /// The question is at fault, and this is how.
    Invalid(String),
    /// What was needed to answer could not be had.
    Db(String),
}

impl CompareError {
    /// The words for it.
    pub fn describe(&self) -> (r: &str)
        ensures
            r@ == match self {
                CompareError::Invalid(m) => m@,
                CompareError::Db(m) => m@,
            },
    {
        match self {
            CompareError::Invalid(m) => m.as_str(),
            CompareError::Db(m) => m.as_str(),
        }
    }

    /// How the endpoint answers it. What went wrong inside is not told.
    pub fn into_api_error(self) -> (r: ApiError)
        ensures
            match self {
                CompareError::Invalid(m) => r == ApiError::InvalidRequest(m),
                CompareError::Db(_) => r == ApiError::Internal,
            },
    {
        match self {
            CompareError::Invalid(m) => ApiError::InvalidRequest(m),
            CompareError::Db(_) => ApiError::Internal,
        }
    }

    /// How the dashboard answers it.
    pub fn into_dashboard_error(self) -> (r: DashboardError)
        ensures
            match self {
                CompareError::Invalid(m) => r == DashboardError::BadRequest(m),
                CompareError::Db(_) => r == DashboardError::Internal,
            },
    {
        match self {
            CompareError::Invalid(m) => DashboardError::BadRequest(m),
            CompareError::Db(_) => DashboardError::Internal,
        }
    }
}

pub enum Refusal {
    Invalid(Seq<char>),
    Clock,
}

pub open spec fn is_dimension(s: Seq<char>) -> bool {
    s == "model"@ || s == "provider"@ || s == "tag"@ || s == "run"@ || s == "variant"@
}

pub fn known_dimension(s: &str) -> (r: bool)
    ensures
        r == is_dimension(s@),
{
    same(s, "model") || same(s, "provider") || same(s, "tag") || same(s, "run") || same(
        s,
        "variant",
    )
}

pub open spec fn is_window(s: Seq<char>) -> bool {
    s == "all"@ || s == "daily"@ || s == "weekly"@ || s == "monthly"@
}

pub fn known_window(s: &str) -> (r: bool)
    ensures
        r == is_window(s@),
{
    same(s, "all") || same(s, "daily") || same(s, "weekly") || same(s, "monthly")
}

pub const BAD_DIMENSION: &'static str =
    "dimension must be one of model, provider, tag, run, variant";

pub const BAD_WINDOW: &'static str = "window must be one of all, daily, weekly, monthly";

pub const NO_TAG_KEY: &'static str = "key is required when dimension=tag";

pub const BAD_EXPERIMENT_ID: &'static str =
    "key must be an experiment id (a positive integer) when dimension=variant";

/// What follows the name of the field that holds no label.
pub const BAD_LABEL: &'static str =
    " must be a variant label: letters, digits, '_', '.' or '-', at most 64 characters";

/// The key of a question, and the experiment it names.
pub open spec fn checked_key(
    dimension: Seq<char>,
    key: Seq<char>,
    a: Seq<char>,
    b: Seq<char>,
) -> Result<(Option<Seq<char>>, Option<i64>), Seq<char>> {
    if dimension == "tag"@ {
        if key.len() == 0 {
            Err(NO_TAG_KEY@)
        } else if !safe_tag_key(key) {
            Err(UNSAFE_TAG_KEY@)
        } else {
            Ok((Some(key), None))
        }
    } else if dimension == "variant"@ {
        match positive_id(key) {
            None => Err(BAD_EXPERIMENT_ID@),
            Some(id) => if !valid_label(a) {
                Err("a"@ + BAD_LABEL@)
            } else if !valid_label(b) {
                Err("b"@ + BAD_LABEL@)
            } else {
                Ok((Some(int_text(id as int)), Some(id)))
            },
        }
    } else {
        Ok((None, None))
    }
}

/// The arm that a value stands for.
pub open spec fn arm_of(
    dimension: Seq<char>,
    key: Option<Seq<char>>,
    experiment_id: Option<i64>,
    value: Seq<char>,
) -> ArmFilterModel {
    if dimension == "model"@ {
        ArmFilterModel::Model(value)
    } else if dimension == "provider"@ {
        ArmFilterModel::Provider(value)
    } else if dimension == "tag"@ {
        ArmFilterModel::Attribution(
            AttributionFilterModel::Tag {
                key: match key {
                    Some(k) => k,
                    None => Seq::empty(),
                },
                value,
            },
        )
    } else if dimension == "variant"@ {
        ArmFilterModel::Variant {
            experiment_id: match experiment_id {
                Some(id) => id,
                None => 0,
            },
            variant: value,
        }
    } else {
        ArmFilterModel::Attribution(AttributionFilterModel::CorrelationId(value))
    }
}

/// What becomes of a question asked at `secs`.
pub open spec fn validated(q: CompareQuery, secs: i64) -> Result<ValidatedModel, Refusal> {
    let dimension = trimmed(q.dimension@);
    let a = trimmed(q.a@);
    let b = trimmed(q.b@);
    let window = trimmed(q.window@);
    if !is_dimension(dimension) {
        Err(Refusal::Invalid(BAD_DIMENSION@))
    } else if a.len() == 0 {
        Err(Refusal::Invalid("a is required"@))
    } else if b.len() == 0 {
        Err(Refusal::Invalid("b is required"@))
    } else if a == b {
        Err(Refusal::Invalid("a and b must differ"@))
    } else if !is_window(window) {
        Err(Refusal::Invalid(BAD_WINDOW@))
    } else {
        match checked_key(dimension, trimmed(q.key@), a, b) {
            Err(m) => Err(Refusal::Invalid(m)),
            Ok((key, experiment_id)) => match window_bounds(window, secs) {
                None => Err(Refusal::Clock),
                Some((start, end)) => Ok(
                    ValidatedModel {
                        dimension,
                        key,
                        experiment_id,
                        a,
                        b,
                        arm_a: arm_of(dimension, key, experiment_id, a),
                        arm_b: arm_of(dimension, key, experiment_id, b),
                        window,
                        start,
                        end,
                    },
                ),
            },
        }
    }
}

pub open spec fn agrees(r: Result<ValidatedQuery, CompareError>, m: Result<ValidatedModel, Refusal>) -> bool {
    match m {
        Ok(v) => r matches Ok(q) && q@ == v,
        Err(Refusal::Invalid(message)) => r matches Err(CompareError::Invalid(t)) && t@ == message,
        Err(Refusal::Clock) => r matches Err(CompareError::Db(_)),
    }
}

fn invalid<T>(message: &str) -> (r: Result<T, CompareError>)
    ensures
        r matches Err(CompareError::Invalid(m)) && m@ == message@,
{
    Err(CompareError::Invalid(message.to_owned()))
}

fn check_key(dimension: &str, key: &str, a: &str, b: &str) -> (r: Result<
    (Option<String>, Option<i64>),
    CompareError,
>)
    ensures
        match checked_key(dimension@, key@, a@, b@) {
            Ok((k, id)) => r matches Ok((kk, i)) && opt_text(kk) == k && i == id,
            Err(message) => r matches Err(CompareError::Invalid(m)) && m@ == message,
        },
{
    if same(dimension, "tag") {
        if key.is_empty() {
            return invalid(NO_TAG_KEY);
        }
        if !is_safe_tag_key(key) {
            return invalid(UNSAFE_TAG_KEY);
        }
        return Ok((Some(key.to_owned()), None));
    }
    if same(dimension, "variant") {
        let id: i64 = match parse_i64(key) {
            Some(id) => if id > 0 {
                id
            } else {
                return invalid(BAD_EXPERIMENT_ID);
            },
            None => {
                return invalid(BAD_EXPERIMENT_ID);
            },
        };
        if !is_valid_label(a) {
            let m = "a".to_owned().concat(BAD_LABEL);
            return Err(CompareError::Invalid(m));
        }
        if !is_valid_label(b) {
            let m = "b".to_owned().concat(BAD_LABEL);
            return Err(CompareError::Invalid(m));
        }
        return Ok((Some(i64_text(id)), Some(id)));
    }
    Ok((None, None))
}

fn make_arm(
    dimension: &str,
    key: &Option<String>,
    experiment_id: Option<i64>,
    value: &str,
) -> (r: ArmFilter)
    ensures
        r@ == arm_of(dimension@, opt_text(*key), experiment_id, value@),
{
    if same(dimension, "model") {
        ArmFilter::Model(value.to_owned())
    } else if same(dimension, "provider") {
        ArmFilter::Provider(value.to_owned())
    } else if same(dimension, "tag") {
        let k = match key {
            Some(k) => k.clone(),
            None => String::new(),
        };
        ArmFilter::Attribution(AttributionFilter::Tag { key: k, value: value.to_owned() })
    } else if same(dimension, "variant") {
        let id: i64 = match experiment_id {
            Some(id) => id,
            None => 0,
        };
        ArmFilter::Variant { experiment_id: id, variant: value.to_owned() }
    } else {
        ArmFilter::Attribution(AttributionFilter::CorrelationId(value.to_owned()))
    }
}

impl CompareQuery {
    /// Checks every field of a question that is asked at `secs`. The errors name
    /// the field.
    pub fn validate_at(&self, secs: i64) -> (r: Result<ValidatedQuery, CompareError>)
        ensures
            agrees(r, validated(*self, secs)),
    {
        let dimension = trim(self.dimension.as_str());
        if !known_dimension(dimension) {
            return invalid(BAD_DIMENSION);
        }
        let a = trim(self.a.as_str());
        let b = trim(self.b.as_str());
        if a.is_empty() {
            return invalid("a is required");
        }
        if b.is_empty() {
            return invalid("b is required");
        }
        if same(a, b) {
            return invalid("a and b must differ");
        }
        let window = trim(self.window.as_str());
        if !known_window(window) {
            return invalid(BAD_WINDOW);
        }
        let (key, experiment_id) = match check_key(dimension, trim(self.key.as_str()), a, b) {
            Ok(checked) => checked,
            Err(e) => {
                return Err(e);
            },
        };
        let arm_a = make_arm(dimension, &key, experiment_id, a);
        let arm_b = make_arm(dimension, &key, experiment_id, b);
        match window_range_at(window, secs) {
            Some((start, end)) => Ok(
                ValidatedQuery {
                    dimension: dimension.to_owned(),
                    key,
                    experiment_id,
                    a: a.to_owned(),
                    b: b.to_owned(),
                    arm_a,
                    arm_b,
                    window: window.to_owned(),
                    start,
                    end,
                },
            ),
            None => Err(CompareError::Db("the clock is out of range".to_owned())),
        }
    }

    /// Checks every field of a question that is asked now.
    pub fn validate(&self) -> (r: Result<ValidatedQuery, CompareError>)
        ensures
            exists|secs: i64| agrees(r, #[trigger] validated(*self, secs)),
    {
        let t = now();
        let r = self.validate_at(t.secs);
        assert(agrees(r, validated(*self, t.secs)));
        r
    }
}

// ---------------------------------------------------------------------------
// The experiment behind a comparison of variants
// ---------------------------------------------------------------------------

/// Enough of an experiment to say what the arms are and whether their content
/// was stored.
#[derive(Debug, Clone, PartialEq, Eq)]
pub struct ComparedExperiment {
    pub id: i64,
    pub name: String,
    pub status: ExperimentStatus,
    pub retain_content: bool,
    /// Days after the close that content is kept; 0 for ever.
    pub content_retention_days: i64,
    /// Whether the prompt log holds the content behind both arms; printed
    /// verbatim.
    pub stored_content_note: String,
}

pub open spec fn kept_text(days: i64) -> Seq<char> {
    if days == 0 {
        "are never purged"@
    } else {
        "are purged "@ + int_text(days as int) + " days after the experiment closes"@
    }
}

pub open spec fn stored_note(exp: Experiment) -> Seq<char> {
    if exp.retain_content {
        "Stored content: experiment "@ + exp.name@
            + " retains content, so the prompts and responses behind both arms are in the prompt log and "@
            + kept_text(exp.content_retention_days) + "."@
    } else {
        "Stored content: experiment "@ + exp.name@
            + " does not retain content; prompts and responses behind these arms are stored only as the global prompt log settings allow."@
    }
}

impl ComparedExperiment {
    pub open spec fn describes(self, exp: Experiment) -> bool {
        &&& self.id == exp.id
        &&& self.name@ == exp.name@
        &&& self.status == exp.status
        &&& self.retain_content == exp.retain_content
        &&& self.content_retention_days == exp.content_retention_days
        &&& self.stored_content_note@ == stored_note(exp)
    }

    pub fn from_experiment(exp: &Experiment) -> (r: ComparedExperiment)
        ensures
            r.describes(*exp),
    {
        let head = "Stored content: experiment ".to_owned().concat(exp.name.as_str());
        let stored_content_note = if exp.retain_content {
            let kept = if exp.content_retention_days == 0 {
                "are never purged".to_owned()
            } else {
                "are purged ".to_owned().concat(
                    i64_text(exp.content_retention_days).as_str(),
                ).concat(" days after the experiment closes")
            };
            head.concat(
                " retains content, so the prompts and responses behind both arms are in the prompt log and ",
            ).concat(kept.as_str()).concat(".")
        } else {
            head.concat(
                " does not retain content; prompts and responses behind these arms are stored only as the global prompt log settings allow.",
            )
        };
        ComparedExperiment {
            id: exp.id,
            name: exp.name.clone(),
            status: exp.status,
            retain_content: exp.retain_content,
            content_retention_days: exp.content_retention_days,
            stored_content_note,
        }
    }
}

/// Whether an experiment has a variant of that label.
pub open spec fn declares(variants: Seq<(String, PinnedOverlay)>, label: Seq<char>) -> bool {
    exists|i: int| 0 <= i < variants.len() && (#[trigger] variants[i]).0@ == label
}

fn has_variant(exp: &Experiment, label: &str) -> (r: bool)
    ensures
        r == declares(exp.variants@, label@),
{
    let mut i: usize = 0;
    while i < exp.variants.len()
        invariant
            i <= exp.variants@.len(),
            forall|j: int| 0 <= j < i ==> (#[trigger] exp.variants@[j]).0@ != label@,
        decreases exp.variants@.len() - i,
    {
        if same(exp.variants[i].0.as_str(), label) {
            return true;
        }
        i += 1;
    }
    false
}

/// Why an experiment cannot be compared.
pub open spec fn experiment_refusal(
    id: i64,
    a: Seq<char>,
    b: Seq<char>,
    found: Option<Experiment>,
) -> Option<Seq<char>> {
    match found {
        None => Some("key: experiment "@ + int_text(id as int) + " does not exist"@),
        Some(exp) => if !declares(exp.variants@, a) {
            Some("a: experiment "@ + int_text(id as int) + " has no variant "@ + a)
        } else if !declares(exp.variants@, b) {
            Some("b: experiment "@ + int_text(id as int) + " has no variant "@ + b)
        } else {
            None
        },
    }
}

fn undeclared(field: &str, id: i64, label: &str) -> (r: CompareError)
    ensures
        r matches CompareError::Invalid(m) && m@ == field@ + int_text(id as int) + " has no variant "@
            + label@,
{
    CompareError::Invalid(
        field.to_owned().concat(i64_text(id).as_str()).concat(" has no variant ").concat(label),
    )
}

/// The experiment behind a comparison of variants, once it has been looked up.
pub fn compared_experiment(id: i64, a: &str, b: &str, found: &Option<Experiment>) -> (r: Result<
    ComparedExperiment,
    CompareError,
>)
    ensures
        match experiment_refusal(id, a@, b@, *found) {
            Some(message) => r matches Err(CompareError::Invalid(m)) && m@ == message,
            None => r matches Ok(e) && found matches Some(exp) && e.describes(*exp),
        },
{
    match found {
        None => {
            let m = "key: experiment ".to_owned().concat(i64_text(id).as_str()).concat(
                " does not exist",
            );
            Err(CompareError::Invalid(m))
        },
        Some(exp) => {
            if !has_variant(exp, a) {
                return Err(undeclared("a: experiment ", id, a));
            }
            if !has_variant(exp, b) {
                return Err(undeclared("b: experiment ", id, b));
            }
            Ok(ComparedExperiment::from_experiment(exp))
        },
    }
}

// ---------------------------------------------------------------------------
// The arms
// ---------------------------------------------------------------------------

/// A number that was counted, or one that was measured, as the bits of its
/// IEEE 754 double.
#[derive(Debug, Clone, Copy, PartialEq, Eq, Structural)]
pub enum Amount {
    Count(i64),
    Real(u64),
}

/// A number to be shown: an amount, or a quotient that is still to be taken.
#[derive(Debug, Clone, Copy, PartialEq, Eq, Structural)]
pub enum Figure {
    Plain(Amount),
    Quotient(Amount, i64),
}

/// What the ledger adds up to for one arm.
#[derive(Debug, Clone, Copy, PartialEq, Eq)]
pub struct ArmTotals {
    pub requests: i64,
    pub cost_usd: Usd,
    pub saved_usd: Usd,
    pub tokens_in: i64,
    pub tokens_out: i64,
    pub cache_hits: i64,
    /// The bits of a double.
    pub hit_rate: u64,
}

/// The totals of one model or one day.
#[derive(Debug, Clone, PartialEq, Eq)]
pub struct BreakdownRow {
    pub key: String,
    pub totals: ArmTotals,
}

/// Latency as the prompt log has it.
#[derive(Debug, Clone, Copy, PartialEq, Eq)]
pub struct LatencySummary {
    pub samples: i64,
    /// The bits of a double.
    pub mean_ms: Option<u64>,
    pub p50_ms: Option<i64>,
    pub p95_ms: Option<i64>,
}

/// What the stores hold of one arm.
pub struct ArmFacts {
    pub label: String,
    pub totals: ArmTotals,
    /// The models of the arm, each with whether it has a price.
    pub by_model: Vec<(String, bool)>,
    pub by_day: Vec<BreakdownRow>,
    pub latency: LatencySummary,
    pub failures: i64,
}

/// One arm of a comparison. What is meant per request is absent where there were
/// none.
pub struct ArmMetrics {
    pub value: String,
    pub label: String,
    pub requests: i64,
    pub cost_usd: Usd,
    pub cost_per_request: Option<Figure>,
    pub saved_usd: Usd,
    pub tokens_in: i64,
    pub tokens_out: i64,
    pub tokens_in_per_request: Option<Figure>,
    pub tokens_out_per_request: Option<Figure>,
    pub cache_hits: i64,
    pub hit_rate: Figure,
    pub failures: i64,
    /// Failures among all attempts; zero where there were none.
    pub error_rate: Figure,
    pub latency: LatencySummary,
    /// Whether a model of the arm has no price, so that the cost is incomplete.
    pub unpriced: bool,
    pub unpriced_models: Vec<String>,
    pub by_day: Vec<BreakdownRow>,
}

pub open spec fn per_request(v: Amount, requests: i64) -> Option<Figure> {
    if requests == 0 {
        None
    } else {
        Some(Figure::Quotient(v, requests))
    }
}

/// The share of failures among attempts.
pub open spec fn error_rate_of(requests: i64, failures: i64) -> Figure {
    if requests + failures == 0 {
        Figure::Plain(Amount::Real(0))
    } else {
        Figure::Quotient(Amount::Count(failures), (requests + failures) as i64)
    }
}

/// The names of the models without a price, in order.
pub open spec fn unpriced_in(models: Seq<(String, bool)>) -> Seq<Seq<char>>
    decreases models.len(),
{
    if models.len() == 0 {
        Seq::empty()
    } else {
        let rest = unpriced_in(models.drop_last());
        if models.last().1 {
            rest
        } else {
            rest.push(models.last().0@)
        }
    }
}

impl ArmMetrics {
    /// Whether these are the metrics of an arm of which the stores hold `f`.
    pub open spec fn measures(self, value: Seq<char>, f: ArmFacts) -> bool {
        &&& self.value@ == value
        &&& self.label == f.label
        &&& self.requests == f.totals.requests
        &&& self.cost_usd == f.totals.cost_usd
        &&& self.cost_per_request == per_request(
            Amount::Real(f.totals.cost_usd.bits),
            f.totals.requests,
        )
        &&& self.saved_usd == f.totals.saved_usd
        &&& self.tokens_in == f.totals.tokens_in
        &&& self.tokens_out == f.totals.tokens_out
        &&& self.tokens_in_per_request == per_request(
            Amount::Count(f.totals.tokens_in),
            f.totals.requests,
        )
        &&& self.tokens_out_per_request == per_request(
            Amount::Count(f.totals.tokens_out),
            f.totals.requests,
        )
        &&& self.cache_hits == f.totals.cache_hits
        &&& self.hit_rate == Figure::Plain(Amount::Real(f.totals.hit_rate))
        &&& self.failures == f.failures
        &&& self.error_rate == error_rate_of(f.totals.requests, f.failures)
        &&& self.latency == f.latency
        &&& self.unpriced == (unpriced_in(f.by_model@).len() > 0)
        &&& texts(self.unpriced_models@) == unpriced_in(f.by_model@)
        &&& self.by_day == f.by_day
    }
}

fn for_each(v: Amount, requests: i64) -> (r: Option<Figure>)
    ensures
        r == per_request(v, requests),
{
    if requests == 0 {
        None
    } else {
        Some(Figure::Quotient(v, requests))
    }
}

fn unpriced_of(models: &Vec<(String, bool)>) -> (r: Vec<String>)
    ensures
        texts(r@) == unpriced_in(models@),
{
    let mut out: Vec<String> = Vec::new();
    let mut i: usize = 0;
    while i < models.len()
        invariant
            i <= models@.len(),
            texts(out@) =~= unpriced_in(models@.take(i as int)),
        decreases models@.len() - i,
    {
        assert(models@.take(i + 1).drop_last() =~= models@.take(i as int));
        if !models[i].1 {
            let ghost before = out@;
            out.push(models[i].0.clone());
            assert(texts(out@) =~= texts(before).push(models@[i as int].0@));
        }
        i += 1;
    }
    assert(models@.take(models@.len() as int) =~= models@);
    out
}

/// The metrics of one arm.
pub fn arm_metrics(value: &str, facts: ArmFacts) -> (r: ArmMetrics)
    requires
        i64::MIN <= facts.totals.requests + facts.failures <= i64::MAX,
    ensures
        r.measures(value@, facts),
{
    let t = facts.totals;
    let unpriced_models = unpriced_of(&facts.by_model);
    let attempts: i64 = t.requests + facts.failures;
    let error_rate = if attempts == 0 {
        Figure::Plain(Amount::Real(0))
    } else {
        Figure::Quotient(Amount::Count(facts.failures), attempts)
    };
    assert(texts(unpriced_models@).len() == unpriced_models@.len());
    ArmMetrics {
        value: value.to_owned(),
        label: facts.label,
        requests: t.requests,
        cost_usd: t.cost_usd,
        cost_per_request: for_each(Amount::Real(t.cost_usd.bits), t.requests),
        saved_usd: t.saved_usd,
        tokens_in: t.tokens_in,
        tokens_out: t.tokens_out,
        tokens_in_per_request: for_each(Amount::Count(t.tokens_in), t.requests),
        tokens_out_per_request: for_each(Amount::Count(t.tokens_out), t.requests),
        cache_hits: t.cache_hits,
        hit_rate: Figure::Plain(Amount::Real(t.hit_rate)),
        failures: facts.failures,
        error_rate,
        latency: facts.latency,
        unpriced: unpriced_models.len() > 0,
        unpriced_models,
        by_day: facts.by_day,
    }
}

// ---------------------------------------------------------------------------
// The comparison
// ---------------------------------------------------------------------------

/// From the figure of A to that of B.
#[derive(Debug, Clone, Copy, PartialEq, Eq, Structural)]
pub struct Change {
    pub from: Figure,
    pub to: Figure,
}

/// One change per metric; absent where either side has no figure.
#[derive(Debug, Clone, Copy, PartialEq, Eq)]
pub struct Deltas {
    pub requests: Option<Change>,
    pub cost_usd: Option<Change>,
    pub cost_per_request: Option<Change>,
    pub tokens_in: Option<Change>,
    pub tokens_out: Option<Change>,
    pub tokens_in_per_request: Option<Change>,
    pub tokens_out_per_request: Option<Change>,
    pub hit_rate: Option<Change>,
    pub error_rate: Option<Change>,
    pub mean_ms: Option<Change>,
    pub p50_ms: Option<Change>,
    pub p95_ms: Option<Change>,
}

pub open spec fn change_of(a: Option<Figure>, b: Option<Figure>) -> Option<Change> {
    match (a, b) {
        (Some(from), Some(to)) => Some(Change { from, to }),
        _ => None,
    }
}

fn change(a: Option<Figure>, b: Option<Figure>) -> (r: Option<Change>)
    ensures
        r == change_of(a, b),
{
    match (a, b) {
        (Some(from), Some(to)) => Some(Change { from, to }),
        _ => None,
    }
}

pub open spec fn counted(n: i64) -> Option<Figure> {
    Some(Figure::Plain(Amount::Count(n)))
}

pub open spec fn counted_if(n: Option<i64>) -> Option<Figure> {
    match n {
        Some(n) => counted(n),
        None => None,
    }
}

pub open spec fn measured(bits: u64) -> Option<Figure> {
    Some(Figure::Plain(Amount::Real(bits)))
}

pub open spec fn measured_if(bits: Option<u64>) -> Option<Figure> {
    match bits {
        Some(b) => measured(b),
        None => None,
    }
}

fn count_figure(n: i64) -> (r: Option<Figure>)
    ensures
        r == counted(n),
{
    Some(Figure::Plain(Amount::Count(n)))
}

fn count_figure_if(n: Option<i64>) -> (r: Option<Figure>)
    ensures
        r == counted_if(n),
{
    match n {
        Some(n) => count_figure(n),
        None => None,
    }
}

fn real_figure(bits: u64) -> (r: Option<Figure>)
    ensures
        r == measured(bits),
{
    Some(Figure::Plain(Amount::Real(bits)))
}

fn real_figure_if(bits: Option<u64>) -> (r: Option<Figure>)
    ensures
        r == measured_if(bits),
{
    match bits {
        Some(b) => real_figure(b),
        None => None,
    }
}

impl Deltas {
    pub open spec fn between_spec(a: ArmMetrics, b: ArmMetrics) -> Deltas {
        Deltas {
            requests: change_of(counted(a.requests), counted(b.requests)),
            cost_usd: change_of(measured(a.cost_usd.bits), measured(b.cost_usd.bits)),
            cost_per_request: change_of(a.cost_per_request, b.cost_per_request),
            tokens_in: change_of(counted(a.tokens_in), counted(b.tokens_in)),
            tokens_out: change_of(counted(a.tokens_out), counted(b.tokens_out)),
            tokens_in_per_request: change_of(a.tokens_in_per_request, b.tokens_in_per_request),
            tokens_out_per_request: change_of(a.tokens_out_per_request, b.tokens_out_per_request),
            hit_rate: change_of(Some(a.hit_rate), Some(b.hit_rate)),
            error_rate: change_of(Some(a.error_rate), Some(b.error_rate)),
            mean_ms: change_of(measured_if(a.latency.mean_ms), measured_if(b.latency.mean_ms)),
            p50_ms: change_of(counted_if(a.latency.p50_ms), counted_if(b.latency.p50_ms)),
            p95_ms: change_of(counted_if(a.latency.p95_ms), counted_if(b.latency.p95_ms)),
        }
    }

    pub fn between(a: &ArmMetrics, b: &ArmMetrics) -> (r: Deltas)
        ensures
            r == Deltas::between_spec(*a, *b),
    {
        Deltas {
            requests: change(count_figure(a.requests), count_figure(b.requests)),
            cost_usd: change(real_figure(a.cost_usd.bits), real_figure(b.cost_usd.bits)),
            cost_per_request: change(a.cost_per_request, b.cost_per_request),
            tokens_in: change(count_figure(a.tokens_in), count_figure(b.tokens_in)),
            tokens_out: change(count_figure(a.tokens_out), count_figure(b.tokens_out)),
            tokens_in_per_request: change(a.tokens_in_per_request, b.tokens_in_per_request),
            tokens_out_per_request: change(a.tokens_out_per_request, b.tokens_out_per_request),
            hit_rate: change(Some(a.hit_rate), Some(b.hit_rate)),
            error_rate: change(Some(a.error_rate), Some(b.error_rate)),
            mean_ms: change(real_figure_if(a.latency.mean_ms), real_figure_if(b.latency.mean_ms)),
            p50_ms: change(count_figure_if(a.latency.p50_ms), count_figure_if(b.latency.p50_ms)),
            p95_ms: change(count_figure_if(a.latency.p95_ms), count_figure_if(b.latency.p95_ms)),
        }
    }
}

/// Why latency and cost have different denominators.
#[derive(Debug, Clone, Copy, PartialEq, Eq)]
pub struct CoverageArm {
    pub requests: i64,
    pub latency_samples: i64,
}

#[derive(Debug, Clone, Copy, PartialEq, Eq)]
pub struct Coverage {
    pub a: CoverageArm,
    pub b: CoverageArm,
    /// None until pairs are recorded.
    pub incomplete_pairs: Option<i64>,
}

pub struct Comparison {
    pub dimension: String,
    pub key: Option<String>,
    pub window: String,
    pub start: String,
    pub end: String,
    /// Set where variants are compared.
    pub experiment: Option<ComparedExperiment>,
    pub a: ArmMetrics,
    pub b: ArmMetrics,
    pub delta: Deltas,
    pub coverage: Coverage,
    pub ttft_note: &'static str,
    pub caveats: [&'static str; 2],
}

impl Comparison {
    /// Whether this is the comparison that `q` asked for.
    pub open spec fn answers(
        self,
        q: ValidatedQuery,
        experiment: Option<ComparedExperiment>,
        a: ArmMetrics,
        b: ArmMetrics,
    ) -> bool {
        &&& self.dimension == q.dimension
        &&& self.key == q.key
        &&& self.window == q.window
        &&& self.start == q.start
        &&& self.end == q.end
        &&& self.experiment == experiment
        &&& self.a == a
        &&& self.b == b
        &&& self.delta == Deltas::between_spec(a, b)
        &&& self.coverage == (Coverage {
            a: CoverageArm { requests: a.requests, latency_samples: a.latency.samples },
            b: CoverageArm { requests: b.requests, latency_samples: b.latency.samples },
            incomplete_pairs: None,
        })
        &&& self.ttft_note@ == TTFT_NOTE@
        &&& self.caveats@[0]@ == if experiment is Some {
            CAVEAT_QUALITY_VARIANT@
        } else {
            CAVEAT_QUALITY@
        }
        &&& self.caveats@[1]@ == CAVEAT_STREAMING@
    }
}

/// Puts a comparison together.
pub fn compare(
    q: ValidatedQuery,
    experiment: Option<ComparedExperiment>,
    a: ArmMetrics,
    b: ArmMetrics,
) -> (r: Comparison)
    ensures
        r.answers(q, experiment, a, b),
{
    let delta = Deltas::between(&a, &b);
    let coverage = Coverage {
        a: CoverageArm { requests: a.requests, latency_samples: a.latency.samples },
        b: CoverageArm { requests: b.requests, latency_samples: b.latency.samples },
        incomplete_pairs: None,
    };
    let quality = if experiment.is_some() {
        CAVEAT_QUALITY_VARIANT
    } else {
        CAVEAT_QUALITY
    };
    Comparison {
        dimension: q.dimension,
        key: q.key,
        window: q.window,
        start: q.start,
        end: q.end,
        experiment,
        a,
        b,
        delta,
        coverage,
        ttft_note: TTFT_NOTE,
        caveats: [quality, CAVEAT_STREAMING],
    }
}

// ---------------------------------------------------------------------------
// The table
// ---------------------------------------------------------------------------

/// How a figure is written.
#[derive(Debug, Clone, Copy, PartialEq, Eq, Structural)]
pub enum Style {
    Money,
    PerRequest,
    Millis,
    Rate,
    Count,
}

/// One figure of the table.
#[derive(Debug, Clone, Copy, PartialEq, Eq, Structural)]
pub enum Cell {
    /// There is nothing to show.
    Dash,
    Shown(Style, Figure),
}

/// The change from A to B.
#[derive(Debug, Clone, Copy, PartialEq, Eq, Structural)]
pub enum DeltaCell {
    Dash,
    Shown(Style, Change),
}

/// One row of the metric table.
#[derive(Debug, Clone, Copy, PartialEq, Eq)]
pub struct MetricRow {
    pub label: &'static str,
    pub a: Cell,
    pub b: Cell,
    pub delta: DeltaCell,
}

pub struct MetricModel {
    pub label: Seq<char>,
    pub a: Cell,
    pub b: Cell,
    pub delta: DeltaCell,
}

impl View for MetricRow {
    type V = MetricModel;

    open spec fn view(&self) -> MetricModel {
        MetricModel { label: self.label@, a: self.a, b: self.b, delta: self.delta }
    }
}

pub open spec fn cell_of(style: Style, v: Option<Figure>) -> Cell {
    match v {
        Some(f) => Cell::Shown(style, f),
        None => Cell::Dash,
    }
}

pub open spec fn delta_of(style: Style, d: Option<Change>) -> DeltaCell {
    match d {
        Some(c) => DeltaCell::Shown(style, c),
        None => DeltaCell::Dash,
    }
}

pub open spec fn metric_row_of(
    label: Seq<char>,
    style: Style,
    a: Option<Figure>,
    b: Option<Figure>,
    delta: Option<Change>,
) -> MetricModel {
    MetricModel {
        label,
        a: cell_of(style, a),
        b: cell_of(style, b),
        delta: delta_of(style, delta),
    }
}

/// The metric table. What is meant per request comes first: it is what an
/// experiment is judged on. The totals come second: they mostly reflect how much
/// traffic each arm saw.
pub open spec fn metric_table(a: ArmMetrics, b: ArmMetrics, d: Deltas) -> Seq<MetricModel> {
    seq![
        metric_row_of(
            "Cost per request"@,
            Style::Money,
            a.cost_per_request,
            b.cost_per_request,
            d.cost_per_request,
        ),
        metric_row_of(
            "Tokens in per request"@,
            Style::PerRequest,
            a.tokens_in_per_request,
            b.tokens_in_per_request,
            d.tokens_in_per_request,
        ),
        metric_row_of(
            "Tokens out per request"@,
            Style::PerRequest,
            a.tokens_out_per_request,
            b.tokens_out_per_request,
            d.tokens_out_per_request,
        ),
        metric_row_of(
            "Mean latency"@,
            Style::Millis,
            measured_if(a.latency.mean_ms),
            measured_if(b.latency.mean_ms),
            d.mean_ms,
        ),
        metric_row_of(
            "p50 latency"@,
            Style::Millis,
            counted_if(a.latency.p50_ms),
            counted_if(b.latency.p50_ms),
            d.p50_ms,
        ),
        metric_row_of(
            "p95 latency"@,
            Style::Millis,
            counted_if(a.latency.p95_ms),
            counted_if(b.latency.p95_ms),
            d.p95_ms,
        ),
        metric_row_of("Cache hit rate"@, Style::Rate, Some(a.hit_rate), Some(b.hit_rate), d.hit_rate),
        metric_row_of("Error rate"@, Style::Rate, Some(a.error_rate), Some(b.error_rate), d.error_rate),
        metric_row_of("Requests"@, Style::Count, counted(a.requests), counted(b.requests), d.requests),
        metric_row_of(
            "Total cost"@,
            Style::Money,
            measured(a.cost_usd.bits),
            measured(b.cost_usd.bits),
            d.cost_usd,
        ),
        metric_row_of(
            "Saved by cache"@,
            Style::Money,
            measured(a.saved_usd.bits),
            measured(b.saved_usd.bits),
            None,
        ),
        metric_row_of(
            "Tokens in"@,
            Style::Count,
            counted(a.tokens_in),
            counted(b.tokens_in),
            d.tokens_in,
        ),
        metric_row_of(
            "Tokens out"@,
            Style::Count,
            counted(a.tokens_out),
            counted(b.tokens_out),
            d.tokens_out,
        ),
        metric_row_of("Cache hits"@, Style::Count, counted(a.cache_hits), counted(b.cache_hits), None),
        metric_row_of("Failures"@, Style::Count, counted(a.failures), counted(b.failures), None),
    ]
}

fn metric_row(
    label: &'static str,
    style: Style,
    a: Option<Figure>,
    b: Option<Figure>,
    delta: Option<Change>,
) -> (r: MetricRow)
    ensures
        r@ == metric_row_of(label@, style, a, b, delta),
{
    let delta = match delta {
        Some(c) => DeltaCell::Shown(style, c),
        None => DeltaCell::Dash,
    };
    MetricRow { label, a: make_cell(style, a), b: make_cell(style, b), delta }
}

fn make_cell(style: Style, v: Option<Figure>) -> (r: Cell)
    ensures
        r == cell_of(style, v),
{
    match v {
        Some(f) => Cell::Shown(style, f),
        None => Cell::Dash,
    }
}

pub open spec fn row_models(rows: Seq<MetricRow>) -> Seq<MetricModel> {
    Seq::new(rows.len(), |i: int| rows[i]@)
}

/// The rows of the metric table.
pub fn metric_rows(c: &Comparison) -> (r: Vec<MetricRow>)
    ensures
        row_models(r@) == metric_table(c.a, c.b, c.delta),
{
    let (a, b, d) = (&c.a, &c.b, &c.delta);
    let r = vec![
        metric_row(
            "Cost per request",
            Style::Money,
            a.cost_per_request,
            b.cost_per_request,
            d.cost_per_request,
        ),
        metric_row(
            "Tokens in per request",
            Style::PerRequest,
            a.tokens_in_per_request,
            b.tokens_in_per_request,
            d.tokens_in_per_request,
        ),
        metric_row(
            "Tokens out per request",
            Style::PerRequest,
            a.tokens_out_per_request,
            b.tokens_out_per_request,
            d.tokens_out_per_request,
        ),
        metric_row(
            "Mean latency",
            Style::Millis,
            real_figure_if(a.latency.mean_ms),
            real_figure_if(b.latency.mean_ms),
            d.mean_ms,
        ),
        metric_row(
            "p50 latency",
            Style::Millis,
            count_figure_if(a.latency.p50_ms),
            count_figure_if(b.latency.p50_ms),
            d.p50_ms,
        ),
        metric_row(
            "p95 latency",
            Style::Millis,
            count_figure_if(a.latency.p95_ms),
            count_figure_if(b.latency.p95_ms),
            d.p95_ms,
        ),
        metric_row("Cache hit rate", Style::Rate, Some(a.hit_rate), Some(b.hit_rate), d.hit_rate),
        metric_row("Error rate", Style::Rate, Some(a.error_rate), Some(b.error_rate), d.error_rate),
        metric_row(
            "Requests",
            Style::Count,
            count_figure(a.requests),
            count_figure(b.requests),
            d.requests,
        ),
        metric_row(
            "Total cost",
            Style::Money,
            real_figure(a.cost_usd.bits),
            real_figure(b.cost_usd.bits),
            d.cost_usd,
        ),
        metric_row(
            "Saved by cache",
            Style::Money,
            real_figure(a.saved_usd.bits),
            real_figure(b.saved_usd.bits),
            None,
        ),
        metric_row(
            "Tokens in",
            Style::Count,
            count_figure(a.tokens_in),
            count_figure(b.tokens_in),
            d.tokens_in,
        ),
        metric_row(
            "Tokens out",
            Style::Count,
            count_figure(a.tokens_out),
            count_figure(b.tokens_out),
            d.tokens_out,
        ),
        metric_row(
            "Cache hits",
            Style::Count,
            count_figure(a.cache_hits),
            count_figure(b.cache_hits),
            None,
        ),
        metric_row("Failures", Style::Count, count_figure(a.failures), count_figure(b.failures), None),
    ];
    assert(row_models(r@) =~= metric_table(c.a, c.b, c.delta));
    r
}

/// How a change is written: its amount with a `+` where it is an increase (a
/// decrease carries its own sign), and the percentage where there is one.
pub open spec fn delta_line(rises: bool, amount: Seq<char>, percent: Option<Seq<char>>) -> Seq<char> {
    let sign = if rises {
        "+"@
    } else {
        ""@
    };
    match percent {
        Some(p) => sign + amount + " ("@ + sign + p + "%)"@,
        None => sign + amount,
    }
}

pub fn delta_text(rises: bool, amount: &str, percent: &Option<String>) -> (r: String)
    ensures
        r@ == delta_line(rises, amount@, opt_text(*percent)),
{
    let sign = if rises {
        "+"
    } else {
        ""
    };
    let head = sign.to_owned().concat(amount);
    match percent {
        Some(p) => head.concat(" (").concat(sign).concat(p.as_str()).concat("%)"),
        None => head,
    }
}

// ---------------------------------------------------------------------------
// The charts
// ---------------------------------------------------------------------------

/// The quotients of an arm, taken: bits of doubles.
#[derive(Debug, Clone, Copy, PartialEq, Eq)]
pub struct Quotients {
    pub cost_per_request: Option<u64>,
    pub tokens_in_per_request: Option<u64>,
    pub tokens_out_per_request: Option<u64>,
}

pub open spec fn real_member(bits: Option<u64>) -> JsonModel {
    match bits {
        Some(b) => real_or_null(b),
        None => JsonModel::Null,
    }
}

pub open spec fn count_member(n: Option<i64>) -> JsonModel {
    match n {
        Some(n) => JsonModel::Int(n as int),
        None => JsonModel::Null,
    }
}

fn json_real_if(bits: Option<u64>) -> (r: Json)
    ensures
        r.model() == real_member(bits),
        r.wf(),
{
    match bits {
        Some(b) => json_real(b),
        None => Json::Null,
    }
}

fn json_int_if(n: Option<i64>) -> (r: Json)
    ensures
        r.model() == count_member(n),
        r.wf(),
{
    match n {
        Some(n) => json_int(n),
        None => Json::Null,
    }
}

/// An arm in the chart of what a request costs.
pub open spec fn bars_of(m: ArmMetrics, q: Quotients) -> JsonModel {
    let o = with_entry(Seq::empty(), "label"@, JsonModel::Str(m.value@));
    let o = with_entry(o, "requests"@, JsonModel::Int(m.requests as int));
    let o = with_entry(o, "cost_per_request"@, real_member(q.cost_per_request));
    let o = with_entry(o, "tokens_in_per_request"@, real_member(q.tokens_in_per_request));
    let o = with_entry(o, "tokens_out_per_request"@, real_member(q.tokens_out_per_request));
    JsonModel::Obj(with_entry(o, "mean_ms"@, real_member(m.latency.mean_ms)))
}

fn bars(m: &ArmMetrics, q: &Quotients) -> (r: Json)
    ensures
        r.model() == bars_of(*m, *q),
        r.wf(),
{
    Json::object().with("label", Json::Str(m.value.clone())).with(
        "requests",
        json_int(m.requests),
    ).with("cost_per_request", json_real_if(q.cost_per_request)).with(
        "tokens_in_per_request",
        json_real_if(q.tokens_in_per_request),
    ).with("tokens_out_per_request", json_real_if(q.tokens_out_per_request)).with(
        "mean_ms",
        json_real_if(m.latency.mean_ms),
    )
}

pub open spec fn day_point(row: BreakdownRow) -> JsonModel {
    JsonModel::Obj(
        with_entry(
            with_entry(Seq::empty(), "day"@, JsonModel::Str(row.key@)),
            "cost_usd"@,
            real_or_null(row.totals.cost_usd.bits),
        ),
    )
}

pub open spec fn day_points(rows: Seq<BreakdownRow>) -> Seq<JsonModel> {
    Seq::new(rows.len(), |i: int| day_point(rows[i]))
}

/// An arm in the chart of what each day cost.
pub open spec fn daily_of(m: ArmMetrics) -> JsonModel {
    let o = with_entry(Seq::empty(), "label"@, JsonModel::Str(m.value@));
    let o = with_entry(o, "requests"@, JsonModel::Int(m.requests as int));
    JsonModel::Obj(with_entry(o, "series"@, JsonModel::Arr(day_points(m.by_day@))))
}

fn series(rows: &Vec<BreakdownRow>) -> (r: Json)
    ensures
        r.model() == JsonModel::Arr(day_points(rows@)),
        r.wf(),
{
    let mut out: Vec<Json> = Vec::new();
    let mut i: usize = 0;
    while i < rows.len()
        invariant
            i <= rows@.len(),
            out@.len() == i,
            forall|k: int|
                0 <= k < i ==> (#[trigger] out@[k]).model() == day_point(rows@[k]) && out@[k].wf(),
        decreases rows@.len() - i,
    {
        out.push(
            Json::object().with("day", Json::Str(rows[i].key.clone())).with(
                "cost_usd",
                json_real(rows[i].totals.cost_usd.bits),
            ),
        );
        i += 1;
    }
    proof {
        Json::lemma_array_wf(out);
        assert(list_models(out@) =~= day_points(rows@));
    }
    Json::Arr(out)
}

fn daily(m: &ArmMetrics) -> (r: Json)
    ensures
        r.model() == daily_of(*m),
        r.wf(),
{
    Json::object().with("label", Json::Str(m.value.clone())).with(
        "requests",
        json_int(m.requests),
    ).with("series", series(&m.by_day))
}

/// An arm in the chart of latencies.
pub open spec fn latency_of(m: ArmMetrics) -> JsonModel {
    let o = with_entry(Seq::empty(), "label"@, JsonModel::Str(m.value@));
    let o = with_entry(o, "samples"@, JsonModel::Int(m.latency.samples as int));
    let o = with_entry(o, "p50_ms"@, count_member(m.latency.p50_ms));
    JsonModel::Obj(with_entry(o, "p95_ms"@, count_member(m.latency.p95_ms)))
}

fn latency(m: &ArmMetrics) -> (r: Json)
    ensures
        r.model() == latency_of(*m),
        r.wf(),
{
    Json::object().with("label", Json::Str(m.value.clone())).with(
        "samples",
        json_int(m.latency.samples),
    ).with("p50_ms", json_int_if(m.latency.p50_ms)).with("p95_ms", json_int_if(m.latency.p95_ms))
}

/// The two arms of a chart.
pub open spec fn both_arms(a: JsonModel, b: JsonModel) -> JsonModel {
    JsonModel::Obj(with_entry(with_entry(Seq::empty(), "a"@, a), "b"@, b))
}

fn chart(a: Json, b: Json) -> (r: String)
    requires
        a.wf(),
        b.wf(),
    ensures
        r@ == text_of_json(both_arms(a.model(), b.model())),
{
    Json::object().with("a", a).with("b", b).to_text()
}

/// The documents of the three charts: cost and tokens, cost by day, latency.
/// The legend shows the value that was picked; the table carries the full label.
pub fn chart_json(c: &Comparison, a: &Quotients, b: &Quotients) -> (r: (String, String, String))
    ensures
        r.0@ == text_of_json(both_arms(bars_of(c.a, *a), bars_of(c.b, *b))),
        r.1@ == text_of_json(both_arms(daily_of(c.a), daily_of(c.b))),
        r.2@ == text_of_json(both_arms(latency_of(c.a), latency_of(c.b))),
{
    (
        chart(bars(&c.a, a), bars(&c.b, b)),
        chart(daily(&c.a), daily(&c.b)),
        chart(latency(&c.a), latency(&c.b)),
    )
}

// ---------------------------------------------------------------------------
// The page
// ---------------------------------------------------------------------------

/// What the page was asked to show as chosen. All of it may be absent.
#[derive(Debug, Clone, PartialEq, Eq)]
pub struct ComparePageQuery {
    pub dimension: String,
    pub key: String,
    pub a: String,
    pub b: String,
    pub window: String,
}

impl ComparePageQuery {
    /// The dimension that is shown as chosen.
    pub fn chosen_dimension(&self) -> (r: &str)
        ensures
            r@ == if is_dimension(self.dimension@) {
                self.dimension@
            } else {
                "model"@
            },
    {
        if known_dimension(self.dimension.as_str()) {
            self.dimension.as_str()
        } else {
            "model"
        }
    }

    /// The window that is shown as chosen.
    pub fn chosen_window(&self) -> (r: &str)
        ensures
            r@ == if is_window(self.window@) {
                self.window@
            } else {
                "all"@
            },
    {
        if known_window(self.window.as_str()) {
            self.window.as_str()
        } else {
            "all"
        }
    }

    /// The tag key that is shown as chosen: only one that the ledger holds.
    pub fn chosen_tag_key(&self, keys: &Vec<String>) -> (r: Option<String>)
        ensures
            opt_text(r) == if texts(keys@).contains(trimmed(self.key@)) {
                Some(trimmed(self.key@))
            } else {
                None
            },
    {
        let chosen = trim(self.key.as_str());
        if holds_text(keys, chosen) {
            Some(chosen.to_owned())
        } else {
            None
        }
    }

    /// The experiment that is shown as chosen, by its place in the list.
    pub fn chosen_experiment(&self, all: &Vec<Experiment>) -> (r: Option<usize>)
        ensures
            match r {
                Some(i) => 0 <= i < all@.len() && crate::text::i64_of_text(trimmed(self.key@))
                    == Some(all@[i as int].id) && forall|j: int|
                    i < j < all@.len() ==> (#[trigger] all@[j]).id != all@[i as int].id,
                None => forall|j: int|
                    0 <= j < all@.len() ==> crate::text::i64_of_text(trimmed(self.key@)) != Some(
                        (#[trigger] all@[j]).id,
                    ),
            },
    {
        let chosen: i64 = match parse_i64(trim(self.key.as_str())) {
            Some(id) => id,
            None => {
                return None;
            },
        };
        let mut i: usize = all.len();
        while i > 0
            invariant
                i <= all@.len(),
                crate::text::i64_of_text(trimmed(self.key@)) == Some(chosen),
                forall|j: int| i <= j < all@.len() ==> (#[trigger] all@[j]).id != chosen,
            decreases i,
        {
            i -= 1;
            if all[i].id == chosen {
                return Some(i);
            }
        }
        None
    }
}

/// The labels of an experiment, as the arms to choose from.
pub fn labels(exp: &Experiment) -> (r: Vec<String>)
    ensures
        texts(r@) == Seq::new(exp.variants@.len(), |i: int| exp.variants@[i].0@),
{
    let mut out: Vec<String> = Vec::new();
    let mut i: usize = 0;
    while i < exp.variants.len()
        invariant
            i <= exp.variants@.len(),
            out@.len() == i,
            forall|k: int| 0 <= k < i ==> (#[trigger] out@[k])@ == exp.variants@[k].0@,
        decreases exp.variants@.len() - i,
    {
        out.push(exp.variants[i].0.clone());
        i += 1;
    }
    assert(texts(out@) =~= Seq::new(exp.variants@.len(), |i: int| exp.variants@[i].0@));
    out
}

/// The caveat that the page shows for a dimension.
pub fn page_caveat(dimension: &str) -> (r: &'static str)
    ensures
        r@ == if dimension@ == "variant"@ {
            CAVEAT_QUALITY_VARIANT@
        } else {
            CAVEAT_QUALITY@
        },
{
    if same(dimension, "variant") {
        CAVEAT_QUALITY_VARIANT
    } else {
        CAVEAT_QUALITY
    }
}

/// One entry of the experiment picker.
#[derive(Debug, Clone, PartialEq, Eq)]
pub struct ExperimentOption {
    /// The id as the form submits it.
    pub id: String,
    /// The name, with closed experiments marked.
    pub text: String,
}

impl ExperimentOption {
    pub fn from_experiment(exp: &Experiment) -> (r: ExperimentOption)
        ensures
            r.id@ == int_text(exp.id as int),
            r.text@ == match exp.status {
                ExperimentStatus::Active => exp.name@,
                ExperimentStatus::Closed => exp.name@ + " (closed)"@,
            },
    {
        let text = match exp.status {
            ExperimentStatus::Active => exp.name.clone(),
            ExperimentStatus::Closed => exp.name.clone().concat(" (closed)"),
        };
        ExperimentOption { id: i64_text(exp.id), text }
    }
}

/// What stands in the place of the panels where there is nothing to compare.
#[derive(Debug, Clone, PartialEq, Eq)]
pub struct PanelMessage {
    pub message: String,
    /// Whether it is advice rather than an error.
    pub hint: bool,
}

/// The advice where an arm is still to be chosen.
pub fn panel_hint(q: &CompareQuery) -> (r: Option<PanelMessage>)
    ensures
        r is Some <==> trimmed(q.a@).len() == 0 || trimmed(q.b@).len() == 0,
        r matches Some(m) ==> m.hint && m.message@ == "Choose two arms to compare."@,
{
    if trim(q.a.as_str()).is_empty() || trim(q.b.as_str()).is_empty() {
        Some(PanelMessage { message: "Choose two arms to compare.".to_owned(), hint: true })
    } else {
        None
    }
}

/// What a failed comparison shows: a question at fault is explained in the place
/// of the panels, for the pickers are still on screen; anything else is an error
/// page.
pub fn panel_error(e: CompareError) -> (r: Result<PanelMessage, DashboardError>)
    ensures
        match e {
            CompareError::Invalid(m) => r == Ok::<PanelMessage, DashboardError>(
                PanelMessage { message: m, hint: false },
            ),
            CompareError::Db(_) => r == Err::<PanelMessage, DashboardError>(
                DashboardError::Internal,
            ),
        },
{
    match e {
        CompareError::Invalid(m) => Ok(PanelMessage { message: m, hint: false }),
        e => Err(e.into_dashboard_error()),
    }
}

// ---------------------------------------------------------------------------
// Laws
// ---------------------------------------------------------------------------

/// Only two different arms of a known dimension are ever compared.
pub proof fn compared_arms_differ(q: CompareQuery, secs: i64, v: ValidatedModel)
    requires
        validated(q, secs) == Ok::<ValidatedModel, Refusal>(v),
    ensures
        v.arm_a != v.arm_b,
        v.a.len() > 0 && v.b.len() > 0,
        is_dimension(v.dimension) && is_window(v.window),
        v.experiment_id is Some <==> v.dimension == "variant"@,
{
    reveal_strlit("tag");
    reveal_strlit("variant");
    assert("tag"@.len() != "variant"@.len());
}

/// The refusals of a question.
pub open spec fn fixed_refusal(m: Seq<char>) -> bool {
    ||| m == BAD_DIMENSION@
    ||| m == BAD_WINDOW@
    ||| m == NO_TAG_KEY@
    ||| m == UNSAFE_TAG_KEY@
    ||| m == BAD_EXPERIMENT_ID@
    ||| m == "a is required"@
    ||| m == "b is required"@
    ||| m == "a and b must differ"@
    ||| m == "a"@ + BAD_LABEL@
    ||| m == "b"@ + BAD_LABEL@
}

/// A refused question is never echoed: the refusal is one of a fixed list.
pub proof fn refusals_echo_nothing(q: CompareQuery, secs: i64, m: Seq<char>)
    requires
        validated(q, secs) == Err::<ValidatedModel, Refusal>(Refusal::Invalid(m)),
    ensures
        fixed_refusal(m),
{
}

/// Swapping the arms of a question swaps them in what is compared, and changes
/// nothing else.
pub proof fn arms_can_be_swapped(q: CompareQuery, swapped: CompareQuery, secs: i64, v: ValidatedModel)
    requires
        validated(q, secs) == Ok::<ValidatedModel, Refusal>(v),
        swapped == (CompareQuery { a: q.b, b: q.a, ..q }),
    ensures
        validated(swapped, secs) == Ok::<ValidatedModel, Refusal>(
            (ValidatedModel { a: v.b, b: v.a, arm_a: v.arm_b, arm_b: v.arm_a, ..v }),
        ),
{
}

/// Every change goes from arm A's figure to arm B's, metric by metric; there is none where
/// either arm has no figure.
pub proof fn changes_go_from_a_to_b(a: ArmMetrics, b: ArmMetrics, d: Deltas)
    requires
        d == Deltas::between_spec(a, b),
    ensures
        d.requests == Some(
            Change {
                from: Figure::Plain(Amount::Count(a.requests)),
                to: Figure::Plain(Amount::Count(b.requests)),
            },
        ),
        d.cost_usd == Some(
            Change {
                from: Figure::Plain(Amount::Real(a.cost_usd.bits)),
                to: Figure::Plain(Amount::Real(b.cost_usd.bits)),
            },
        ),
        d.tokens_in == Some(
            Change {
                from: Figure::Plain(Amount::Count(a.tokens_in)),
                to: Figure::Plain(Amount::Count(b.tokens_in)),
            },
        ),
        d.tokens_out == Some(
            Change {
                from: Figure::Plain(Amount::Count(a.tokens_out)),
                to: Figure::Plain(Amount::Count(b.tokens_out)),
            },
        ),
        d.hit_rate == Some(Change { from: a.hit_rate, to: b.hit_rate }),
        d.error_rate == Some(Change { from: a.error_rate, to: b.error_rate }),
        a.cost_per_request is Some && b.cost_per_request is Some ==> d.cost_per_request == Some(
            Change { from: a.cost_per_request->0, to: b.cost_per_request->0 },
        ),
        a.cost_per_request is None || b.cost_per_request is None ==> d.cost_per_request is None,
        a.tokens_in_per_request is Some && b.tokens_in_per_request is Some ==> d.tokens_in_per_request == Some(
            Change { from: a.tokens_in_per_request->0, to: b.tokens_in_per_request->0 },
        ),
        a.tokens_in_per_request is None || b.tokens_in_per_request is None ==> d.tokens_in_per_request is None,
        a.tokens_out_per_request is Some && b.tokens_out_per_request is Some ==> d.tokens_out_per_request == Some(
            Change { from: a.tokens_out_per_request->0, to: b.tokens_out_per_request->0 },
        ),
        a.tokens_out_per_request is None || b.tokens_out_per_request is None ==> d.tokens_out_per_request is None,
        a.latency.mean_ms is Some && b.latency.mean_ms is Some ==> d.mean_ms == Some(
            Change {
                from: Figure::Plain(Amount::Real(a.latency.mean_ms->0)),
                to: Figure::Plain(Amount::Real(b.latency.mean_ms->0)),
            },
        ),
        a.latency.mean_ms is None || b.latency.mean_ms is None ==> d.mean_ms is None,
        a.latency.p50_ms is Some && b.latency.p50_ms is Some ==> d.p50_ms == Some(
            Change {
                from: Figure::Plain(Amount::Count(a.latency.p50_ms->0)),
                to: Figure::Plain(Amount::Count(b.latency.p50_ms->0)),
            },
        ),
        a.latency.p50_ms is None || b.latency.p50_ms is None ==> d.p50_ms is None,
        a.latency.p95_ms is Some && b.latency.p95_ms is Some ==> d.p95_ms == Some(
            Change {
                from: Figure::Plain(Amount::Count(a.latency.p95_ms->0)),
                to: Figure::Plain(Amount::Count(b.latency.p95_ms->0)),
            },
        ),
        a.latency.p95_ms is None || b.latency.p95_ms is None ==> d.p95_ms is None,
{
}

/// The figures of an arm are those of its own rows: a cost or count for each request is the
/// total divided by the requests, the error rate is the failures among all attempts, and the
/// models without a price are named in the order in which they were met.
pub proof fn figures_are_those_of_the_arm(m: ArmMetrics, value: Seq<char>, f: ArmFacts)
    requires
        m.measures(value, f),
    ensures
        m.value@ == value && m.label@ == f.label@,
        m.requests == f.totals.requests && m.failures == f.failures,
        m.cost_usd == f.totals.cost_usd && m.saved_usd == f.totals.saved_usd,
        m.tokens_in == f.totals.tokens_in && m.tokens_out == f.totals.tokens_out,
        m.cache_hits == f.totals.cache_hits,
        m.hit_rate == Figure::Plain(Amount::Real(f.totals.hit_rate)),
        m.latency == f.latency && m.by_day@ == f.by_day@,
        f.totals.requests != 0 ==> m.cost_per_request == Some(
            Figure::Quotient(Amount::Real(f.totals.cost_usd.bits), f.totals.requests),
        ) && m.tokens_in_per_request == Some(
            Figure::Quotient(Amount::Count(f.totals.tokens_in), f.totals.requests),
        ) && m.tokens_out_per_request == Some(
            Figure::Quotient(Amount::Count(f.totals.tokens_out), f.totals.requests),
        ),
        f.totals.requests == 0 ==> m.cost_per_request is None && m.tokens_in_per_request is None
            && m.tokens_out_per_request is None,
        f.totals.requests + f.failures != 0 && i64::MIN <= f.totals.requests + f.failures <= i64::MAX ==> (
        m.error_rate matches Figure::Quotient(Amount::Count(n), of) && n == f.failures && of
            == f.totals.requests + f.failures),
        f.totals.requests + f.failures == 0 ==> m.error_rate == Figure::Plain(Amount::Real(0)),
        selects(
            texts(m.unpriced_models@),
            f.by_model@,
            |e: (String, bool)| !e.1,
            |e: (String, bool)| e.0@,
        ),
        m.unpriced <==> exists|i: int| 0 <= i < f.by_model@.len() && !(#[trigger] f.by_model@[i]).1,
{
    let models = f.by_model@;
    let keep = |e: (String, bool)| !e.1;
    let name = |e: (String, bool)| e.0@;
    lemma_unpriced_are_picked(models);
    lemma_picked_selects(models, keep, name, keep, name);
    let list = unpriced_in(models);
    let places = choose|places: Seq<int>| #[trigger] selects_at(list, models, keep, name, places);
    if list.len() > 0 {
        assert(!models[places[0]].1);
    } else {
        assert forall|i: int| 0 <= i < models.len() implies (#[trigger] models[i]).1 by {
            if !models[i].1 {
                assert(places.contains(i));
            }
        }
    }
}

proof fn lemma_unpriced_are_picked(models: Seq<(String, bool)>)
    ensures
        unpriced_in(models) == picked(
            models,
            |e: (String, bool)| !e.1,
            |e: (String, bool)| e.0@,
        ),
    decreases models.len(),
{
    if models.len() > 0 {
        lemma_unpriced_are_picked(models.drop_last());
    }
}

/// Every row of the table shows, under its own label, arm A's figure, arm B's figure and the
/// change between them; a figure that is not there is a dash.
pub proof fn the_table_shows_each_arm_in_its_column(a: ArmMetrics, b: ArmMetrics, d: Deltas, t: Seq<MetricModel>)
    requires
        t == metric_table(a, b, d),
    ensures
        t.len() == 15,
        t[0].label == "Cost per request"@,
        t[0].a == match a.cost_per_request {
            Some(f) => Cell::Shown(Style::Money, f),
            None => Cell::Dash,
        },
        t[0].b == match b.cost_per_request {
            Some(f) => Cell::Shown(Style::Money, f),
            None => Cell::Dash,
        },
        t[0].delta == match d.cost_per_request {
            Some(c) => DeltaCell::Shown(Style::Money, c),
            None => DeltaCell::Dash,
        },
        t[1].label == "Tokens in per request"@,
        t[1].a == match a.tokens_in_per_request {
            Some(f) => Cell::Shown(Style::PerRequest, f),
            None => Cell::Dash,
        },
        t[1].b == match b.tokens_in_per_request {
            Some(f) => Cell::Shown(Style::PerRequest, f),
            None => Cell::Dash,
        },
        t[1].delta == match d.tokens_in_per_request {
            Some(c) => DeltaCell::Shown(Style::PerRequest, c),
            None => DeltaCell::Dash,
        },
        t[2].label == "Tokens out per request"@,
        t[2].a == match a.tokens_out_per_request {
            Some(f) => Cell::Shown(Style::PerRequest, f),
            None => Cell::Dash,
        },
        t[2].b == match b.tokens_out_per_request {
            Some(f) => Cell::Shown(Style::PerRequest, f),
            None => Cell::Dash,
        },
        t[2].delta == match d.tokens_out_per_request {
            Some(c) => DeltaCell::Shown(Style::PerRequest, c),
            None => DeltaCell::Dash,
        },
        t[3].label == "Mean latency"@,
        t[3].a == match a.latency.mean_ms {
            Some(n) => Cell::Shown(Style::Millis, Figure::Plain(Amount::Real(n))),
            None => Cell::Dash,
        },
        t[3].b == match b.latency.mean_ms {
            Some(n) => Cell::Shown(Style::Millis, Figure::Plain(Amount::Real(n))),
            None => Cell::Dash,
        },
        t[3].delta == match d.mean_ms {
            Some(c) => DeltaCell::Shown(Style::Millis, c),
            None => DeltaCell::Dash,
        },
        t[4].label == "p50 latency"@,
        t[4].a == match a.latency.p50_ms {
            Some(n) => Cell::Shown(Style::Millis, Figure::Plain(Amount::Count(n))),
            None => Cell::Dash,
        },
        t[4].b == match b.latency.p50_ms {
            Some(n) => Cell::Shown(Style::Millis, Figure::Plain(Amount::Count(n))),
            None => Cell::Dash,
        },
        t[4].delta == match d.p50_ms {
            Some(c) => DeltaCell::Shown(Style::Millis, c),
            None => DeltaCell::Dash,
        },
        t[5].label == "p95 latency"@,
        t[5].a == match a.latency.p95_ms {
            Some(n) => Cell::Shown(Style::Millis, Figure::Plain(Amount::Count(n))),
            None => Cell::Dash,
        },
        t[5].b == match b.latency.p95_ms {
            Some(n) => Cell::Shown(Style::Millis, Figure::Plain(Amount::Count(n))),
            None => Cell::Dash,
        },
        t[5].delta == match d.p95_ms {
            Some(c) => DeltaCell::Shown(Style::Millis, c),
            None => DeltaCell::Dash,
        },
        t[6].label == "Cache hit rate"@,
        t[6].a == Cell::Shown(Style::Rate, a.hit_rate),
        t[6].b == Cell::Shown(Style::Rate, b.hit_rate),
        t[6].delta == match d.hit_rate {
            Some(c) => DeltaCell::Shown(Style::Rate, c),
            None => DeltaCell::Dash,
        },
        t[7].label == "Error rate"@,
        t[7].a == Cell::Shown(Style::Rate, a.error_rate),
        t[7].b == Cell::Shown(Style::Rate, b.error_rate),
        t[7].delta == match d.error_rate {
            Some(c) => DeltaCell::Shown(Style::Rate, c),
            None => DeltaCell::Dash,
        },
        t[8].label == "Requests"@,
        t[8].a == Cell::Shown(Style::Count, Figure::Plain(Amount::Count(a.requests))),
        t[8].b == Cell::Shown(Style::Count, Figure::Plain(Amount::Count(b.requests))),
        t[8].delta == match d.requests {
            Some(c) => DeltaCell::Shown(Style::Count, c),
            None => DeltaCell::Dash,
        },
        t[9].label == "Total cost"@,
        t[9].a == Cell::Shown(Style::Money, Figure::Plain(Amount::Real(a.cost_usd.bits))),
        t[9].b == Cell::Shown(Style::Money, Figure::Plain(Amount::Real(b.cost_usd.bits))),
        t[9].delta == match d.cost_usd {
            Some(c) => DeltaCell::Shown(Style::Money, c),
            None => DeltaCell::Dash,
        },
        t[10].label == "Saved by cache"@,
        t[10].a == Cell::Shown(Style::Money, Figure::Plain(Amount::Real(a.saved_usd.bits))),
        t[10].b == Cell::Shown(Style::Money, Figure::Plain(Amount::Real(b.saved_usd.bits))),
        t[10].delta == DeltaCell::Dash,
        t[11].label == "Tokens in"@,
        t[11].a == Cell::Shown(Style::Count, Figure::Plain(Amount::Count(a.tokens_in))),
        t[11].b == Cell::Shown(Style::Count, Figure::Plain(Amount::Count(b.tokens_in))),
        t[11].delta == match d.tokens_in {
            Some(c) => DeltaCell::Shown(Style::Count, c),
            None => DeltaCell::Dash,
        },
        t[12].label == "Tokens out"@,
        t[12].a == Cell::Shown(Style::Count, Figure::Plain(Amount::Count(a.tokens_out))),
        t[12].b == Cell::Shown(Style::Count, Figure::Plain(Amount::Count(b.tokens_out))),
        t[12].delta == match d.tokens_out {
            Some(c) => DeltaCell::Shown(Style::Count, c),
            None => DeltaCell::Dash,
        },
        t[13].label == "Cache hits"@,
        t[13].a == Cell::Shown(Style::Count, Figure::Plain(Amount::Count(a.cache_hits))),
        t[13].b == Cell::Shown(Style::Count, Figure::Plain(Amount::Count(b.cache_hits))),
        t[13].delta == DeltaCell::Dash,
        t[14].label == "Failures"@,
        t[14].a == Cell::Shown(Style::Count, Figure::Plain(Amount::Count(a.failures))),
        t[14].b == Cell::Shown(Style::Count, Figure::Plain(Amount::Count(b.failures))),
        t[14].delta == DeltaCell::Dash,
{
}

/// The charts draw each arm under its own letter, with its own label and figures, and the
/// days in their order.
pub proof fn charts_draw_each_arm_as_itself(a: ArmMetrics, b: ArmMetrics, p: Quotients, q: Quotients)
    ensures
        both_arms(bars_of(a, p), bars_of(b, q)).at("a"@) == bars_of(a, p),
        both_arms(bars_of(a, p), bars_of(b, q)).at("b"@) == bars_of(b, q),
        bars_of(a, p).at("label"@) == JsonModel::Str(a.value@),
        bars_of(a, p).at("requests"@) == JsonModel::Int(a.requests as int),
        bars_of(a, p).at("cost_per_request"@) == match p.cost_per_request {
            Some(n) => real_or_null(n),
            None => JsonModel::Null,
        },
        bars_of(a, p).at("tokens_in_per_request"@) == match p.tokens_in_per_request {
            Some(n) => real_or_null(n),
            None => JsonModel::Null,
        },
        bars_of(a, p).at("tokens_out_per_request"@) == match p.tokens_out_per_request {
            Some(n) => real_or_null(n),
            None => JsonModel::Null,
        },
        bars_of(a, p).at("mean_ms"@) == match a.latency.mean_ms {
            Some(n) => real_or_null(n),
            None => JsonModel::Null,
        },
        daily_of(a).at("label"@) == JsonModel::Str(a.value@),
        daily_of(a).at("requests"@) == JsonModel::Int(a.requests as int),
        daily_of(a).at("series"@).items() matches Some(days) && days.len() == a.by_day@.len(),
        forall|i: int|
            0 <= i < a.by_day@.len() ==> {
                let day = #[trigger] daily_of(a).at("series"@).item(i);
                &&& day.at("day"@) == JsonModel::Str(a.by_day@[i].key@)
                &&& day.at("cost_usd"@) == real_or_null(a.by_day@[i].totals.cost_usd.bits)
            },
        latency_of(a).at("label"@) == JsonModel::Str(a.value@),
        latency_of(a).at("samples"@) == JsonModel::Int(a.latency.samples as int),
        latency_of(a).at("p50_ms"@) == match a.latency.p50_ms {
            Some(n) => JsonModel::Int(n as int),
            None => JsonModel::Null,
        },
        latency_of(a).at("p95_ms"@) == match a.latency.p95_ms {
            Some(n) => JsonModel::Int(n as int),
            None => JsonModel::Null,
        },
{
    broadcast use {
        crate::ordered::entries_are_found,
        crate::ordered::nothing_is_found_in_nothing,
    };

    reveal_strlit("a");
    reveal_strlit("b");
    reveal_strlit("label");
    reveal_strlit("requests");
    reveal_strlit("cost_per_request");
    reveal_strlit("tokens_in_per_request");
    reveal_strlit("tokens_out_per_request");
    reveal_strlit("mean_ms");
    reveal_strlit("series");
    reveal_strlit("day");
    reveal_strlit("cost_usd");
    reveal_strlit("samples");
    reveal_strlit("p50_ms");
    reveal_strlit("p95_ms");
    assert("a"@.len() == 1 && "a"@[0] == 'a');
    assert("b"@.len() == 1 && "b"@[0] == 'b');
    assert("label"@.len() == 5);
    assert("requests"@.len() == 8 && "requests"@[0] == 'r');
    assert("cost_per_request"@.len() == 16);
    assert("tokens_in_per_request"@.len() == 21);
    assert("tokens_out_per_request"@.len() == 22);
    assert("mean_ms"@.len() == 7 && "mean_ms"@[0] == 'm');
    assert("series"@.len() == 6 && "series"@[1] == 'e');
    assert("day"@.len() == 3);
    assert("cost_usd"@.len() == 8 && "cost_usd"@[0] == 'c');
    assert("samples"@.len() == 7 && "samples"@[0] == 's');
    assert("p50_ms"@.len() == 6 && "p50_ms"@[1] == '5');
    assert("p95_ms"@.len() == 6 && "p95_ms"@[1] == '9');
}

/// A comparison names the arms as they were asked for, and each filter asks for its own
/// value in the dimension that was chosen.
pub proof fn arms_ask_for_their_own_value(q: CompareQuery, secs: i64, v: ValidatedModel)
    requires
        validated(q, secs) == Ok::<ValidatedModel, Refusal>(v),
    ensures
        v.a == trimmed(q.a@) && v.b == trimmed(q.b@),
        v.dimension == trimmed(q.dimension@) && v.window == trimmed(q.window@),
        window_bounds(v.window, secs) == Some((v.start, v.end)),
        v.dimension == "model"@ ==> v.arm_a == ArmFilterModel::Model(v.a) && v.arm_b
            == ArmFilterModel::Model(v.b),
        v.dimension == "provider"@ ==> v.arm_a == ArmFilterModel::Provider(v.a) && v.arm_b
            == ArmFilterModel::Provider(v.b),
        v.dimension == "run"@ ==> v.arm_a == ArmFilterModel::Attribution(
            AttributionFilterModel::CorrelationId(v.a),
        ) && v.arm_b == ArmFilterModel::Attribution(AttributionFilterModel::CorrelationId(v.b)),
        v.dimension == "tag"@ ==> v.arm_a == ArmFilterModel::Attribution(
            AttributionFilterModel::Tag { key: trimmed(q.key@), value: v.a },
        ) && v.arm_b == ArmFilterModel::Attribution(
            AttributionFilterModel::Tag { key: trimmed(q.key@), value: v.b },
        ),
        v.dimension == "variant"@ ==> (positive_id(trimmed(q.key@)) matches Some(id) && v.experiment_id
            == Some(id) && v.arm_a == (ArmFilterModel::Variant { experiment_id: id, variant: v.a })
            && v.arm_b == (ArmFilterModel::Variant { experiment_id: id, variant: v.b })),
{
    reveal_strlit("model");
    reveal_strlit("provider");
    reveal_strlit("tag");
    reveal_strlit("run");
    reveal_strlit("variant");
    assert("model"@.len() == 5);
    assert("provider"@.len() == 8);
    assert("tag"@.len() == 3 && "tag"@[0] == 't');
    assert("run"@.len() == 3 && "run"@[0] == 'r');
    assert("variant"@.len() == 7);
}

/// A rise is signed, a fall brings its own sign, and the percentage stands behind the amount
/// with the same sign.
pub proof fn changes_are_written_with_their_sign(amount: Seq<char>, percent: Seq<char>)
    ensures
        delta_line(true, amount, Some(percent)) == "+"@ + amount + " (+"@ + percent + "%)"@,
        delta_line(false, amount, Some(percent)) == amount + " ("@ + percent + "%)"@,
        delta_line(true, amount, None) == "+"@ + amount,
        delta_line(false, amount, None) == amount,
{
    reveal_strlit("+");
    reveal_strlit("");
    reveal_strlit(" (");
    reveal_strlit(" (+");
    reveal_strlit("%)");
    assert(delta_line(true, amount, Some(percent)) =~= "+"@ + amount + " (+"@ + percent + "%)"@);
    assert(delta_line(false, amount, Some(percent)) =~= amount + " ("@ + percent + "%)"@);
    assert(delta_line(true, amount, None) =~= "+"@ + amount);
    assert(delta_line(false, amount, None) =~= amount);
}

/// A comparison of variants is refused unless the experiment exists and declares both.
pub proof fn only_declared_variants_are_compared(id: i64, a: Seq<char>, b: Seq<char>, found: Option<Experiment>)
    ensures
        experiment_refusal(id, a, b, found) is None <==> (found matches Some(exp) && (exists|i: int|
            0 <= i < exp.variants@.len() && (#[trigger] exp.variants@[i]).0@ == a) && (exists|i: int|
            0 <= i < exp.variants@.len() && (#[trigger] exp.variants@[i]).0@ == b)),
{
}

/// What is told of a compared experiment is its own: its name, its state and how long its
/// content is kept.
pub proof fn the_compared_experiment_is_told(e: ComparedExperiment, exp: Experiment)
    requires
        e.describes(exp),
    ensures
        e.id == exp.id && e.name@ == exp.name@ && e.status == exp.status,
        e.retain_content == exp.retain_content,
        e.content_retention_days == exp.content_retention_days,
        exp.retain_content && exp.content_retention_days == 0 ==> e.stored_content_note@
            == "Stored content: experiment "@ + exp.name@
            + " retains content, so the prompts and responses behind both arms are in the prompt log and "@
            + "are never purged"@ + "."@,
        exp.retain_content && exp.content_retention_days != 0 ==> e.stored_content_note@
            == "Stored content: experiment "@ + exp.name@
            + " retains content, so the prompts and responses behind both arms are in the prompt log and "@
            + ("are purged "@ + int_text(exp.content_retention_days as int)
            + " days after the experiment closes"@) + "."@,
        !exp.retain_content ==> e.stored_content_note@ == "Stored content: experiment "@ + exp.name@
            + " does not retain content; prompts and responses behind these arms are stored only as the global prompt log settings allow."@,
{
}

/// A comparison shows both arms as they were measured, says how much each rests on, and
/// warns of what it cannot show.
pub proof fn comparisons_show_both_arms(
    c: Comparison,
    q: ValidatedQuery,
    experiment: Option<ComparedExperiment>,
    a: ArmMetrics,
    b: ArmMetrics,
)
    requires
        c.answers(q, experiment, a, b),
    ensures
        c.a == a && c.b == b && c.experiment == experiment,
        c.coverage.a.requests == a.requests && c.coverage.b.requests == b.requests,
        c.coverage.a.latency_samples == a.latency.samples,
        c.coverage.b.latency_samples == b.latency.samples,
        c.delta.requests == Some(
            Change {
                from: Figure::Plain(Amount::Count(a.requests)),
                to: Figure::Plain(Amount::Count(b.requests)),
            },
        ),
        c.delta.cost_usd == Some(
            Change {
                from: Figure::Plain(Amount::Real(a.cost_usd.bits)),
                to: Figure::Plain(Amount::Real(b.cost_usd.bits)),
            },
        ),
        c.dimension@ == q.dimension@ && c.window@ == q.window@ && c.start@ == q.start@ && c.end@ == q.end@,
        experiment is None ==> c.caveats@[0]@ == CAVEAT_QUALITY@,
        experiment is Some ==> c.caveats@[0]@ == CAVEAT_QUALITY_VARIANT@,
{
}

/// A question that was accepted is shown part by part.
pub proof fn questions_show_their_parts(q: ValidatedQuery)
    ensures
        q@.dimension == q.dimension@,
        q@.key == opt_text(q.key),
        q@.experiment_id == q.experiment_id,
        q@.a == q.a@,
        q@.b == q.b@,
        q@.arm_a == q.arm_a@,
        q@.arm_b == q.arm_b@,
        q@.window == q.window@,
        q@.start == q.start@,
        q@.end == q.end@,
{
}

/// The rows of the table are shown part by part, in their order; an arm is shown as what it
/// asks for.
pub proof fn rows_and_arms_show_their_parts(rows: Seq<MetricRow>, i: int, v: String, id: i64, f: AttributionFilter)
    ensures
        row_models(rows).len() == rows.len(),
        0 <= i < rows.len() ==> row_models(rows)[i].label == rows[i].label@ && row_models(rows)[i].a
            == rows[i].a && row_models(rows)[i].b == rows[i].b && row_models(rows)[i].delta == rows[i].delta,
        ArmFilter::Model(v)@ == ArmFilterModel::Model(v@),
        ArmFilter::Provider(v)@ == ArmFilterModel::Provider(v@),
        ArmFilter::Attribution(f)@ == ArmFilterModel::Attribution(f@),
        (ArmFilter::Variant { experiment_id: id, variant: v })@ == (ArmFilterModel::Variant {
            experiment_id: id,
            variant: v@,
        }),
{
}

/// A question is refused where the dimension or window is not known, an arm is not named,
/// both are the same, or the key does not fit the dimension; the arm at fault is named.
pub proof fn questions_are_refused_for_a_reason(q: CompareQuery, secs: i64, key: Seq<char>, a: Seq<char>, b: Seq<char>, id: i64)
    ensures
        !is_dimension(trimmed(q.dimension@)) ==> validated(q, secs) is Err,
        is_dimension(trimmed(q.dimension@)) && trimmed(q.a@).len() == 0 ==> validated(q, secs) == Err::<
            ValidatedModel,
            Refusal,
        >(Refusal::Invalid("a is required"@)),
        is_dimension(trimmed(q.dimension@)) && trimmed(q.a@).len() > 0 && trimmed(q.b@).len() == 0
            ==> validated(q, secs) == Err::<ValidatedModel, Refusal>(Refusal::Invalid("b is required"@)),
        !is_window(trimmed(q.window@)) ==> validated(q, secs) is Err,
        checked_key("tag"@, key, a, b) == Ok::<(Option<Seq<char>>, Option<i64>), Seq<char>>((Some(key), None))
            <==> safe_tag_key(key),
        checked_key("variant"@, key, a, b) == Ok::<(Option<Seq<char>>, Option<i64>), Seq<char>>(
            (Some(int_text(id as int)), Some(id)),
        ) <== positive_id(key) == Some(id) && valid_label(a) && valid_label(b),
        positive_id(key) is None ==> checked_key("variant"@, key, a, b) is Err,
        positive_id(key) is Some && !valid_label(a) ==> checked_key("variant"@, key, a, b) == Err::<
            (Option<Seq<char>>, Option<i64>),
            Seq<char>,
        >("a"@ + BAD_LABEL@),
        positive_id(key) is Some && valid_label(a) && !valid_label(b) ==> checked_key("variant"@, key, a, b)
            == Err::<(Option<Seq<char>>, Option<i64>), Seq<char>>("b"@ + BAD_LABEL@),
        checked_key("model"@, key, a, b) == Ok::<(Option<Seq<char>>, Option<i64>), Seq<char>>((None, None)),
        experiment_refusal(id, a, b, None) == Some(
            "key: experiment "@ + int_text(id as int) + " does not exist"@,
        ),
{
    reveal_strlit("tag");
    reveal_strlit("variant");
    reveal_strlit("model");
    assert("tag"@.len() == 3);
    assert("variant"@.len() == 7);
    assert("model"@.len() == 5);
}

} // verus!
