//! The record of requests that failed.
//!
//! Capture wraps a route's whole handler, so that no error return escapes it. It
//! never changes the answer.

use crate::api::attribution::{extracted, Attribution, AttributionModel};
use crate::api::error::ApiError;
use crate::api::routes::completions::{named_model, requested_model};
use crate::api::routes::usage::Call;
use crate::json::Json;
use crate::records::User;
use crate::text::{contains, contains_text, copy_text, lower_case, opt_text, to_lower_case};
use crate::text_map::map_text;
use axum::http::{HeaderMap, HeaderValue};
use vstd::prelude::*;

verus! {

/// Where a request died.
#[derive(Debug, Clone, Copy, PartialEq, Eq, Structural)]
pub enum FailureStage {
    /// What the caller sent.
    Request,
    Policy,
    /// The operator's configuration.
    Resolve,
    /// The upstream.
    Provider,
    Internal,
}

/// What the router knew about the request before it failed.
#[derive(Debug, PartialEq, Eq)]
pub struct FailureContext {
    pub endpoint: String,
    pub request_model: String,
    pub routed_model: Option<String>,
    pub provider: Option<String>,
    pub user_id: Option<i64>,
    pub api_key_id: Option<i64>,
    pub project: Option<String>,
    pub attribution_correlation_id: Option<String>,
    pub attribution_tags: String,
    pub latency_ms: Option<i64>,
    pub experiment_id: Option<i64>,
    pub experiment_variant: Option<String>,
}

/// The correlation id of an attribution, if there is a valid one.
pub open spec fn id_of(a: Result<AttributionModel, Seq<char>>) -> Option<Seq<char>> {
    match a {
        Ok(m) => m.correlation_id,
        Err(_) => None,
    }
}

/// The tags of an attribution as JSON text, `{}` where there is no valid one.
pub open spec fn tags_of(a: Result<AttributionModel, Seq<char>>) -> Seq<char> {
    match a {
        Ok(m) => map_text(m.tags),
        Err(_) => "{}"@,
    }
}

/// Gathers what is known of a request as it arrived. An invalid attribution is
/// itself a failure worth recording, and must not prevent the record.
pub fn context_from_request(
    endpoint: &str,
    user: &User,
    headers: &HeaderMap<HeaderValue>,
    body: &Json,
    default_model: &str,
    provider: String,
    routed_model: String,
) -> (r: FailureContext)
    requires
        body.wf(),
    ensures
        r.endpoint@ == endpoint@,
        r.request_model@ == named_model(body.model(), default_model@),
        r.routed_model == Some(routed_model),
        r.provider == Some(provider),
        r.user_id == Some(user.id),
        r.api_key_id == user.api_key_id,
        opt_text(r.project) == opt_text(user.api_key_project),
        opt_text(r.attribution_correlation_id) == id_of(extracted(body.model(), *headers)),
        r.attribution_tags@ == tags_of(extracted(body.model(), *headers)),
        r.latency_ms is None,
        r.experiment_id is None,
        r.experiment_variant is None,
{
    let (attribution_correlation_id, attribution_tags) = match Attribution::extract(body, headers) {
        Ok(a) => (copy_text(&a.correlation_id), a.tags_json()),
        Err(_) => (None, "{}".to_owned()),
    };
    FailureContext {
        endpoint: endpoint.to_owned(),
        request_model: requested_model(body, default_model),
        routed_model: Some(routed_model),
        provider: Some(provider),
        user_id: Some(user.id),
        api_key_id: user.api_key_id,
        project: copy_text(&user.api_key_project),
        attribution_correlation_id,
        attribution_tags,
        latency_ms: None,
        experiment_id: None,
        experiment_variant: None,
    }
}

impl FailureContext {
    /// The same, with the time that the request took.
    pub fn timed(self, latency_ms: i64) -> (r: FailureContext)
        ensures
            r == (FailureContext { latency_ms: Some(latency_ms), ..self }),
    {
        let mut ctx = self;
        ctx.latency_ms = Some(latency_ms);
        ctx
    }
}

/// What is known of a completion whose stream broke: all that it is charged with.
pub fn broken_stream(call: &Call) -> (r: FailureContext)
    ensures
        r.endpoint@ == "/v1/chat/completions"@,
        r.request_model@ == call.request_model@,
        opt_text(r.routed_model) == Some(call.model@),
        opt_text(r.provider) == Some(call.provider@),
        r.user_id == Some(call.payer.user_id),
        r.api_key_id == call.payer.api_key_id,
        opt_text(r.project) == opt_text(call.payer.project),
        opt_text(r.attribution_correlation_id) == opt_text(call.payer.correlation_id),
        r.attribution_tags@ == call.payer.tags@,
        r.latency_ms == call.latency_ms,
        r.experiment_id == call.payer.experiment_id,
        opt_text(r.experiment_variant) == opt_text(call.payer.experiment_variant),
{
    FailureContext {
        endpoint: "/v1/chat/completions".to_owned(),
        request_model: call.request_model.clone(),
        routed_model: Some(call.model.clone()),
        provider: Some(call.provider.clone()),
        user_id: Some(call.payer.user_id),
        api_key_id: call.payer.api_key_id,
        project: copy_text(&call.payer.project),
        attribution_correlation_id: copy_text(&call.payer.correlation_id),
        attribution_tags: call.payer.tags.clone(),
        latency_ms: call.latency_ms,
        experiment_id: call.payer.experiment_id,
        experiment_variant: copy_text(&call.payer.experiment_variant),
    }
}

/// Whether an upstream's words say that there was no one to call, which is the
/// operator's to mend.
pub open spec fn speaks_of_resolution(message: Seq<char>) -> bool {
    let m = lower_case(message);
    ||| contains_text(m, "unknown provider"@)
    ||| contains_text(m, "no embedding adapter for provider"@)
    ||| contains_text(m, "no adapter for provider"@)
}

/// Where a request died, by the error that it was answered with.
pub open spec fn stage_of(err: ApiError) -> FailureStage {
    match err {
        ApiError::PolicyDenied { .. } => FailureStage::Policy,
        ApiError::Unauthorized => FailureStage::Policy,
        ApiError::Forbidden => FailureStage::Policy,
        ApiError::Disabled(_) => FailureStage::Policy,
        ApiError::InvalidRequest(_) => FailureStage::Request,
        ApiError::ProviderError(msg) => if speaks_of_resolution(msg@) {
            FailureStage::Resolve
        } else {
            FailureStage::Provider
        },
        ApiError::Internal => FailureStage::Internal,
    }
}

pub fn stage_for(err: &ApiError) -> (r: FailureStage)
    ensures
        r == stage_of(*err),
{
    match err {
        ApiError::PolicyDenied { .. } => FailureStage::Policy,
        ApiError::Unauthorized => FailureStage::Policy,
        ApiError::Forbidden => FailureStage::Policy,
        ApiError::Disabled(_) => FailureStage::Policy,
        ApiError::InvalidRequest(_) => FailureStage::Request,
        ApiError::ProviderError(msg) => {
            let m = to_lower_case(msg.as_str());
            if contains(m.as_str(), "unknown provider") || contains(
                m.as_str(),
                "no embedding adapter for provider",
            ) || contains(m.as_str(), "no adapter for provider") {
                FailureStage::Resolve
            } else {
                FailureStage::Provider
            }
        },
        ApiError::Internal => FailureStage::Internal,
    }
}

/// The status that is recorded: a denial keeps its own.
pub open spec fn status_of(err: ApiError) -> i64 {
    match err {
        ApiError::Unauthorized => 401,
        ApiError::Forbidden => 403,
        ApiError::ProviderError(_) => 502,
        ApiError::InvalidRequest(_) => 400,
        ApiError::PolicyDenied { status, .. } => status as i64,
        ApiError::Disabled(_) => 403,
        ApiError::Internal => 500,
    }
}

pub fn status_for(err: &ApiError) -> (r: i64)
    ensures
        r == status_of(*err),
{
    match err {
        ApiError::Unauthorized => 401,
        ApiError::Forbidden => 403,
        ApiError::ProviderError(_) => 502,
        ApiError::InvalidRequest(_) => 400,
        ApiError::PolicyDenied { status, .. } => *status as i64,
        ApiError::Disabled(_) => 403,
        ApiError::Internal => 500,
    }
}

/// A failure to be stored.
#[derive(Debug, PartialEq, Eq)]
pub struct NewRequestFailure {
    pub user_id: Option<i64>,
    pub api_key_id: Option<i64>,
    pub endpoint: String,
    pub request_model: String,
    pub routed_model: Option<String>,
    pub provider: Option<String>,
    pub stage: FailureStage,
    pub status_code: Option<i64>,
    pub error_message: String,
    pub attempts: i64,
    pub latency_ms: Option<i64>,
    pub project: Option<String>,
    pub attribution_correlation_id: Option<String>,
    pub attribution_tags: String,
    pub experiment_id: Option<i64>,
    pub experiment_variant: Option<String>,
}

/// The row for a failed request.
pub fn failure_record(ctx: FailureContext, err: &ApiError) -> (r: NewRequestFailure)
    ensures
        r.user_id == ctx.user_id,
        r.api_key_id == ctx.api_key_id,
        r.endpoint == ctx.endpoint,
        r.request_model == ctx.request_model,
        r.routed_model == ctx.routed_model,
        r.provider == ctx.provider,
        r.stage == stage_of(*err),
        r.status_code == Some(status_of(*err)),
        r.error_message@ == err.words(),
        r.attempts == 1,
        r.latency_ms == ctx.latency_ms,
        r.project == ctx.project,
        r.attribution_correlation_id == ctx.attribution_correlation_id,
        r.attribution_tags == ctx.attribution_tags,
        r.experiment_id == ctx.experiment_id,
        r.experiment_variant == ctx.experiment_variant,
{
    NewRequestFailure {
        user_id: ctx.user_id,
        api_key_id: ctx.api_key_id,
        endpoint: ctx.endpoint,
        request_model: ctx.request_model,
        routed_model: ctx.routed_model,
        provider: ctx.provider,
        stage: stage_for(err),
        status_code: Some(status_for(err)),
        error_message: err.describe(),
        attempts: 1,
        latency_ms: ctx.latency_ms,
        project: ctx.project,
        attribution_correlation_id: ctx.attribution_correlation_id,
        attribution_tags: ctx.attribution_tags,
        experiment_id: ctx.experiment_id,
        experiment_variant: ctx.experiment_variant,
    }
}

// ---------------------------------------------------------------------------
// Laws
// ---------------------------------------------------------------------------

/// The recorded status is the one that was answered, wherever the policy gave a
/// status code.
pub proof fn recorded_status_is_answered_status(err: ApiError)
    requires
        err matches ApiError::PolicyDenied { status, .. } ==> 100 <= status < 1000,
    ensures
        status_of(err) == err.answer_status(),
{
}

/// Only an upstream's error is put down to a provider or to its resolution.
pub proof fn other_errors_are_not_the_providers(err: ApiError)
    requires
        !(err is ProviderError),
    ensures
        stage_of(err) != FailureStage::Provider,
        stage_of(err) != FailureStage::Resolve,
{
}

/// A failure is put down to the caller's request, to the policy, to the operator's
/// configuration, to the provider or to the router itself, by what kind of error it is.
pub proof fn failures_are_put_down_to_a_stage(err: ApiError)
    ensures
        err is InvalidRequest <==> stage_of(err) == FailureStage::Request,
        err is PolicyDenied || err is Unauthorized || err is Forbidden || err is Disabled <==> stage_of(err)
            == FailureStage::Policy,
        err is Internal <==> stage_of(err) == FailureStage::Internal,
        err matches ApiError::ProviderError(m) ==> (speaks_of_resolution(m@) <==> stage_of(err)
            == FailureStage::Resolve) && (!speaks_of_resolution(m@) <==> stage_of(err)
            == FailureStage::Provider),
        err matches ApiError::PolicyDenied { status, .. } ==> status_of(err) == status,
{
}

/// What is recorded of the caller's attribution is what the request states; where that
/// cannot be read, nothing is recorded.
pub proof fn recorded_attribution_is_the_stated_one(a: Result<AttributionModel, Seq<char>>)
    ensures
        a matches Ok(m) ==> id_of(a) == m.correlation_id && tags_of(a) == map_text(m.tags),
        a is Err ==> id_of(a) is None && tags_of(a) == "{}"@,
{
}

} // verus!
