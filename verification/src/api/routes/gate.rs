//! Gates that several endpoints share: the policy, the provider registry and the
//! rule on substituted models.

use crate::api::admin::experiments::Resolution;
use crate::api::error::{ApiError, BindError};
use crate::records::Usd;
use crate::text::contains_text;
use vstd::prelude::*;

verus! {

/// What the policy engine decided.
#[derive(Debug, Clone, PartialEq, Eq)]
pub enum PolicyDecision {
    /// Go on, within a number of concurrent requests where one is set.
    Allow { max_concurrent: Option<u32> },
    /// Refuse. Where it is a budget that was exceeded, the context says which.
    Deny { reason: String, status: u16, budget_context: Option<BudgetContext> },
}

/// A budget that was exceeded.
#[derive(Debug, Clone, PartialEq, Eq)]
pub struct BudgetContext {
    pub limit_usd: Usd,
    pub spent_usd: Usd,
    pub window: String,
}

/// What a guardrail decided.
#[derive(Debug, Clone, PartialEq, Eq)]
pub enum GuardrailDecision {
    Allow,
    Block { reason: String },
    Replace { content: String },
}

/// Whether an error is a denial with the given reason and status.
pub open spec fn is_denial(e: ApiError, reason: Seq<char>, status: u16) -> bool {
    e matches ApiError::PolicyDenied { reason: r, status: s } && r@ == reason && s == status
}

pub open spec fn is_invalid(e: ApiError, message: Seq<char>) -> bool {
    e matches ApiError::InvalidRequest(m) && m@ == message
}

pub open spec fn is_provider_error(e: ApiError, message: Seq<char>) -> bool {
    e matches ApiError::ProviderError(m) && m@ == message
}

pub open spec fn is_disabled(e: ApiError, message: Seq<char>) -> bool {
    e matches ApiError::Disabled(m) && m@ == message
}

/// What comes of asking the policy engine: the number of concurrent requests to
/// stay within, if any. Where the engine cannot be asked the request fails.
pub fn pass_policy(asked: Result<PolicyDecision, String>) -> (r: Result<Option<u32>, ApiError>)
    ensures
        match asked {
            Ok(PolicyDecision::Allow { max_concurrent }) => r == Ok::<Option<u32>, ApiError>(
                max_concurrent,
            ),
            Ok(PolicyDecision::Deny { reason, status, .. }) => r matches Err(e) && is_denial(
                e,
                reason@,
                status,
            ),
            Err(_) => r == Err::<Option<u32>, ApiError>(ApiError::Internal),
        },
{
    match asked {
        Ok(PolicyDecision::Allow { max_concurrent }) => Ok(max_concurrent),
        Ok(PolicyDecision::Deny { reason, status, .. }) => Err(
            ApiError::PolicyDenied { reason, status },
        ),
        Err(_) => Err(ApiError::Internal),
    }
}

/// What comes of asking for one of the concurrent requests.
pub fn take_permit(acquired: bool) -> (r: Result<(), ApiError>)
    ensures
        acquired ==> r is Ok,
        !acquired ==> (r matches Err(e) && is_denial(e, "concurrent request limit exceeded"@, 429)),
{
    if acquired {
        Ok(())
    } else {
        Err(
            ApiError::PolicyDenied {
                reason: "concurrent request limit exceeded".to_owned(),
                status: 429,
            },
        )
    }
}

pub open spec fn substitution_refusal(requested: Seq<char>, substitute: Seq<char>) -> Seq<char> {
    "model '"@ + requested
        + "' is not a configured alias and names no provider; refusing to substitute '"@
        + substitute
        + "' for it. Add it to [routing.model_aliases], request it as 'provider/model', or disable routing.strict_model_resolution."@
}

/// Refuses to answer with another model than the one that was asked for, where
/// the operator wants that refused.
pub fn guard_model_substitution(requested_model: &str, resolution: &Resolution, strict: bool) -> (r:
    Result<(), ApiError>)
    ensures
        resolution.substituted && strict ==> (r matches Err(e) && is_invalid(
            e,
            substitution_refusal(requested_model@, resolution.model@),
        )),
        !(resolution.substituted && strict) ==> r is Ok,
{
    if resolution.substituted && strict {
        let mut msg = "model '".to_owned();
        msg.append(requested_model);
        msg.append(
            "' is not a configured alias and names no provider; refusing to substitute '",
        );
        msg.append(resolution.model.as_str());
        msg.append(
            "' for it. Add it to [routing.model_aliases], request it as 'provider/model', or disable routing.strict_model_resolution.",
        );
        return Err(ApiError::InvalidRequest(msg));
    }
    Ok(())
}

pub open spec fn open_breaker_text(provider: Seq<char>) -> Seq<char> {
    "circuit breaker open for "@ + provider
}

/// Whether a provider may be called: not while its circuit breaker is open.
pub fn pass_breaker(provider: &str, open: bool) -> (r: Result<(), ApiError>)
    ensures
        !open ==> r is Ok,
        open ==> (r matches Err(e) && is_provider_error(e, open_breaker_text(provider@))),
{
    if open {
        Err(
            ApiError::ProviderError("circuit breaker open for ".to_owned().concat(provider)),
        )
    } else {
        Ok(())
    }
}

/// A refused experiment header becomes a 400 that says why.
pub fn experiment_bind_rejected(err: BindError) -> (r: ApiError)
    ensures
        is_invalid(r, err.0@),
{
    ApiError::InvalidRequest(err.0)
}

/// An endpoint that runs no experiments refuses a request that asks for one,
/// rather than let it through unmarked.
pub fn reject_experiment_header(refusal: Option<BindError>) -> (r: Result<(), ApiError>)
    ensures
        match refusal {
            None => r is Ok,
            Some(err) => r matches Err(e) && is_invalid(e, err.0@),
        },
{
    match refusal {
        None => Ok(()),
        Some(err) => Err(experiment_bind_rejected(err)),
    }
}

/// A refusal carries its own words, and a denial its own status.
pub proof fn refusals_carry_their_words(e: ApiError, m: Seq<char>, n: Seq<char>, s: u16, t: u16)
    ensures
        is_denial(e, m, s) && is_denial(e, n, t) ==> m == n && s == t,
        is_invalid(e, m) && is_invalid(e, n) ==> m == n,
        is_provider_error(e, m) && is_provider_error(e, n) ==> m == n,
        is_disabled(e, m) && is_disabled(e, n) ==> m == n,
        is_denial(e, m, s) ==> e is PolicyDenied,
        is_invalid(e, m) ==> e is InvalidRequest,
        is_provider_error(e, m) ==> e is ProviderError,
        is_disabled(e, m) ==> e is Disabled,
        open_breaker_text(m) == "circuit breaker open for "@ + m,
        contains_text(substitution_refusal(m, n), "model '"@ + m) && contains_text(
            substitution_refusal(m, n),
            "substitute '"@ + n,
        ),
{
    let all = substitution_refusal(m, n);
    reveal_strlit("model '");
    reveal_strlit("' is not a configured alias and names no provider; refusing to substitute '");
    reveal_strlit("substitute '");
    let a = "model '"@;
    let b = "' is not a configured alias and names no provider; refusing to substitute '"@;
    assert(all.subrange(0, 0int + (a + m).len()) =~= a + m);
    let part = "substitute '"@ + n;
    let at: int = a.len() + m.len() + b.len() - "substitute '"@.len();
    assert(all.subrange(at, at + part.len()) =~= part);
}

} // verus!
