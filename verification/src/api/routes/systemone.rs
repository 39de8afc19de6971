//! System One: a JSON passthrough to TypeSafe.
//!
//! The model is gated as a pseudo-model, so that allow-lists and budgets apply.
//! Upstream statuses pass through unchanged, since the caller is to back off on
//! them, with one exception: a 401 or 403 means that the router's key is wrong,
//! and handing it on would tell the caller that its own key is.

use crate::api::attribution::{extracted, Attribution, BODY_FIELD};
use crate::api::error::{ApiError, BindError};
use crate::api::routes::gate::{
    is_denial, is_invalid, is_provider_error, pass_policy, reject_experiment_header, take_permit,
    PolicyDecision,
};
use crate::api::routes::proxy::{endpoint, endpoint_url, is_success, plain_call};
use crate::api::routes::usage::{Call, Payer};
use crate::json::{removed, Json, JsonModel};
use crate::records::{Usd, User};
use crate::text::{nat_text, opt_text, trim, trimmed, u64_text};
use axum::http::{HeaderMap, HeaderValue};
use vstd::prelude::*;

verus! {

/// The provider section that holds the TypeSafe key.
pub const PROVIDER_NAME: &'static str = "typesafe";

pub const DEFAULT_API_BASE: &'static str = "https://api.typesafe.ai/v1";

/// What the request waits for.
#[derive(Debug, Clone, Copy, PartialEq, Eq, Structural)]
pub enum SystemPhase {
    Policy,
    Permit,
    Provider,
    Upstream,
    Ended,
}

/// What the driver is to do.
#[derive(Debug, PartialEq, Eq)]
pub enum SystemAction {
    CheckPolicy { model: String },
    TakePermit { max: u32 },
    /// Is the provider configured, and how?
    FindProvider,
    /// Send the body to this address.
    Send { url: String },
    Fail(ApiError),
}

/// A configured provider.
#[derive(Debug, Clone, PartialEq, Eq)]
pub struct SystemProvider {
    pub api_key: String,
    pub api_base: Option<String>,
}

/// One request. The body is the caller's without its attribution, which must not
/// reach the upstream.
#[derive(Debug, PartialEq, Eq)]
pub struct SystemFlow {
    pub attribution: Attribution,
    pub body: Json,
    /// The pseudo-model.
    pub model: String,
    pub admitted: bool,
    pub phase: SystemPhase,
}

pub open spec fn failure(a: SystemAction) -> Option<ApiError> {
    match a {
        SystemAction::Fail(e) => Some(e),
        _ => None,
    }
}

/// The model that a request names: a text that is not blank.
pub open spec fn stated_model(body: JsonModel) -> Option<Seq<char>> {
    match body.at("model"@).text() {
        Some(m) => if trimmed(m).len() > 0 {
            Some(trimmed(m))
        } else {
            None
        },
        None => None,
    }
}

pub open spec fn pseudo_model(model: Seq<char>) -> Seq<char> {
    "systemone/"@ + model
}

/// What is wrong with a body, if anything is.
pub open spec fn body_fault(body: JsonModel) -> Option<Seq<char>> {
    if stated_model(body) is None {
        Some("model must be a non-empty string"@)
    } else if !(body.at("questions"@) is Obj) {
        Some("questions must be an object keyed by question id"@)
    } else {
        None
    }
}

impl SystemFlow {
    /// Nothing is sent upstream that the policy did not let through, and the
    /// attribution never is.
    pub open spec fn wf(&self) -> bool {
        &&& self.body.wf()
        &&& self.body.model().field(BODY_FIELD@) is None
        &&& self.phase == SystemPhase::Provider || self.phase == SystemPhase::Upstream
            ==> self.admitted
    }

    pub open spec fn goes_on(&self, next: SystemFlow, action: SystemAction) -> bool {
        &&& next.wf()
        &&& next.attribution == self.attribution
        &&& next.body == self.body
        &&& next.model == self.model
        &&& action is Fail <==> next.phase == SystemPhase::Ended
        &&& action is Send <==> next.phase == SystemPhase::Upstream
    }

    pub fn begin(refusal: Option<BindError>, headers: &HeaderMap<HeaderValue>, body: Json) -> (r:
        Result<(SystemFlow, SystemAction), ApiError>)
        requires
            body.wf(),
        ensures
            match refusal {
                Some(err) => r matches Err(e) && is_invalid(e, err.0@),
                None => match extracted(body.model(), *headers) {
                    Err(msg) => r matches Err(e) && is_invalid(e, msg),
                    Ok(a) => {
                        let sent = removed(body.model(), BODY_FIELD@);
                        match body_fault(sent) {
                            Some(msg) => r matches Err(e) && is_invalid(e, msg),
                            None => {
                                &&& r matches Ok((flow, action))
                                &&& flow.wf()
                                &&& flow.attribution@ == a
                                &&& flow.body.model() == sent
                                &&& flow.model@ == pseudo_model(stated_model(sent)->0)
                                &&& flow.phase == SystemPhase::Policy
                                &&& action matches SystemAction::CheckPolicy { model } && model@
                                    == flow.model@
                            },
                        }
                    },
                },
            },
    {
        match reject_experiment_header(refusal) {
            Err(e) => {
                return Err(e);
            },
            Ok(_) => {},
        }
        let attribution = match Attribution::extract(&body, headers) {
            Ok(a) => a,
            Err(e) => {
                return Err(ApiError::InvalidRequest(e.0));
            },
        };
        proof {
            if let JsonModel::Obj(entries) = body.model() {
                crate::json::lemma_without_key(entries, BODY_FIELD@);
            }
        }
        let body = body.without(BODY_FIELD);
        let named = match body.get("model") {
            Some(v) => match v.as_str() {
                Some(m) => trim(m),
                None => "",
            },
            None => "",
        };
        proof {
            reveal_strlit("");
        }
        if named.is_empty() {
            return Err(ApiError::InvalidRequest("model must be a non-empty string".to_owned()));
        }
        let questions = match body.get("questions") {
            Some(v) => v.is_object(),
            None => false,
        };
        if !questions {
            return Err(
                ApiError::InvalidRequest(
                    "questions must be an object keyed by question id".to_owned(),
                ),
            );
        }
        let model = "systemone/".to_owned().concat(named);
        let action = SystemAction::CheckPolicy { model: model.clone() };
        let flow = SystemFlow {
            attribution,
            body,
            model,
            admitted: false,
            phase: SystemPhase::Policy,
        };
        Ok((flow, action))
    }

    pub fn on_policy(&mut self, asked: Result<PolicyDecision, String>) -> (r: SystemAction)
        requires
            old(self).wf(),
            old(self).phase == SystemPhase::Policy,
        ensures
            old(self).goes_on(*final(self), r),
            match asked {
                Err(_) => failure(r) == Some(ApiError::Internal),
                Ok(PolicyDecision::Deny { reason, status, .. }) => failure(r) matches Some(e)
                    && is_denial(e, reason@, status),
                Ok(PolicyDecision::Allow { max_concurrent: Some(n) }) => final(self).phase
                    == SystemPhase::Permit && r == (SystemAction::TakePermit { max: n }),
                Ok(PolicyDecision::Allow { max_concurrent: None }) => final(self).phase
                    == SystemPhase::Provider && r is FindProvider,
            },
    {
        match pass_policy(asked) {
            Err(e) => {
                self.phase = SystemPhase::Ended;
                SystemAction::Fail(e)
            },
            Ok(Some(max)) => {
                self.phase = SystemPhase::Permit;
                SystemAction::TakePermit { max }
            },
            Ok(None) => {
                self.admitted = true;
                self.phase = SystemPhase::Provider;
                SystemAction::FindProvider
            },
        }
    }

    pub fn on_permit(&mut self, acquired: bool) -> (r: SystemAction)
        requires
            old(self).wf(),
            old(self).phase == SystemPhase::Permit,
        ensures
            old(self).goes_on(*final(self), r),
            acquired ==> final(self).phase == SystemPhase::Provider && r is FindProvider,
            !acquired ==> (failure(r) matches Some(e) && is_denial(
                e,
                "concurrent request limit exceeded"@,
                429,
            )),
    {
        match take_permit(acquired) {
            Err(e) => {
                self.phase = SystemPhase::Ended;
                SystemAction::Fail(e)
            },
            Ok(_) => {
                self.admitted = true;
                self.phase = SystemPhase::Provider;
                SystemAction::FindProvider
            },
        }
    }

    /// The provider must be configured, with a key.
    pub fn on_provider(&mut self, provider: Option<SystemProvider>) -> (r: SystemAction)
        requires
            old(self).wf(),
            old(self).phase == SystemPhase::Provider,
        ensures
            old(self).goes_on(*final(self), r),
            match provider {
                None => failure(r) matches Some(e) && is_provider_error(
                    e,
                    "System One is not configured: add a [providers.typesafe] section with api_key"@,
                ),
                Some(p) => if trimmed(p.api_key@).len() == 0 {
                    failure(r) matches Some(e) && is_provider_error(
                        e,
                        "[providers.typesafe] has no api_key (set it, or MODELROUTER_PROVIDERS__TYPESAFE__API_KEY)"@,
                    )
                } else {
                    r matches SystemAction::Send { url } && url@ == endpoint(
                        opt_text(p.api_base),
                        DEFAULT_API_BASE@,
                        "/systemone"@,
                    )
                },
            },
    {
        let p = match provider {
            None => {
                self.phase = SystemPhase::Ended;
                return SystemAction::Fail(
                    ApiError::ProviderError(
                        "System One is not configured: add a [providers.typesafe] section with api_key".to_owned(),
                    ),
                );
            },
            Some(p) => p,
        };
        if trim(p.api_key.as_str()).is_empty() {
            self.phase = SystemPhase::Ended;
            return SystemAction::Fail(
                ApiError::ProviderError(
                    "[providers.typesafe] has no api_key (set it, or MODELROUTER_PROVIDERS__TYPESAFE__API_KEY)".to_owned(),
                ),
            );
        }
        self.phase = SystemPhase::Upstream;
        SystemAction::Send { url: endpoint_url(&p.api_base, DEFAULT_API_BASE, "/systemone") }
    }

    /// The call that a success is charged as. The caller's payload is not
    /// stored.
    pub fn call(
        &self,
        user: &User,
        usage: SystemUsage,
        cost_usd: Usd,
        latency_ms: i64,
    ) -> (r: Call)
        ensures
            r.payer.pays_for(*user, self.attribution),
            r.request_model@ == self.model@,
            r.model@ == self.model@,
            r.provider@ == PROVIDER_NAME@,
            r.messages@ == "[]"@,
            r.response is None,
            r.finish_reason is None,
            r.prompt_tokens == usage.input_tokens,
            r.completion_tokens == usage.output_tokens,
            r.cache_read_tokens == 0,
            r.cache_write_tokens == 0,
            !r.tokens_estimated,
            r.cost_usd == cost_usd,
            r.latency_ms == Some(latency_ms),
            r.ttft_ms is None,
            r.attempts is None,
    {
        plain_call(
            Payer::new(user, &self.attribution),
            self.model.clone(),
            PROVIDER_NAME.to_owned(),
            self.model.clone(),
            usage.input_tokens,
            usage.output_tokens,
            cost_usd,
            Some(latency_ms),
        )
    }
}

// ---------------------------------------------------------------------------
// The upstream
// ---------------------------------------------------------------------------

/// What an exchange came to.
#[derive(Debug, PartialEq, Eq)]
pub enum SystemAnswer {
    /// Hand status and body on as they are.
    PassThrough { status: u16 },
    /// A success: read what it used, then hand it on.
    Success { status: u16 },
    Fail(ApiError),
}

pub open spec fn rejected_key(status: u16) -> Seq<char> {
    "TypeSafe rejected the router's [providers.typesafe] api_key (HTTP "@ + nat_text(status as nat)
        + ")"@
}

/// The status that is handed on, or 502 where it is no status code.
pub open spec fn passed_status(status: u16) -> u16 {
    if 100 <= status < 1000 {
        status
    } else {
        502
    }
}

/// What comes of sending: `read` tells whether the body could be read.
pub fn system_answer(sent: Result<u16, String>, read: Result<(), String>) -> (r: SystemAnswer)
    ensures
        match sent {
            Err(msg) => r matches SystemAnswer::Fail(e) && is_provider_error(
                e,
                "System One request failed: "@ + msg@,
            ),
            Ok(status) => match read {
                Err(msg) => r matches SystemAnswer::Fail(e) && is_provider_error(
                    e,
                    "System One response unreadable: "@ + msg@,
                ),
                Ok(_) => if status == 401 || status == 403 {
                    r matches SystemAnswer::Fail(e) && is_provider_error(e, rejected_key(status))
                } else if is_success(status) {
                    r == (SystemAnswer::Success { status: passed_status(status) })
                } else {
                    r == (SystemAnswer::PassThrough { status: passed_status(status) })
                },
            },
        },
{
    let status: u16 = match sent {
        Err(msg) => {
            return SystemAnswer::Fail(
                ApiError::ProviderError(
                    "System One request failed: ".to_owned().concat(msg.as_str()),
                ),
            );
        },
        Ok(status) => status,
    };
    match read {
        Err(msg) => {
            return SystemAnswer::Fail(
                ApiError::ProviderError(
                    "System One response unreadable: ".to_owned().concat(msg.as_str()),
                ),
            );
        },
        Ok(_) => {},
    }
    if status == 401 || status == 403 {
        let mut msg = "TypeSafe rejected the router's [providers.typesafe] api_key (HTTP ".to_owned();
        msg.append(u64_text(status as u64).as_str());
        msg.append(")");
        return SystemAnswer::Fail(ApiError::ProviderError(msg));
    }
    let passed: u16 = if 100 <= status && status < 1000 {
        status
    } else {
        502
    };
    if 200 <= status && status < 300 {
        SystemAnswer::Success { status: passed }
    } else {
        SystemAnswer::PassThrough { status: passed }
    }
}

/// The tokens of an answer.
#[derive(Debug, Clone, Copy, PartialEq, Eq, Structural)]
pub struct SystemUsage {
    pub input_tokens: i64,
    pub output_tokens: i64,
}

pub open spec fn used(answer: JsonModel, key: Seq<char>) -> i64 {
    match answer.at("usage"@).at(key).signed() {
        Some(n) => n,
        None => 0,
    }
}

fn read_used(answer: &Json, key: &str) -> (r: i64)
    ensures
        r == used(answer.model(), key@),
{
    if let Some(u) = answer.get("usage") {
        if let Some(v) = u.get(key) {
            if let Some(n) = v.as_i64() {
                return n;
            }
        }
    }
    0
}

/// Reads what an answer used.
pub fn usage_of(answer: &Json) -> (r: SystemUsage)
    ensures
        r.input_tokens == used(answer.model(), "input_tokens"@),
        r.output_tokens == used(answer.model(), "output_tokens"@),
{
    SystemUsage {
        input_tokens: read_used(answer, "input_tokens"),
        output_tokens: read_used(answer, "output_tokens"),
    }
}

/// Reads what the body of a success used; a body that is not JSON is the
/// upstream's error.
pub fn read_success(bytes: &[u8]) -> (r: Result<SystemUsage, ApiError>)
    ensures
        match crate::json::json_of_bytes(bytes@) {
            Ok(m) => r matches Ok(u) && u.input_tokens == used(m, "input_tokens"@)
                && u.output_tokens == used(m, "output_tokens"@),
            Err(msg) => r matches Err(e) && is_provider_error(
                e,
                "System One returned non-JSON success body: "@ + msg,
            ),
        },
{
    match Json::parse_bytes(bytes) {
        Ok(answer) => Ok(usage_of(&answer)),
        Err(msg) => Err(
            ApiError::ProviderError(
                "System One returned non-JSON success body: ".to_owned().concat(msg.as_str()),
            ),
        ),
    }
}

/// A request is in order where it names a model that is not blank and asks questions by id;
/// the model it is charged to carries that name.
pub proof fn bodies_are_checked(body: JsonModel, m: Seq<char>)
    ensures
        body.at("model"@) == JsonModel::Str(m) && trimmed(m).len() > 0 ==> stated_model(body) == Some(
            trimmed(m),
        ),
        body.at("model"@) == JsonModel::Str(m) && trimmed(m).len() == 0 ==> stated_model(body) is None,
        !(body.at("model"@) is Str) ==> stated_model(body) is None,
        body_fault(body) is None <==> stated_model(body) is Some && body.at("questions"@) is Obj,
        stated_model(body) is None ==> body_fault(body) == Some("model must be a non-empty string"@),
        pseudo_model(m) == "systemone/"@ + m,
{
}

/// Usage is read by name; a status that can be handed on is handed on, and any other is told
/// as a bad gateway.
pub proof fn answers_are_handed_on(answer: JsonModel, key: Seq<char>, n: int, status: u16)
    ensures
        answer.at("usage"@).at(key) == JsonModel::Int(n) && i64::MIN <= n <= i64::MAX ==> used(answer, key)
            == n,
        !(answer.at("usage"@).at(key) is Int) ==> used(answer, key) == 0,
        100 <= status <= 999 ==> passed_status(status) == status,
        status < 100 || status > 999 ==> passed_status(status) == 502,
{
}

/// A step of the flow fails exactly where it ends, sends exactly where it goes upstream, and
/// changes neither the body nor who is charged; past the policy it was let through.
pub proof fn steps_end_or_send(f: SystemFlow, next: SystemFlow, a: SystemAction, e: ApiError)
    requires
        f.goes_on(next, a),
    ensures
        a is Fail <==> next.phase == SystemPhase::Ended,
        a is Send <==> next.phase == SystemPhase::Upstream,
        next.body == f.body && next.model == f.model && next.attribution == f.attribution,
        next.phase == SystemPhase::Upstream || next.phase == SystemPhase::Provider ==> next.admitted,
        next.body.model().field(BODY_FIELD@) is None,
        failure(a) == Some(e) <==> a == SystemAction::Fail(e),
{
}

} // verus!
