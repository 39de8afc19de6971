//! Anthropic messages, handed on to the Anthropic API as they are.

use crate::api::attribution::Attribution;
use crate::api::error::{ApiError, BindError};
use crate::api::routes::completions::{is_stream, named_model, requested_model, wants_stream};
use crate::api::routes::gate::{
    is_denial, is_invalid, is_provider_error, open_breaker_text, pass_breaker, pass_policy,
    reject_experiment_header, take_permit, PolicyDecision,
};
use crate::api::routes::proxy::{endpoint, endpoint_url, is_success, BreakerNote};
use crate::api::routes::stream_log::{estimated_tokens, low32, to_low32};
use crate::api::routes::usage::{Call, Payer};
use crate::json::{assigned, Json, JsonModel};
use crate::records::{Usd, User};
use crate::text::{nat_text, opt_text, u64_text};
use vstd::prelude::*;

verus! {

/// The provider of this endpoint, whatever a model resolves to.
pub const ANTHROPIC: &'static str = "anthropic";

pub const ANTHROPIC_BASE: &'static str = "https://api.anthropic.com";

pub const ANTHROPIC_VERSION: &'static str = "2023-06-01";

/// What the request waits for.
#[derive(Debug, Clone, Copy, PartialEq, Eq, Structural)]
pub enum MessagesPhase {
    Downgrade,
    Policy,
    Permit,
    Pool,
    Resolution,
    Provider,
    Breaker,
    Upstream,
    Ended,
}

/// What the driver is to do.
#[derive(Debug, PartialEq, Eq)]
pub enum MessagesAction {
    Downgrade { model: String },
    CheckPolicy { model: String },
    TakePermit { max: u32 },
    /// Which member of the pool of this name is chosen, if there is one?
    ChooseFromPool { model: String },
    Resolve { model: String },
    /// Is the provider configured?
    FindProvider,
    CheckBreaker,
    /// Send the body, with this model, to this address.
    Send { url: String, model: String, stream: bool },
    Fail(ApiError),
}

/// One request.
#[derive(Debug, PartialEq, Eq)]
pub struct MessagesFlow {
    pub stream: bool,
    /// The model to be routed.
    pub model: String,
    /// The model that it resolved to.
    pub canonical: String,
    pub url: String,
    pub admitted: bool,
    pub phase: MessagesPhase,
}

pub open spec fn failure(a: MessagesAction) -> Option<ApiError> {
    match a {
        MessagesAction::Fail(e) => Some(e),
        _ => None,
    }
}

pub open spec fn asks_pool(a: MessagesAction, name: Seq<char>) -> bool {
    a matches MessagesAction::ChooseFromPool { model } && model@ == name
}

impl MessagesFlow {
    /// Nothing is sent upstream that the policy did not let through.
    pub open spec fn wf(&self) -> bool {
        self.phase != MessagesPhase::Downgrade && self.phase != MessagesPhase::Policy && self.phase
            != MessagesPhase::Permit && self.phase != MessagesPhase::Ended ==> self.admitted
    }

    pub open spec fn goes_on(&self, next: MessagesFlow, action: MessagesAction) -> bool {
        &&& next.wf()
        &&& next.stream == self.stream
        &&& action is Fail <==> next.phase == MessagesPhase::Ended
        &&& action is Send <==> next.phase == MessagesPhase::Upstream
    }

    pub fn begin(refusal: Option<BindError>, body: &Json, default_model: &str) -> (r: (
        MessagesFlow,
        MessagesAction,
    ))
        ensures
            r.0.wf(),
            r.0.stream == wants_stream(body.model()),
            match refusal {
                Some(err) => r.0.phase == MessagesPhase::Ended && (failure(r.1) matches Some(e)
                    && is_invalid(e, err.0@)),
                None => r.0.phase == MessagesPhase::Downgrade && (
                r.1 matches MessagesAction::Downgrade { model } && model@ == named_model(
                    body.model(),
                    default_model@,
                )),
            },
    {
        let model = requested_model(body, default_model);
        let mut flow = MessagesFlow {
            stream: is_stream(body),
            model: model.clone(),
            canonical: String::new(),
            url: String::new(),
            admitted: false,
            phase: MessagesPhase::Downgrade,
        };
        match reject_experiment_header(refusal) {
            Err(e) => {
                flow.phase = MessagesPhase::Ended;
                (flow, MessagesAction::Fail(e))
            },
            Ok(_) => (flow, MessagesAction::Downgrade { model }),
        }
    }

    pub fn on_downgraded(&mut self, model: String) -> (r: MessagesAction)
        requires
            old(self).wf(),
            old(self).phase == MessagesPhase::Downgrade,
        ensures
            old(self).goes_on(*final(self), r),
            final(self).model == model,
            final(self).phase == MessagesPhase::Policy,
            r matches MessagesAction::CheckPolicy { model: m } && m@ == model@,
    {
        self.model = model;
        self.phase = MessagesPhase::Policy;
        MessagesAction::CheckPolicy { model: self.model.clone() }
    }

    pub fn on_policy(&mut self, asked: Result<PolicyDecision, String>) -> (r: MessagesAction)
        requires
            old(self).wf(),
            old(self).phase == MessagesPhase::Policy,
        ensures
            old(self).goes_on(*final(self), r),
            final(self).model == old(self).model,
            match asked {
                Err(_) => failure(r) == Some(ApiError::Internal),
                Ok(PolicyDecision::Deny { reason, status, .. }) => failure(r) matches Some(e)
                    && is_denial(e, reason@, status),
                Ok(PolicyDecision::Allow { max_concurrent: Some(n) }) => final(self).phase
                    == MessagesPhase::Permit && r == (MessagesAction::TakePermit { max: n }),
                Ok(PolicyDecision::Allow { max_concurrent: None }) => final(self).phase
                    == MessagesPhase::Pool && asks_pool(r, old(self).model@),
            },
    {
        match pass_policy(asked) {
            Err(e) => {
                self.phase = MessagesPhase::Ended;
                MessagesAction::Fail(e)
            },
            Ok(Some(max)) => {
                self.phase = MessagesPhase::Permit;
                MessagesAction::TakePermit { max }
            },
            Ok(None) => {
                self.admitted = true;
                self.phase = MessagesPhase::Pool;
                MessagesAction::ChooseFromPool { model: self.model.clone() }
            },
        }
    }

    pub fn on_permit(&mut self, acquired: bool) -> (r: MessagesAction)
        requires
            old(self).wf(),
            old(self).phase == MessagesPhase::Permit,
        ensures
            old(self).goes_on(*final(self), r),
            final(self).model == old(self).model,
            acquired ==> final(self).phase == MessagesPhase::Pool && asks_pool(r, old(self).model@),
            !acquired ==> (failure(r) matches Some(e) && is_denial(
                e,
                "concurrent request limit exceeded"@,
                429,
            )),
    {
        match take_permit(acquired) {
            Err(e) => {
                self.phase = MessagesPhase::Ended;
                MessagesAction::Fail(e)
            },
            Ok(_) => {
                self.admitted = true;
                self.phase = MessagesPhase::Pool;
                MessagesAction::ChooseFromPool { model: self.model.clone() }
            },
        }
    }

    /// The pool's choice of model; its provider plays no part here.
    pub fn on_pool(&mut self, choice: Option<String>) -> (r: MessagesAction)
        requires
            old(self).wf(),
            old(self).phase == MessagesPhase::Pool,
        ensures
            old(self).goes_on(*final(self), r),
            final(self).model == old(self).model,
            match choice {
                Some(m) => final(self).canonical == m && final(self).phase
                    == MessagesPhase::Provider && r is FindProvider,
                None => final(self).phase == MessagesPhase::Resolution && (
                r matches MessagesAction::Resolve { model } && model@ == old(self).model@),
            },
    {
        match choice {
            Some(m) => {
                self.canonical = m;
                self.phase = MessagesPhase::Provider;
                MessagesAction::FindProvider
            },
            None => {
                self.phase = MessagesPhase::Resolution;
                MessagesAction::Resolve { model: self.model.clone() }
            },
        }
    }

    pub fn on_resolved(&mut self, canonical: String) -> (r: MessagesAction)
        requires
            old(self).wf(),
            old(self).phase == MessagesPhase::Resolution,
        ensures
            old(self).goes_on(*final(self), r),
            final(self).model == old(self).model,
            final(self).canonical == canonical,
            final(self).phase == MessagesPhase::Provider,
            r is FindProvider,
    {
        self.canonical = canonical;
        self.phase = MessagesPhase::Provider;
        MessagesAction::FindProvider
    }

    /// Whether the provider is configured, and under which base address.
    pub fn on_provider(&mut self, configured: Option<Option<String>>) -> (r: MessagesAction)
        requires
            old(self).wf(),
            old(self).phase == MessagesPhase::Provider,
        ensures
            old(self).goes_on(*final(self), r),
            final(self).model == old(self).model,
            final(self).canonical == old(self).canonical,
            match configured {
                None => failure(r) matches Some(e) && is_provider_error(
                    e,
                    "No 'anthropic' provider configured"@,
                ),
                Some(base) => final(self).phase == MessagesPhase::Breaker && r is CheckBreaker
                    && final(self).url@ == endpoint(
                    opt_text(base),
                    ANTHROPIC_BASE@,
                    "/v1/messages"@,
                ),
            },
    {
        match configured {
            None => {
                self.phase = MessagesPhase::Ended;
                MessagesAction::Fail(
                    ApiError::ProviderError("No 'anthropic' provider configured".to_owned()),
                )
            },
            Some(base) => {
                self.url = endpoint_url(&base, ANTHROPIC_BASE, "/v1/messages");
                self.phase = MessagesPhase::Breaker;
                MessagesAction::CheckBreaker
            },
        }
    }

    pub fn on_breaker(&mut self, open: bool) -> (r: MessagesAction)
        requires
            old(self).wf(),
            old(self).phase == MessagesPhase::Breaker,
        ensures
            old(self).goes_on(*final(self), r),
            final(self).model == old(self).model,
            final(self).canonical == old(self).canonical,
            open ==> (failure(r) matches Some(e) && is_provider_error(
                e,
                open_breaker_text(ANTHROPIC@),
            )),
            !open ==> (r matches MessagesAction::Send { url, model, stream } && url@
                == old(self).url@ && model@ == old(self).canonical@ && stream == old(self).stream),
    {
        match pass_breaker(ANTHROPIC, open) {
            Err(e) => {
                self.phase = MessagesPhase::Ended;
                MessagesAction::Fail(e)
            },
            Ok(_) => {
                self.phase = MessagesPhase::Upstream;
                MessagesAction::Send {
                    url: self.url.clone(),
                    model: self.canonical.clone(),
                    stream: self.stream,
                }
            },
        }
    }
}

/// The body that is sent upstream: the caller's, with the resolved model.
pub fn upstream_body(body: Json, canonical: &str) -> (r: Json)
    requires
        body.wf(),
        body.model() is Obj || body.model() is Null,
    ensures
        r.model() == assigned(body.model(), "model"@, JsonModel::Str(canonical@)),
        r.wf(),
{
    body.assign("model", Json::Str(canonical.to_owned()))
}

pub open spec fn anthropic_error(status: u16, body: Option<Seq<char>>) -> Seq<char> {
    "Anthropic API error "@ + nat_text(status as nat) + ": "@ + match body {
        Some(b) => b,
        None => "upstream error"@,
    }
}

/// What the upstream's answer comes to: a request that did not get through, or
/// any answer but a success, fails and speaks against the provider.
pub fn upstream_answer(sent: Result<u16, String>, error_body: Option<String>) -> (r: (
    BreakerNote,
    Result<(), ApiError>,
))
    ensures
        match sent {
            Err(msg) => r.0 == BreakerNote::Failure && (r.1 matches Err(e) && is_provider_error(
                e,
                msg@,
            )),
            Ok(status) => if is_success(status) {
                r == (BreakerNote::Success, Ok::<(), ApiError>(()))
            } else {
                r.0 == BreakerNote::Failure && (r.1 matches Err(e) && is_provider_error(
                    e,
                    anthropic_error(status, opt_text(error_body)),
                ))
            },
        },
{
    match sent {
        Err(msg) => (BreakerNote::Failure, Err(ApiError::ProviderError(msg))),
        Ok(status) => {
            if 200 <= status && status < 300 {
                return (BreakerNote::Success, Ok(()));
            }
            let mut msg = "Anthropic API error ".to_owned();
            msg.append(u64_text(status as u64).as_str());
            msg.append(": ");
            match error_body {
                Some(b) => {
                    msg.append(b.as_str());
                },
                None => {
                    msg.append("upstream error");
                },
            }
            (BreakerNote::Failure, Err(ApiError::ProviderError(msg)))
        },
    }
}

// ---------------------------------------------------------------------------
// What is charged
// ---------------------------------------------------------------------------

/// The token counts and the stop reason of an answer.
#[derive(Debug, PartialEq, Eq)]
pub struct MessagesUsage {
    pub prompt_tokens: u32,
    pub completion_tokens: u32,
    pub stop_reason: String,
}

pub open spec fn usage_count(resp: JsonModel, key: Seq<char>) -> u32 {
    match resp.at("usage"@).at(key).unsigned() {
        Some(n) => low32(n),
        None => 0,
    }
}

fn read_count(resp: &Json, key: &str) -> (r: u32)
    ensures
        r == usage_count(resp.model(), key@),
{
    if let Some(u) = resp.get("usage") {
        if let Some(v) = u.get(key) {
            if let Some(n) = v.as_u64() {
                return to_low32(n);
            }
        }
    }
    0
}

/// Reads what an answer used.
pub fn answer_usage(resp: &Json) -> (r: MessagesUsage)
    ensures
        r.prompt_tokens == usage_count(resp.model(), "input_tokens"@),
        r.completion_tokens == usage_count(resp.model(), "output_tokens"@),
        r.stop_reason@ == match resp.model().at("stop_reason"@).text() {
            Some(s) => s,
            None => "end_turn"@,
        },
{
    let stop_reason = match resp.get("stop_reason") {
        Some(v) => match v.as_str() {
            Some(s) => s.to_owned(),
            None => "end_turn".to_owned(),
        },
        None => "end_turn".to_owned(),
    };
    MessagesUsage {
        prompt_tokens: read_count(resp, "input_tokens"),
        completion_tokens: read_count(resp, "output_tokens"),
        stop_reason,
    }
}

/// The call that an answer is charged as. The stored response is the whole
/// answer, as JSON text.
pub fn answered_call(
    user: &User,
    attribution: &Attribution,
    flow: &MessagesFlow,
    messages: String,
    response: String,
    usage: MessagesUsage,
    cost_usd: Usd,
    latency_ms: i64,
) -> (r: Call)
    ensures
        r.payer.pays_for(*user, *attribution),
        r.request_model@ == flow.model@,
        r.model@ == flow.canonical@,
        r.provider@ == ANTHROPIC@,
        r.messages == messages,
        r.response == Some(response),
        opt_text(r.finish_reason) == Some(usage.stop_reason@),
        r.prompt_tokens == usage.prompt_tokens,
        r.completion_tokens == usage.completion_tokens,
        r.cache_read_tokens == 0,
        r.cache_write_tokens == 0,
        !r.tokens_estimated,
        r.cost_usd == cost_usd,
        r.latency_ms == Some(latency_ms),
        r.ttft_ms is None,
        r.attempts is None,
{
    Call {
        payer: Payer::new(user, attribution),
        request_model: flow.model.clone(),
        model: flow.canonical.clone(),
        provider: ANTHROPIC.to_owned(),
        messages,
        response: Some(response),
        finish_reason: Some(usage.stop_reason),
        prompt_tokens: usage.prompt_tokens as i64,
        completion_tokens: usage.completion_tokens as i64,
        cache_read_tokens: 0,
        cache_write_tokens: 0,
        tokens_estimated: false,
        cost_usd,
        latency_ms: Some(latency_ms),
        ttft_ms: None,
        attempts: None,
    }
}

/// The prompt tokens of a stream: a quarter of the characters of its messages.
pub fn streamed_prompt_tokens(messages: &str) -> (r: u32)
    ensures
        r == estimated_tokens(messages@.len()),
{
    to_low32((messages.unicode_len() / 4) as u64)
}

/// The call that a stream is charged as, while it is still running: an estimate
/// of its prompt.
pub fn streaming_call(
    user: &User,
    attribution: &Attribution,
    flow: &MessagesFlow,
    messages: String,
    cost_usd: Usd,
    latency_ms: i64,
) -> (r: Call)
    ensures
        r.payer.pays_for(*user, *attribution),
        r.request_model@ == flow.model@,
        r.model@ == flow.canonical@,
        r.provider@ == ANTHROPIC@,
        r.messages == messages,
        r.response is None,
        r.finish_reason is None,
        r.prompt_tokens == estimated_tokens(messages@.len()),
        r.completion_tokens == 0,
        r.cache_read_tokens == 0,
        r.cache_write_tokens == 0,
        r.tokens_estimated,
        r.cost_usd == cost_usd,
        r.latency_ms == Some(latency_ms),
        r.ttft_ms is None,
        r.attempts is None,
{
    let prompt_tokens: u32 = streamed_prompt_tokens(messages.as_str());
    Call {
        payer: Payer::new(user, attribution),
        request_model: flow.model.clone(),
        model: flow.canonical.clone(),
        provider: ANTHROPIC.to_owned(),
        messages,
        response: None,
        finish_reason: None,
        prompt_tokens: prompt_tokens as i64,
        completion_tokens: 0,
        cache_read_tokens: 0,
        cache_write_tokens: 0,
        tokens_estimated: true,
        cost_usd,
        latency_ms: Some(latency_ms),
        ttft_ms: None,
        attempts: None,
    }
}

/// Usage is read by name, and a count that fits is read as it is.
pub proof fn counts_are_read_by_name(resp: JsonModel, key: Seq<char>, n: int, status: u16, b: Seq<char>)
    ensures
        resp.at("usage"@).at(key) == JsonModel::Int(n) && 0 <= n <= u32::MAX ==> usage_count(resp, key) == n,
        !(resp.at("usage"@).at(key) is Int) ==> usage_count(resp, key) == 0,
        anthropic_error(status, Some(b)) == "Anthropic API error "@ + nat_text(status as nat) + ": "@ + b,
        anthropic_error(status, None) == "Anthropic API error "@ + nat_text(status as nat) + ": "@
            + "upstream error"@,
{
}

/// A step of the flow fails exactly where it ends, sends exactly where it goes upstream, and
/// never changes whether the answer is streamed; past the policy it was let through.
pub proof fn steps_end_or_send(f: MessagesFlow, next: MessagesFlow, a: MessagesAction, e: ApiError, name: Seq<char>)
    requires
        f.goes_on(next, a),
    ensures
        a is Fail <==> next.phase == MessagesPhase::Ended,
        a is Send <==> next.phase == MessagesPhase::Upstream,
        next.stream == f.stream,
        next.phase == MessagesPhase::Upstream || next.phase == MessagesPhase::Breaker || next.phase
            == MessagesPhase::Provider || next.phase == MessagesPhase::Resolution || next.phase
            == MessagesPhase::Pool ==> next.admitted,
        failure(a) == Some(e) <==> a == MessagesAction::Fail(e),
        asks_pool(a, name) <==> (a matches MessagesAction::ChooseFromPool { model } && model@ == name),
{
}

} // verus!
