//! The responses endpoint: a chat completion under another shape.

use crate::api::attribution::{extracted, Attribution};
use crate::api::error::{ApiError, BindError, Unavailable};
use crate::api::routes::completions::{
    build_normalized_request, copy_list, has_tools, messages_json, messages_of, named_model,
    request_has_tools, request_messages, requested_model, sent_max_tokens, sent_temperature, CompletionResult,
    NormalizedRequest,
};
use crate::api::routes::gate::{
    is_denial, is_disabled, is_invalid, is_provider_error, pass_policy, reject_experiment_header,
    take_permit, PolicyDecision,
};
use crate::api::routes::proxy::{broken_text, notes_error, BreakerNote};
use crate::api::routes::usage::{Call, Payer};
use crate::json::{
    assigned, list_models, models, removed, removed_members_are_gone, text_of_json, Json, JsonModel,
};
use crate::ordered::with_entry;
use crate::records::{Usd, User};
use crate::text::{opt_text, same};
use axum::http::{HeaderMap, HeaderValue};
use vstd::prelude::*;

verus! {

/// What the request waits for.
#[derive(Debug, Clone, Copy, PartialEq, Eq, Structural)]
pub enum ResponsesPhase {
    Policy,
    Permit,
    Resolution,
    Availability,
    Breaker,
    Adapter,
    Upstream,
    Ended,
}

/// How far a request has come.
pub open spec fn rank(p: ResponsesPhase) -> int {
    match p {
        ResponsesPhase::Policy => 0,
        ResponsesPhase::Permit => 1,
        ResponsesPhase::Resolution => 2,
        ResponsesPhase::Availability => 3,
        ResponsesPhase::Breaker => 4,
        ResponsesPhase::Adapter => 5,
        ResponsesPhase::Upstream => 6,
        ResponsesPhase::Ended => 7,
    }
}

/// What the driver is to do.
#[derive(Debug, PartialEq, Eq)]
pub enum ResponsesAction {
    CheckPolicy { model: String },
    TakePermit { max: u32 },
    Resolve { model: String },
    CheckAvailable { provider: String, model: String },
    CheckBreaker { provider: String },
    FindAdapter { provider: String },
    Call { provider: String, model: String },
    Fail(ApiError),
}

/// One request.
#[derive(Debug, PartialEq, Eq)]
pub struct ResponsesFlow {
    pub body: Json,
    pub attribution: Attribution,
    pub model: String,
    pub provider: String,
    pub canonical: String,
    pub admitted: bool,
    pub available: bool,
    pub phase: ResponsesPhase,
}

pub open spec fn failure(a: ResponsesAction) -> Option<ApiError> {
    match a {
        ResponsesAction::Fail(e) => Some(e),
        _ => None,
    }
}

/// Whether the request asks for tools, which this endpoint does not offer; null
/// and `none` both mean: do not use tools.
pub open spec fn tools_refusal(body: JsonModel) -> Option<Seq<char>> {
    if has_tools(body) {
        Some(
            "`tools` is not supported by this endpoint/model; grounded search belongs on /v1/search"@,
        )
    } else {
        match body.field("tool_choice"@) {
            Some(tc) => if tc is Null || tc == JsonModel::Str("none"@) {
                None
            } else {
                Some(
                    "`tool_choice` is not supported by this endpoint/model; grounded search belongs on /v1/search"@,
                )
            },
            None => None,
        }
    }
}

pub fn refuse_tools(body: &Json) -> (r: Result<(), ApiError>)
    ensures
        match tools_refusal(body.model()) {
            Some(msg) => r matches Err(e) && is_invalid(e, msg),
            None => r is Ok,
        },
{
    if request_has_tools(body) {
        return Err(
            ApiError::InvalidRequest(
                "`tools` is not supported by this endpoint/model; grounded search belongs on /v1/search".to_owned(),
            ),
        );
    }
    if let Some(tc) = body.get("tool_choice") {
        let none = match tc.as_str() {
            Some(s) => same(s, "none"),
            None => false,
        };
        if !tc.is_null() && !none {
            return Err(
                ApiError::InvalidRequest(
                    "`tool_choice` is not supported by this endpoint/model; grounded search belongs on /v1/search".to_owned(),
                ),
            );
        }
    }
    Ok(())
}

pub open spec fn asks_to_resolve(a: ResponsesAction, name: Seq<char>) -> bool {
    a matches ResponsesAction::Resolve { model } && model@ == name
}

pub open spec fn calls(a: ResponsesAction, called: Seq<char>, name: Seq<char>) -> bool {
    a matches ResponsesAction::Call { provider, model } && provider@ == called && model@ == name
}

impl ResponsesFlow {
    /// No provider is called for what the policy did not let through or an
    /// operator has disabled, nor for a request with tools.
    pub open spec fn wf(&self) -> bool {
        &&& self.body.wf()
        &&& self.phase != ResponsesPhase::Policy && self.phase != ResponsesPhase::Permit
            && self.phase != ResponsesPhase::Ended ==> self.admitted
        &&& self.phase == ResponsesPhase::Breaker || self.phase == ResponsesPhase::Adapter
            || self.phase == ResponsesPhase::Upstream ==> self.available && tools_refusal(
            self.body.model(),
        ) is None
    }

    pub open spec fn goes_on(&self, next: ResponsesFlow, action: ResponsesAction) -> bool {
        &&& next.wf()
        &&& next.body == self.body
        &&& next.attribution == self.attribution
        &&& next.model == self.model
        &&& self.phase != ResponsesPhase::Resolution ==> next.provider == self.provider
            && next.canonical == self.canonical
        &&& rank(self.phase) < rank(next.phase)
        &&& action is Fail <==> next.phase == ResponsesPhase::Ended
        &&& action is Call <==> next.phase == ResponsesPhase::Upstream
        &&& action is Call ==> calls(action, next.provider@, next.canonical@)
    }

    pub fn begin(
        refusal: Option<BindError>,
        headers: &HeaderMap<HeaderValue>,
        body: Json,
        default_model: &str,
    ) -> (r: Result<(ResponsesFlow, ResponsesAction), ApiError>)
        requires
            body.wf(),
        ensures
            match refusal {
                Some(err) => r matches Err(e) && is_invalid(e, err.0@),
                None => match extracted(body.model(), *headers) {
                    Err(msg) => r matches Err(e) && is_invalid(e, msg),
                    Ok(a) => {
                        &&& r matches Ok((flow, action))
                        &&& flow.wf()
                        &&& flow.body == body
                        &&& flow.attribution@ == a
                        &&& flow.model@ == named_model(body.model(), default_model@)
                        &&& flow.phase == ResponsesPhase::Policy
                        &&& action matches ResponsesAction::CheckPolicy { model } && model@
                            == named_model(body.model(), default_model@)
                    },
                },
            },
    {
        match reject_experiment_header(refusal) {
            Err(e) => {
                return Err(e);
            },
            Ok(_) => {},
        }
        let attribution = match Attribution::extract(&body, headers) {
            Ok(a) => a,
            Err(e) => {
                return Err(ApiError::InvalidRequest(e.0));
            },
        };
        let model = requested_model(&body, default_model);
        let action = ResponsesAction::CheckPolicy { model: model.clone() };
        let flow = ResponsesFlow {
            body,
            attribution,
            model,
            provider: String::new(),
            canonical: String::new(),
            admitted: false,
            available: false,
            phase: ResponsesPhase::Policy,
        };
        Ok((flow, action))
    }

    fn fail(&mut self, e: ApiError) -> (r: ResponsesAction)
        requires
            old(self).wf(),
            old(self).phase != ResponsesPhase::Resolution,
            old(self).phase != ResponsesPhase::Ended,
        ensures
            old(self).goes_on(*final(self), r),
            r == ResponsesAction::Fail(e),
    {
        self.phase = ResponsesPhase::Ended;
        ResponsesAction::Fail(e)
    }

    pub fn on_policy(&mut self, asked: Result<PolicyDecision, String>) -> (r: ResponsesAction)
        requires
            old(self).wf(),
            old(self).phase == ResponsesPhase::Policy,
        ensures
            old(self).goes_on(*final(self), r),
            match asked {
                Err(_) => failure(r) == Some(ApiError::Internal),
                Ok(PolicyDecision::Deny { reason, status, .. }) => failure(r) matches Some(e)
                    && is_denial(e, reason@, status),
                Ok(PolicyDecision::Allow { max_concurrent: Some(n) }) => final(self).phase
                    == ResponsesPhase::Permit && r == (ResponsesAction::TakePermit { max: n }),
                Ok(PolicyDecision::Allow { max_concurrent: None }) => final(self).phase
                    == ResponsesPhase::Resolution && asks_to_resolve(r, old(self).model@),
            },
    {
        match pass_policy(asked) {
            Err(e) => self.fail(e),
            Ok(Some(max)) => {
                self.phase = ResponsesPhase::Permit;
                ResponsesAction::TakePermit { max }
            },
            Ok(None) => {
                self.admitted = true;
                self.phase = ResponsesPhase::Resolution;
                ResponsesAction::Resolve { model: self.model.clone() }
            },
        }
    }

    pub fn on_permit(&mut self, acquired: bool) -> (r: ResponsesAction)
        requires
            old(self).wf(),
            old(self).phase == ResponsesPhase::Permit,
        ensures
            old(self).goes_on(*final(self), r),
            acquired ==> final(self).phase == ResponsesPhase::Resolution && asks_to_resolve(
                r,
                old(self).model@,
            ),
            !acquired ==> (failure(r) matches Some(e) && is_denial(
                e,
                "concurrent request limit exceeded"@,
                429,
            )),
    {
        match take_permit(acquired) {
            Err(e) => self.fail(e),
            Ok(_) => {
                self.admitted = true;
                self.phase = ResponsesPhase::Resolution;
                ResponsesAction::Resolve { model: self.model.clone() }
            },
        }
    }

    pub fn on_resolved(&mut self, provider: String, canonical: String) -> (r: ResponsesAction)
        requires
            old(self).wf(),
            old(self).phase == ResponsesPhase::Resolution,
        ensures
            old(self).goes_on(*final(self), r),
            final(self).provider == provider,
            final(self).canonical == canonical,
            final(self).phase == ResponsesPhase::Availability,
            r matches ResponsesAction::CheckAvailable { provider: p, model: m } && p@ == provider@
                && m@ == canonical@,
    {
        self.provider = provider;
        self.canonical = canonical;
        self.phase = ResponsesPhase::Availability;
        ResponsesAction::CheckAvailable {
            provider: self.provider.clone(),
            model: self.canonical.clone(),
        }
    }

    pub fn on_available(&mut self, disabled: Option<Unavailable>) -> (r: ResponsesAction)
        requires
            old(self).wf(),
            old(self).phase == ResponsesPhase::Availability,
        ensures
            old(self).goes_on(*final(self), r),
            match disabled {
                Some(u) => failure(r) matches Some(e) && is_disabled(e, u.0@),
                None => match tools_refusal(old(self).body.model()) {
                    Some(msg) => failure(r) matches Some(e) && is_invalid(e, msg),
                    None => {
                        &&& final(self).provider == old(self).provider
                        &&& final(self).canonical == old(self).canonical
                        &&& final(self).phase == ResponsesPhase::Breaker
                        &&& r matches ResponsesAction::CheckBreaker { provider } && provider@
                            == old(self).provider@
                    },
                },
            },
    {
        match disabled {
            Some(u) => self.fail(ApiError::Disabled(u.0)),
            None => match refuse_tools(&self.body) {
                Err(e) => self.fail(e),
                Ok(_) => {
                    self.available = true;
                    self.phase = ResponsesPhase::Breaker;
                    ResponsesAction::CheckBreaker { provider: self.provider.clone() }
                },
            },
        }
    }

    pub fn on_breaker(&mut self, open: bool) -> (r: ResponsesAction)
        requires
            old(self).wf(),
            old(self).phase == ResponsesPhase::Breaker,
        ensures
            old(self).goes_on(*final(self), r),
            open ==> (failure(r) matches Some(e) && is_provider_error(
                e,
                broken_text(old(self).provider@),
            )),
            !open ==> {
                &&& final(self).provider == old(self).provider
                &&& final(self).canonical == old(self).canonical
                &&& final(self).phase == ResponsesPhase::Adapter
                &&& r matches ResponsesAction::FindAdapter { provider } && provider@
                    == old(self).provider@
            },
    {
        if open {
            let msg = self.provider.clone().concat(" is circuit-broken");
            return self.fail(ApiError::ProviderError(msg));
        }
        self.phase = ResponsesPhase::Adapter;
        ResponsesAction::FindAdapter { provider: self.provider.clone() }
    }

    pub fn on_adapter(&mut self, found: Result<(), String>) -> (r: ResponsesAction)
        requires
            old(self).wf(),
            old(self).phase == ResponsesPhase::Adapter,
        ensures
            old(self).goes_on(*final(self), r),
            match found {
                Err(msg) => failure(r) matches Some(e) && is_provider_error(e, msg@),
                Ok(_) => {
                    &&& final(self).provider == old(self).provider
                    &&& final(self).canonical == old(self).canonical
                    &&& final(self).phase == ResponsesPhase::Upstream
                    &&& calls(r, old(self).provider@, old(self).canonical@)
                },
            },
    {
        match found {
            Err(msg) => self.fail(ApiError::ProviderError(msg)),
            Ok(_) => {
                self.phase = ResponsesPhase::Upstream;
                ResponsesAction::Call {
                    provider: self.provider.clone(),
                    model: self.canonical.clone(),
                }
            },
        }
    }
}

/// What the provider's answer comes to. An error is noted against it.
pub fn answered(result: Result<CompletionResult, String>) -> (r: (
    BreakerNote,
    Result<CompletionResult, ApiError>,
))
    ensures
        match result {
            Ok(c) => r.0 is Success && r.1 == Ok::<CompletionResult, ApiError>(c),
            Err(msg) => notes_error(r.0, msg@) && (r.1 matches Err(e) && is_provider_error(
                e,
                msg@,
            )),
        },
{
    match result {
        Ok(c) => (BreakerNote::Success, Ok(c)),
        Err(msg) => (BreakerNote::Erred(msg.clone()), Err(ApiError::ProviderError(msg))),
    }
}

/// Whether `c` is charged for what was asked, to the pair that was called.
pub open spec fn is_charge_of(c: Call, flow: ResponsesFlow) -> bool {
    &&& c.request_model@ == flow.model@
    &&& c.model@ == flow.canonical@
    &&& c.provider@ == flow.provider@
}

/// The call that an answer is charged as. The messages are those that the
/// provider was sent; the cost is recorded whatever becomes of the prompt.
pub fn responses_call(
    user: &User,
    flow: &ResponsesFlow,
    result: &CompletionResult,
    cost_usd: Usd,
    latency_ms: i64,
) -> (r: Call)
    requires
        flow.wf(),
    ensures
        r.payer.pays_for(*user, flow.attribution),
        is_charge_of(r, *flow),
        r.messages@ == text_of_json(JsonModel::Arr(messages_of(with_messages(flow.body.model())))),
        opt_text(r.response) == Some(result.content@),
        opt_text(r.finish_reason) == Some(result.finish_reason@),
        r.prompt_tokens == result.prompt_tokens,
        r.completion_tokens == result.completion_tokens,
        r.cache_read_tokens == result.cache_read_tokens,
        r.cache_write_tokens == result.cache_write_tokens,
        !r.tokens_estimated,
        r.cost_usd == cost_usd,
        r.latency_ms == Some(latency_ms),
        r.ttft_ms is None,
        r.attempts is None,
{
    let sent = translate_input(&flow.body);
    Call {
        payer: Payer::new(user, &flow.attribution),
        request_model: flow.model.clone(),
        model: flow.canonical.clone(),
        provider: flow.provider.clone(),
        messages: messages_json(&sent),
        response: Some(result.content.clone()),
        finish_reason: Some(result.finish_reason.clone()),
        prompt_tokens: result.prompt_tokens as i64,
        completion_tokens: result.completion_tokens as i64,
        cache_read_tokens: result.cache_read_tokens as i64,
        cache_write_tokens: result.cache_write_tokens as i64,
        tokens_estimated: false,
        cost_usd,
        latency_ms: Some(latency_ms),
        ttft_ms: None,
        attempts: None,
    }
}

// ---------------------------------------------------------------------------
// The body
// ---------------------------------------------------------------------------

/// One message of the user.
pub open spec fn user_message(text: Seq<char>) -> JsonModel {
    JsonModel::Obj(
        with_entry(
            with_entry(Seq::empty(), "role"@, JsonModel::Str("user"@)),
            "content"@,
            JsonModel::Str(text),
        ),
    )
}

/// The body with messages: its own, or else its input as one message, or else
/// its input where that is a list. The input itself goes.
pub open spec fn with_messages(body: JsonModel) -> JsonModel {
    let filled = if body.at("messages"@) is Arr {
        body
    } else {
        match body.at("input"@) {
            JsonModel::Str(text) => assigned(
                body,
                "messages"@,
                JsonModel::Arr(seq![user_message(text)]),
            ),
            JsonModel::Arr(items) => assigned(body, "messages"@, JsonModel::Arr(items)),
            _ => body,
        }
    };
    removed(filled, "input"@)
}

/// Translates the input of a request into messages.
pub fn translate_input(body: &Json) -> (r: Json)
    requires
        body.wf(),
    ensures
        r.model() == with_messages(body.model()),
        r.wf(),
{
    let has_messages = match body.get("messages") {
        Some(v) => v.as_array().is_some(),
        None => false,
    };
    let mut out = body.copied();
    if !has_messages {
        if let Some(input) = body.get("input") {
            proof {
                Json::lemma_field_wf(body.model(), "input"@);
            }
            match input {
                Json::Str(text) => {
                    let message = Json::object().with("role", Json::Str("user".to_owned())).with(
                        "content",
                        Json::Str(text.clone()),
                    );
                    let mut list: Vec<Json> = Vec::new();
                    list.push(message);
                    proof {
                        Json::lemma_arr(list);
                        assert(list_models(list@) =~= seq![message.model()]);
                    }
                    out = out.assign("messages", Json::Arr(list));
                },
                Json::Arr(items) => {
                    let list = copy_list(items);
                    proof {
                        Json::lemma_arr(list);
                        Json::lemma_arr(*items);
                    }
                    out = out.assign("messages", Json::Arr(list));
                },
                _ => {},
            }
        }
    }
    out.without("input")
}

/// The request for a provider: never a stream, never with tools, and with the
/// input as its messages.
pub fn responses_request(body: &Json, model: String, temperature_supported: bool) -> (r:
    NormalizedRequest)
    requires
        body.wf(),
    ensures
        r.model == model,
        list_models(r.messages@) == messages_of(with_messages(body.model())),
        !r.stream,
        models(r.temperature) == sent_temperature(body.model(), temperature_supported),
        r.max_tokens == sent_max_tokens(body.model()),
        r.tools is None,
        r.tool_choice is None,
{
    let mut request = build_normalized_request(body, model, temperature_supported);
    request.messages = request_messages(&translate_input(body));
    request.stream = false;
    request.tools = None;
    request.tool_choice = None;
    request
}

pub open spec fn responses_choice(content: Seq<char>, finish_reason: Seq<char>) -> JsonModel {
    let m = with_entry(Seq::empty(), "role"@, JsonModel::Str("assistant"@));
    let m = with_entry(m, "content"@, JsonModel::Str(content));
    let c = with_entry(Seq::empty(), "message"@, JsonModel::Obj(m));
    JsonModel::Obj(with_entry(c, "finish_reason"@, JsonModel::Str(finish_reason)))
}

pub open spec fn responses_usage(input: u32, output: u32) -> JsonModel {
    let u = with_entry(Seq::empty(), "input_tokens"@, JsonModel::Int(input as int));
    JsonModel::Obj(with_entry(u, "output_tokens"@, JsonModel::Int(output as int)))
}

/// The body of an answer.
pub open spec fn responses_body(id: Seq<char>, model: Seq<char>, result: CompletionResult) -> JsonModel {
    let b = with_entry(Seq::empty(), "id"@, JsonModel::Str(id));
    let b = with_entry(b, "object"@, JsonModel::Str("response"@));
    let b = with_entry(b, "model"@, JsonModel::Str(model));
    let b = with_entry(
        b,
        "choices"@,
        JsonModel::Arr(seq![responses_choice(result.content@, result.finish_reason@)]),
    );
    JsonModel::Obj(
        with_entry(b, "usage"@, responses_usage(result.prompt_tokens, result.completion_tokens)),
    )
}

/// Builds the answer.
pub fn build_response(id: String, model: &str, result: &CompletionResult) -> (r: Json)
    ensures
        r.model() == responses_body(id@, model@, *result),
        r.wf(),
{
    let message = Json::object().with("role", Json::Str("assistant".to_owned())).with(
        "content",
        Json::Str(result.content.clone()),
    );
    let choice = Json::object().with("message", message).with(
        "finish_reason",
        Json::Str(result.finish_reason.clone()),
    );
    let mut choices: Vec<Json> = Vec::new();
    choices.push(choice);
    let choices_json = Json::Arr(choices);
    proof {
        Json::lemma_arr(choices);
        assert(list_models(choices@) =~= seq![choice.model()]);
    }
    let usage = Json::object().with(
        "input_tokens",
        Json::PosInt(result.prompt_tokens as u64),
    ).with("output_tokens", Json::PosInt(result.completion_tokens as u64));
    Json::object().with("id", Json::Str(id)).with("object", Json::Str("response".to_owned())).with(
        "model",
        Json::Str(model.to_owned()),
    ).with("choices", choices_json).with("usage", usage)
}

// ---------------------------------------------------------------------------
// Laws
// ---------------------------------------------------------------------------

/// One step of a request, as the methods of the flow promise it.
pub struct ResponsesStep {
    pub before: ResponsesFlow,
    pub after: ResponsesFlow,
    pub action: ResponsesAction,
}

/// Whether steps follow one another.
pub open spec fn is_walk(steps: Seq<ResponsesStep>) -> bool {
    &&& forall|i: int|
        0 <= i < steps.len() ==> (#[trigger] steps[i]).before.goes_on(
            steps[i].after,
            steps[i].action,
        )
    &&& forall|i: int, j: int|
        0 <= i && i + 1 == j && j < steps.len() ==> (#[trigger] steps[i]).after
            == (#[trigger] steps[j]).before
}

proof fn lemma_pair_is_kept(steps: Seq<ResponsesStep>, i: int)
    requires
        is_walk(steps),
        0 <= i < steps.len(),
        steps[0].before.phase == ResponsesPhase::Resolution,
    ensures
        rank(steps[i].after.phase) > rank(ResponsesPhase::Resolution),
        steps[i].after.model == steps[0].before.model,
        steps[i].after.provider == steps[0].after.provider,
        steps[i].after.canonical == steps[0].after.canonical,
    decreases i,
{
    assert(steps[i].before.goes_on(steps[i].after, steps[i].action));
    if i > 0 {
        lemma_pair_is_kept(steps, i - 1);
        assert(steps[i - 1].after == steps[i].before);
    }
}

/// The provider and model that a name resolved to are the ones that are called, and
/// the ones that the call is charged to.
pub proof fn what_was_resolved_is_called_and_charged(steps: Seq<ResponsesStep>, charged: Call)
    requires
        is_walk(steps),
        steps.len() > 0,
        steps[0].before.phase == ResponsesPhase::Resolution,
        steps.last().action is Call,
        is_charge_of(charged, steps.last().after),
    ensures
        charged.request_model@ == steps[0].before.model@,
        charged.provider@ == steps[0].after.provider@,
        charged.model@ == steps[0].after.canonical@,
        calls(steps.last().action, charged.provider@, charged.model@),
{
    let last = steps.len() - 1;
    lemma_pair_is_kept(steps, last);
    assert(steps[last].before.goes_on(steps[last].after, steps[last].action));
}

/// The answer names the request and the model, holds what the model said and why it
/// stopped, and counts the tokens that went in and came out.
pub proof fn responses_tell_what_the_provider_said(
    id: Seq<char>,
    model: Seq<char>,
    result: CompletionResult,
    answer: JsonModel,
)
    requires
        answer == responses_body(id, model, result),
    ensures
        answer.at("id"@) == JsonModel::Str(id),
        answer.at("object"@) == JsonModel::Str("response"@),
        answer.at("model"@) == JsonModel::Str(model),
        answer.at("choices"@).items() matches Some(c) && c.len() == 1,
        answer.at("choices"@).item(0).at("message"@).at("role"@) == JsonModel::Str("assistant"@),
        answer.at("choices"@).item(0).at("message"@).at("content"@) == JsonModel::Str(result.content@),
        answer.at("choices"@).item(0).at("finish_reason"@) == JsonModel::Str(result.finish_reason@),
        answer.at("usage"@).at("input_tokens"@) == JsonModel::Int(result.prompt_tokens as int),
        answer.at("usage"@).at("output_tokens"@) == JsonModel::Int(result.completion_tokens as int),
{
    broadcast use {
        crate::ordered::entries_are_found,
        crate::ordered::nothing_is_found_in_nothing,
    };

    reveal_strlit("id");
    reveal_strlit("object");
    reveal_strlit("model");
    reveal_strlit("choices");
    reveal_strlit("message");
    reveal_strlit("role");
    reveal_strlit("content");
    reveal_strlit("finish_reason");
    reveal_strlit("usage");
    reveal_strlit("input_tokens");
    reveal_strlit("output_tokens");
    assert("id"@.len() == 2);
    assert("object"@.len() == 6);
    assert("model"@.len() == 5 && "model"@[0] == 'm');
    assert("choices"@.len() == 7 && "choices"@[1] == 'h');
    assert("message"@.len() == 7 && "message"@[1] == 'e');
    assert("role"@.len() == 4);
    assert("content"@.len() == 7 && "content"@[1] == 'o');
    assert("finish_reason"@.len() == 13 && "finish_reason"@[0] == 'f');
    assert("usage"@.len() == 5 && "usage"@[0] == 'u');
    assert("input_tokens"@.len() == 12);
    assert("output_tokens"@.len() == 13 && "output_tokens"@[0] == 'o');
}

/// The messages that a provider is sent are those of the request; else its input, as one
/// message of the user where it is a text, and item by item where it is a list. Everything
/// else of the request stays, but for the input.
pub proof fn input_becomes_messages(body: JsonModel, other: Seq<char>)
    requires
        body is Obj,
    ensures
        body.at("messages"@) matches JsonModel::Arr(m) ==> with_messages(body).at("messages"@)
            == JsonModel::Arr(m),
        !(body.at("messages"@) is Arr) ==> (body.at("input"@) matches JsonModel::Str(text) ==> {
            let sent = with_messages(body).at("messages"@);
            &&& sent.items() matches Some(m) && m.len() == 1
            &&& sent.item(0).at("role"@) == JsonModel::Str("user"@)
            &&& sent.item(0).at("content"@) == JsonModel::Str(text)
        }),
        !(body.at("messages"@) is Arr) ==> (body.at("input"@) matches JsonModel::Arr(items)
            ==> with_messages(body).at("messages"@) == JsonModel::Arr(items)),
        with_messages(body).field("input"@) is None,
        other != "messages"@ && other != "input"@ ==> with_messages(body).field(other) == body.field(other),
{
    broadcast use {
        crate::ordered::entries_are_found,
        crate::ordered::nothing_is_found_in_nothing,
    };

    reveal_strlit("messages");
    reveal_strlit("input");
    reveal_strlit("role");
    reveal_strlit("content");
    assert("messages"@.len() == 8);
    assert("input"@.len() == 5);
    assert("role"@.len() == 4);
    assert("content"@.len() == 7);
    if let JsonModel::Obj(entries) = body {
        let filled = if body.at("messages"@) is Arr {
            body
        } else {
            match body.at("input"@) {
                JsonModel::Str(text) => assigned(
                    body,
                    "messages"@,
                    JsonModel::Arr(seq![user_message(text)]),
                ),
                JsonModel::Arr(items) => assigned(body, "messages"@, JsonModel::Arr(items)),
                _ => body,
            }
        };
        assert(with_messages(body) == removed(filled, "input"@));
        assert("input"@ != "messages"@);
        removed_members_are_gone(filled, "input"@, "messages"@);
        removed_members_are_gone(filled, "input"@, other);
    }
}

/// A request that brings tools, or a choice among tools other than none, is refused.
pub proof fn tools_are_refused(body: JsonModel)
    ensures
        body.at("tools"@) matches JsonModel::Arr(t) ==> (t.len() > 0 ==> tools_refusal(body) is Some),
        tools_refusal(body) is None ==> !has_tools(body) && (body.at("tool_choice"@) is Null
            || body.at("tool_choice"@) == JsonModel::Str("none"@)),
        !has_tools(body) && (body.at("tool_choice"@) is Null || body.at("tool_choice"@) == JsonModel::Str(
            "none"@,
        )) ==> tools_refusal(body) is None,
{
}

/// A step of the flow keeps the body, who is charged and what was resolved, goes forward, and
/// calls only what was let through and is in rotation.
pub proof fn steps_keep_what_was_resolved(f: ResponsesFlow, next: ResponsesFlow, a: ResponsesAction, p: Seq<char>, m: Seq<char>)
    ensures
        f.goes_on(next, a) ==> next.body == f.body && next.attribution == f.attribution && next.model
            == f.model,
        f.goes_on(next, a) && f.phase != ResponsesPhase::Resolution ==> next.provider == f.provider
            && next.canonical == f.canonical,
        f.goes_on(next, a) ==> (a is Fail <==> next.phase == ResponsesPhase::Ended),
        f.goes_on(next, a) ==> (a matches ResponsesAction::Call { provider, model } ==> provider@
            == next.provider@ && model@ == next.canonical@ && next.admitted && next.available),
        asks_to_resolve(a, m) <==> (a matches ResponsesAction::Resolve { model } && model@ == m),
        calls(a, p, m) <==> (a matches ResponsesAction::Call { provider, model } && provider@ == p && model@
            == m),
{
}

} // verus!
