//! Chat completions: what a request asks for, and what is answered and stored.

use crate::api::error::ApiError;
use crate::api::headers::{flagged, is_flagged};
use crate::api::routes::router_meta::TokenMeta;
use crate::api::routes::stream_log::{low32, to_low32, StreamAcc, StreamUsage};
use crate::api::routes::usage::{Call, LedgerWrite, Payer};
use crate::json::{json_int, list_models, models, text_of_json, Json, JsonModel};
use crate::ordered::with_entry;
use crate::records::Usd;
use crate::sums::total;
use crate::text::{byte_count, byte_len, contains, contains_text, opt_text, same};
use axum::http::{HeaderMap, HeaderValue};
use vstd::prelude::*;

verus! {

/// Response header telling callers whether the body came from the router cache.
pub const CACHE_HEADER: &'static str = "x-modelrouter-cache";

/// Whether the request opts out of its session's pin.
pub fn should_skip_affinity(headers: &HeaderMap<HeaderValue>) -> (r: bool)
    ensures
        r == flagged(*headers, "x-session-lb"@),
{
    is_flagged(headers, "x-session-lb")
}

/// Whether the request asks to leave no prompt behind.
pub fn should_skip_logging(headers: &HeaderMap<HeaderValue>) -> (r: bool)
    ensures
        r == flagged(*headers, "x-no-log"@),
{
    is_flagged(headers, "x-no-log")
}

// ---------------------------------------------------------------------------
// Reading a request
// ---------------------------------------------------------------------------

/// The model that a request names, or else the default.
pub open spec fn named_model(body: JsonModel, default_model: Seq<char>) -> Seq<char> {
    match body.at("model"@).text() {
        Some(m) => m,
        None => default_model,
    }
}

pub fn requested_model(body: &Json, default_model: &str) -> (r: String)
    ensures
        r@ == named_model(body.model(), default_model@),
{
    if let Some(v) = body.get("model") {
        if let Some(m) = v.as_str() {
            return m.to_owned();
        }
    }
    default_model.to_owned()
}

pub open spec fn wants_stream(body: JsonModel) -> bool {
    body.at("stream"@).boolean() == Some(true)
}

pub fn is_stream(body: &Json) -> (r: bool)
    ensures
        r == wants_stream(body.model()),
{
    match body.get("stream") {
        Some(v) => match v.as_bool() {
            Some(b) => b,
            None => false,
        },
        None => false,
    }
}

/// The messages of a request, none where it has no array of them.
pub open spec fn messages_of(body: JsonModel) -> Seq<JsonModel> {
    match body.at("messages"@).items() {
        Some(items) => items,
        None => Seq::empty(),
    }
}

/// The messages of a request.
pub fn request_messages(body: &Json) -> (r: Vec<Json>)
    ensures
        list_models(r@) == messages_of(body.model()),
{
    if let Some(v) = body.get("messages") {
        if let Some(items) = v.as_array() {
            return copy_list(items);
        }
    }
    let none: Vec<Json> = Vec::new();
    assert(list_models(none@) =~= Seq::empty());
    none
}

/// A list with the same contents.
pub fn copy_list(items: &Vec<Json>) -> (r: Vec<Json>)
    ensures
        list_models(r@) == list_models(items@),
        r@.len() == items@.len(),
{
    let mut out: Vec<Json> = Vec::new();
    let mut i: usize = 0;
    while i < items.len()
        invariant
            i <= items@.len(),
            out@.len() == i,
            list_models(out@) == list_models(items@).take(i as int),
        decreases items@.len() - i,
    {
        let ghost before = list_models(out@);
        let item = items[i].copied();
        out.push(item);
        assert(list_models(out@) =~= before.push(item.model()));
        assert(list_models(out@) =~= list_models(items@).take(i + 1));
        i += 1;
    }
    assert(list_models(out@) =~= list_models(items@));
    out
}

/// The messages of a request as JSON text, as they are stored.
pub fn messages_json(body: &Json) -> (r: String)
    requires
        body.wf(),
    ensures
        r@ == text_of_json(JsonModel::Arr(messages_of(body.model()))),
{
    let messages = request_messages(body);
    let ghost m = messages_of(body.model());
    proof {
        Json::lemma_field_wf(body.model(), "messages"@);
        Json::lemma_arr(messages);
        assert(JsonModel::Arr(m).wf());
    }
    Json::Arr(messages).to_text()
}

/// Whether a request carries tools: an array with something in it.
pub open spec fn has_tools(body: JsonModel) -> bool {
    body.at("tools"@).items() matches Some(t) && t.len() > 0
}

pub fn request_has_tools(body: &Json) -> (r: bool)
    ensures
        r == has_tools(body.model()),
{
    match body.get("tools") {
        Some(v) => match v.as_array() {
            Some(t) => {
                assert(list_models(t@).len() == t@.len());
                t.len() > 0
            },
            None => false,
        },
        None => false,
    }
}

/// Whether a request steers the model toward tools it does not bring. Null and
/// `none` both mean: do not use tools.
pub open spec fn stray_tool_choice(body: JsonModel) -> bool {
    &&& !has_tools(body)
    &&& body.field("tool_choice"@) matches Some(tc) && !(tc is Null) && tc != JsonModel::Str("none"@)
}

pub fn validate_tool_choice_requires_tools(body: &Json) -> (r: Result<(), ApiError>)
    ensures
        stray_tool_choice(body.model()) ==> (r matches Err(ApiError::InvalidRequest(msg)) && msg@
            == "`tool_choice` requires a non-empty `tools` array"@),
        !stray_tool_choice(body.model()) ==> r is Ok,
{
    if request_has_tools(body) {
        return Ok(());
    }
    if let Some(tc) = body.get("tool_choice") {
        let none = match tc.as_str() {
            Some(s) => same(s, "none"),
            None => false,
        };
        if !tc.is_null() && !none {
            return Err(
                ApiError::InvalidRequest(
                    "`tool_choice` requires a non-empty `tools` array".to_owned(),
                ),
            );
        }
    }
    Ok(())
}

/// What one message counts for against the session's rate limit: a quarter of
/// the bytes of its text, or 50 where it has none.
pub open spec fn message_estimate(message: JsonModel) -> int {
    match message.at("content"@).text() {
        Some(s) => low32((byte_count(s) / 4) as u64) as int,
        None => 50,
    }
}

pub open spec fn messages_estimate(messages: Seq<JsonModel>) -> int
    decreases messages.len(),
{
    if messages.len() == 0 {
        0
    } else {
        messages_estimate(messages.drop_last()) + message_estimate(messages.last())
    }
}

/// What a request counts for against the session's rate limit, modulo 2^32; 100
/// where it has no array of messages.
pub open spec fn session_estimate(body: JsonModel) -> u32 {
    match body.at("messages"@).items() {
        Some(items) => (messages_estimate(items) % 0x1_0000_0000) as u32,
        None => 100,
    }
}

fn estimate_message(message: &Json) -> (r: u32)
    ensures
        r == message_estimate(message.model()),
{
    if let Some(v) = message.get("content") {
        if let Some(s) = v.as_str() {
            return to_low32((byte_len(s) / 4) as u64);
        }
    }
    50
}

/// Estimates what a request counts for against the session's rate limit.
pub fn estimate_session_tokens(body: &Json) -> (r: u32)
    ensures
        r == session_estimate(body.model()),
{
    let items = match body.get("messages") {
        Some(v) => match v.as_array() {
            Some(items) => items,
            None => {
                return 100;
            },
        },
        None => {
            return 100;
        },
    };
    let ghost all = list_models(items@);
    let mut sum: u64 = 0;
    let mut i: usize = 0;
    while i < items.len()
        invariant
            i <= items@.len(),
            all == list_models(items@),
            sum < 0x1_0000_0000,
            sum == messages_estimate(all.take(i as int)) % 0x1_0000_0000,
        decreases items@.len() - i,
    {
        assert(all.take(i + 1).drop_last() =~= all.take(i as int));
        assert(all.take(i + 1).last() == items@[i as int].model());
        let part: u32 = estimate_message(&items[i]);
        let next: u64 = (sum + part as u64) % 0x1_0000_0000;
        proof {
            let a = messages_estimate(all.take(i as int));
            assert((a % 0x1_0000_0000 + part as int) % 0x1_0000_0000 == (a + part as int)
                % 0x1_0000_0000) by (nonlinear_arith);
        }
        sum = next;
        i += 1;
    }
    assert(all.take(i as int) =~= all);
    sum as u32
}

/// The session that a request belongs to, if it names one.
pub open spec fn session_of(body: JsonModel) -> Option<Seq<char>> {
    body.at("session_id"@).text()
}

pub fn request_session(body: &Json) -> (r: Option<String>)
    ensures
        opt_text(r) == session_of(body.model()),
{
    match body.get("session_id") {
        Some(v) => match v.as_str() {
            Some(s) => Some(s.to_owned()),
            None => None,
        },
        None => None,
    }
}

/// How long a session lasts for a user that sets nothing, in seconds.
pub const DEFAULT_SESSION_WINDOW_SECS: i64 = 28800;

/// The body that pipeline hooks see: an object also tells them the user's
/// session window.
pub open spec fn hook_body(body: JsonModel, window: Option<i64>) -> JsonModel {
    match body {
        JsonModel::Obj(entries) => JsonModel::Obj(
            with_entry(
                entries,
                "_mr_session_window_secs"@,
                JsonModel::Int(
                    match window {
                        Some(n) => n as int,
                        None => DEFAULT_SESSION_WINDOW_SECS as int,
                    },
                ),
            ),
        ),
        _ => body,
    }
}

pub fn with_session_window(body: Json, window: Option<i64>) -> (r: Json)
    requires
        body.wf(),
    ensures
        r.model() == hook_body(body.model(), window),
        r.wf(),
{
    let n: i64 = match window {
        Some(n) => n,
        None => DEFAULT_SESSION_WINDOW_SECS,
    };
    body.with("_mr_session_window_secs", json_int(n))
}

/// The label under which a denial is counted.
pub open spec fn denial_label(reason: Seq<char>) -> Seq<char> {
    if contains_text(reason, "budget"@) {
        "budget"@
    } else if contains_text(reason, "rate"@) {
        "rate_limit"@
    } else {
        "model_denied"@
    }
}

pub fn denial_metric(reason: &str) -> (r: &'static str)
    ensures
        r@ == denial_label(reason@),
{
    if contains(reason, "budget") {
        "budget"
    } else if contains(reason, "rate") {
        "rate_limit"
    } else {
        "model_denied"
    }
}

// ---------------------------------------------------------------------------
// The request to a provider
// ---------------------------------------------------------------------------

/// A chat request in the form that every provider adapter takes.
#[derive(Debug, PartialEq, Eq)]
pub struct NormalizedRequest {
    pub model: String,
    pub messages: Vec<Json>,
    pub stream: bool,
    /// A number.
    pub temperature: Option<Json>,
    pub max_tokens: Option<u32>,
    pub tools: Option<Vec<Json>>,
    pub tool_choice: Option<Json>,
}

pub open spec fn is_number(m: JsonModel) -> bool {
    m is Int || m is Float
}

/// The temperature that a model is sent: a number, and only where the model
/// takes one. Callers address an alias and cannot know what it resolves to.
pub open spec fn sent_temperature(body: JsonModel, supported: bool) -> Option<JsonModel> {
    if supported && is_number(body.at("temperature"@)) {
        Some(body.at("temperature"@))
    } else {
        None
    }
}

pub open spec fn sent_max_tokens(body: JsonModel) -> Option<u32> {
    match body.at("max_tokens"@).unsigned() {
        Some(n) => Some(low32(n)),
        None => None,
    }
}

/// Tools ride along only where there are some, and a choice among them only with
/// them.
pub open spec fn sent_tool_choice(body: JsonModel) -> Option<JsonModel> {
    if has_tools(body) {
        match body.field("tool_choice"@) {
            Some(tc) => if tc is Null {
                None
            } else {
                Some(tc)
            },
            None => None,
        }
    } else {
        None
    }
}

/// Builds the request for a provider.
pub fn build_normalized_request(body: &Json, model: String, temperature_supported: bool) -> (r:
    NormalizedRequest)
    ensures
        r.model == model,
        list_models(r.messages@) == messages_of(body.model()),
        r.stream == wants_stream(body.model()),
        models(r.temperature) == sent_temperature(body.model(), temperature_supported),
        r.max_tokens == sent_max_tokens(body.model()),
        r.tools matches Some(t) ==> has_tools(body.model()) && body.model().at("tools"@)
            == JsonModel::Arr(list_models(t@)),
        r.tools is None ==> !has_tools(body.model()),
        models(r.tool_choice) == sent_tool_choice(body.model()),
{
    let temperature = match body.get("temperature") {
        Some(v) => match v {
            Json::PosInt(_) => if temperature_supported {
                Some(v.copied())
            } else {
                None
            },
            Json::NegInt(_) => if temperature_supported {
                Some(v.copied())
            } else {
                None
            },
            Json::Float(_) => if temperature_supported {
                Some(v.copied())
            } else {
                None
            },
            _ => None,
        },
        None => None,
    };
    let max_tokens = match body.get("max_tokens") {
        Some(v) => match v.as_u64() {
            Some(n) => Some(to_low32(n)),
            None => None,
        },
        None => None,
    };
    let with_tools = request_has_tools(body);
    let tools = if with_tools {
        match body.get("tools") {
            Some(v) => match v.as_array() {
                Some(t) => Some(copy_list(t)),
                None => None,
            },
            None => None,
        }
    } else {
        None
    };
    let tool_choice = if with_tools {
        match body.get("tool_choice") {
            Some(Json::Null) => None,
            Some(tc) => Some(tc.copied()),
            None => None,
        }
    } else {
        None
    };
    NormalizedRequest {
        model,
        messages: request_messages(body),
        stream: is_stream(body),
        temperature,
        max_tokens,
        tools,
        tool_choice,
    }
}

// ---------------------------------------------------------------------------
// The answer
// ---------------------------------------------------------------------------

/// A provider's completion.
#[derive(Debug, PartialEq, Eq)]
pub struct CompletionResult {
    pub content: String,
    pub prompt_tokens: u32,
    pub completion_tokens: u32,
    pub finish_reason: String,
    pub cache_read_tokens: u32,
    pub cache_write_tokens: u32,
    pub ttft_ms: Option<i64>,
    pub tool_calls: Option<Json>,
}

/// The content of an answer: null, not the empty text, where the model only
/// calls tools.
pub open spec fn answer_content(content: Seq<char>, tool_calls: Option<JsonModel>) -> JsonModel {
    if content.len() == 0 && tool_calls is Some {
        JsonModel::Null
    } else {
        JsonModel::Str(content)
    }
}

pub open spec fn answer_message(content: Seq<char>, tool_calls: Option<JsonModel>) -> JsonModel {
    let m = with_entry(Seq::empty(), "role"@, JsonModel::Str("assistant"@));
    let m = with_entry(m, "content"@, answer_content(content, tool_calls));
    JsonModel::Obj(
        match tool_calls {
            Some(calls) => with_entry(m, "tool_calls"@, calls),
            None => m,
        },
    )
}

pub open spec fn answer_usage(prompt: u32, completion: u32) -> JsonModel {
    let u = with_entry(Seq::empty(), "prompt_tokens"@, JsonModel::Int(prompt as int));
    let u = with_entry(u, "completion_tokens"@, JsonModel::Int(completion as int));
    JsonModel::Obj(with_entry(u, "total_tokens"@, JsonModel::Int(prompt + completion)))
}

pub open spec fn answer_choice(message: JsonModel, finish_reason: Seq<char>) -> JsonModel {
    let c = with_entry(Seq::empty(), "index"@, JsonModel::Int(0));
    let c = with_entry(c, "message"@, message);
    JsonModel::Obj(with_entry(c, "finish_reason"@, JsonModel::Str(finish_reason)))
}

/// The body of an OpenAI chat completion. `model` is the model that answered,
/// not the alias that the caller asked for.
pub open spec fn openai_body(
    request_id: Seq<char>,
    model: Seq<char>,
    result: CompletionResult,
) -> JsonModel {
    let message = answer_message(result.content@, models(result.tool_calls));
    let b = with_entry(Seq::empty(), "id"@, JsonModel::Str(request_id));
    let b = with_entry(b, "object"@, JsonModel::Str("chat.completion"@));
    let b = with_entry(b, "model"@, JsonModel::Str(model));
    let b = with_entry(
        b,
        "choices"@,
        JsonModel::Arr(seq![answer_choice(message, result.finish_reason@)]),
    );
    JsonModel::Obj(
        with_entry(b, "usage"@, answer_usage(result.prompt_tokens, result.completion_tokens)),
    )
}

/// Builds the answer to a chat completion.
pub fn build_openai_response(request_id: String, model: &str, result: &CompletionResult) -> (r: Json)
    requires
        result.prompt_tokens + result.completion_tokens <= u32::MAX,
        result.tool_calls matches Some(calls) ==> calls.wf(),
    ensures
        r.model() == openai_body(request_id@, model@, *result),
        r.model().at("usage"@).at("prompt_tokens"@) == JsonModel::Int(result.prompt_tokens as int),
        r.model().at("usage"@).at("completion_tokens"@) == JsonModel::Int(
            result.completion_tokens as int,
        ),
        r.wf(),
{
    let content = if result.content.as_str().is_empty() && result.tool_calls.is_some() {
        Json::Null
    } else {
        Json::Str(result.content.clone())
    };
    let mut message = Json::object().with("role", Json::Str("assistant".to_owned())).with(
        "content",
        content,
    );
    if let Some(calls) = &result.tool_calls {
        message = message.with("tool_calls", calls.copied());
    }
    let choice = Json::object().with("index", Json::PosInt(0)).with("message", message).with(
        "finish_reason",
        Json::Str(result.finish_reason.clone()),
    );
    let usage = Json::object().with(
        "prompt_tokens",
        Json::PosInt(result.prompt_tokens as u64),
    ).with("completion_tokens", Json::PosInt(result.completion_tokens as u64)).with(
        "total_tokens",
        Json::PosInt((result.prompt_tokens + result.completion_tokens) as u64),
    );
    let mut choices: Vec<Json> = Vec::new();
    choices.push(choice);
    let choices_json = Json::Arr(choices);
    proof {
        Json::lemma_arr(choices);
        assert(list_models(choices@) =~= seq![choice.model()]);
        answers_tell_what_the_provider_said(
            request_id@,
            model@,
            *result,
            openai_body(request_id@, model@, *result),
        );
    }
    Json::object().with("id", Json::Str(request_id)).with(
        "object",
        Json::Str("chat.completion".to_owned()),
    ).with("model", Json::Str(model.to_owned())).with("choices", choices_json).with("usage", usage)
}

/// The tokens of an answer, as the router accounts for them.
pub fn completion_tokens(result: &CompletionResult) -> (r: TokenMeta)
    requires
        result.prompt_tokens + result.completion_tokens <= u32::MAX,
    ensures
        r == (TokenMeta {
            prompt: result.prompt_tokens,
            completion: result.completion_tokens,
            total: (result.prompt_tokens + result.completion_tokens) as u32,
            cache_read: result.cache_read_tokens,
            cache_write: result.cache_write_tokens,
            reasoning: None,
            estimated: false,
        }),
{
    let mut tokens = TokenMeta::new(result.prompt_tokens, result.completion_tokens);
    tokens.cache_read = result.cache_read_tokens;
    tokens.cache_write = result.cache_write_tokens;
    tokens
}

// ---------------------------------------------------------------------------
// What is charged
// ---------------------------------------------------------------------------

/// The token counts to be priced: what was not served from the provider's
/// prompt cache, and what was read from and written to it.
#[derive(Debug, Clone, Copy, PartialEq, Eq, Structural)]
pub struct PricedTokens {
    pub prompt: u32,
    pub completion: u32,
    pub cache_read: u32,
    pub cache_write: u32,
}

/// The call that a completion is charged as. Provider and model are the pair
/// that answered: a row priced at the first pair's rate for tokens that a
/// fallback produced would misstate spend.
pub fn completed_call(
    payer: Payer,
    request_model: String,
    provider: String,
    model: String,
    messages: String,
    result: &CompletionResult,
    attempts: i64,
    cost_usd: Usd,
    latency_ms: i64,
) -> (r: Call)
    ensures
        r.payer == payer,
        r.request_model == request_model,
        r.provider == provider,
        r.model == model,
        r.messages == messages,
        opt_text(r.response) == Some(result.content@),
        opt_text(r.finish_reason) == Some(result.finish_reason@),
        r.prompt_tokens == result.prompt_tokens,
        r.completion_tokens == result.completion_tokens,
        r.cache_read_tokens == result.cache_read_tokens,
        r.cache_write_tokens == result.cache_write_tokens,
        !r.tokens_estimated,
        r.cost_usd == cost_usd,
        r.latency_ms == Some(latency_ms),
        r.ttft_ms == result.ttft_ms,
        r.attempts == Some(
            if attempts > 1 {
                attempts
            } else {
                1
            },
        ),
{
    Call {
        payer,
        request_model,
        model,
        provider,
        messages,
        response: Some(result.content.clone()),
        finish_reason: Some(result.finish_reason.clone()),
        prompt_tokens: result.prompt_tokens as i64,
        completion_tokens: result.completion_tokens as i64,
        cache_read_tokens: result.cache_read_tokens as i64,
        cache_write_tokens: result.cache_write_tokens as i64,
        tokens_estimated: false,
        cost_usd,
        latency_ms: Some(latency_ms),
        ttft_ms: result.ttft_ms,
        attempts: Some(
            if attempts > 1 {
                attempts
            } else {
                1
            },
        ),
    }
}

/// The call that a hit in the response cache is stored as: no provider was
/// called, nothing was spent and no time taken, and the cached answer's own time
/// to first token says nothing about this request.
pub fn cached_call(
    payer: Payer,
    request_model: String,
    provider: String,
    model: String,
    messages: String,
    result: &CompletionResult,
) -> (r: Call)
    ensures
        r.payer == payer,
        r.request_model == request_model,
        r.provider == provider,
        r.model == model,
        r.messages == messages,
        opt_text(r.response) == Some(result.content@),
        opt_text(r.finish_reason) == Some(result.finish_reason@),
        r.prompt_tokens == result.prompt_tokens,
        r.completion_tokens == result.completion_tokens,
        r.cache_read_tokens == result.cache_read_tokens,
        r.cache_write_tokens == result.cache_write_tokens,
        !r.tokens_estimated,
        r.cost_usd == Usd::zero_spec(),
        r.latency_ms == Some(0i64),
        r.ttft_ms is None,
        r.attempts is None,
{
    Call {
        payer,
        request_model,
        model,
        provider,
        messages,
        response: Some(result.content.clone()),
        finish_reason: Some(result.finish_reason.clone()),
        prompt_tokens: result.prompt_tokens as i64,
        completion_tokens: result.completion_tokens as i64,
        cache_read_tokens: result.cache_read_tokens as i64,
        cache_write_tokens: result.cache_write_tokens as i64,
        tokens_estimated: false,
        cost_usd: Usd::zero(),
        latency_ms: Some(0),
        ttft_ms: None,
        attempts: None,
    }
}

/// The ledger row of a hit in the response cache: what the call would have cost
/// is recorded as a saving, never as spend.
pub fn cache_hit_write(call: &Call, prompt_id: Option<i64>, avoided_cost: Usd) -> (r: LedgerWrite)
    ensures
        r matches LedgerWrite::CacheHit(e) && crate::api::routes::usage::is_ledger_of(
            e,
            (Call { cost_usd: avoided_cost, ..*call }),
            prompt_id,
        ),
{
    let mut row = call.ledger_row(prompt_id);
    row.cost_usd = avoided_cost;
    LedgerWrite::CacheHit(row)
}

/// The call that a stream is charged as. The streaming path has no retry and no
/// fallback: one dispatch.
pub fn streamed_call(
    payer: Payer,
    request_model: String,
    provider: String,
    model: String,
    messages: String,
    acc: &StreamAcc,
    finish_reason: String,
    usage: StreamUsage,
    cost_usd: Usd,
    latency_ms: i64,
) -> (r: Call)
    ensures
        r.payer == payer,
        r.request_model == request_model,
        r.provider == provider,
        r.model == model,
        r.messages == messages,
        opt_text(r.response) == Some(acc@.content),
        opt_text(r.finish_reason) == Some(finish_reason@),
        r.prompt_tokens == usage.prompt_tokens,
        r.completion_tokens == usage.completion_tokens,
        r.cache_read_tokens == usage.cache_read_tokens,
        r.cache_write_tokens == 0,
        r.tokens_estimated == usage.tokens_estimated,
        r.cost_usd == cost_usd,
        r.latency_ms == Some(latency_ms),
        r.ttft_ms == acc@.ttft_ms,
        r.attempts == Some(1i64),
{
    Call {
        payer,
        request_model,
        model,
        provider,
        messages,
        response: Some(acc.content.clone()),
        finish_reason: Some(finish_reason),
        prompt_tokens: usage.prompt_tokens as i64,
        completion_tokens: usage.completion_tokens as i64,
        cache_read_tokens: usage.cache_read_tokens as i64,
        cache_write_tokens: 0,
        tokens_estimated: usage.tokens_estimated,
        cost_usd,
        latency_ms: Some(latency_ms),
        ttft_ms: acc.ttft_ms,
        attempts: Some(1),
    }
}

// ---------------------------------------------------------------------------
// Laws
// ---------------------------------------------------------------------------

/// A provider is never sent a choice among tools without the tools.
pub proof fn tool_choice_never_rides_alone(body: JsonModel)
    ensures
        sent_tool_choice(body) is Some ==> has_tools(body),
{
}

/// A request whose tool choice is refused brings no tools, and every request
/// that brings tools passes.
pub proof fn tools_make_any_choice_valid(body: JsonModel)
    requires
        has_tools(body),
    ensures
        !stray_tool_choice(body),
{
}

/// The answer names the request and the model, holds one choice with what the model
/// said and why it stopped, and reports the tokens that the provider counted.
pub proof fn answers_tell_what_the_provider_said(
    id: Seq<char>,
    model: Seq<char>,
    result: CompletionResult,
    answer: JsonModel,
)
    requires
        answer == openai_body(id, model, result),
    ensures
        answer.at("id"@) == JsonModel::Str(id),
        answer.at("object"@) == JsonModel::Str("chat.completion"@),
        answer.at("model"@) == JsonModel::Str(model),
        answer.at("choices"@).items() matches Some(c) && c.len() == 1,
        answer.at("choices"@).item(0).at("index"@) == JsonModel::Int(0),
        answer.at("choices"@).item(0).at("finish_reason"@) == JsonModel::Str(result.finish_reason@),
        answer.at("choices"@).item(0).at("message"@).at("role"@) == JsonModel::Str("assistant"@),
        result.content@.len() > 0 || result.tool_calls is None ==> answer.at("choices"@).item(0).at(
            "message"@,
        ).at("content"@) == JsonModel::Str(result.content@),
        result.content@.len() == 0 && result.tool_calls is Some ==> answer.at("choices"@).item(0).at(
            "message"@,
        ).at("content"@) == JsonModel::Null,
        answer.at("choices"@).item(0).at("message"@).field("tool_calls"@) == match result.tool_calls {
            Some(calls) => Some(calls.model()),
            None => None,
        },
        answer.at("usage"@).at("prompt_tokens"@) == JsonModel::Int(result.prompt_tokens as int),
        answer.at("usage"@).at("completion_tokens"@) == JsonModel::Int(result.completion_tokens as int),
        answer.at("usage"@).at("total_tokens"@) == JsonModel::Int(
            result.prompt_tokens + result.completion_tokens,
        ),
{
    broadcast use {
        crate::ordered::entries_are_found,
        crate::ordered::nothing_is_found_in_nothing,
    };

    reveal_strlit("id");
    reveal_strlit("object");
    reveal_strlit("model");
    reveal_strlit("choices");
    reveal_strlit("index");
    reveal_strlit("finish_reason");
    reveal_strlit("message");
    reveal_strlit("role");
    reveal_strlit("content");
    reveal_strlit("tool_calls");
    reveal_strlit("usage");
    reveal_strlit("prompt_tokens");
    reveal_strlit("completion_tokens");
    reveal_strlit("total_tokens");
    assert("id"@.len() == 2);
    assert("object"@.len() == 6);
    assert("model"@.len() == 5 && "model"@[0] == 'm');
    assert("choices"@.len() == 7 && "choices"@[1] == 'h');
    assert("index"@.len() == 5 && "index"@[0] == 'i');
    assert("finish_reason"@.len() == 13 && "finish_reason"@[0] == 'f');
    assert("message"@.len() == 7 && "message"@[1] == 'e');
    assert("role"@.len() == 4);
    assert("content"@.len() == 7 && "content"@[1] == 'o');
    assert("tool_calls"@.len() == 10);
    assert("usage"@.len() == 5 && "usage"@[0] == 'u');
    assert("prompt_tokens"@.len() == 13 && "prompt_tokens"@[0] == 'p');
    assert("completion_tokens"@.len() == 17);
    assert("total_tokens"@.len() == 12);
}

/// A provider is sent the messages of the request in their order, whether a stream is
/// asked for, the highest number of tokens, and the temperature where the model takes
/// one.
pub proof fn requests_are_handed_on(body: JsonModel, default_model: Seq<char>, supported: bool)
    ensures
        body.at("model"@) matches JsonModel::Str(m) ==> named_model(body, default_model) == m,
        !(body.at("model"@) is Str) ==> named_model(body, default_model) == default_model,
        wants_stream(body) <==> body.at("stream"@) == JsonModel::Bool(true),
        body.at("messages"@) matches JsonModel::Arr(items) ==> messages_of(body) == items,
        !(body.at("messages"@) is Arr) ==> messages_of(body).len() == 0,
        body.at("max_tokens"@) matches JsonModel::Int(n) ==> (0 <= n <= u32::MAX ==> sent_max_tokens(body)
            == Some(n as u32)) && (n < 0 ==> sent_max_tokens(body) is None),
        !(body.at("max_tokens"@) is Int) ==> sent_max_tokens(body) is None,
        supported && (body.at("temperature"@) is Int || body.at("temperature"@) is Float)
            ==> sent_temperature(body, supported) == Some(body.at("temperature"@)),
        !supported ==> sent_temperature(body, supported) is None,
        has_tools(body) <==> (body.at("tools"@) matches JsonModel::Arr(t) && t.len() > 0),
        has_tools(body) && !(body.at("tool_choice"@) is Null) ==> sent_tool_choice(body) == Some(
            body.at("tool_choice"@),
        ),
        session_of(body) == match body.at("session_id"@) {
            JsonModel::Str(s) => Some(s),
            _ => None,
        },
{
    if let JsonModel::Int(n) = body.at("max_tokens"@) {
        if 0 <= n <= u32::MAX {
            assert(n % 0x1_0000_0000 == n);
        }
    }
}

/// Hooks see the body as it was sent, and beside it how long a session lasts.
pub proof fn hooks_see_the_session_window(body: JsonModel, window: Option<i64>, other: Seq<char>)
    requires
        body is Obj,
    ensures
        window matches Some(n) ==> hook_body(body, window).at("_mr_session_window_secs"@)
            == JsonModel::Int(n as int),
        window is None ==> hook_body(body, window).at("_mr_session_window_secs"@) == JsonModel::Int(28800),
        other != "_mr_session_window_secs"@ ==> hook_body(body, window).field(other) == body.field(other),
{
    broadcast use {
        crate::ordered::entries_are_found,
        crate::ordered::nothing_is_found_in_nothing,
    };

}

/// The estimate of a session is the sum over its messages: a quarter of the bytes of a
/// text, and fifty for anything else.
pub proof fn session_estimates_add_up(body: JsonModel, items: Seq<JsonModel>)
    requires
        body.at("messages"@) == JsonModel::Arr(items),
    ensures
        session_estimate(body) == total(
            items,
            |m: JsonModel|
                match m.at("content"@) {
                    JsonModel::Str(s) => ((byte_count(s) / 4) as u64 % 0x1_0000_0000) as int,
                    _ => 50,
                },
        ) % 0x1_0000_0000,
{
    lemma_estimates_are_a_sum(items);
}

proof fn lemma_estimates_are_a_sum(items: Seq<JsonModel>)
    ensures
        messages_estimate(items) == total(
            items,
            |m: JsonModel|
                match m.at("content"@) {
                    JsonModel::Str(s) => ((byte_count(s) / 4) as u64 % 0x1_0000_0000) as int,
                    _ => 50,
                },
        ),
    decreases items.len(),
{
    if items.len() > 0 {
        lemma_estimates_are_a_sum(items.drop_last());
    }
}

/// A denial is put down to a budget if it speaks of one, else to a rate if it speaks of
/// one, else to the model.
pub proof fn denials_are_told_apart(reason: Seq<char>)
    ensures
        contains_text(reason, "budget"@) ==> denial_label(reason) == "budget"@,
        !contains_text(reason, "budget"@) && contains_text(reason, "rate"@) ==> denial_label(reason)
            == "rate_limit"@,
        !contains_text(reason, "budget"@) && !contains_text(reason, "rate"@) ==> denial_label(reason)
            == "model_denied"@,
{
}

} // verus!
