use axum::http::HeaderMap;
use modelrouter::api::error::{ApiError, BindError, Unavailable};
use modelrouter::api::routes::chat_flow::{
    guard_response, open_stream, Binding, ChatAction, ChatFlow,
};
use modelrouter::api::routes::completions::{
    build_normalized_request, build_openai_response, cache_hit_write, cached_call, completed_call,
    completion_tokens, denial_metric, estimate_session_tokens,
    messages_json, request_has_tools, should_skip_affinity, should_skip_logging,
    validate_tool_choice_requires_tools, with_session_window, CompletionResult,
};
use modelrouter::api::routes::fallback::{CallAction, CallFlow, Candidate};
use modelrouter::api::failure_log::broken_stream;
use modelrouter::api::routes::gate::{BudgetContext, GuardrailDecision, PolicyDecision};
use modelrouter::api::routes::lifecycle::{
    budget_exceeded, listeners, request_received, response_sent, Notice,
};
use modelrouter::api::routes::proxy::BreakerNote;
use modelrouter::api::admin::experiments::Resolution;
use modelrouter::api::routes::router_meta::{CallCost, RouterMeta, TimingMeta, TokenMeta};
use modelrouter::api::routes::stream_log::{parse_sse_chunk, ReportedUsage, StreamAcc};
use modelrouter::api::routes::usage::{
    callback_event, ledger_after, plan_log, spend_row, Call, LedgerWrite, PromptOutcome,
    StorageConfig,
};
use modelrouter::json::Json;
use modelrouter::records::{Usd, User};
use modelrouter::text_map::TextMap;

fn json(text: &str) -> Json {
    Json::parse(text).unwrap()
}

fn usd(v: f64) -> Usd {
    Usd { bits: v.to_bits() }
}

fn result(content: &str, finish_reason: &str, tool_calls: Option<Json>) -> CompletionResult {
    CompletionResult {
        content: content.to_string(),
        prompt_tokens: 1,
        completion_tokens: 1,
        finish_reason: finish_reason.to_string(),
        cache_read_tokens: 0,
        cache_write_tokens: 0,
        ttft_ms: None,
        tool_calls,
    }
}

fn message(response: &Json) -> &Json {
    response.get("choices").unwrap().get_item(0).unwrap().get("message").unwrap()
}

#[test]
fn includes_the_resolved_backing_model() {
    let response = build_openai_response(
        "chatcmpl-mr-test".to_string(),
        "gpt-4o-2026-01-01",
        &result("hello", "stop", None),
    );
    assert_eq!(response.get("model").unwrap().as_str(), Some("gpt-4o-2026-01-01"));
    assert_eq!(message(&response).get("content").unwrap().as_str(), Some("hello"));
    assert!(message(&response).get("tool_calls").is_none());
}

#[test]
fn tool_call_turn_reports_null_content_and_tool_calls() {
    let calls = json(
        r#"[{
        "id": "call_1",
        "type": "function",
        "function": {"name": "get_weather", "arguments": "{\"city\":\"Oslo\"}"}
    }]"#,
    );
    let response =
        build_openai_response("chatcmpl-mr-test".to_string(), "m", &result("", "tool_calls", Some(calls)));
    let m = message(&response);
    assert!(m.get("content").unwrap().is_null());
    let call = m.get("tool_calls").unwrap().get_item(0).unwrap();
    assert_eq!(call.get("function").unwrap().get("name").unwrap().as_str(), Some("get_weather"));
    let choice = response.get("choices").unwrap().get_item(0).unwrap();
    assert_eq!(choice.get("finish_reason").unwrap().as_str(), Some("tool_calls"));
}

#[test]
fn empty_or_absent_tools_do_not_count() {
    assert!(!request_has_tools(&json(r#"{"messages": []}"#)));
    assert!(!request_has_tools(&json(r#"{"tools": []}"#)));
    assert!(request_has_tools(&json(r#"{"tools": [{"type": "function"}]}"#)));
}

#[test]
fn tool_choice_without_tools_is_rejected() {
    let check = |t: &str| validate_tool_choice_requires_tools(&json(t));
    assert!(check(r#"{"tool_choice": "required"}"#).is_err());
    assert!(check(r#"{"tool_choice": null}"#).is_ok());
    assert!(check(r#"{"tool_choice": "none"}"#).is_ok());
    assert!(check("{}").is_ok());
    assert!(check(r#"{"tools": [{"type": "function"}], "tool_choice": "required"}"#).is_ok());
}

#[test]
fn normalized_request_carries_tools_and_tool_choice() {
    let body = json(
        r#"{
        "messages": [{"role": "user", "content": "hi"}],
        "tools": [{"type": "function", "function": {"name": "f"}}],
        "tool_choice": "auto"
    }"#,
    );
    let req = build_normalized_request(&body, "m".to_string(), true);
    assert_eq!(req.tools.as_ref().unwrap().len(), 1);
    assert_eq!(req.tool_choice, Some(Json::Str("auto".to_string())));
}

#[test]
fn tool_choice_never_rides_without_tools() {
    let body = json(r#"{"messages": [], "tool_choice": "none"}"#);
    let req = build_normalized_request(&body, "m".to_string(), true);
    assert!(req.tools.is_none());
    assert!(req.tool_choice.is_none());

    let body = json(r#"{"messages": [], "tools": []}"#);
    let req = build_normalized_request(&body, "m".to_string(), true);
    assert!(req.tools.is_none());
}

#[test]
fn reads_text_usage_finish_reason_and_done_from_one_chunk() {
    let chunk = [
        "data: {\"choices\":[{\"delta\":{\"content\":\"Hel\"},\"finish_reason\":null}],\"usage\":null}\n\n",
        "data: {\"choices\":[{\"delta\":{\"content\":\"lo\"},\"finish_reason\":\"stop\"}]}\n\n",
        "data: {\"choices\":[],\"usage\":{\"prompt_tokens\":12,\"completion_tokens\":2,",
        "\"prompt_tokens_details\":{\"cached_tokens\":4}}}\n\n",
        "data: [DONE]\n\n",
    ]
    .concat();
    let info = parse_sse_chunk(chunk.as_bytes());
    assert_eq!(info.text, "Hello");
    assert_eq!(info.finish_reason.as_deref(), Some("stop"));
    assert_eq!(
        info.usage,
        Some(ReportedUsage { prompt_tokens: 12, completion_tokens: 2, cached_tokens: 4 })
    );
    assert!(info.done);
}

#[test]
fn usage_null_is_not_usage() {
    let chunk = b"data: {\"choices\":[{\"delta\":{\"content\":\"x\"}}],\"usage\":null}\n\n";
    let info = parse_sse_chunk(chunk);
    assert_eq!(info.usage, None);
    assert!(!info.done);
}

fn header(name: &'static str, value: &str) -> HeaderMap {
    let mut h = HeaderMap::new();
    h.insert(name, value.parse().unwrap());
    h
}

#[test]
fn detects_x_session_lb_true() {
    assert!(should_skip_affinity(&header("x-session-lb", "true")));
}

#[test]
fn x_session_lb_false_is_not_skipped() {
    assert!(!should_skip_affinity(&header("x-session-lb", "false")));
}

#[test]
fn absent_x_session_lb_is_false() {
    assert!(!should_skip_affinity(&HeaderMap::new()));
}

#[test]
fn case_insensitive_true() {
    assert!(should_skip_affinity(&header("x-session-lb", "TRUE")));
}

#[test]
fn detects_true_value() {
    assert!(should_skip_logging(&header("x-no-log", "true")));
}

#[test]
fn ignores_false_value() {
    assert!(!should_skip_logging(&header("x-no-log", "false")));
}

#[test]
fn absent_header_is_false() {
    assert!(!should_skip_logging(&HeaderMap::new()));
}

#[test]
fn case_insensitive() {
    assert!(should_skip_logging(&header("x-no-log", "TRUE")));
}

fn meta() -> RouterMeta {
    RouterMeta {
        requested_model: "balanced".into(),
        model: "big-model".into(),
        provider: "p".into(),
        settings: json(r#"{"temperature": 0.2}"#),
        tokens: Some(TokenMeta::new(10, 5)),
        results: None,
        cost: CallCost::spent(usd(0.5)),
        timing: TimingMeta {
            total_ms: 12,
            latency_ms: 10,
            provider_ms: Some(9),
            ttft_ms: None,
            attempts: 1,
            fallbacks: 0,
        },
    }
}

fn number(j: &Json) -> Option<f64> {
    match j {
        Json::Float(bits) => Some(f64::from_bits(*bits)),
        _ => None,
    }
}

#[test]
fn serializes_the_documented_shape() {
    let v = meta().to_value();
    assert_eq!(v.get("model").unwrap().as_str(), Some("big-model"));
    assert_eq!(v.get("requested_model").unwrap().as_str(), Some("balanced"));
    let tokens = v.get("tokens").unwrap();
    assert_eq!(tokens.get("total").unwrap().as_u64(), Some(15));
    assert!(tokens.get("reasoning").unwrap().is_null());
    assert_eq!(tokens.get("estimated").unwrap().as_bool(), Some(false));
    let cost = v.get("cost").unwrap();
    assert_eq!(number(cost.get("cost_usd").unwrap()), Some(0.5));
    assert_eq!(cost.get("cache_hit").unwrap().as_bool(), Some(false));
    assert!(cost.get("saved_usd").is_none());
    let timing = v.get("timing").unwrap();
    assert_eq!(timing.get("provider_ms").unwrap().as_u64(), Some(9));
    assert!(timing.get("ttft_ms").unwrap().is_null());
    assert!(v.get("results").is_none(), "results is search-only");
}

#[test]
fn search_shape_carries_results_not_tokens() {
    let mut m = meta();
    m.tokens = None;
    m.results = Some(3);
    m.cost = CallCost::cache_hit(usd(0.035));
    let v = m.to_value();
    assert!(v.get("tokens").is_none());
    assert_eq!(v.get("results").unwrap().as_u64(), Some(3));
    let cost = v.get("cost").unwrap();
    assert_eq!(number(cost.get("cost_usd").unwrap()), Some(0.0));
    assert_eq!(number(cost.get("saved_usd").unwrap()), Some(0.035));
}

#[test]
fn write_into_adds_cache_fields_only_on_a_hit() {
    let usage = CallCost::spent(usd(1.0)).write_into(Json::object());
    assert_eq!(usage, json(r#"{"cost_usd": 1.0}"#));
    let usage = CallCost::cache_hit(usd(2.0)).write_into(Json::object());
    assert_eq!(usage, json(r#"{"cost_usd": 0.0, "cache_hit": true, "saved_usd": 2.0}"#));
    let usage = CallCost::spent(usd(f64::NAN)).write_into(Json::object());
    assert_eq!(usage, json(r#"{"cost_usd": null}"#));
}

#[test]
fn attach_inserts_x_router() {
    let body = meta().attach(json(r#"{"usage": {}}"#));
    assert_eq!(body.get("x_router").unwrap().get("provider").unwrap().as_str(), Some("p"));
}

// What the library does beyond that.

#[test]
fn a_temperature_goes_only_where_it_is_taken() {
    let body = json(r#"{"temperature": 0.5, "max_tokens": 9, "messages": [1]}"#);
    let req = build_normalized_request(&body, "m".to_string(), true);
    assert_eq!(req.temperature.as_ref().and_then(number), Some(0.5));
    assert_eq!((req.max_tokens, req.messages.len()), (Some(9), 1));
    assert_eq!(build_normalized_request(&body, "m".to_string(), false).temperature, None);
    assert_eq!(messages_json(&body), "[1]");
}

#[test]
fn a_session_is_charged_a_quarter_of_its_bytes() {
    assert_eq!(estimate_session_tokens(&json("{}")), 100);
    let body = json(r#"{"messages":[{"content":"12345678"},{"content":[]},{"content":"abc"}]}"#);
    assert_eq!(estimate_session_tokens(&body), 2 + 50 + 0);
    let body = with_session_window(json("{}"), None);
    assert_eq!(body.to_text(), r#"{"_mr_session_window_secs":28800}"#);
}

#[test]
fn denials_are_counted_by_kind() {
    assert_eq!(denial_metric("monthly budget exceeded"), "budget");
    assert_eq!(denial_metric("rate limit"), "rate_limit");
    assert_eq!(denial_metric("no"), "model_denied");
}

fn user() -> User {
    User {
        id: 7,
        name: "ada".into(),
        email: None,
        group_name: None,
        enabled: true,
        created_at: String::new(),
        api_key_id: Some(3),
        api_key_project: Some("key-project".into()),
        session_window_secs: None,
        metadata: String::new(),
    }
}

fn storage() -> StorageConfig {
    StorageConfig { store_prompts: true, store_prompt_content: false }
}

fn begin(body: &str) -> ChatFlow {
    let (flow, action) =
        ChatFlow::begin(&user(), &HeaderMap::new(), json(body), "default", storage()).unwrap();
    assert_eq!(action, ChatAction::Bind);
    flow
}

fn allow() -> Result<PolicyDecision, String> {
    Ok(PolicyDecision::Allow { max_concurrent: None })
}

#[test]
fn a_chat_request_passes_every_gate() {
    let mut f = begin(r#"{"model":"fast","messages":[],"session_id":"s"}"#);
    let step = f.on_bound(Ok(None), storage());
    assert_eq!(step, ChatAction::Downgrade { model: "fast".into() });
    assert_eq!(f.on_downgraded("small".into()), ChatAction::CheckPolicy { model: "small".into() });
    let limited = Ok(PolicyDecision::Allow { max_concurrent: Some(2) });
    assert_eq!(f.on_policy(limited), ChatAction::TakePermit { max: 2 });
    assert_eq!(f.on_permit(true), ChatAction::CheckSession { session: "s".into(), tokens: 0 });
    assert_eq!(f.on_session(true), ChatAction::CheckGuardrail);
    let hooks = f.on_guardrail(GuardrailDecision::Allow);
    let body = match hooks {
        ChatAction::RunHooks { body } => body,
        _ => panic!("no hooks"),
    };
    assert!(body.get("_mr_session_window_secs").is_some());
    assert_eq!(
        f.on_hooked(Ok(body)),
        ChatAction::ChooseFromPool { model: "small".into(), bound: false }
    );
    assert_eq!(f.on_pool(false, None), ChatAction::Resolve { model: "small".into() });
    let r = Resolution { provider: "openai".into(), model: "gpt".into(), substituted: false };
    assert_eq!(
        f.on_resolved(r, true),
        ChatAction::ApplyPin {
            session: "s".into(),
            pass_over: false,
            provider: "openai".into(),
            model: "gpt".into()
        }
    );
    assert_eq!(
        f.on_pinned("openai".into(), "gpt".into()),
        ChatAction::CheckAvailable { provider: "openai".into(), model: "gpt".into() }
    );
    assert_eq!(f.on_available(None), ChatAction::CheckCacheRules { model: "gpt".into() });
    assert_eq!(f.on_cache_rules(true, true), ChatAction::LookUpCache { model: "gpt".into() });
    assert_eq!(
        f.on_cached(false),
        ChatAction::Dispatch {
            provider: "openai".into(),
            model: "gpt".into(),
            stream: false,
            keep: true
        }
    );
    let payer = f.payer(&user());
    assert_eq!(payer.project.as_deref(), Some("key-project"));
}

#[test]
fn a_refusal_ends_a_chat_request() {
    let mut f = begin("{}");
    let step = f.on_bound(Err(BindError("no such experiment".into())), storage());
    assert!(matches!(step, ChatAction::Fail(ApiError::InvalidRequest(_))));
    let mut f = begin("{}");
    f.on_bound(Ok(None), storage());
    f.on_downgraded("m".into());
    let deny = PolicyDecision::Deny {
        reason: "monthly budget exceeded".into(),
        status: 429,
        budget_context: None,
    };
    assert_eq!(
        f.on_policy(Ok(deny)),
        ChatAction::Fail(ApiError::PolicyDenied {
            reason: "monthly budget exceeded".into(),
            status: 429
        })
    );
    let mut f = begin("{}");
    f.on_bound(Ok(None), storage());
    f.on_downgraded("m".into());
    assert_eq!(f.on_policy(allow()), ChatAction::CheckGuardrail);
    let step = f.on_guardrail(GuardrailDecision::Block { reason: "unsafe".into() });
    assert!(matches!(step, ChatAction::Fail(_)));
    let bad = json(r#"{"attribution":1}"#);
    assert!(ChatFlow::begin(&user(), &HeaderMap::new(), bad, "d", storage()).is_err());
}

#[test]
fn a_disabled_model_is_not_called() {
    let mut f = begin("{}");
    f.on_bound(Ok(None), storage());
    f.on_downgraded("m".into());
    f.on_policy(allow());
    f.on_guardrail(GuardrailDecision::Allow);
    f.on_hooked(Ok(json("{}")));
    f.on_pool(false, None);
    let r = Resolution { provider: "openai".into(), model: "gpt".into(), substituted: false };
    f.on_resolved(r, true);
    assert_eq!(
        f.on_available(Some(Unavailable("off".into()))),
        ChatAction::Fail(ApiError::Disabled("off".into()))
    );
}

#[test]
fn a_bound_request_follows_its_overlay() {
    let mut f = begin(r#"{"model":"fast"}"#);
    let binding = Binding {
        experiment_id: 4,
        variant: "control".into(),
        retain_content: true,
        overlay: TextMap::new().insert("fast".into(), "openai/pinned".into()),
    };
    f.on_bound(Ok(Some(binding)), storage());
    let payer = f.payer(&user());
    assert_eq!((payer.experiment_id, payer.experiment_variant.as_deref()), (Some(4), Some("control")));
    assert!(f.plan.storage.store_prompt_content);
}

#[test]
fn a_response_can_be_blocked_or_replaced() {
    let r = guard_response(GuardrailDecision::Allow, result("x", "stop", None)).unwrap();
    assert_eq!(r.content, "x");
    let replace = GuardrailDecision::Replace { content: "safe".into() };
    assert_eq!(guard_response(replace, result("x", "stop", None)).unwrap().content, "safe");
    let block = GuardrailDecision::Block { reason: "r".into() };
    assert!(guard_response(block, result("x", "stop", None)).is_err());
    let (note, opened) = open_stream("p", false, Ok(()), Ok(()));
    assert_eq!((note, opened.is_ok()), (Some(BreakerNote::Success), true));
    let (note, opened) = open_stream("p", true, Ok(()), Ok(()));
    assert_eq!((note, opened.is_err()), (None, true));
    let (note, opened) = open_stream("p", false, Err("no adapter".into()), Ok(()));
    assert_eq!((note, opened.is_err()), (None, true));
    let (note, opened) = open_stream("p", false, Ok(()), Err("boom".into()));
    assert_eq!((note, opened.is_err()), (Some(BreakerNote::Erred("boom".into())), true));
}

#[test]
fn a_failing_provider_is_followed_by_the_next_permitted_one() {
    let (mut f, step) = CallFlow::new(false, false, "p".into(), "m".into());
    assert_eq!(step, CallAction::CheckBreaker { provider: "p".into() });
    assert_eq!(f.on_breaker(false), CallAction::FindAdapter { provider: "p".into() });
    assert_eq!(
        f.on_adapter(Ok(())),
        CallAction::Call { provider: "p".into(), model: "m".into() }
    );
    let (note, step) = f.on_error("busy".into(), Some(20));
    assert_eq!((note, step), (None, CallAction::Sleep { millis: 20 }));
    assert!(matches!(f.on_slept(), CallAction::Call { .. }));
    let (note, step) = f.on_error("boom".into(), None);
    assert_eq!(note, Some(BreakerNote::Erred("boom".into())));
    assert!(matches!(step, CallAction::NextFallback { .. }));
    let next = Candidate {
        name: "q/n".into(),
        provider: "q".into(),
        model: "n".into(),
        available: true,
        forwards_tools: true,
    };
    let step = f.on_candidate(Some(next));
    assert!(matches!(step, CallAction::CheckPermission { .. }));
    assert_eq!(f.on_permission(true), CallAction::CheckBreaker { provider: "q".into() });
    f.on_breaker(false);
    f.on_adapter(Ok(()));
    let (note, step) = f.on_success();
    assert_eq!(note, BreakerNote::Success);
    assert_eq!(
        step,
        CallAction::Answered {
            provider: "q".into(),
            model: "n".into(),
            attempts: 3,
            fallbacks: 1
        }
    );
}

#[test]
fn a_denied_candidate_leaves_the_error_standing() {
    let (mut f, _) = CallFlow::new(false, false, "p".into(), "m".into());
    f.on_breaker(false);
    f.on_adapter(Ok(()));
    f.on_error("boom".into(), None);
    let next = |name: &str, available: bool| Candidate {
        name: name.into(),
        provider: "q".into(),
        model: "n".into(),
        available,
        forwards_tools: true,
    };
    assert_eq!(
        f.on_candidate(Some(next("off", false))),
        CallAction::NextFallback { after: "off".into() }
    );
    f.on_candidate(Some(next("denied", true)));
    assert_eq!(f.on_permission(false), CallAction::NextFallback { after: "denied".into() });
    assert_eq!(
        f.on_candidate(None),
        CallAction::Fail(ApiError::ProviderError("boom".into()))
    );
}

#[test]
fn a_bound_call_has_no_fallback() {
    let (mut f, _) = CallFlow::new(true, false, "p".into(), "m".into());
    f.on_breaker(false);
    f.on_adapter(Ok(()));
    let (_, step) = f.on_error("boom".into(), None);
    assert!(matches!(step, CallAction::Fail(ApiError::ProviderError(_))));
}

#[test]
fn a_stream_is_recorded_once() {
    let mut acc = StreamAcc::default();
    assert_eq!(acc.observe(b"data: {\"choices\":[{\"delta\":{\"content\":\"a\"}}]}\n\n", 5), None);
    let done = acc.observe(b"data: [DONE]\n\n", 9).unwrap();
    assert_eq!((done.finish_reason.as_str(), done.failure), ("stop", None));
    assert_eq!((acc.content.as_str(), acc.ttft_ms), ("a", Some(5)));
    assert_eq!(acc.dropped(), None);
    assert_eq!(acc.broken("late"), None);
    let mut acc = StreamAcc::default();
    assert_eq!(acc.dropped().unwrap().finish_reason, "aborted");
    let mut acc = StreamAcc::default();
    assert_eq!(acc.broken("gone").unwrap().failure.as_deref(), Some("gone"));
}

#[test]
fn prompts_are_kept_only_where_they_may_be() {
    let on = StorageConfig { store_prompts: true, store_prompt_content: true };
    let off = StorageConfig { store_prompts: false, store_prompt_content: false };
    assert!(plan_log(false, on, false).write_prompt);
    assert!(!plan_log(true, on, false).write_prompt);
    assert!(plan_log(true, on, false).skip_callbacks);
    assert!(!plan_log(false, off, false).write_prompt);
    assert!(plan_log(false, off, true).write_prompt);
    assert_eq!(ledger_after(PromptOutcome::Stored(4)), Some(4));
    assert_eq!(ledger_after(PromptOutcome::Skipped), None);
}

fn call() -> Call {
    let mut f = begin(r#"{"model":"fast"}"#);
    f.on_bound(Ok(None), storage());
    f.on_downgraded("small".into());
    let result = result("hello", "stop", None);
    let messages = r#"[{"role":"user"}]"#.to_string();
    completed_call(
        f.payer(&user()),
        f.logged_model(),
        "openai".into(),
        "gpt".into(),
        messages,
        &result,
        0,
        usd(0.25),
        12,
    )
}

#[test]
fn every_call_is_charged_whatever_became_of_its_prompt() {
    let call = call();
    assert_eq!(call.attempts, Some(1));
    for (outcome, named) in [
        (PromptOutcome::Stored(41), Some(41)),
        (PromptOutcome::Skipped, None),
        (PromptOutcome::Failed, None),
    ] {
        match spend_row(&call, outcome) {
            LedgerWrite::Spend(row) => {
                assert_eq!(row.prompt_id, named);
                assert_eq!((row.cost_usd, row.model.as_str()), (usd(0.25), "gpt"));
                assert_eq!((row.tokens_in, row.tokens_out), (1, 1));
            }
            LedgerWrite::CacheHit(_) => panic!("not spent"),
        }
    }
    let hit = cached_call(
        call.payer.copied(),
        "fast".into(),
        "openai".into(),
        "gpt".into(),
        "[]".into(),
        &result("hello", "stop", None),
    );
    match cache_hit_write(&hit, ledger_after(PromptOutcome::Failed), usd(0.5)) {
        LedgerWrite::CacheHit(row) => assert_eq!((row.prompt_id, row.cost_usd), (None, usd(0.5))),
        LedgerWrite::Spend(_) => panic!("spent"),
    }
}

#[test]
fn callbacks_hear_only_of_stored_prompts() {
    let call = call();
    let plan = plan_log(false, storage(), false);
    let event = callback_event(&plan, &call, PromptOutcome::Stored(41)).unwrap();
    assert_eq!((event.trace_id.as_str(), event.user_id), ("41", 7));
    assert_eq!((event.model.as_str(), event.provider.as_str()), ("gpt", "openai"));
    assert_eq!(event.input.to_text(), r#"[{"role":"user"}]"#);
    assert_eq!((event.output.as_str(), event.latency_ms), ("hello", 12));
    assert_eq!((event.prompt_tokens, event.completion_tokens), (1, 1));
    assert_eq!(event.cost_usd, usd(0.25));
    assert_eq!(callback_event(&plan, &call, PromptOutcome::Skipped), None);
    assert_eq!(callback_event(&plan, &call, PromptOutcome::Failed), None);
    let off = StorageConfig { store_prompts: false, store_prompt_content: false };
    let retained = plan_log(false, off, true);
    assert!(retained.write_prompt);
    assert_eq!(callback_event(&retained, &call, PromptOutcome::Stored(41)), None);
    let mut odd = call;
    odd.messages = "not json".into();
    odd.response = None;
    odd.latency_ms = None;
    let event = callback_event(&plan, &odd, PromptOutcome::Stored(-1)).unwrap();
    assert_eq!((event.trace_id.as_str(), event.input, event.latency_ms), ("-1", Json::Null, 0));
    assert_eq!(event.output, "");
}

#[test]
fn hooks_hear_of_the_events_that_they_ask_for() {
    let body = json(r#"{"messages":[{},{}]}"#);
    let notice = request_received("ada", "fast", &body);
    assert_eq!(
        notice,
        Notice::RequestReceived { user_name: "ada".into(), model: "fast".into(), messages: 2 }
    );
    assert_eq!(notice.event_name(), "on_request_received");
    let hooks: Vec<String> =
        vec!["on_request_received".into(), "on_response_sent".into(), "on_request_received".into()];
    assert_eq!(listeners(&hooks, &notice), vec![0, 2]);
    let sent = response_sent("ada", &call());
    assert_eq!(listeners(&hooks, &sent), vec![1]);
    assert_eq!(
        sent,
        Notice::ResponseSent {
            user_name: "ada".into(),
            request_model: "small".into(),
            model: "gpt".into(),
            cost_usd: usd(0.25),
            latency_ms: 12
        }
    );
    assert_eq!(
        request_received("ada", "fast", &json("{}")),
        Notice::RequestReceived { user_name: "ada".into(), model: "fast".into(), messages: 0 }
    );
}

#[test]
fn only_an_exceeded_budget_is_told() {
    let context = BudgetContext { limit_usd: usd(10.0), spent_usd: usd(11.0), window: "daily".into() };
    let over = Ok(PolicyDecision::Deny {
        reason: "budget exceeded".into(),
        status: 429,
        budget_context: Some(context),
    });
    let notice = budget_exceeded("ada", "fast", &over).unwrap();
    assert_eq!(notice.event_name(), "on_budget_exceeded");
    assert_eq!(
        notice,
        Notice::BudgetExceeded {
            user_name: "ada".into(),
            model: "fast".into(),
            limit_usd: usd(10.0),
            spent_usd: usd(11.0),
            window: "daily".into()
        }
    );
    let denied = Ok(PolicyDecision::Deny {
        reason: "model denied".into(),
        status: 403,
        budget_context: None,
    });
    assert_eq!(budget_exceeded("ada", "fast", &denied), None);
    assert_eq!(budget_exceeded("ada", "fast", &allow()), None);
    assert_eq!(budget_exceeded("ada", "fast", &Err("down".into())), None);
}

#[test]
fn a_broken_stream_is_recorded_with_what_it_is_charged_with() {
    let mut call = call();
    call.payer.experiment_id = Some(4);
    call.payer.experiment_variant = Some("control".into());
    let ctx = broken_stream(&call);
    assert_eq!(ctx.endpoint, "/v1/chat/completions");
    assert_eq!((ctx.request_model.as_str(), ctx.routed_model.as_deref()), ("small", Some("gpt")));
    assert_eq!((ctx.user_id, ctx.api_key_id, ctx.latency_ms), (Some(7), Some(3), Some(12)));
    assert_eq!(ctx.project.as_deref(), Some("key-project"));
    assert_eq!((ctx.experiment_id, ctx.experiment_variant.as_deref()), (Some(4), Some("control")));
    assert_eq!(ctx.timed(30).latency_ms, Some(30));
}

#[test]
fn a_priced_answer_carries_its_cost_and_the_account() {
    let mut r = result("hello", "stop", None);
    r.cache_read_tokens = 3;
    let meta = RouterMeta {
        requested_model: "fast".into(),
        model: "gpt".into(),
        provider: "openai".into(),
        settings: Json::object(),
        tokens: Some(completion_tokens(&r)),
        results: None,
        cost: CallCost::cache_hit(usd(0.5)),
        timing: TimingMeta {
            total_ms: 1,
            latency_ms: 0,
            provider_ms: None,
            ttft_ms: None,
            attempts: 0,
            fallbacks: 0,
        },
    };
    let body = meta.price(build_openai_response("id".into(), "gpt", &r));
    assert_eq!(
        body.get("usage").unwrap().to_text(),
        r#"{"cache_hit":true,"completion_tokens":1,"cost_usd":0.0,"prompt_tokens":1,"saved_usd":0.5,"total_tokens":2}"#
    );
    let account = body.get("x_router").unwrap();
    assert_eq!(account.get("requested_model").unwrap().as_str(), Some("fast"));
    assert_eq!(account.get("tokens").unwrap().get("cache_read").unwrap().as_u64(), Some(3));
    assert_eq!(account.get("tokens").unwrap().get("total").unwrap().as_u64(), Some(2));
}
