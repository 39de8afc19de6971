use axum::http::HeaderMap;
use modelrouter::api::admin::experiments::Resolution;
use modelrouter::api::attribution::{Attribution, MAX_CORRELATION_LEN};
use modelrouter::api::auth::{after_key_lookup, after_user_lookup, key_hash, FoundKey, NextLookup};
use modelrouter::api::error::{ApiError, BindError, Unavailable};
use modelrouter::api::middleware::ip_rate_limit::IpRateLimiter;
use modelrouter::api::routes::audio::{
    begin_speech, begin_transcription, count_speech_units, form_part, lenient_attribution,
    speech_content_type, speech_url, transcription_url,
};
use modelrouter::api::routes::embeddings::{
    build_embeddings, parse_encoding, parse_input, to_bytes, EmbedAction, EmbedFlow,
    EmbeddingVector, Encoding,
};
use modelrouter::api::routes::feedback::{
    outcome_row, parse_feedback, stamp_of_run, validate_correlation_id, RunStamp,
};
use modelrouter::api::routes::gate::{
    guard_model_substitution, pass_breaker, take_permit, PolicyDecision,
};
use modelrouter::api::routes::health::{
    after_probe, before_probe, deep_health, health_check, mark_cached, overall_status,
    still_fresh, CacheState, CapabilityReport, Health,
};
use modelrouter::api::routes::images::{begin_images, count_images, image_price};
use modelrouter::api::routes::mcp::{
    create_refusal, found_or_refused, not_found, refusal_body, servers_body,
};
use modelrouter::api::routes::messages::{
    answer_usage, streamed_prompt_tokens, upstream_answer, upstream_body, MessagesAction,
    MessagesFlow,
};
use modelrouter::api::routes::models::{list_models_body, RegisteredModel};
use modelrouter::api::routes::proxy::{
    check_status, endpoint_url, find_unit_price, BreakerNote, PricingEntry, ProxyAction,
};
use modelrouter::api::routes::responses::{
    answered, build_response, refuse_tools, responses_call, responses_request, translate_input,
    ResponsesAction, ResponsesFlow,
};
use modelrouter::api::routes::completions::CompletionResult;
use modelrouter::api::routes::search::{
    cached_payload, count_results, parse_max_results, resolve_engine, search_payload, SearchAction,
    SearchFlow,
};
use modelrouter::api::routes::systemone::{
    read_success, system_answer, SystemAction, SystemAnswer, SystemFlow, SystemProvider,
};
use modelrouter::archival::{rows_to_ndjson, ArchivalConfig, ArchivalJob};
use modelrouter::callbacks::{
    langfuse_payload, langsmith_payload, secret_header, webhook_payload, CallbackEvent,
    WebhookBackend, WebhookBackendConfig,
};
use modelrouter::codec::{base64_standard, hash_token};
use modelrouter::json::Json;
use modelrouter::records::{Usd, User};

fn json(text: &str) -> Json {
    Json::parse(text).unwrap()
}

fn usd(v: f64) -> Usd {
    Usd { bits: v.to_bits() }
}

fn make_backend(events: Vec<&str>) -> WebhookBackend {
    WebhookBackend::new(WebhookBackendConfig {
        name: "test".into(),
        url: "http://example.com".into(),
        events: events.into_iter().map(str::to_string).collect(),
        secret_header_name: None,
        secret_header_value: None,
    })
}

#[test]
fn wildcard_events_should_send() {
    assert!(make_backend(vec!["*"]).should_send());
}

#[test]
fn completion_event_should_send() {
    assert!(make_backend(vec!["completion"]).should_send());
}

#[test]
fn empty_events_should_send() {
    assert!(make_backend(vec![]).should_send());
}

#[test]
fn non_completion_event_should_not_send() {
    assert!(!make_backend(vec!["budget_exceeded"]).should_send());
}

#[test]
fn correlation_id_is_trimmed_and_bounded() {
    assert_eq!(validate_correlation_id("  run-1 ").unwrap(), "run-1");
    assert!(validate_correlation_id("   ").is_err());
    assert!(validate_correlation_id(&"x".repeat(MAX_CORRELATION_LEN)).is_ok());
    assert!(validate_correlation_id(&"x".repeat(MAX_CORRELATION_LEN + 1)).is_err());
    assert!(validate_correlation_id("a\nb").is_err());
}

// What the library does beyond that.

fn user() -> User {
    User {
        id: 7,
        name: "ada".into(),
        email: None,
        group_name: None,
        enabled: true,
        created_at: String::new(),
        api_key_id: Some(3),
        api_key_project: Some("p".into()),
        session_window_secs: None,
        metadata: String::new(),
    }
}

fn allow() -> Result<PolicyDecision, String> {
    Ok(PolicyDecision::Allow { max_concurrent: None })
}

#[test]
fn a_key_is_looked_up_by_its_hash() {
    let mut h = HeaderMap::new();
    h.insert("authorization", "Bearer mr-abc".parse().unwrap());
    assert_eq!(key_hash(&h).unwrap(), hash_token("mr-abc"));
    assert_eq!(
        hash_token("abc"),
        "ba7816bf8f01cfea414140de5dae2223b00361a396177a9cb410ff61f20015ad"
    );
    assert_eq!(key_hash(&HeaderMap::new()).unwrap_err(), ApiError::Unauthorized);
    let found = Ok(Some(FoundKey { id: 3, user_id: 7 }));
    assert_eq!(
        after_key_lookup(found).unwrap(),
        NextLookup::UserOfKey { user_id: 7, key_id: 3 }
    );
    assert_eq!(after_key_lookup(Ok(None)).unwrap(), NextLookup::UserByKey);
    assert!(after_user_lookup(Ok(Some(user())), Some(9)).is_ok());
    assert_eq!(after_user_lookup(Ok(None), None).unwrap_err(), ApiError::Unauthorized);
    let off = User { enabled: false, ..user() };
    assert!(after_user_lookup(Ok(Some(off)), None).is_err());
}

#[test]
fn an_address_has_so_many_requests_a_minute() {
    let mut l = IpRateLimiter::new(2);
    assert!(l.check_in("1.2.3.4", "10:00"));
    assert!(l.check_in("1.2.3.4", "10:00"));
    assert!(!l.check_in("1.2.3.4", "10:00"));
    assert!(l.check_in("1.2.3.5", "10:00"));
    assert!(l.check_in("1.2.3.4", "10:01"));
    let mut open = IpRateLimiter::new(0);
    for _ in 0..10 {
        assert!(open.check_in("1.2.3.4", "10:00"));
    }
    let mut now = IpRateLimiter::new(1);
    assert!(now.check_and_increment("1.2.3.4"));
}

#[test]
fn the_gates_say_no_in_their_own_words() {
    assert!(take_permit(true).is_ok());
    assert!(take_permit(false).is_err());
    assert!(pass_breaker("p", false).is_ok());
    assert!(matches!(pass_breaker("p", true), Err(ApiError::ProviderError(_))));
    let r = |substituted| Resolution { provider: "p".into(), model: "m".into(), substituted };
    assert!(guard_model_substitution("x", &r(true), true).is_err());
    assert!(guard_model_substitution("x", &r(true), false).is_ok());
    assert!(guard_model_substitution("x", &r(false), true).is_ok());
}

#[test]
fn feedback_is_bounded() {
    let parse = |t: &str| parse_feedback(&json(t));
    let f = parse(r#"{"correlation_id":" r ","outcome":"success","score":0.5,"rating":5,"note":"n"}"#)
        .unwrap();
    assert_eq!((f.correlation_id.as_str(), f.rating), ("r", Some(5)));
    assert_eq!(f.score, Some(0.5f64.to_bits()));
    assert!(parse(r#"{"outcome":"success"}"#).is_err());
    assert!(parse(r#"{"correlation_id":"r","outcome":"maybe"}"#).is_err());
    assert!(parse(r#"{"correlation_id":"r","outcome":"success","score":1.5}"#).is_err());
    assert!(parse(r#"{"correlation_id":"r","outcome":"success","rating":9}"#).is_err());
    let stamp = RunStamp { experiment_id: Some(1), experiment_variant: Some("a".into()) };
    let kept = stamp_of_run("r", Ok(Some(stamp)), Ok(false)).unwrap();
    assert_eq!(kept.experiment_id, Some(1));
    assert!(stamp_of_run("r", Ok(None), Ok(false)).is_err());
    assert_eq!(stamp_of_run("r", Ok(None), Ok(true)).unwrap().experiment_id, None);
    let row = outcome_row(7, f, kept);
    assert_eq!((row.user_id, row.experiment_variant.as_deref()), (7, Some("a")));
}

#[test]
fn health_is_the_worst_of_three() {
    assert_eq!(overall_status(Health::Working, Health::Working, Health::Skipped), "ok");
    let failed = overall_status(Health::Working, Health::Failed, Health::Working);
    assert_ne!(failed, "ok");
    let good = CapabilityReport::ok("openai/gpt".into(), 5);
    let off = CapabilityReport::skipped("x".into(), "not configured".into());
    let body = deep_health(&good, &off, &off, 9, &None);
    assert_eq!(body.get("status").unwrap().as_str(), Some("ok"));
    assert!(mark_cached(body).get("cached").unwrap().as_bool().unwrap());
    assert!(still_fresh(999_999_999, 0));
    assert!(!still_fresh(1_000_000_000, 0));
    assert!(still_fresh(4_999_999_999, 5));
    let probe = before_probe("t".into(), Ok(()), true, "LLM", Some(Unavailable("off".into())));
    assert!(probe.is_err());
    assert_eq!(after_probe("t".into(), 3, Err("boom".into())).status, Health::Failed);
    let cache = CacheState { backend: "memory".into(), connected: true, namespace: "n".into(), entries: 2 };
    assert_eq!(
        health_check(&Some(cache)).get("status").unwrap().as_str(),
        Some("ok")
    );
}

#[test]
fn the_model_list_has_no_disabled_providers() {
    let model = |p: &str, n: &str, available| RegisteredModel {
        provider: p.into(),
        name: n.into(),
        alias: None,
        available,
    };
    let body = list_models_body(
        &vec!["openai".to_string(), "dark".to_string()],
        &vec!["dark".to_string()],
        &vec![model("openai", "gpt", true), model("openai", "old", false)],
        &vec![],
    );
    let text = body.to_text();
    assert!(text.contains("openai/gpt") && !text.contains("openai/old"));
}

#[test]
fn mcp_errors_have_a_status() {
    assert_eq!(not_found().status, 404);
    assert!(found_or_refused(Ok(true)).is_ok());
    assert_eq!(found_or_refused(Ok(false)).unwrap_err().status, 404);
    assert_eq!(found_or_refused(Err("x".into())).unwrap_err().status, 500);
    assert_eq!(create_refusal("UNIQUE constraint failed").status, 409);
    assert_eq!(refusal_body(&not_found()).get("error").unwrap().as_str(), Some("not found"));
    assert_eq!(servers_body(json(r#"[{"id":1}]"#)).to_text(), r#"{"servers":[{"id":1}]}"#);
}

#[test]
fn a_message_goes_upstream_under_its_canonical_name() {
    let body = json(r#"{"model":"asked","messages":[],"stream":true}"#);
    let (mut f, step) = MessagesFlow::begin(None, &body, "default");
    assert_eq!(step, MessagesAction::Downgrade { model: "asked".into() });
    f.on_downgraded("asked".into());
    f.on_policy(allow());
    f.on_pool(None);
    f.on_resolved("big-model".into());
    let step = f.on_provider(Some(Some("https://a/".into())));
    assert_eq!(step, MessagesAction::CheckBreaker);
    match f.on_breaker(false) {
        MessagesAction::Send { url, model, stream } => {
            assert!(url.starts_with("https://a/") && url.ends_with("/v1/messages"));
            assert!(!url.contains("a//v1"));
            assert_eq!((model.as_str(), stream), ("big-model", true));
        }
        _ => panic!("not sent"),
    }
    assert_eq!(
        upstream_body(json(r#"{"model":"x"}"#), "big-model").to_text(),
        r#"{"model":"big-model"}"#
    );
    let (_, step) = MessagesFlow::begin(Some(BindError("no".into())), &body, "default");
    assert!(matches!(step, MessagesAction::Fail(ApiError::InvalidRequest(_))));
    let u = answer_usage(&json(r#"{"usage":{"input_tokens":3,"output_tokens":4},"stop_reason":"end_turn"}"#));
    assert_eq!((u.prompt_tokens, u.completion_tokens, u.stop_reason.as_str()), (3, 4, "end_turn"));
    assert!(upstream_answer(Ok(200), None).1.is_ok());
    let (note, answer) = upstream_answer(Ok(500), Some("boom".into()));
    assert_eq!(note, BreakerNote::Failure);
    assert!(answer.is_err());
    assert_eq!(streamed_prompt_tokens("12345678"), 2);
}

#[test]
fn embeddings_are_numbers_or_base64() {
    assert_eq!(parse_input(&json(r#"{"input":"a"}"#)).unwrap(), vec!["a".to_string()]);
    assert_eq!(parse_input(&json(r#"{"input":["a","b"]}"#)).unwrap().len(), 2);
    assert!(parse_input(&json(r#"{"input":[1]}"#)).is_err());
    assert!(parse_input(&json("{}")).is_err());
    assert_eq!(parse_encoding(&json("{}")).unwrap(), Encoding::Numbers);
    assert!(parse_encoding(&json(r#"{"encoding_format":"x"}"#)).is_err());
    let v = || EmbeddingVector { bits: vec![1.0f32.to_bits()], numbers: json("[1.0]") };
    assert_eq!(to_bytes(&vec![1.0f32.to_bits()]), 1.0f32.to_le_bytes().to_vec());
    let body = build_embeddings(&vec![v()], Encoding::Base64, "m", 4);
    let data = body.get("data").unwrap().get_item(0).unwrap();
    assert_eq!(data.get("embedding").unwrap().as_str(), Some("AACAPw=="));
    assert_eq!(base64_standard(&vec![0, 0, 128, 63]), "AACAPw==");
    let body = build_embeddings(&vec![v()], Encoding::Numbers, "m", 4);
    let data = body.get("data").unwrap().get_item(0).unwrap();
    assert_eq!(data.get("embedding").unwrap().to_text(), "[1.0]");
}

#[test]
fn an_embedding_falls_back_when_an_attempt_fails() {
    let body = json(r#"{"model":"e","input":"a"}"#);
    let (mut f, step) = EmbedFlow::begin(None, &HeaderMap::new(), &body).unwrap();
    assert_eq!(step, EmbedAction::CheckPolicy { model: "e".into() });
    assert_eq!(f.on_policy(allow(), &body), EmbedAction::Resolve { model: "e".into() });
    let r = Resolution { provider: "p".into(), model: "e1".into(), substituted: false };
    assert_eq!(
        f.on_resolved(r, None, true),
        EmbedAction::CheckCandidate { provider: "p".into(), model: "e1".into() }
    );
    assert_eq!(
        f.on_candidate(None, Ok(())),
        EmbedAction::Attempt { provider: "p".into(), model: "e1".into() }
    );
    assert!(matches!(f.on_attempt(Err("boom".into())), EmbedAction::NextFallback { .. }));
    f.on_next(Some(("off".into(), "e9".into())));
    assert_eq!(
        f.on_candidate(Some(Unavailable("disabled".into())), Ok(())),
        EmbedAction::NextFallback { after: "e9".into() }
    );
    f.on_next(Some(("none".into(), "e8".into())));
    assert_eq!(
        f.on_candidate(None, Err("No embedding adapter for provider: none".into())),
        EmbedAction::NextFallback { after: "e8".into() }
    );
    assert_eq!(
        f.on_next(Some(("q".into(), "e2".into()))),
        EmbedAction::CheckCandidate { provider: "q".into(), model: "e2".into() }
    );
    assert!(matches!(f.on_candidate(None, Ok(())), EmbedAction::Attempt { .. }));
    assert_eq!(
        f.on_attempt(Ok(())),
        EmbedAction::Answered { provider: "q".into(), model: "e2".into() }
    );
    assert_eq!(f.call(&user(), 5, usd(0.1), 9).payer.project.as_deref(), Some("p"));
}

#[test]
fn an_embedding_is_tried_nine_times_at_most() {
    let body = json(r#"{"model":"e","input":"a"}"#);
    let (mut f, _) = EmbedFlow::begin(None, &HeaderMap::new(), &body).unwrap();
    f.on_policy(allow(), &body);
    let r = Resolution { provider: "p".into(), model: "e1".into(), substituted: false };
    let mut step = f.on_resolved(r, None, true);
    let mut tries = 0;
    let error = loop {
        step = match step {
            EmbedAction::CheckCandidate { .. } => f.on_candidate(None, Ok(())),
            EmbedAction::Attempt { .. } => {
                tries += 1;
                f.on_attempt(Err(format!("failed {tries}")))
            }
            EmbedAction::NextFallback { .. } => f.on_next(Some(("p".into(), "e1".into()))),
            EmbedAction::Fail(e) => break e,
            other => panic!("{other:?}"),
        };
    };
    assert_eq!((tries, error), (9, ApiError::ProviderError("failed 9".into())));
}

#[test]
fn a_search_needs_an_engine_that_is_configured() {
    let configured = vec!["tavily".to_string()];
    assert_eq!(resolve_engine(None, None, &configured).unwrap(), "tavily");
    assert_eq!(resolve_engine(Some(" x "), None, &configured).unwrap(), "x");
    assert_eq!(resolve_engine(Some(" "), Some("vertex"), &configured).unwrap(), "vertex");
    assert!(resolve_engine(None, None, &vec![]).is_err());
    assert_eq!(parse_max_results(&json(r#"{"max_results":3}"#)).unwrap(), Some(3));
    assert_eq!(parse_max_results(&json(r#"{"max_results":"x"}"#)).unwrap(), None);
    assert!(parse_max_results(&json(r#"{"max_results":0}"#)).is_err());
    let body = json(r#"{"query":" rust ","engine":"tavily"}"#);
    let (mut f, step) =
        SearchFlow::begin(None, &HeaderMap::new(), &body, None, &configured).unwrap();
    assert_eq!(step, SearchAction::CheckEngine { engine: "tavily".into() });
    f.on_engine(true);
    f.on_policy(allow());
    f.on_cache_rules(true, true);
    assert_eq!(f.on_cached(true), SearchAction::ServeCached);
    let bad = json("{}");
    assert!(SearchFlow::begin(None, &HeaderMap::new(), &bad, None, &configured).is_err());
    let payload = search_payload("tavily".into(), vec![json("{}")], usd(0.5));
    assert_eq!(count_results(&payload), 1);
    let hit = cached_payload(payload, usd(0.5));
    assert_eq!(hit.get("usage").unwrap().get("cache_hit").unwrap().as_bool(), Some(true));
}

#[test]
fn the_responses_api_takes_no_tools() {
    assert!(refuse_tools(&json(r#"{"tools":[{"type":"function"}]}"#)).is_err());
    assert!(refuse_tools(&json("{}")).is_ok());
    let body = json(r#"{"model":"m","input":"hi"}"#);
    assert_eq!(
        translate_input(&body).to_text(),
        r#"{"messages":[{"content":"hi","role":"user"}],"model":"m"}"#
    );
    let (mut f, step) = ResponsesFlow::begin(None, &HeaderMap::new(), body, "d").unwrap();
    assert_eq!(step, ResponsesAction::CheckPolicy { model: "m".into() });
    assert_eq!(f.on_policy(allow()), ResponsesAction::Resolve { model: "m".into() });
    f.on_resolved("p".into(), "m1".into());
    f.on_available(None);
    f.on_breaker(false);
    assert_eq!(
        f.on_adapter(Ok(())),
        ResponsesAction::Call { provider: "p".into(), model: "m1".into() }
    );
    let result = CompletionResult {
        content: "hello".into(),
        prompt_tokens: 1,
        completion_tokens: 2,
        finish_reason: "stop".into(),
        cache_read_tokens: 0,
        cache_write_tokens: 0,
        ttft_ms: None,
        tool_calls: None,
    };
    assert!(build_response("id".into(), "m", &result).to_text().contains("hello"));
    let request = responses_request(&f.body, "m1".into(), true);
    assert_eq!(request.messages.len(), 1);
    assert_eq!(request.messages[0].get("content").unwrap().as_str(), Some("hi"));
    assert!(!request.stream);
    let call = responses_call(&user(), &f, &result, usd(0.5), 8);
    assert_eq!(call.messages, r#"[{"content":"hi","role":"user"}]"#);
    assert_eq!((call.model.as_str(), call.request_model.as_str()), ("m1", "m"));
    assert_eq!(call.provider, "p");
    assert_eq!(answered(Ok(result)).0, BreakerNote::Success);
    let (note, failed) = answered(Err("boom".into()));
    assert_eq!(note, BreakerNote::Erred("boom".into()));
    assert_eq!(failed, Err(ApiError::ProviderError("boom".into())));
}

#[test]
fn systemone_passes_errors_through() {
    let (mut f, step) =
        SystemFlow::begin(None, &HeaderMap::new(), json(r#"{"model":"s","questions":{"q":{}}}"#)).unwrap();
    assert!(matches!(step, SystemAction::CheckPolicy { .. }));
    f.on_policy(allow());
    let p = SystemProvider { api_key: "k".into(), api_base: Some("https://s/".into()) };
    assert!(matches!(f.on_provider(Some(p)), SystemAction::Send { .. }));
    assert_eq!(system_answer(Ok(422), Ok(())), SystemAnswer::PassThrough { status: 422 });
    assert_eq!(system_answer(Ok(200), Ok(())), SystemAnswer::Success { status: 200 });
    assert!(matches!(system_answer(Err("x".into()), Ok(())), SystemAnswer::Fail(_)));
    assert!(read_success(b"not json").is_err());
    let u = read_success(br#"{"usage":{"input_tokens":3,"output_tokens":4}}"#).unwrap();
    assert_eq!((u.input_tokens, u.output_tokens), (3, 4));
}

#[test]
fn speech_and_images_are_priced_by_unit() {
    let pricing = vec![PricingEntry {
        model: "tts-1".into(),
        input_per_million: usd(15.0),
        output_per_million: usd(0.0),
    }];
    assert_eq!(find_unit_price(&pricing, "tts-1", usd(1.0)), usd(15.0));
    assert_eq!(find_unit_price(&pricing, "other", usd(1.0)), usd(1.0));
    assert_eq!(count_speech_units(&json(r#"{"input":"hé"}"#)), 3);
    assert_eq!(count_images(&json(r#"{"n":3}"#)), 3);
    assert_eq!(count_images(&json("{}")), 1);
    let _ = image_price(&json("{}"), &pricing);
    let (_, step) = begin_speech(None, &json(r#"{"model":"tts-1"}"#), "openai");
    assert_eq!(step, ProxyAction::CheckPolicy { model: "tts-1".into() });
    let (mut f, _) = begin_images(None, &json("{}"), "openai");
    f.on_policy(allow());
    assert_eq!(f.on_breaker(false), ProxyAction::Send);
    let (_, step) = begin_transcription(Some(BindError("no".into())), "openai");
    assert!(matches!(step, ProxyAction::Fail(_)));
    assert_eq!(endpoint_url(&Some("https://a/v1/".into()), "d", "/x"), "https://a/v1/x");
    assert!(speech_url(&None).starts_with("https://"));
    assert!(transcription_url(&None).ends_with("/audio/transcriptions"));
    assert_eq!(speech_content_type(None), "audio/mpeg");
    assert!(check_status(200, None).is_ok());
    assert!(check_status(500, Some("boom".into())).is_err());
    assert!(form_part(Some("file".into()), None, None, Err("x".into())).is_err());
    let part = form_part(Some("file".into()), None, None, Ok(vec![1])).unwrap();
    assert_eq!((part.name.as_str(), part.bytes.len()), ("file", 1));
    let a = lenient_attribution(&json(r#"{"attribution":1}"#), &HeaderMap::new());
    assert_eq!(a, Attribution::default());
}

fn event() -> CallbackEvent {
    CallbackEvent {
        trace_id: "t".into(),
        user_id: 7,
        model: "m".into(),
        provider: "p".into(),
        input: json("[]"),
        output: "o".into(),
        prompt_tokens: 1,
        completion_tokens: 2,
        cost_usd: usd(0.5),
        latency_ms: 9,
    }
}

#[test]
fn an_amount_that_json_cannot_hold_is_null() {
    let event = CallbackEvent { cost_usd: usd(f64::NAN), ..event() };
    assert!(webhook_payload(&event).get("cost_usd").unwrap().is_null());
    assert!(langfuse_payload(&event).to_text().contains("null"));
    let body = search_payload("e".into(), vec![], usd(f64::INFINITY));
    assert!(body.get("usage").unwrap().get("cost_usd").unwrap().is_null());
}

#[test]
fn a_completion_is_told_to_each_backend() {
    let body = webhook_payload(&event());
    assert!(body.to_text().contains(r#""cost_usd":0.5"#));
    assert!(langfuse_payload(&event()).to_text().contains(r#""t""#));
    assert!(langsmith_payload(&event(), "proj").to_text().contains("proj"));
    let mut config = make_backend(vec![]).config;
    assert_eq!(secret_header(&config), None);
    config.secret_header_name = Some("X-Key".into());
    assert_eq!(secret_header(&config), None);
    config.secret_header_value = Some("v".into());
    assert_eq!(secret_header(&config), Some(("X-Key".to_string(), "v".to_string())));
}

#[test]
fn old_rows_are_archived_by_day() {
    let job = ArchivalJob::new(ArchivalConfig {
        endpoint: "https://s3".into(),
        bucket: "b".into(),
        prefix: "costs".into(),
        after_days: 13,
    });
    let plan = job.plan(1_778_754_030).unwrap();
    assert_eq!(plan.cutoff, "2026-05-01T10:20:30+00:00");
    assert_eq!(plan.object_key, "costs/2026-05-01.ndjson");
    assert_eq!(plan.url, "https://s3/b/costs/2026-05-01.ndjson");
    assert_eq!(rows_to_ndjson(&vec![json(r#"{"b":1,"a":2}"#), json("[]")]), "{\"a\":2,\"b\":1}\n[]");
}
