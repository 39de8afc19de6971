use modelrouter::api::admin::experiment_results::{
    counted_results, result_labels, variant_latency, ExperimentRunRow, FailureRow, LatencyRow, OutcomeStats,
    ResultRows, ResultsError, ResultsQuery, RunKeyRow, UnboundRow, VariantLatency, VariantModelRow,
    VariantTotalRow,
};
use modelrouter::api::admin::compare::LatencySummary;
use modelrouter::api::admin::dashboard::DashboardError;
use modelrouter::api::admin::experiments::{
    audit_row, close_outcome, create_error, gate_variants, is_valid_label, may_close, parse_create,
    parse_id, status_filter, ExperimentStatusFilter, ListExperimentsQuery, Resolution, RunPage,
    TargetFacts, MAX_LABEL_LEN, MAX_OVERLAY_ENTRIES, MAX_RETENTION_DAYS, MAX_RUN_LIMIT,
    MAX_VARIANTS,
};
use modelrouter::api::error::ApiError;
use modelrouter::clock::{now, span_millis};
use modelrouter::json::Json;
use modelrouter::records::{Experiment, ExperimentStatus, RunOutcome, Usd};

fn json(text: &str) -> Json {
    Json::parse(text).unwrap()
}

fn good_body() -> Json {
    json(
        r#"{
        "name": "exp",
        "variants": {
            "control": { "fast": "openai/gpt-4o-mini" },
            "candidate": { "fast": "anthropic/haiku-4-5" }
        },
        "expires_at": 0,
        "content_retention_days": 0,
        "retain_content": false
    }"#,
    )
}

fn usd(v: f64) -> Usd {
    Usd { bits: v.to_bits() }
}

#[test]
fn labels_follow_the_header_charset() {
    assert!(is_valid_label("control"));
    assert!(is_valid_label("v1.2_b-3"));
    assert!(!is_valid_label(""));
    assert!(!is_valid_label("has space"));
    assert!(!is_valid_label("colon:no"));
    assert!(!is_valid_label(&"x".repeat(MAX_LABEL_LEN + 1)));
}

#[test]
fn a_complete_body_parses() {
    let p = parse_create(&good_body(), now()).unwrap();
    assert_eq!(p.name, "exp");
    assert_eq!(p.variants.len(), 2);
    let control = p.variants.iter().find(|v| v.0 == "control").unwrap();
    assert_eq!(control.1.get("fast").unwrap(), "openai/gpt-4o-mini");
    assert_eq!(p.expires_at, 0);
    assert!(!p.feed_learning);
    assert!(p.allowed_user_ids.is_empty());
}

#[test]
fn missing_fields_are_named() {
    for field in ["name", "variants", "expires_at", "content_retention_days", "retain_content"] {
        let b = good_body().without(field);
        let err = parse_create(&b, now()).unwrap_err();
        assert!(err.starts_with(field), "{field}: {err}");
    }
}

#[test]
fn expires_at_accepts_rfc3339_or_zero_only() {
    let with = |v: &str| good_body().assign("expires_at", json(v));
    assert!(parse_create(&with(r#""2999-01-01T00:00:00Z""#), now()).unwrap().expires_at > 0);
    assert!(parse_create(&with("1"), now()).unwrap_err().starts_with("expires_at"));
    assert!(parse_create(&with(r#""tomorrow""#), now()).unwrap_err().starts_with("expires_at"));
    assert!(parse_create(&with(r#""2000-01-01T00:00:00Z""#), now()).unwrap_err().contains("future"));
}

#[test]
fn retain_content_needs_an_expiry() {
    let b = good_body().assign("retain_content", Json::Bool(true));
    let err = parse_create(&b, now()).unwrap_err();
    assert!(err.contains("retain_content") && err.contains("expires_at"), "{err}");
}

#[test]
fn variant_bounds_are_enforced() {
    let with = |v: &str| good_body().assign("variants", json(v));
    let b = with(r#"{ "only": { "a": "openai/gpt-4o" } }"#);
    assert!(parse_create(&b, now()).unwrap_err().starts_with("variants"));

    let many: Vec<String> =
        (0..(MAX_VARIANTS + 1)).map(|i| format!(r#""v{i}": {{ "a": "openai/gpt-4o" }}"#)).collect();
    let b = with(&format!("{{{}}}", many.join(",")));
    assert!(parse_create(&b, now()).unwrap_err().starts_with("variants"));

    let b = with(r#"{ "bad label": { "a": "openai/gpt-4o" }, "ok": {} }"#);
    assert!(parse_create(&b, now()).unwrap_err().contains("bad label"));

    let wide: Vec<String> =
        (0..(MAX_OVERLAY_ENTRIES + 1)).map(|i| format!(r#""m{i}": "openai/gpt-4o""#)).collect();
    let b = with(&format!(r#"{{ "a": {{{}}}, "b": {{}} }}"#, wide.join(",")));
    assert!(parse_create(&b, now()).unwrap_err().contains("at most"));
}

#[test]
fn retention_days_are_bounded() {
    let with = |v: &str| good_body().assign("content_retention_days", json(v));
    let over = (MAX_RETENTION_DAYS + 1).to_string();
    for bad in [over.as_str(), "-1", r#""30""#] {
        let err = parse_create(&with(bad), now()).unwrap_err();
        assert!(err.starts_with("content_retention_days"));
    }
}

#[test]
fn run_page_defaults_bounds_and_names_the_field() {
    assert_eq!(RunPage::parse(None, None).unwrap(), RunPage::default());
    assert_eq!(RunPage::parse(Some(""), Some(" ")).unwrap(), RunPage::default());
    assert_eq!(
        RunPage::parse(Some("1"), Some("1")).unwrap(),
        RunPage { limit: 1, offset: 1 }
    );
    assert_eq!(RunPage::parse(Some("1000"), None).unwrap().limit, MAX_RUN_LIMIT);
    for bad in ["0", "1001", "-1", "ten", "1.5"] {
        assert!(RunPage::parse(Some(bad), None).unwrap_err().starts_with("limit"), "{bad}");
    }
    for bad in ["-1", "x", "0.5"] {
        assert!(RunPage::parse(None, Some(bad)).unwrap_err().starts_with("offset"), "{bad}");
    }
}

#[test]
fn span_is_seconds_between_timestamps_and_zero_when_unparseable() {
    let span_secs = |a: &str, b: &str| span_millis(a, b) as f64 / 1000.0;
    assert_eq!(span_secs("2026-01-01T00:00:00Z", "2026-01-01T00:01:30Z"), 90.0);
    assert_eq!(span_secs("2026-01-01T00:00:00+00:00", "2026-01-01T00:00:00.500Z"), 0.5);
    assert_eq!(span_secs("2026-01-01T00:01:00Z", "2026-01-01T00:00:00Z"), 0.0);
    assert_eq!(span_secs("nope", "2026-01-01T00:00:00Z"), 0.0);
}

fn outcome(outcome: &str, score: Option<f64>, rating: Option<i64>) -> RunOutcome {
    RunOutcome {
        user_id: 1,
        attribution_correlation_id: "r".into(),
        outcome: outcome.into(),
        score: score.map(f64::to_bits),
        rating,
        note: None,
        experiment_id: None,
        experiment_variant: None,
        created_at: String::new(),
        updated_at: String::new(),
    }
}

#[test]
fn outcome_stats_average_only_what_was_reported() {
    let rate = |s: &OutcomeStats| {
        if s.reported == 0 { None } else { Some(s.success as f64 / s.reported as f64) }
    };
    let mean_score = |s: &OutcomeStats| {
        if s.scores.is_empty() {
            None
        } else {
            let sum: f64 = s.scores.iter().map(|b| f64::from_bits(*b)).sum();
            Some(sum / s.scores.len() as f64)
        }
    };
    let mean_rating = |s: &OutcomeStats| {
        if s.ratings.is_empty() {
            None
        } else {
            Some(s.ratings.iter().sum::<i64>() as f64 / s.ratings.len() as f64)
        }
    };
    let mut stats = OutcomeStats::default();
    assert_eq!(rate(&stats), None);
    stats.add(&outcome("success", Some(1.0), Some(5)));
    stats.add(&outcome("failure", None, Some(2)));
    stats.add(&outcome("success", Some(0.5), None));
    assert_eq!(stats.reported, 3);
    assert_eq!(stats.success, 2);
    assert_eq!(stats.failure, 1);
    assert!((rate(&stats).unwrap() - 2.0 / 3.0).abs() < 1e-9);
    assert_eq!(mean_score(&stats), Some(0.75));
    assert_eq!(stats.scores.len(), 2);
    assert_eq!(mean_rating(&stats), Some(3.5));
    assert_eq!(stats.ratings.len(), 2);
}

fn experiment() -> Experiment {
    Experiment {
        id: 1,
        name: "e".into(),
        variants: Vec::new(),
        allowed_user_ids: vec![],
        status: ExperimentStatus::Active,
        feed_learning: false,
        expires_at: 0,
        created_at: "2026-01-01T00:00:00+00:00".into(),
        closed_at: None,
        retain_content: false,
        content_retention_days: 0,
    }
}

#[test]
fn audit_row_spells_out_never() {
    let exp = experiment();
    let v = audit_row(&exp);
    assert_eq!(v.get("expires_at").unwrap(), &Json::Str("never".to_string()));
    assert_eq!(v.get("content_retention_days").unwrap(), &Json::Str("never".to_string()));
    let dated = Experiment { expires_at: 5, content_retention_days: 30, ..exp };
    let v = audit_row(&dated);
    assert_eq!(v.get("expires_at").unwrap(), &Json::PosInt(5));
    assert_eq!(v.get("content_retention_days").unwrap(), &Json::PosInt(30));
}

// What the library does beyond that.

#[test]
fn a_path_id_is_a_positive_number() {
    assert_eq!(parse_id("7").unwrap(), 7);
    for bad in ["0", "-1", "x", ""] {
        assert_eq!(
            parse_id(bad).unwrap_err(),
            ApiError::InvalidRequest(format!("invalid experiment id: {bad}"))
        );
    }
}

#[test]
fn a_status_filter_is_active_by_default() {
    let q = |s: Option<&str>| ListExperimentsQuery { status: s.map(|s| s.to_string()) };
    assert_eq!(status_filter(&q(None)).unwrap(), ExperimentStatusFilter::Active);
    assert_eq!(status_filter(&q(Some("all"))).unwrap(), ExperimentStatusFilter::All);
    assert!(status_filter(&q(Some("nonsense"))).is_err());
}

#[test]
fn an_experiment_is_closed_once() {
    let open = Some(experiment());
    assert!(may_close(1, &open).is_ok());
    let closed = Some(Experiment { closed_at: Some("2026-02-01".into()), ..experiment() });
    assert!(may_close(1, &closed).is_err());
    assert!(may_close(1, &None).is_err());
    assert!(close_outcome(1, true).is_ok());
    assert!(close_outcome(1, false).is_err());
}

#[test]
fn a_name_is_taken_once() {
    assert!(matches!(create_error("e", true), ApiError::InvalidRequest(_)));
    assert_eq!(create_error("e", false), ApiError::Internal);
}

fn facts(priced: bool) -> TargetFacts {
    TargetFacts {
        is_pool: false,
        resolution: Resolution {
            provider: "openai".into(),
            model: "gpt-4o-mini".into(),
            substituted: false,
        },
        provider_configured: true,
        priced,
    }
}

#[test]
fn a_target_without_a_price_is_refused() {
    let p = parse_create(&good_body(), now()).unwrap();
    let priced = vec![vec![facts(true)], vec![facts(true)]];
    let pinned = gate_variants(&p.variants, &priced).unwrap();
    assert_eq!(pinned.len(), 2);
    assert_eq!(pinned[0].0, "candidate");
    assert_eq!(pinned[0].1[0].1.provider, "openai");
    let free = vec![vec![facts(true)], vec![facts(false)]];
    assert!(gate_variants(&p.variants, &free).is_err());
}

fn total(variant: &str, requests: i64, cost: f64) -> VariantTotalRow {
    VariantTotalRow {
        variant: variant.into(),
        requests,
        cost_usd: usd(cost),
        saved_usd: usd(0.0),
        tokens_in: 10,
        tokens_out: 5,
        estimated_rows: 0,
    }
}

fn run_key(user_id: i64, id: &str, variant: &str, last_at: &str) -> RunKeyRow {
    RunKeyRow {
        user_id,
        correlation_id: id.into(),
        variant: variant.into(),
        mixed: false,
        requests: 2,
        first_at: "2026-01-01T00:00:00Z".into(),
        last_at: last_at.into(),
    }
}

fn failure(user_id: i64, id: &str, last_at: &str) -> FailureRow {
    FailureRow {
        user_id,
        correlation_id: id.into(),
        variant: Some("a".into()),
        failures: 1,
        first_at: "2026-01-01T00:00:00Z".into(),
        last_at: last_at.into(),
    }
}

fn rows() -> ResultRows {
    ResultRows {
        declared: vec!["a".into(), "b".into()],
        totals: vec![total("a", 2, 1.5), total("a", 1, 0.5)],
        models: vec![VariantModelRow {
            variant: "a".into(),
            model: "m".into(),
            requests: 3,
            cost_usd: usd(2.0),
            saved_usd: usd(0.0),
            tokens_in: 20,
            tokens_out: 10,
            estimated_rows: 0,
            priced: false,
        }],
        run_keys: vec![run_key(1, "r", "a", "2026-01-01T00:00:30Z")],
        failures: vec![failure(1, "r", "2026-01-01T00:00:10Z"), failure(2, "f", "2026-01-02T00:00:00Z"), failure(3, "g", "2026-01-03T00:00:00Z")],
        unbound: vec![UnboundRow { user_id: 1, correlation_id: "r".into(), requests: 4 }],
        latency: vec![LatencyRow { user_id: 1, correlation_id: "r".into(), samples: 1, mean_ms: Some(12.0f64.to_bits()) }],
        outcomes: vec![outcome("success", Some(1.0), None)],
        summaries: vec![latency_of("a", 3), latency_of("b", 0)],
    }
}

fn latency_of(variant: &str, samples: i64) -> VariantLatency {
    let summary = LatencySummary { samples, mean_ms: None, p50_ms: None, p95_ms: None };
    VariantLatency { variant: variant.into(), summary }
}

fn page_row() -> ExperimentRunRow {
    ExperimentRunRow {
        user_id: 1,
        correlation_id: "r".into(),
        variant: "a".into(),
        mixed: false,
        requests: 2,
        cost_usd: usd(2.0),
        saved_usd: usd(0.0),
        tokens_in: 20,
        tokens_out: 10,
        estimated_rows: 0,
        first_at: "2026-01-01T00:00:00Z".into(),
        last_at: "2026-01-01T00:00:30Z".into(),
    }
}

#[test]
fn results_list_every_variant_and_add_up() {
    let r = counted_results(&rows(), &vec![page_row()], 1, RunPage::default()).unwrap();
    assert_eq!(r.variants.len(), 2);
    let a = &r.variants[0];
    assert_eq!(a.label, "a");
    assert_eq!((a.runs, a.requests, a.turns, a.failures, a.unbound_requests), (3, 3, 2, 3, 4));
    assert_eq!(a.costs_usd, vec![usd(1.5), usd(0.5)]);
    assert_eq!(a.unpriced_models, vec!["m".to_string()]);
    assert_eq!(a.tokens.total, 30);
    assert_eq!(a.spans_ms.iter().sum::<i64>(), 30_000 + 86_400_000 + 172_800_000);
    assert_eq!(a.outcomes.success, 1);
    assert_eq!(a.divisors(), (Some(3), Some(3)));
    let b = &r.variants[1];
    assert_eq!((b.runs, b.requests), (0, 0));
    assert_eq!(b.divisors(), (None, None));
    assert_eq!(r.totals.requests, a.requests + b.requests);
    assert_eq!(r.totals.runs, 3);
    assert_eq!(r.totals.failures, 3);
}

#[test]
fn runs_that_only_failed_come_last_and_newest_first() {
    let r = counted_results(&rows(), &vec![page_row()], 1, RunPage::default()).unwrap();
    let ids: Vec<&str> = r.runs.items.iter().map(|i| i.correlation_id.as_str()).collect();
    assert_eq!(ids, vec!["r", "g", "f"]);
    assert_eq!(r.runs.total, 3);
    assert_eq!(r.runs.items[1].cost_usd, usd(0.0));
    let short = RunPage { limit: 2, offset: 0 };
    let r = counted_results(&rows(), &vec![page_row()], 1, short).unwrap();
    assert_eq!(r.runs.items.len(), 2);
    let late = RunPage { limit: 2, offset: 2 };
    let r = counted_results(&rows(), &Vec::new(), 1, late).unwrap();
    let ids: Vec<&str> = r.runs.items.iter().map(|i| i.correlation_id.as_str()).collect();
    assert_eq!(ids, vec!["f"]);
}

#[test]
fn counts_that_cannot_be_added_give_no_results() {
    let mut r = rows();
    r.totals[0].requests = i64::MAX;
    assert!(counted_results(&r, &vec![page_row()], 1, RunPage::default()).is_none());
    let mut r = rows();
    r.failures[0].failures = i64::MAX;
    assert!(counted_results(&r, &vec![page_row()], 1, RunPage::default()).is_none());
    let mut r = rows();
    r.summaries = vec![latency_of("a", i64::MAX), latency_of("b", 1)];
    assert!(counted_results(&r, &vec![page_row()], 1, RunPage::default()).is_none());
    assert!(counted_results(&rows(), &vec![page_row()], i64::MAX, RunPage::default()).is_none());
}

#[test]
fn negative_counts_are_added_like_any_other() {
    let mut r = rows();
    r.totals[0].requests = -5;
    r.totals[0].tokens_in = -30;
    r.failures[0].failures = -2;
    r.unbound[0].requests = -4;
    let r = counted_results(&r, &vec![page_row()], 1, RunPage::default()).unwrap();
    assert_eq!((r.totals.requests, r.variants[0].requests), (-4, -4));
    assert_eq!(r.totals.tokens.total, r.totals.tokens.prompt + r.totals.tokens.completion);
    assert_eq!((r.totals.failures, r.totals.unbound_requests), (0, -4));
    assert_eq!(r.runs.items[0].failures, -2);
    let mut r = rows();
    r.totals[0].requests = i64::MAX;
    r.totals.push(total("a", -1, 0.0));
    let r = counted_results(&r, &vec![page_row()], 1, RunPage::default()).unwrap();
    assert_eq!(r.totals.requests, i64::MAX);
}

#[test]
fn latency_samples_add_up_over_the_variants() {
    assert_eq!(result_labels(&rows()), vec!["a".to_string(), "b".to_string()]);
    let r = counted_results(&rows(), &vec![page_row()], 1, RunPage::default()).unwrap();
    assert_eq!((r.variants[0].latency_samples, r.variants[1].latency_samples), (3, 0));
    assert!(r.variants[0].latency.is_some());
    assert!(r.variants[1].latency.is_none());
    assert_eq!(r.totals.latency_samples, 3);
}

#[test]
fn pages_name_every_run_once() {
    let mut ids: Vec<String> = Vec::new();
    for offset in [0, 1, 2, 3] {
        let ledger = if offset == 0 { vec![page_row()] } else { Vec::new() };
        let page = RunPage { limit: 1, offset };
        let r = counted_results(&rows(), &ledger, 1, page).unwrap();
        assert_eq!(r.runs.total, 3);
        assert!(r.runs.items.len() <= 1);
        ids.extend(r.runs.items.iter().map(|i| i.correlation_id.clone()));
    }
    assert_eq!(ids, vec!["r", "g", "f"]);
}

#[test]
fn a_bad_page_is_an_invalid_request() {
    let q = ResultsQuery { limit: Some("0".into()), offset: None };
    assert_eq!(
        q.page().unwrap_err(),
        ApiError::InvalidRequest("limit must be an integer between 1 and 1000".into())
    );
}

#[test]
fn latency_without_samples_is_none() {
    let none = LatencySummary { samples: 0, mean_ms: None, p50_ms: None, p95_ms: None };
    assert_eq!(variant_latency(none), (None, 0));
    let some = LatencySummary { samples: 2, mean_ms: None, p50_ms: Some(3), p95_ms: None };
    assert_eq!(variant_latency(some), (Some(some), 2));
}

#[test]
fn what_went_wrong_inside_is_not_told() {
    assert_eq!(ResultsError::Db("secret".into()).into_api_error(), ApiError::Internal);
    assert_eq!(ResultsError::Db("secret".into()).into_dashboard_error(), DashboardError::Internal);
    assert_eq!(
        ResultsError::Invalid("m".into()).into_api_error(),
        ApiError::InvalidRequest("m".into())
    );
}
