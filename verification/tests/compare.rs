use modelrouter::api::admin::attribution::AttributionFilter;
use modelrouter::api::admin::compare::{
    arm_metrics, chart_json, compare, compared_experiment, delta_text, metric_rows, page_caveat,
    panel_error, panel_hint, Amount, ArmFacts, ArmFilter, ArmTotals, BreakdownRow, Cell,
    CompareError, ComparePageQuery, CompareQuery, ComparedExperiment, DeltaCell, ExperimentOption,
    Figure, LatencySummary, Quotients, Style, CAVEAT_QUALITY, CAVEAT_QUALITY_VARIANT,
    CAVEAT_STREAMING, TTFT_NOTE,
};
use modelrouter::api::admin::dashboard::DashboardError;
use modelrouter::api::error::ApiError;
use modelrouter::records::{Experiment, ExperimentStatus, Usd};

fn q(dimension: &str, key: &str, a: &str, b: &str, window: &str) -> CompareQuery {
    CompareQuery {
        dimension: dimension.into(),
        key: key.into(),
        a: a.into(),
        b: b.into(),
        window: window.into(),
    }
}

#[test]
fn validate_maps_each_dimension_to_its_arm_filter() {
    let v = q("model", "", "x", "y", "all").validate().unwrap();
    assert_eq!(v.arm_a, ArmFilter::Model("x".into()));
    let v = q("provider", "", "x", "y", "all").validate().unwrap();
    assert_eq!(v.arm_b, ArmFilter::Provider("y".into()));
    let v = q("tag", "arm", " x ", "y", "all").validate().unwrap();
    assert_eq!(
        v.arm_a,
        ArmFilter::Attribution(AttributionFilter::Tag { key: "arm".into(), value: "x".into() })
    );
    assert_eq!(v.key.as_deref(), Some("arm"));
    let v = q("run", "ignored", "x", "y", "weekly").validate().unwrap();
    assert_eq!(v.arm_a, ArmFilter::Attribution(AttributionFilter::CorrelationId("x".into())));
    assert_eq!(v.key, None);
    assert_eq!(v.experiment_id, None);
    assert_eq!(v.window, "weekly");
    let v = q("variant", " 7 ", "control", "candidate.v2", "all").validate().unwrap();
    assert_eq!(v.arm_a, ArmFilter::Variant { experiment_id: 7, variant: "control".into() });
    assert_eq!(v.arm_b, ArmFilter::Variant { experiment_id: 7, variant: "candidate.v2".into() });
    assert_eq!(v.key.as_deref(), Some("7"));
    assert_eq!(v.experiment_id, Some(7));
}

fn err(query: CompareQuery) -> String {
    query.validate().unwrap_err().describe().to_string()
}

#[test]
fn validate_variant_checks_the_id_and_the_label_charset_without_a_database() {
    for key in ["", "abc", "0", "-3", "1.5", "99999999999999999999"] {
        assert!(err(q("variant", key, "x", "y", "all")).starts_with("key"), "key {key:?}");
    }
    assert!(err(q("variant", "1", "bad label", "y", "all")).starts_with("a "));
    assert!(err(q("variant", "1", "x", "b/y", "all")).starts_with("b "));
    assert!(err(q("variant", "1", &"x".repeat(65), "y", "all")).starts_with("a "));
    assert!(!err(q("variant", "1", "<script>", "y", "all")).contains("<script>"));
}

#[test]
fn validate_rejects_bad_input_naming_the_field() {
    assert!(err(q("pair", "", "x", "y", "all")).starts_with("dimension"));
    assert!(err(q("model", "", "", "y", "all")).starts_with("a "));
    assert!(err(q("model", "", "x", " ", "all")).starts_with("b "));
    assert!(err(q("model", "", "x", "x", "all")).starts_with("a and b"));
    assert!(err(q("tag", "", "x", "y", "all")).starts_with("key"));
    assert!(err(q("tag", "a b", "x", "y", "all")).contains("tag key"));
    assert!(err(q("model", "", "x", "y", "hourly")).starts_with("window"));
}

fn experiment(retain: bool, days: i64) -> Experiment {
    Experiment {
        id: 3,
        name: "exp".into(),
        variants: Default::default(),
        allowed_user_ids: vec![],
        status: ExperimentStatus::Active,
        feed_learning: false,
        expires_at: 0,
        created_at: String::new(),
        closed_at: None,
        retain_content: retain,
        content_retention_days: days,
    }
}

#[test]
fn stored_content_note_says_whether_content_is_kept_and_for_how_long() {
    let note = |retain, days| {
        ComparedExperiment::from_experiment(&experiment(retain, days)).stored_content_note
    };
    assert!(note(false, 0).contains("does not retain content"), "{}", note(false, 0));
    assert!(note(true, 0).contains("never purged"), "{}", note(true, 0));
    assert!(note(true, 30).contains("30 days"), "{}", note(true, 30));
    assert_eq!(
        ComparedExperiment::from_experiment(&experiment(true, 30)).status,
        ExperimentStatus::Active
    );
}

// What the library does beyond that.

#[test]
fn swapped_arms_are_swapped() {
    let v = q("model", "", "x", "y", "all").validate_at(0).unwrap();
    let w = q("model", "", "y", "x", "all").validate_at(0).unwrap();
    assert_eq!(v.arm_a, w.arm_b);
    assert_eq!(v.arm_b, w.arm_a);
    assert_eq!((v.start, v.end), (w.start, w.end));
}

#[test]
fn windows_are_exact() {
    // 2026-05-14T10:20:30Z, a Thursday.
    let at = 1_778_754_030;
    let v = q("model", "", "x", "y", "monthly").validate_at(at).unwrap();
    assert_eq!(v.start, "2026-05-01T00:00:00Z");
    assert_eq!(v.end, "2026-05-15T10:20:30Z");
    let v = q("model", "", "x", "y", "daily").validate_at(at).unwrap();
    assert_eq!(v.start, "2026-05-14T00:00:00Z");
    let v = q("model", "", "x", "y", "weekly").validate_at(at).unwrap();
    assert_eq!(v.start, "2026-05-07T10:20:30Z");
    assert!(matches!(
        q("model", "", "x", "y", "daily").validate_at(i64::MAX),
        Err(CompareError::Db(_))
    ));
}

#[test]
fn an_experiment_must_declare_both_labels() {
    let exp = Experiment {
        variants: vec![("a".into(), vec![]), ("b".into(), vec![])],
        ..experiment(false, 0)
    };
    assert_eq!(compared_experiment(3, "a", "b", &Some(exp.clone())).unwrap().name, "exp");
    let e = compared_experiment(3, "a", "c", &Some(exp)).unwrap_err();
    assert_eq!(e.describe(), "b: experiment 3 has no variant c");
    let e = compared_experiment(9, "a", "b", &None).unwrap_err();
    assert_eq!(e.describe(), "key: experiment 9 does not exist");
}

fn usd(v: f64) -> Usd {
    Usd { bits: v.to_bits() }
}

fn totals(requests: i64, cost: f64) -> ArmTotals {
    ArmTotals {
        requests,
        cost_usd: usd(cost),
        saved_usd: usd(0.0),
        tokens_in: 100,
        tokens_out: 50,
        cache_hits: 1,
        hit_rate: 0.25f64.to_bits(),
    }
}

fn facts(requests: i64, cost: f64, failures: i64) -> ArmFacts {
    ArmFacts {
        label: "model: x".into(),
        totals: totals(requests, cost),
        by_model: vec![("priced".into(), true), ("free".into(), false)],
        by_day: vec![BreakdownRow { key: "2026-01-01".into(), totals: totals(requests, cost) }],
        latency: LatencySummary { samples: 2, mean_ms: Some(1.5f64.to_bits()), p50_ms: Some(1), p95_ms: None },
        failures,
    }
}

#[test]
fn an_arm_without_requests_has_no_figures_per_request() {
    let a = arm_metrics("x", facts(0, 0.0, 0));
    assert_eq!(a.cost_per_request, None);
    assert_eq!(a.error_rate, Figure::Plain(Amount::Real(0)));
    let b = arm_metrics("x", facts(3, 1.5, 1));
    assert_eq!(b.cost_per_request, Some(Figure::Quotient(Amount::Real(1.5f64.to_bits()), 3)));
    assert_eq!(b.error_rate, Figure::Quotient(Amount::Count(1), 4));
    assert!(b.unpriced);
    assert_eq!(b.unpriced_models, vec!["free".to_string()]);
}

#[test]
fn the_table_has_every_metric_in_order() {
    let v = q("model", "", "x", "y", "all").validate_at(0).unwrap();
    let c = compare(v, None, arm_metrics("x", facts(0, 0.0, 0)), arm_metrics("y", facts(3, 1.5, 1)));
    assert_eq!(c.caveats, [CAVEAT_QUALITY, CAVEAT_STREAMING]);
    assert_eq!(c.ttft_note, TTFT_NOTE);
    assert_eq!(c.coverage.b.requests, 3);
    assert_eq!(c.coverage.incomplete_pairs, None);
    let rows = metric_rows(&c);
    let labels: Vec<&str> = rows.iter().map(|r| r.label).collect();
    assert_eq!(
        labels,
        vec![
            "Cost per request",
            "Tokens in per request",
            "Tokens out per request",
            "Mean latency",
            "p50 latency",
            "p95 latency",
            "Cache hit rate",
            "Error rate",
            "Requests",
            "Total cost",
            "Saved by cache",
            "Tokens in",
            "Tokens out",
            "Cache hits",
            "Failures"
        ]
    );
    assert_eq!(rows[0].a, Cell::Dash);
    assert_eq!(rows[0].delta, DeltaCell::Dash);
    assert_eq!(rows[8].b, Cell::Shown(Style::Count, Figure::Plain(Amount::Count(3))));
    assert!(matches!(rows[8].delta, DeltaCell::Shown(Style::Count, _)));
    assert_eq!(rows[10].delta, DeltaCell::Dash);
}

#[test]
fn a_variant_comparison_points_to_the_results_page() {
    let v = q("variant", "3", "a", "b", "all").validate_at(0).unwrap();
    let exp = ComparedExperiment::from_experiment(&experiment(false, 0));
    let c = compare(v, Some(exp), arm_metrics("a", facts(1, 0.0, 0)), arm_metrics("b", facts(1, 0.0, 0)));
    assert_eq!(c.caveats[0], CAVEAT_QUALITY_VARIANT);
    assert_eq!(page_caveat("variant"), CAVEAT_QUALITY_VARIANT);
    assert_eq!(page_caveat("model"), CAVEAT_QUALITY);
}

#[test]
fn a_change_carries_its_sign() {
    assert_eq!(delta_text(true, "$1", &Some("50.0".into())), "+$1 (+50.0%)");
    assert_eq!(delta_text(false, "-$1", &Some("-50.0".into())), "-$1 (-50.0%)");
    assert_eq!(delta_text(true, "2", &None), "+2");
}

#[test]
fn charts_are_json() {
    let v = q("model", "", "x", "y", "all").validate_at(0).unwrap();
    let c = compare(v, None, arm_metrics("x", facts(2, 1.5, 0)), arm_metrics("y", facts(0, 0.0, 0)));
    let a = Quotients {
        cost_per_request: Some(0.75f64.to_bits()),
        tokens_in_per_request: Some(50.0f64.to_bits()),
        tokens_out_per_request: Some(f64::NAN.to_bits()),
    };
    let b = Quotients {
        cost_per_request: None,
        tokens_in_per_request: None,
        tokens_out_per_request: None,
    };
    let (bars, daily, latency) = chart_json(&c, &a, &b);
    assert_eq!(
        bars,
        r#"{"a":{"cost_per_request":0.75,"label":"x","mean_ms":1.5,"requests":2,"tokens_in_per_request":50.0,"tokens_out_per_request":null},"b":{"cost_per_request":null,"label":"y","mean_ms":1.5,"requests":0,"tokens_in_per_request":null,"tokens_out_per_request":null}}"#
    );
    assert_eq!(
        daily,
        r#"{"a":{"label":"x","requests":2,"series":[{"cost_usd":1.5,"day":"2026-01-01"}]},"b":{"label":"y","requests":0,"series":[{"cost_usd":0.0,"day":"2026-01-01"}]}}"#
    );
    assert_eq!(
        latency,
        r#"{"a":{"label":"x","p50_ms":1,"p95_ms":null,"samples":2},"b":{"label":"y","p50_ms":1,"p95_ms":null,"samples":2}}"#
    );
}

fn page(dimension: &str, key: &str, window: &str) -> ComparePageQuery {
    ComparePageQuery {
        dimension: dimension.into(),
        key: key.into(),
        a: String::new(),
        b: String::new(),
        window: window.into(),
    }
}

#[test]
fn the_page_falls_back_to_what_it_knows() {
    assert_eq!(page("nonsense", "", "").chosen_dimension(), "model");
    assert_eq!(page("tag", "", "").chosen_dimension(), "tag");
    assert_eq!(page("", "", "hourly").chosen_window(), "all");
    let keys = vec!["arm".to_string()];
    assert_eq!(page("tag", " arm ", "").chosen_tag_key(&keys).as_deref(), Some("arm"));
    assert_eq!(page("tag", "other", "").chosen_tag_key(&keys), None);
    let all = vec![experiment(false, 0)];
    assert_eq!(page("variant", " 3 ", "").chosen_experiment(&all), Some(0));
    assert_eq!(page("variant", "4", "").chosen_experiment(&all), None);
}

#[test]
fn closed_experiments_are_marked() {
    let closed = Experiment { status: ExperimentStatus::Closed, ..experiment(false, 0) };
    assert_eq!(ExperimentOption::from_experiment(&closed).text, "exp (closed)");
    assert_eq!(ExperimentOption::from_experiment(&experiment(false, 0)).id, "3");
}

#[test]
fn a_rejected_question_is_explained_in_place() {
    assert!(panel_hint(&q("model", "", "", "y", "all")).unwrap().hint);
    assert_eq!(panel_hint(&q("model", "", "x", "y", "all")), None);
    assert_eq!(panel_error(CompareError::Invalid("why".into())).unwrap().message, "why");
    assert_eq!(panel_error(CompareError::Db("x".into())), Err(DashboardError::Internal));
    assert_eq!(CompareError::Db("x".into()).into_api_error(), ApiError::Internal);
}
