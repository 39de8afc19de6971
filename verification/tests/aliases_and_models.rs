use modelrouter::api::admin::aliases::{
    alias_deleted, alias_set, available_model_ids, build_availability_map, build_db_alias_map,
    check_alias, check_target, delete_answer, refusal_html, render_alias_rows, sanitize_id,
    saved_html, would_cycle, Model, ModelAlias, ProviderState, MAX_ALIAS_DEPTH,
};
use modelrouter::api::admin::auth::AdminClaims;
use modelrouter::api::admin::dashboard::DashboardError;
use modelrouter::api::admin::models::{
    all_chains, catalog_body, changed_model_html, check_provider, clean_reason, config_alias_list,
    created_model_html, failover_rows, failovers_html, find_provider, find_state, model_list,
    model_row_html,
    model_set, model_to_set, provider_row_html, provider_rows_html, provider_views, providers_body,
    AvailableModelsQuery, CreateModelForm, Failover, SetFailoverForm,
};
use modelrouter::api::error::ApiError;
use modelrouter::json::Json;
use modelrouter::text_map::TextMap;

fn map(pairs: &[(&str, &str)]) -> TextMap {
    let mut m = TextMap::new();
    for (k, v) in pairs {
        m = m.insert(k.to_string(), v.to_string());
    }
    m
}

#[test]
fn direct_self_reference_is_a_cycle() {
    assert!(would_cycle(&map(&[]), "deep", "deep"));
}

#[test]
fn indirect_cycle_is_detected() {
    let m = map(&[("b", "c"), ("c", "a")]);
    assert!(would_cycle(&m, "a", "b"));
}

#[test]
fn acyclic_chain_is_allowed() {
    let m = map(&[("b", "openai/gpt-5")]);
    assert!(!would_cycle(&m, "a", "b"));
}

#[test]
fn overlong_chain_is_rejected() {
    let mut m = TextMap::new();
    for i in 0..MAX_ALIAS_DEPTH + 2 {
        m = m.insert(format!("a{i}"), format!("a{}", i + 1));
    }
    assert!(would_cycle(&m, "root", "a0"));
}

#[test]
fn sanitize_id_strips_unsafe_chars() {
    assert_eq!(sanitize_id("openai/gpt-5"), "openai-gpt-5");
}

// What the library does beyond that.

fn model(name: &str, alias: Option<&str>, enabled: bool) -> Model {
    Model {
        id: 4,
        provider: "openai".into(),
        name: name.into(),
        alias: alias.map(|a| a.into()),
        enabled,
        created_at: "2026-01-01".into(),
        disabled_reason: if enabled { None } else { Some("<broken>".into()) },
        disabled_by: None,
        disabled_at: if enabled { None } else { Some("today".into()) },
    }
}

fn alias(alias: &str, target: &str) -> ModelAlias {
    ModelAlias {
        alias: alias.into(),
        target: target.into(),
        created_by: None,
        updated_at: "2026-01-01".into(),
    }
}

fn actor() -> AdminClaims {
    AdminClaims { sub: 1, name: "ops".into(), role: "superadmin".into(), exp: 0 }
}

#[test]
fn managed_aliases_override_those_of_enabled_models() {
    let models =
        vec![model("a", Some("fast"), true), model("b", Some("slow"), false), model("c", None, true)];
    let m = build_db_alias_map(&models, &vec![alias("fast", "other/x"), alias("z", "y")]);
    assert_eq!(m.get("fast").unwrap(), "other/x");
    assert_eq!(m.get("slow"), None);
    assert_eq!(m.get("z").unwrap(), "y");
    assert_eq!(m.len(), 2);
}

#[test]
fn an_alias_is_held_against_all_others() {
    let none = map(&[]);
    let db = map(&[("b", "c")]);
    let config = map(&[("c", "a"), ("b", "elsewhere")]);
    assert_eq!(
        check_alias(" x ", " openai/y ", &none, &none),
        Ok(("x".to_string(), "openai/y".to_string()))
    );
    assert_eq!(
        check_alias("", "y", &none, &none).unwrap_err(),
        "alias and target are required"
    );
    assert!(check_alias(":fastest", "y", &none, &none).unwrap_err().contains("reserved"));
    assert_eq!(
        check_alias("x", "x", &none, &none).unwrap_err(),
        "alias 'x' cannot point at itself"
    );
    assert_eq!(
        check_alias("a", "b", &db, &config).unwrap_err(),
        "alias 'a' -> 'b' would create an alias cycle"
    );
    // What the alias meant before does not count.
    assert!(check_alias("b", "c", &map(&[("b", "b2")]), &none).is_ok());
}

#[test]
fn a_target_must_be_in_the_catalog_where_there_is_one() {
    let catalog = Json::parse(
        r#"{"openai":{"models":[{"provider":"openai","name":"gpt"},{"name":"x"}]},"down":{"error":"e"}}"#,
    )
    .unwrap();
    assert_eq!(available_model_ids(&catalog), Some(vec!["openai/gpt".to_string()]));
    assert!(check_target("openai/gpt", &catalog).is_ok());
    assert!(check_target("openai/nope", &catalog).unwrap_err().starts_with("model 'openai/nope'"));
    assert!(check_target("anything", &Json::Null).is_ok());
    assert!(check_target("anything", &Json::object()).is_ok());
}

#[test]
fn what_is_off_is_listed_with_its_reason() {
    let state = |p: &str, enabled: bool| ProviderState {
        provider: p.into(),
        enabled,
        disabled_reason: Some("r".into()),
        disabled_by: Some("ops".into()),
        disabled_at: None,
    };
    let a = build_availability_map(
        &vec![model("a", None, true), model("b", None, false)],
        &vec![state("p", false), state("q", true)],
    );
    assert_eq!(a.models.len(), 1);
    assert_eq!(a.models.key(0), "openai/b");
    assert_eq!(a.models.value(0).reason.as_deref(), Some("<broken>"));
    assert_eq!(a.providers.len(), 1);
    assert_eq!(a.providers.value(0).by.as_deref(), Some("ops"));
}

#[test]
fn alias_writes_are_audited() {
    let e = alias_set(&actor(), "a", "t", &None);
    assert_eq!((e.action.as_str(), e.target.as_deref()), ("alias.create", Some("alias:a")));
    assert_eq!(e.before_json, None);
    assert_eq!(e.after_json.as_deref(), Some(r#"{"target":"t"}"#));
    let e = alias_set(&actor(), "a", "t", &Some(alias("a", "old")));
    assert_eq!(e.action, "alias.update");
    assert_eq!(e.before_json.as_deref(), Some(r#"{"target":"old"}"#));
    let e = alias_deleted(&actor(), "a", &None);
    assert_eq!((e.action.as_str(), e.after_json), ("alias.delete", None));
    assert_eq!(
        delete_answer("a", false).unwrap_err(),
        ApiError::InvalidRequest("no such alias: a".into())
    );
    assert_eq!(delete_answer("a", true).unwrap().to_text(), r#"{"alias":"a","ok":true}"#);
}

#[test]
fn alias_rows_escape_what_they_show() {
    assert!(render_alias_rows(&vec![]).contains("No runtime aliases"));
    let html = render_alias_rows(&vec![alias("a/<b>", "t\"&")]);
    assert!(html.contains("id=\"alias-row-a--b-\""));
    assert!(html.contains("<code>a/&lt;b&gt;</code>"));
    assert!(html.contains("<code>t&quot;&amp;</code>"));
    assert!(html.contains("/admin/aliases/a%2F%3Cb%3E/delete"));
    assert!(!html.contains('{'));
    assert_eq!(refusal_html("<"), "<div class=\"alert alert-danger\">&lt;</div>");
    assert!(saved_html("{target}", "t").contains("<strong>{target}</strong>"));
}

fn failover(primary: &str, fallback: &str) -> Failover {
    Failover { primary_model: primary.into(), fallback_model: fallback.into() }
}

#[test]
fn chains_keep_their_order() {
    let rows = vec![failover("b", "x"), failover("a", "y"), failover("b", "z")];
    assert_eq!(
        all_chains(&rows),
        vec![
            ("a".to_string(), vec!["y".to_string()]),
            ("b".to_string(), vec!["x".to_string(), "z".to_string()])
        ]
    );
    assert_eq!(
        failover_rows(&rows).to_text(),
        r#"[{"chain":["y"],"primary":"a"},{"chain":["x","z"],"primary":"b"}]"#
    );
}

#[test]
fn a_model_is_shown_with_the_chain_of_its_alias_or_its_name() {
    let rows = vec![failover("fast", "x"), failover("openai/b", "y")];
    let list = model_list(&vec![model("a", Some("fast"), true), model("b", None, false)], &rows);
    assert_eq!(list.get_item(0).unwrap().get("failovers").unwrap().to_text(), r#"["x"]"#);
    assert_eq!(list.get_item(1).unwrap().get("failovers").unwrap().to_text(), r#"["y"]"#);
    assert_eq!(list.get_item(1).unwrap().get("enabled").unwrap(), &Json::Bool(false));
}

#[test]
fn overridden_aliases_are_marked() {
    let list = config_alias_list(&map(&[("b", "1"), ("a", "2")]), &map(&[("b", "x")]));
    assert_eq!(
        list.to_text(),
        r#"[{"alias":"a","overridden":false,"target":"2"},{"alias":"b","overridden":true,"target":"1"}]"#
    );
}

#[test]
fn a_chain_is_written_with_commas_or_lines() {
    let form = SetFailoverForm { fallbacks: " a ,\n\nb,, c".into() };
    assert_eq!(form.chain(), vec!["a".to_string(), "b".to_string(), "c".to_string()]);
    assert!(failovers_html("m<", &form.chain()).ends_with(
        "<strong>m&lt;</strong> saved: a \u{2192} b \u{2192} c</div>"
    ));
    assert!(failovers_html("m", &vec![]).contains("<em>cleared</em>"));
}

#[test]
fn a_model_needs_a_provider_and_a_name() {
    let form = |p: &str, n: &str, a: Option<&str>| CreateModelForm {
        provider: p.into(),
        name: n.into(),
        alias: a.map(|a| a.into()),
    };
    let m = form(" openai ", " gpt ", Some("  ")).new_model().unwrap();
    assert_eq!((m.provider.as_str(), m.name.as_str(), m.alias), ("openai", "gpt", None));
    assert!(form("", "x", None).new_model().unwrap_err().contains("required"));
    let html = created_model_html(&model("a&b", None, true));
    assert!(html.contains("<strong>openai/a&amp;b</strong> created (id=4)"));
}

#[test]
fn a_model_that_is_off_says_why() {
    let html = model_row_html(&model("m", None, false));
    assert!(html.contains("&lt;broken&gt; \u{2014} unknown, today"));
    assert!(html.contains("/admin/models/4/enable"));
    assert!(model_row_html(&model("m", None, true)).contains("/admin/models/4/disable"));
    assert_eq!(
        changed_model_html(9, &None).unwrap_err(),
        DashboardError::NotFound("model 9".into())
    );
    assert_eq!(
        model_to_set(9, &None).unwrap_err(),
        ApiError::InvalidRequest("no such model: 9".into())
    );
}

#[test]
fn turning_a_model_off_is_audited() {
    let reason = clean_reason(Some("  slow "));
    assert_eq!(reason.as_deref(), Some("slow"));
    assert_eq!(clean_reason(Some("  ")), None);
    let e = model_set(&actor(), &model("m", None, true), false, &reason);
    assert_eq!(e.action, "model.disable");
    assert_eq!(e.target.as_deref(), Some("model:openai/m"));
    assert_eq!(e.before_json.as_deref(), Some(r#"{"enabled":true}"#));
    assert_eq!(e.after_json.as_deref(), Some(r#"{"enabled":false,"reason":"slow"}"#));
}

#[test]
fn only_known_providers_can_be_turned_off() {
    let known = vec!["openai".to_string()];
    assert!(check_provider(&known, "openai").is_ok());
    assert_eq!(
        check_provider(&known, "opnai").unwrap_err(),
        ApiError::InvalidRequest("unknown provider: opnai".into())
    );
    assert_eq!(
        find_provider(&known, "x").unwrap_err(),
        DashboardError::NotFound("provider x".into())
    );
}

#[test]
fn providers_are_listed_by_name_with_what_is_stored() {
    let off = ProviderState {
        provider: "zeta".into(),
        enabled: false,
        disabled_reason: Some("r".into()),
        disabled_by: None,
        disabled_at: None,
    };
    let configured = vec!["openai".to_string(), "anthropic".to_string()];
    let views = provider_views(&configured, &vec![off]);
    let names: Vec<&str> = views.iter().map(|v| v.provider.as_str()).collect();
    assert_eq!(names, vec!["anthropic", "openai", "zeta"]);
    assert!(views[0].enabled && !views[2].enabled);
    assert_eq!(
        providers_body(&views).get("providers").unwrap().get_item(2).unwrap().to_text(),
        r#"{"disabled_at":null,"disabled_by":null,"disabled_reason":"r","enabled":false,"provider":"zeta"}"#
    );
    let html = provider_rows_html(&views);
    assert_eq!(html.matches("<tr ").count(), 3);
    assert!(provider_rows_html(&vec![]).contains("No providers configured"));
    let row = provider_row_html("a b", true, &None, &None, &None);
    assert!(row.contains("provider-row-a-b") && row.contains("/admin/providers/a%20b/disable"));
}

#[test]
fn a_catalog_is_kept_for_a_quarter_of_an_hour() {
    let keep = AvailableModelsQuery { refresh: false };
    assert!(keep.accepts(Some(899)));
    assert!(!keep.accepts(Some(900)));
    assert!(!keep.accepts(None));
    assert!(!AvailableModelsQuery { refresh: true }.accepts(Some(0)));
    assert_eq!(
        catalog_body(Json::object()).to_text(),
        r#"{"providers":{},"ttl_seconds":900}"#
    );
}

#[test]
fn the_state_of_a_provider_is_found_by_its_name() {
    let of = |name: &str, enabled: bool| ProviderState {
        provider: name.into(),
        enabled,
        disabled_reason: None,
        disabled_by: None,
        disabled_at: None,
    };
    let states = vec![of("a", true), of("b", false), of("b", true)];
    assert!(!find_state(&states, "b").unwrap().enabled);
    assert!(find_state(&states, "c").is_none());
}
