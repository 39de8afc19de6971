use modelrouter::api::admin::attribution::{
    default_window, keys_and_ids_body, values_body, window_range, window_range_at,
    AttributionFilter, AttributionQuery, FacetQuery, Facets,
};
use modelrouter::api::admin::auth::{AdminClaims, SuperAdminSession};
use modelrouter::api::admin::budgets::{
    budgets_page, duplicate_html, has_window, new_rule, rule_row_html, scope_card_html,
    scope_for_rule_id, select_rules, BudgetRule, BudgetScope, CreateBudgetForm,
    CreateBudgetRequest, EditBudgetForm, ShownUsd, BAD_RANGE, BAD_SCOPE, NOT_A_GROUP,
};
use modelrouter::api::admin::cache::{
    cost_row_key, ledger_since, policy_changed, purged, purged_body, purged_location, stats_body,
    used_models,
    CacheSummary, PolicyForm, Purge, PurgeForm, PurgeRequest,
};
use modelrouter::api::admin::dashboard::{
    changed_user_html, cost_rows, created_admin_html, deleted_admin_html, has_next, prompt_html,
    refuse_deletion, toggled_user, user_row_html, CostLine, CostQuery, CreateUserForm,
    DashboardError, PageQuery, PromptDetail, Since, SuperDashboardSession,
};
use modelrouter::api::admin::groups::{
    active_membership, add_member_select_html, can_be_shown, created_group_html, group_card_html,
    may_join, member_changed, membership_rows_html, CreateGroupForm, Group, GroupMembership,
};
use modelrouter::api::admin::routes::{
    admins_body, created_key, created_key_body, overlap_until, stats_body as user_stats_body,
    ApiKeyResponse, CreateApiKeyRequest, UpdateUserRequest, UserResponse,
};
use modelrouter::api::admin::templates::{can_be_cut, fmt_ts};
use modelrouter::api::admin::webhooks::{
    webhooks_body, CreateWebhookForm, CreateWebhookJson, WebhookCallback, WebhookResponse,
    DEFAULT_EVENTS,
};
use modelrouter::api::error::ApiError;
use modelrouter::clock::Moment;
use modelrouter::codec::hash_token;
use modelrouter::json::Json;
use modelrouter::records::{AdminUser, ApiKey, Usd, User};

/// 2026-05-14T10:20:30Z, a Thursday.
const THURSDAY: i64 = 1_778_754_030;

fn q(key: &str, value: &str) -> AttributionQuery {
    AttributionQuery {
        key: key.to_string(),
        value: value.to_string(),
        window: "monthly".to_string(),
    }
}

#[test]
fn empty_value_selects_no_filter() {
    assert_eq!(q("", "").filter().unwrap(), None);
    assert_eq!(q("engagement", "  ").filter().unwrap(), None);
}

#[test]
fn no_key_means_correlation_id() {
    assert_eq!(
        q("", "run-7").filter().unwrap(),
        Some(AttributionFilter::CorrelationId("run-7".to_string()))
    );
}

#[test]
fn key_and_value_means_tag() {
    assert_eq!(
        q("engagement", "eng-1").filter().unwrap(),
        Some(AttributionFilter::Tag {
            key: "engagement".to_string(),
            value: "eng-1".to_string()
        })
    );
}

#[test]
fn rejects_unsafe_tag_key() {
    assert!(q("bad\"key", "v").filter().is_err());
}

#[test]
fn all_window_starts_at_the_epoch() {
    let (start, _) = window_range("all").unwrap();
    assert_eq!(start, "1970-01-01T00:00:00Z");
}

// What the library does beyond that.

#[test]
fn a_question_about_usage_needs_a_value() {
    assert_eq!(
        q("", " ").required_filter().unwrap_err(),
        ApiError::InvalidRequest("value is required".into())
    );
    assert!(q("", "x").required_filter().is_ok());
    assert_eq!(default_window(), "monthly");
}

#[test]
fn windows_start_where_they_say() {
    let range = |w: &str| window_range_at(w, THURSDAY).unwrap();
    assert_eq!(range("daily").0, "2026-05-14T00:00:00Z");
    assert_eq!(range("weekly").0, "2026-05-07T10:20:30Z");
    assert_eq!(range("anything").0, "2026-05-01T00:00:00Z");
    assert_eq!(range("all").1, "2026-05-15T10:20:30Z");
    assert_eq!(window_range_at("daily", i64::MAX), None);
}

#[test]
fn facets_are_keys_or_values() {
    let facets = |k: &str| FacetQuery { key: k.into() }.facets();
    assert_eq!(facets(" ").unwrap(), Facets::KeysAndIds);
    assert_eq!(facets(" k ").unwrap(), Facets::ValuesOf("k".into()));
    assert!(facets("a b").is_err());
    assert_eq!(
        keys_and_ids_body(&vec!["k".into()], &vec![]).to_text(),
        r#"{"correlation_ids":[],"tag_keys":["k"]}"#
    );
    assert_eq!(
        values_body("k", &vec!["v".into()]).to_text(),
        r#"{"key":"k","values":["v"]}"#
    );
}

#[test]
fn timestamps_are_shown_to_the_second() {
    assert_eq!(fmt_ts("2026-05-14T10:20:30.123Z"), "2026-05-14 10:20:30");
    assert_eq!(fmt_ts("Today"), " oday");
    assert!(can_be_cut("2026-05-14T10:20:30Z"));
    assert!(!can_be_cut("aaaaaaaaaaaaaaaaaa\u{e9}bc"));
}

fn actor() -> AdminClaims {
    AdminClaims { sub: 1, name: "ops".into(), role: "superadmin".into(), exp: 0 }
}

fn dash() -> SuperDashboardSession {
    SuperDashboardSession(actor())
}

fn api() -> SuperAdminSession {
    SuperAdminSession(actor())
}

fn user(id: i64, name: &str) -> User {
    User {
        id,
        name: name.into(),
        email: None,
        group_name: None,
        enabled: true,
        created_at: "2026-01-01".into(),
        api_key_id: None,
        api_key_project: None,
        session_window_secs: None,
        metadata: "{}".into(),
    }
}

fn key(id: i64) -> ApiKey {
    ApiKey {
        id,
        user_id: 1,
        key_hash: "h".into(),
        label: Some("lab\"el".into()),
        enabled: true,
        created_at: "2026-01-01".into(),
        disabled_at: None,
        expires_at: None,
        project: None,
    }
}

#[test]
fn the_overview_starts_on_monday_and_the_first() {
    let s = Since::at(THURSDAY).unwrap();
    assert_eq!(s.today, "2026-05-14T00:00:00+00:00");
    assert_eq!(s.week, "2026-05-11T00:00:00+00:00");
    assert_eq!(s.month, "2026-05-01T00:00:00+00:00");
    assert_eq!(s.of_window("daily"), s.today);
    assert_eq!(s.of_window("total"), s.month);
    let before = Since::at(-1).unwrap();
    assert_eq!(before.week, "1969-12-29T00:00:00+00:00");
}

#[test]
fn a_user_row_has_the_other_button() {
    let html = user_row_html(&user(3, "ada"));
    assert!(html.starts_with("<tr id=\"user-row-3\"><td>3</td><td>ada</td><td>\u{2014}</td>"));
    assert!(html.contains("hx-post=\"/admin/users/3/disable\""));
    let off = User { enabled: false, ..user(3, "ada") };
    assert!(user_row_html(&off).contains("/admin/users/3/enable"));
    assert_eq!(
        changed_user_html(9, &None).unwrap_err(),
        DashboardError::NotFound("user 9 not found".into())
    );
    let e = toggled_user(&dash(), 3, false);
    assert_eq!((e.action.as_str(), e.target.as_deref()), ("user.disable", Some("user:3")));
    assert_eq!(e.after_json.as_deref(), Some(r#"{"enabled":false}"#));
}

#[test]
fn a_new_user_needs_a_name() {
    let form = |n: &str, g: Option<&str>| CreateUserForm {
        name: n.into(),
        group_name: g.map(|g| g.into()),
    };
    assert_eq!(
        form(" ", None).new_user().unwrap_err(),
        DashboardError::BadRequest("name is required".into())
    );
    let u = form(" ada ", Some(" ")).new_user().unwrap();
    assert_eq!((u.name.as_str(), u.group_name), ("ada", None));
}

#[test]
fn pages_count_from_one() {
    assert_eq!(PageQuery { page: None }.number(), 1);
    assert_eq!(PageQuery { page: Some(0) }.number(), 1);
    assert_eq!(PageQuery { page: Some(3) }.offset(50), 100);
    assert_eq!(PageQuery { page: Some(u32::MAX) }.offset(100), 429_496_729_400);
    assert!(has_next(50, 50) && !has_next(49, 50));
}

#[test]
fn a_prompt_is_shown_escaped() {
    let p = PromptDetail {
        messages: "<b>".into(),
        response: None,
        finish_reason: None,
        latency_ms: Some(12),
    };
    let html = prompt_html(1, &Some(p));
    assert!(html.contains("&lt;b&gt;") && html.contains("(none)") && html.contains("12ms"));
    assert_eq!(prompt_html(5, &None), "<div>Prompt 5 not found.</div>");
}

fn usd(v: f64) -> Usd {
    Usd { bits: v.to_bits() }
}

#[test]
fn only_costs_above_zero_are_shown() {
    let q = |u: Option<&str>, w: Option<&str>| CostQuery {
        user: u.map(|u| u.into()),
        window: w.map(|w| w.into()),
    };
    let line = |n: &str, c: f64| CostLine { user_name: n.into(), total_cost_usd: usd(c) };
    let costs = vec![
        line("a", 1.0),
        line("b", 0.0),
        line("c", -0.0),
        line("d", -1.0),
        line("e", f64::NAN),
        line("f", 5e-324),
    ];
    let names = |q: &CostQuery| {
        cost_rows(q, &costs).iter().map(|l| l.user_name.clone()).collect::<Vec<_>>()
    };
    assert_eq!(names(&q(None, None)), vec!["a", "f"]);
    assert_eq!(names(&q(Some("a"), None)), vec!["a"]);
    assert_eq!(names(&q(Some(""), None)), vec!["a", "f"]);
    assert_eq!(q(None, Some("hourly")).chosen_window(), "monthly");
    assert_eq!(q(None, Some("daily")).chosen_window(), "daily");
}

#[test]
fn nobody_deletes_themselves() {
    assert!(refuse_deletion(&dash(), 1).is_some());
    assert_eq!(refuse_deletion(&dash(), 2), None);
    assert!(deleted_admin_html(2).starts_with("<tr id=\"admin-row-2\""));
    assert!(created_admin_html("n", "viewer").contains("<strong>n</strong> created successfully (role: viewer)"));
}

fn rule(id: i64, window: &str) -> BudgetRule {
    BudgetRule {
        id,
        user_id: None,
        group_name: None,
        api_key_id: None,
        project: None,
        window: window.into(),
        window_start: None,
        window_end: None,
        limit_usd: None,
        limit_tokens: None,
        rate_rpm: None,
        model_allow: "[]".into(),
        model_deny: "not json".into(),
    }
}

#[test]
fn a_rule_row_shows_what_is_set() {
    let shown = ShownUsd { fixed: "12.50".into(), plain: "12.5".into() };
    let r = BudgetRule {
        limit_usd: Some(shown),
        rate_rpm: Some(10),
        model_allow: r#"["a<b","c"]"#.into(),
        window_start: Some("2026-01-01T00:00:00+00:00".into()),
        ..rule(7, "total")
    };
    let html = rule_row_html(&r, "#card");
    assert!(html.starts_with(
        "<tr><td>Total (2026-01-01T00:00:00+00:00 \u{2013} ?)</td><td>$12.50</td><td>\u{2014}</td><td>10</td><td>a&lt;b, c</td><td>\u{2014}</td>"
    ));
    assert!(html.contains("name=\"window_start\" value=\"2026-01-01\""));
    assert!(html.contains("value=\"12.5\""));
    assert!(html.contains("hx-post=\"/admin/budgets/7/delete\" hx-target=\"#card\""));
    let target = rule_row_html(&rule(8, "target"), "#card");
    assert!(target.contains("<td>Target</td>") && target.contains("value=\"0\""));
    assert!(rule_row_html(&rule(9, "<odd>"), "#c").starts_with("<tr><td>&lt;odd&gt;</td>"));
    assert!(!html.contains('{'));
}

#[test]
fn every_scope_has_its_cards() {
    let rules = vec![
        rule(1, "monthly"),
        BudgetRule { project: Some("b p".into()), ..rule(2, "monthly") },
        BudgetRule { user_id: Some(3), ..rule(3, "monthly") },
        BudgetRule { group_name: Some("g".into()), ..rule(4, "target") },
        BudgetRule { group_name: Some("gone".into()), ..rule(5, "target") },
    ];
    let keys = vec![ApiKey { project: Some("a".into()), ..key(1) }];
    let page = budgets_page(&rules, &keys, &vec![user(3, "ada")], &vec!["g".to_string()]);
    assert!(page.global_card.contains("id=\"budget-card-global\""));
    assert!(page.global_card.contains("/admin/budgets/1/edit"));
    let a = page.project_cards.find("budget-card-project-a\"").unwrap();
    let b = page.project_cards.find("budget-card-project-b-p\"").unwrap();
    assert!(a < b && page.project_cards.contains("No rules yet."));
    assert!(page.user_cards.contains("budget-card-user-3") && page.user_cards.contains(">ada</h3>"));
    assert!(page.group_cards.contains("id=\"budget-card-group-g\""));
    assert!(page.group_cards.contains("Group not found: gone"));
    assert!(page.group_cards.contains("Target $0.00"));
}

#[test]
fn a_scope_is_shown_again_after_a_change() {
    let rules = vec![BudgetRule { user_id: Some(3), ..rule(3, "monthly") }];
    assert_eq!(scope_for_rule_id(&rules, 3).unwrap(), BudgetScope::User(3));
    assert_eq!(
        scope_for_rule_id(&rules, 4).unwrap_err(),
        DashboardError::NotFound("budget rule not found".into())
    );
    let scope = BudgetScope::User(3);
    let chosen = select_rules(&rules, &scope);
    assert_eq!(chosen.len(), 1);
    assert!(scope_card_html(&scope, &chosen, &None).contains("User #3"));
    let group = BudgetScope::Group("g".into());
    assert!(scope_card_html(&group, &vec![], &None).contains("Set Target"));
    let target = vec![BudgetRule { group_name: Some("g".into()), ..rule(4, "target") }];
    let card = scope_card_html(&group, &select_rules(&target, &group), &None);
    assert!(card.contains("Target: <strong>$0.00</strong>") && card.contains("Remove group target?"));
    assert!(card.starts_with("<div id=\"budget-card-group-g\""));
}

#[test]
fn only_models_that_were_asked_for_are_shown() {
    let of = |requests: i64| CacheSummary {
        hits: 0,
        requests,
        hit_rate: 0.0f64.to_bits(),
        saved_usd: usd(0.0),
    };
    let by_model = vec![
        ("a".to_string(), of(2)),
        ("b".to_string(), of(0)),
        ("c".to_string(), of(-1)),
        ("d".to_string(), of(1)),
    ];
    assert_eq!(used_models(&by_model), vec![0, 3]);
    assert!(used_models(&vec![]).is_empty());
}

fn budget_form(scope: &str, window: &str) -> CreateBudgetForm {
    CreateBudgetForm {
        scope: scope.into(),
        project: Some("p".into()),
        user_id: Some(3),
        group_name: Some("g".into()),
        window: window.into(),
        limit_usd: Some(usd(5.0)),
        limit_tokens: None,
        rate_rpm: None,
        max_concurrent: None,
        window_start: None,
        window_end: None,
    }
}

#[test]
fn a_budget_form_is_checked() {
    assert_eq!(budget_form("global", "monthly").check(), Ok(BudgetScope::Global));
    assert_eq!(budget_form("project", "monthly").check(), Ok(BudgetScope::Project("p".into())));
    assert_eq!(budget_form("group", "target").check(), Ok(BudgetScope::Group("g".into())));
    assert_eq!(budget_form("user", "target").check(), Err(NOT_A_GROUP.to_string()));
    assert_eq!(budget_form("world", "monthly").check(), Err(BAD_SCOPE.to_string()));
    assert_eq!(budget_form("user", "total").check(), Err(BAD_RANGE.to_string()));
    let dated = |s: &str, e: &str| CreateBudgetForm {
        window_start: Some(s.into()),
        window_end: Some(e.into()),
        ..budget_form("user", "total")
    };
    assert_eq!(dated("2026-01-01", "2026-01-01").check(), Err(BAD_RANGE.to_string()));
    let form = dated("2026-01-01", "2026-02-01");
    let scope = form.check().unwrap();
    let new = new_rule(&form, &scope);
    assert_eq!((new.user_id, new.project, new.group_name), (Some(3), None, None));
    assert_eq!(new.window_start.as_deref(), Some("2026-01-01T00:00:00+00:00"));
    assert!(has_window(&vec![rule(1, "total")], "total"));
    assert!(!has_window(&vec![rule(1, "total")], "monthly"));
    assert!(duplicate_html("<w>", "CARD").ends_with("A &lt;w&gt; rule already exists for this scope.</div>CARD"));
}

#[test]
fn an_edit_leaves_the_models_alone() {
    let form = EditBudgetForm {
        limit_usd: Some(usd(1.0)),
        limit_tokens: Some(2),
        rate_rpm: None,
        max_concurrent: None,
        window_start: None,
        window_end: None,
    };
    let u = form.update();
    assert_eq!((u.limit_usd, u.limit_tokens, u.model_allow), (Some(usd(1.0)), Some(2), None));
}

#[test]
fn the_api_knows_three_windows() {
    let body = |w: &str| CreateBudgetRequest {
        user_id: None,
        group_name: None,
        api_key_id: Some(2),
        window: w.into(),
        limit_usd: None,
        limit_tokens: None,
        rate_rpm: None,
        model_allow: vec!["m".into()],
        model_deny: vec![],
    };
    assert_eq!(body("weekly").new_rule().unwrap().api_key_id, Some(2));
    assert_eq!(
        body("total").new_rule().unwrap_err(),
        ApiError::InvalidRequest("window must be 'daily', 'weekly', or 'monthly'".into())
    );
}

#[test]
fn a_purge_names_its_scope() {
    let req = |s: Option<&str>, m: Option<&str>, k: Option<&str>| PurgeRequest {
        scope: s.map(|s| s.into()),
        model: m.map(|m| m.into()),
        key: k.map(|k| k.into()),
    };
    assert_eq!(req(None, None, None).check().unwrap(), Purge::All);
    assert_eq!(req(Some("model"), Some("m"), None).check().unwrap(), Purge::Model("m".into()));
    assert_eq!(
        req(Some("model"), Some(""), None).check().unwrap_err(),
        ApiError::InvalidRequest("scope=model requires a model".into())
    );
    assert_eq!(
        req(Some("key"), None, None).check().unwrap_err(),
        ApiError::InvalidRequest("scope=key requires a key".into())
    );
    assert_eq!(
        req(Some("x"), None, None).check().unwrap_err(),
        ApiError::InvalidRequest("unknown purge scope: x".into())
    );
    let form = PurgeForm { scope: Some("\"".into()), model: None, key: None };
    assert_eq!(
        form.check().unwrap_err(),
        DashboardError::BadRequest("InvalidRequest(\"unknown purge scope: \\\"\")".into())
    );
    let e = purged(&api(), &Purge::Key("k".into()), 3);
    assert_eq!((e.target.as_deref(), e.after_json.as_deref()), (Some("key:k"), Some("removed:3")));
    assert_eq!(purged_body(&Purge::All, 3).to_text(), r#"{"removed":3,"scope":"all"}"#);
    assert_eq!(purged_location(3), "/admin/cache?msg=Purged%203%20entries");
}

#[test]
fn boxes_are_ticked_or_not() {
    let u = PolicyForm {
        enabled: Some("on".into()),
        completions_enabled: None,
        search_enabled: None,
        completions_max_temperature: None,
        completions_ttl_seconds: Some(60),
        search_ttl_seconds: None,
    }
    .update();
    assert_eq!((u.enabled, u.completions_enabled), (Some(true), Some(false)));
    assert_eq!(u.completions_ttl_seconds, Some(60));
    let e = policy_changed(&api(), Some("b".into()), None);
    assert_eq!((e.action.as_str(), e.before_json.as_deref()), ("cache.policy_update", Some("b")));
}

#[test]
fn cache_statistics_have_both_views() {
    let s = CacheSummary { hits: 1, requests: 2, hit_rate: 0.5f64.to_bits(), saved_usd: usd(0.25) };
    let body = stats_body(Json::object(), "S", &s, &vec![("m".to_string(), s)]);
    assert_eq!(
        body.to_text(),
        r#"{"ledger":{"by_model":[{"hit_rate":0.5,"hits":1,"model":"m","requests":2,"saved_usd":0.25}],"hit_rate":0.5,"hits":1,"requests":2,"saved_usd":0.25,"since":"S","window_days":30},"live":{}}"#
    );
    assert_eq!(ledger_since(THURSDAY).unwrap(), "2026-04-14T10:20:30Z");
}

#[test]
fn cost_rows_are_joined_by_all_four() {
    assert_eq!(cost_row_key(1, "m", Some("p"), Some(2)), "1|m|p|2");
    assert_eq!(cost_row_key(-1, "m", None, None), "-1|m||");
    assert_ne!(cost_row_key(1, "m", None, Some(2)), cost_row_key(1, "m", Some("2"), None));
}

fn member(user_id: i64, left: bool) -> GroupMembership {
    GroupMembership {
        id: 1,
        user_id,
        user_name: "<ada>".into(),
        joined_at: "2026-05-14T10:20:30Z".into(),
        disabled_at: if left { Some("2026-05-15T10:20:30Z".into()) } else { None },
    }
}

#[test]
fn members_are_active_or_disabled() {
    assert!(membership_rows_html(&vec![], 1).contains("No members yet."));
    let members = vec![member(1, false), member(2, true)];
    assert!(can_be_shown(&members));
    let html = membership_rows_html(&members, 9);
    assert!(html.starts_with("<tr><td>&lt;ada&gt;</td><td>2026-05-14 10:20:30</td>"));
    assert!(html.contains("Disabled 2026-05-15 10:20:30"));
    assert_eq!(html.matches("/admin/groups/9/members/").count(), 1);
    let odd = GroupMembership { joined_at: "aaaaaaaaaaaaaaaaaa\u{e9}bc".into(), ..member(1, false) };
    assert!(!can_be_shown(&vec![odd]));
}

#[test]
fn only_outsiders_can_be_chosen() {
    let users = vec![user(1, "a"), user(2, "b"), User { enabled: false, ..user(3, "c") }];
    let html = add_member_select_html(9, &vec![member(1, false), member(2, true)], &users);
    assert!(html.contains("<option value=\"2\">b</option>"));
    assert!(!html.contains("value=\"1\"") && !html.contains("value=\"3\""));
    let all = vec![member(1, false), member(2, false)];
    assert!(add_member_select_html(9, &all, &users).contains("All users are already members."));
}

#[test]
fn a_group_card_shows_its_state() {
    let g = Group { id: 9, name: "g&".into(), priority: 5, enabled: true };
    let html = group_card_html(&g, &vec![], &vec![user(1, "a")]);
    assert!(html.contains("id=\"group-card-9\"") && html.contains("priority 5"));
    assert!(html.contains("Disable group g&amp;?") && html.contains("Add Member"));
    let off = Group { enabled: false, ..g };
    let html = group_card_html(&off, &vec![], &vec![user(1, "a")]);
    assert!(html.contains("Re-enable Group") && !html.contains("Add Member"));
    assert!(created_group_html("<a \"b\">").contains(r#"tmp.innerHTML = "<a \"b\">";"#));
}

#[test]
fn joining_a_group_is_checked() {
    let g = Group { id: 9, name: "g".into(), priority: 0, enabled: true };
    assert!(may_join(9, &Some(g.clone()), false).is_ok());
    assert_eq!(
        may_join(9, &Some(g.clone()), true).unwrap_err(),
        DashboardError::BadRequest("user is already an active member".into())
    );
    let off = Group { enabled: false, ..g };
    assert_eq!(
        may_join(9, &Some(off), false).unwrap_err(),
        DashboardError::BadRequest("cannot add members to a disabled group".into())
    );
    assert_eq!(may_join(9, &None, false).unwrap_err(), DashboardError::NotFound("group 9".into()));
    assert_eq!(
        active_membership(None).unwrap_err(),
        DashboardError::NotFound("active membership".into())
    );
    let e = member_changed(&dash(), 9, 2, 4, true);
    assert_eq!(e.target.as_deref(), Some("group:9 user:2"));
    assert_eq!(e.after_json.as_deref(), Some(r#"{"membership_id":4}"#));
    let form = CreateGroupForm { name: " g ".into(), priority: None };
    assert_eq!(form.check().unwrap(), ("g".to_string(), 0));
    assert!(CreateGroupForm { name: " ".into(), priority: None }.check().is_err());
}

#[test]
fn answers_hold_no_hashes() {
    let k = ApiKeyResponse::from(key(4));
    assert_eq!((k.id, k.user_id, k.enabled), (4, 1, true));
    let u = UserResponse::from(user(3, "ada"));
    assert_eq!(
        u.to_json().to_text(),
        r#"{"created_at":"2026-01-01","enabled":true,"group_name":null,"id":3,"metadata":"{}","name":"ada"}"#
    );
    let a = AdminUser {
        id: 1,
        name: "n".into(),
        password_hash: "HASH".into(),
        role: "viewer".into(),
        enabled: true,
        created_at: "c".into(),
        last_login_at: None,
    };
    let text = admins_body(&vec![a]).to_text();
    assert!(!text.contains("HASH") && text.contains(r#""last_login_at":null"#));
}

#[test]
fn a_key_is_told_once() {
    let (new, raw) = CreateApiKeyRequest { label: Some("l".into()) }.new_key(5);
    assert_eq!((new.user_id, new.label.as_deref()), (5, Some("l")));
    assert_eq!(new.key_hash, hash_token(&raw));
    let body = created_key_body(&key(4), &raw);
    assert_eq!(body.get("key").unwrap().as_str(), Some(raw.as_str()));
    let e = created_key(&api(), 5, &key(4));
    assert_eq!(e.after_json.as_deref(), Some("label:Some(\"lab\\\"el\")"));
}

#[test]
fn an_old_key_stays_valid_for_a_while() {
    let at = Moment { secs: THURSDAY, nanos: 500_000_000 };
    assert_eq!(overlap_until(&at, 60).unwrap(), "2026-05-14T11:20:30.500+00:00");
    assert_eq!(overlap_until(&at, i64::MAX), None);
    let (enabled, e) = UpdateUserRequest { enabled: Some(true) }.change(&api(), 3).unwrap();
    assert!(enabled && e.action == "user.enable");
    assert_eq!(UpdateUserRequest { enabled: None }.change(&api(), 3), None);
    assert_eq!(
        user_stats_body(&vec![user(3, "ada")], &vec![usd(1.5)]).to_text(),
        r#"[{"name":"ada","total_cost_usd":1.5,"user_id":3}]"#
    );
}

fn webhook_form(events: Option<&str>) -> CreateWebhookForm {
    CreateWebhookForm {
        name: " n ".into(),
        url: " u ".into(),
        events: events.map(|e| e.into()),
        secret_header_name: Some(" ".into()),
        secret_header_value: Some(" v".into()),
    }
}

#[test]
fn webhook_events_become_an_array() {
    let events = |e: Option<&str>| webhook_form(e).new_webhook().unwrap().events;
    assert_eq!(events(None), DEFAULT_EVENTS);
    assert_eq!(events(Some("  ")), DEFAULT_EVENTS);
    assert_eq!(events(Some(" [\"x\"] ")), "[\"x\"]");
    assert_eq!(events(Some("a, b")), "[\"a\",\"b\"]");
    let w = webhook_form(None).new_webhook().unwrap();
    assert_eq!((w.name.as_str(), w.url.as_str()), ("n", "u"));
    assert_eq!((w.secret_header_name, w.secret_header_value), (None, Some(" v".to_string())));
    assert_eq!(CreateWebhookForm { url: " ".into(), ..webhook_form(None) }.new_webhook(), None);
}

#[test]
fn webhook_secrets_are_not_told() {
    let w = WebhookCallback {
        id: 1,
        name: "n".into(),
        url: "u".into(),
        events: "[]".into(),
        secret_header_name: Some("X-Key".into()),
        secret_header_value: Some("HUSH".into()),
        enabled: true,
        created_at: "c".into(),
    };
    let text = webhooks_body(&vec![w.clone()]).to_text();
    assert!(text.contains("X-Key") && !text.contains("HUSH"));
    assert_eq!(WebhookResponse::from(w).secret_header_name.as_deref(), Some("X-Key"));
    let new = CreateWebhookJson {
        name: " n".into(),
        url: "u".into(),
        events: None,
        secret_header_name: None,
        secret_header_value: None,
    }
    .new_webhook();
    assert_eq!((new.name.as_str(), new.events.as_str()), (" n", DEFAULT_EVENTS));
}
