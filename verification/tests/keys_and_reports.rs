use modelrouter::api::admin::auth::AdminClaims;
use modelrouter::api::admin::budgets::BudgetScope;
use modelrouter::api::admin::dashboard::{DashboardError, SuperDashboardSession};
use modelrouter::api::admin::keys::{
    disabled_key, find_key, keys_page, keys_to_disable, render_group, replacement, rotated_key,
    CreateKeyForm, KeyFlow, KeyStep,
};
use modelrouter::api::admin::reports::{
    attribution_filter, budget_limit, burndown_json, by_cost, panel_range, project_rows,
    token_usage_json, top_models_json, user_label, DetailRow, LimitRule, Membership, ReportsQuery,
    UserStat,
};
use modelrouter::codec::hash_token;
use modelrouter::records::{ApiKey, Usd, User};

fn user(id: i64, name: &str) -> User {
    User {
        id,
        name: name.into(),
        email: None,
        group_name: None,
        enabled: true,
        created_at: String::new(),
        api_key_id: None,
        api_key_project: None,
        session_window_secs: None,
        metadata: String::new(),
    }
}

fn key(id: i64, user_id: i64, project: Option<&str>, enabled: bool) -> ApiKey {
    ApiKey {
        id,
        user_id,
        key_hash: "h".into(),
        label: Some("l".into()),
        enabled,
        created_at: "2026-01-01".into(),
        disabled_at: if enabled { None } else { Some("2026-02-01".into()) },
        expires_at: None,
        project: project.map(|p| p.into()),
    }
}

fn session() -> SuperDashboardSession {
    SuperDashboardSession(AdminClaims {
        sub: 1,
        name: "ops".into(),
        role: "superadmin".into(),
        exp: 0,
    })
}

#[test]
fn a_group_is_known_by_its_active_key() {
    let keys = vec![key(1, 7, None, false), key(2, 7, None, true), key(3, 7, None, false)];
    let refs: Vec<&ApiKey> = keys.iter().collect();
    let html = render_group(&refs, &vec![user(7, "<ada>")], None, false);
    assert!(html.starts_with("<tbody id=\"key-group-2\"><tr id=\"key-row-2\"><td>&lt;ada&gt;</td>"));
    assert!(html.contains("data-count=\"2\">\u{25b6} 2 old keys</button>"));
    assert_eq!(html.matches("key-sub-row").count(), 2);
    assert!(html.contains("style=\"display:none;"));
    assert_eq!(render_group(&vec![], &vec![], None, false), "");
}

#[test]
fn a_group_without_an_active_key_is_known_by_its_first() {
    let keys = vec![key(1, 7, None, false), key(3, 7, None, false)];
    let refs: Vec<&ApiKey> = keys.iter().collect();
    let html = render_group(&refs, &vec![], Some("raw".into()), true);
    assert!(html.starts_with("<tbody id=\"key-group-1\"><tr id=\"key-row-1\"><td>user:7</td>"));
    assert!(html.contains("1 old key<") && html.contains("table-row"));
    assert!(!html.contains("/disable") && !html.contains("raw"));
    let keys = vec![key(2, 7, None, true)];
    let refs: Vec<&ApiKey> = keys.iter().collect();
    let html = render_group(&refs, &vec![], Some("mr-<x>".into()), true);
    assert!(html.contains("mr-&lt;x&gt;") && !html.contains("old key"));
}

#[test]
fn keys_are_grouped_by_caller_and_project() {
    let keys = vec![
        key(1, 7, Some("p"), true),
        key(2, 8, None, true),
        key(3, 7, Some("p"), false),
        key(4, 7, Some("q"), false),
    ];
    let page = keys_page(&keys, &vec![user(8, "bob"), user(7, "ada")]);
    assert_eq!(page.groups_html.matches("<tbody").count(), 3);
    let at = |s: &str| page.groups_html.find(s).unwrap();
    assert!(at("key-group-1\"") < at("key-group-2\"") && at("key-group-2\"") < at("key-group-4\""));
    assert!(at("key-row-3\"") < at("key-group-2\""));
    assert_eq!(page.user_names, vec!["ada".to_string(), "bob".to_string()]);
    assert_eq!(page.projects, vec!["p".to_string(), "q".to_string()]);
}

fn form(user: &str, project: &str) -> CreateKeyForm {
    CreateKeyForm {
        user_name: user.into(),
        project: project.into(),
        label: " ".into(),
        email: None,
    }
}

#[test]
fn a_key_is_created_for_a_new_caller() {
    assert_eq!(
        KeyFlow::start(&form(" ", "")).unwrap_err(),
        DashboardError::BadRequest("user_name is required".into())
    );
    let (mut flow, step) = KeyFlow::start(&form(" ada ", " p ")).unwrap();
    assert_eq!(step, KeyStep::FindUser("ada".into()));
    match flow.on_user(Ok(None)) {
        KeyStep::CreateUser(u) => assert_eq!((u.name.as_str(), u.email), ("ada", None)),
        _ => panic!("no caller created"),
    }
    // Another request created the caller meanwhile.
    assert_eq!(flow.on_user_created(Err(())), KeyStep::FindUser("ada".into()));
    assert_eq!(
        flow.on_user(Ok(Some(user(7, "ada")))),
        KeyStep::FindKey { user_id: 7, project: Some("p".into()) }
    );
    let new = match flow.on_key(Ok(None)) {
        KeyStep::CreateKey(k) => k,
        _ => panic!("no key created"),
    };
    assert_eq!((new.user_id, new.project.as_deref(), new.label), (7, Some("p"), None));
    match flow.on_key_created(&session(), Ok(key(9, 7, Some("p"), true))) {
        KeyStep::Created { audit, html } => {
            assert_eq!(audit.target.as_deref(), Some("key:9"));
            assert_eq!(
                audit.after_json.as_deref(),
                Some(r#"{"label":null,"project":"p","user_id":7}"#)
            );
            let at = html.find("mr-").unwrap();
            assert_eq!(hash_token(&html[at..at + 35]), new.key_hash);
            assert!(html.contains("<strong>ada</strong> / p. Copy it now"));
            assert!(html.contains("<tbody id=\"key-group-9\">"));
        }
        _ => panic!("nothing shown"),
    }
}

#[test]
fn a_second_key_for_a_project_is_refused() {
    let (mut flow, _) = KeyFlow::start(&form("a<b", "")).unwrap();
    flow.on_user(Ok(Some(user(7, "a<b"))));
    match flow.on_key(Ok(Some(key(4, 7, None, false)))) {
        KeyStep::Show(html) => {
            assert!(html.contains("<strong>a&lt;b</strong> / project <strong>(no project)</strong>"));
            assert!(html.contains("hx-post=\"/admin/keys/4/rotate\""));
        }
        _ => panic!("not refused"),
    }
}

#[test]
fn a_failing_store_ends_the_creation() {
    let fail = KeyStep::Fail(DashboardError::Internal);
    let (mut flow, _) = KeyFlow::start(&form("a", "")).unwrap();
    assert_eq!(flow.on_user(Err(())), fail);
    let (mut flow, _) = KeyFlow::start(&form("a", "")).unwrap();
    flow.on_user(Ok(None));
    flow.on_user_created(Err(()));
    assert_eq!(flow.on_user(Ok(None)), fail);
    let (mut flow, _) = KeyFlow::start(&form("a", "")).unwrap();
    flow.on_user(Ok(Some(user(7, "a"))));
    assert_eq!(flow.on_key(Err(())), fail);
    let (mut flow, _) = KeyFlow::start(&form("a", "")).unwrap();
    flow.on_user(Ok(Some(user(7, "a"))));
    flow.on_key(Ok(None));
    assert_eq!(flow.on_key_created(&session(), Err(())), fail);
}

#[test]
fn a_rotation_replaces_every_enabled_key() {
    let group = vec![key(1, 7, None, true), key(2, 7, None, false), key(3, 7, None, true)];
    assert_eq!(keys_to_disable(&group), vec![1, 3]);
    let (new, raw) = replacement(&key(1, 7, Some("p"), true));
    assert_eq!((new.user_id, new.project.as_deref(), new.label.as_deref()), (7, Some("p"), Some("l")));
    assert_eq!(new.key_hash, hash_token(&raw));
    assert_eq!(find_key(&group, 2).unwrap().id, 2);
    assert_eq!(
        find_key(&group, 5).unwrap_err(),
        DashboardError::NotFound("key 5 not found".into())
    );
    let e = rotated_key(&session(), 9, 7, 1);
    assert_eq!(e.after_json.as_deref(), Some(r#"{"replaced_key_id":1,"user_id":7}"#));
    assert_eq!(disabled_key(&session(), 1).action, "key.disable");
}

fn query(user: &str, group: &str) -> ReportsQuery {
    ReportsQuery {
        user: user.into(),
        project: "p".into(),
        model: String::new(),
        group: group.into(),
        window: "weekly".into(),
        key: String::new(),
        value: String::new(),
    }
}

fn usd(v: f64) -> Usd {
    Usd { bits: v.to_bits() }
}

#[test]
fn a_caller_goes_before_a_group() {
    let members = vec![
        Membership { user_id: 1, disabled_at: None },
        Membership { user_id: 2, disabled_at: Some("x".into()) },
    ];
    let f = query("5", "g").filters(&members);
    assert_eq!((f.user_ids, f.budget_scope), (Some(vec![5]), BudgetScope::User(5)));
    let f = query("", "g").filters(&members);
    assert_eq!((f.user_ids, f.budget_scope), (Some(vec![1]), BudgetScope::Group("g".into())));
    let f = query("", "g").filters(&vec![]);
    assert_eq!(f.user_ids, Some(vec![]));
    let f = query("x", "").filters(&members);
    assert_eq!((f.user_ids, f.budget_scope), (None, BudgetScope::Global));
    assert_eq!((f.project.as_deref(), f.model), (Some("p"), None));
    assert_eq!(f.budget_window, "weekly");
    assert_eq!(query("", "g").group_to_find().as_deref(), Some("g"));
}

#[test]
fn a_panel_ends_now() {
    let (start, end) = panel_range("daily", 1_778_754_030).unwrap();
    assert_eq!((start.as_str(), end.as_str()), ("2026-05-14T00:00:00Z", "2026-05-14T10:20:30Z"));
    assert_eq!(panel_range("monthly", 1_778_754_030).unwrap().0, "2026-05-01T00:00:00Z");
}

#[test]
fn an_attribution_replaces_the_panels() {
    let q = ReportsQuery { value: "v".into(), ..query("", "") };
    assert!(attribution_filter(&q).unwrap().is_some());
    assert_eq!(attribution_filter(&query("", "")).unwrap(), None);
    let bad = ReportsQuery { value: "v".into(), key: "a b".into(), ..query("", "") };
    match attribution_filter(&bad) {
        Err(DashboardError::BadRequest(m)) => assert!(m.starts_with("invalid request: attribution")),
        _ => panic!("not refused"),
    }
}

#[test]
fn the_first_rule_of_the_window_limits() {
    let rule = |w: &str, l: Option<f64>| LimitRule { window: w.into(), limit_usd: l.map(usd) };
    let rules = vec![rule("daily", Some(1.0)), rule("monthly", Some(2.0)), rule("monthly", Some(3.0))];
    assert_eq!(budget_limit(&rules, "monthly"), Some(usd(2.0)));
    assert_eq!(budget_limit(&rules, "weekly"), None);
}

#[test]
fn projects_add_up() {
    let row = |p: Option<&str>, c: f64, n: i64| DetailRow {
        project: p.map(|p| p.into()),
        cost: usd(c),
        tokens_in: n,
        tokens_out: 2 * n,
        requests: 1,
    };
    let rows = vec![row(Some("b"), 1.0, 5), row(None, 9.0, 9)];
    let by = project_rows(&vec![rows[0].clone(), rows[1].clone(), row(Some("a"), 2.0, 7), row(Some("b"), 0.5, 1)]);
    assert_eq!(by.len(), 2);
    assert_eq!((by[0].project.as_str(), by[0].tokens_in), ("a", 7));
    assert_eq!((by[1].tokens_in, by[1].tokens_out, by[1].requests), (6, 12, 2));
    assert_eq!(by[1].costs, vec![usd(1.0), usd(0.5)]);
}

#[test]
fn the_most_expensive_project_comes_first() {
    let amounts = vec![usd(1.0), usd(3.0), usd(-1.0), usd(3.0), usd(0.0), usd(-0.0)];
    assert_eq!(by_cost(&amounts), vec![1, 3, 0, 4, 5, 2]);
}

#[test]
fn report_charts_are_json() {
    assert_eq!(
        top_models_json(&vec![("m".to_string(), usd(1.5))]),
        r#"[{"cost":1.5,"model":"m"}]"#
    );
    let stats = vec![UserStat { user_id: 7, tokens_in: 1, tokens_out: 2 }, UserStat { user_id: 8, tokens_in: 0, tokens_out: 0 }];
    assert_eq!(
        token_usage_json(&vec![user(7, "ada")], &stats),
        r##"[{"tokens_in":1,"tokens_out":2,"user":"ada"},{"tokens_in":0,"tokens_out":0,"user":"#8"}]"##
    );
    assert_eq!(
        burndown_json(&vec![("2026-01-01".to_string(), usd(2.0))], Some(usd(10.0)), "2026-01-01T00:00:00Z"),
        r#"{"limit":10.0,"series":[["2026-01-01",2.0]],"start":"2026-01-01"}"#
    );
    assert_eq!(burndown_json(&vec![], None, "x"), r#"{"limit":null,"series":[],"start":""}"#);
    assert_eq!(user_label(&vec![], 3), "#3");
}
