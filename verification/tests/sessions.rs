use axum::http::{HeaderMap, HeaderValue};
use modelrouter::api::admin::auth::{
    admin_session, admin_token, issue_jwt, login, require_superadmin, verify_jwt, AdminClaims,
    AdminSession, LoginRefusal,
};
use modelrouter::api::admin::dashboard::{
    dashboard_session, require_super, session_cookie, CreateAdminForm, DashboardError,
    DashboardSession, ErrorPage, CLEAR_COOKIE,
};
use modelrouter::api::admin::routes::{CreateAdminRequest, IssuedKey};
use modelrouter::api::error::ApiError;
use modelrouter::codec::hash_token;
use modelrouter::records::AdminUser;

fn claims(role: &str, exp: usize) -> AdminClaims {
    AdminClaims { sub: 7, name: "ops".into(), role: role.into(), exp }
}

fn headers(name: &'static str, value: &str) -> HeaderMap {
    let mut h = HeaderMap::new();
    h.insert(name, HeaderValue::from_str(value).unwrap());
    h
}

#[test]
fn an_issued_token_gives_back_its_claims() {
    let c = claims("viewer", 4_102_444_800);
    let token = issue_jwt(&c, "secret").unwrap();
    assert_eq!(verify_jwt(&token, "secret"), Some(c));
}

#[test]
fn any_claims_can_be_issued() {
    let long = "x".repeat(5000);
    for (sub, name, secret) in
        [(i64::MIN, "", ""), (-1, "a\"b\\c\n\u{1f600}", "s"), (i64::MAX, long.as_str(), long.as_str())]
    {
        let c = AdminClaims { sub, name: name.into(), role: String::new(), exp: usize::MAX };
        let token = issue_jwt(&c, secret).unwrap();
        assert_eq!(verify_jwt(&token, secret), Some(c));
    }
}

#[test]
fn a_token_opens_only_under_its_secret_and_in_time() {
    let token = issue_jwt(&claims("viewer", 4_102_444_800), "secret").unwrap();
    assert_eq!(verify_jwt(&token, "other"), None);
    assert_eq!(verify_jwt("nonsense", "secret"), None);
    let old = issue_jwt(&claims("viewer", 1), "secret").unwrap();
    assert_eq!(verify_jwt(&old, "secret"), None);
}

#[test]
fn the_bearer_token_goes_before_the_cookie() {
    assert_eq!(admin_token(&headers("authorization", "Bearer abc")).as_deref(), Some("abc"));
    let cookie = headers("cookie", "x=1; admin_token=def ; admin_token=ghi");
    assert_eq!(admin_token(&cookie).as_deref(), Some("def"));
    assert_eq!(admin_token(&headers("cookie", "x=1")), None);
    assert_eq!(admin_token(&HeaderMap::new()), None);
}

#[test]
fn a_session_needs_a_valid_token() {
    let c = claims("viewer", 4_102_444_800);
    let token = issue_jwt(&c, "secret").unwrap();
    let bearer = headers("authorization", &format!("Bearer {token}"));
    assert_eq!(admin_session(&bearer, "secret").unwrap(), AdminSession(c));
    assert_eq!(admin_session(&bearer, "other").unwrap_err(), ApiError::Unauthorized);
    assert_eq!(admin_session(&HeaderMap::new(), "secret").unwrap_err(), ApiError::Unauthorized);
}

#[test]
fn only_superadmins_may_change_things() {
    assert!(require_superadmin(AdminSession(claims("superadmin", 0))).is_ok());
    assert_eq!(
        require_superadmin(AdminSession(claims("viewer", 0))).unwrap_err(),
        ApiError::Forbidden
    );
    assert!(require_super(DashboardSession(claims("superadmin", 0))).is_ok());
    assert_eq!(
        require_super(DashboardSession(claims("admin", 0))).unwrap_err(),
        DashboardError::Forbidden
    );
}

#[test]
fn the_dashboard_takes_only_its_cookie() {
    let c = claims("viewer", 4_102_444_800);
    let token = issue_jwt(&c, "secret").unwrap();
    let set = session_cookie(&token);
    let sent = set.split(';').next().unwrap();
    let h = headers("cookie", &format!("a=b; {sent}"));
    assert_eq!(dashboard_session(&h, "secret").unwrap(), DashboardSession(c));
    let bearer = headers("authorization", &format!("Bearer {token}"));
    assert_eq!(dashboard_session(&bearer, "secret").unwrap_err(), DashboardError::Unauthorized);
    assert!(CLEAR_COOKIE.ends_with("Max-Age=0"));
}

fn admin(enabled: bool, hash: &str) -> AdminUser {
    AdminUser {
        id: 7,
        name: "ops".into(),
        password_hash: hash.into(),
        role: "superadmin".into(),
        enabled,
        created_at: String::new(),
        last_login_at: None,
    }
}

#[test]
fn a_login_needs_the_right_password_of_an_enabled_account() {
    let hash = bcrypt::hash("pw", 4).unwrap();
    let now = 4_000_000_000;
    let found = Ok(Some(admin(true, &hash)));
    let token = login(&found, "pw", now, 30, "secret").unwrap();
    let c = verify_jwt(&token, "secret").unwrap();
    assert_eq!((c.sub, c.role.as_str(), c.exp), (7, "superadmin", 4_000_001_800));
    assert_eq!(login(&found, "no", now, 30, "s"), Err(LoginRefusal::InvalidCredentials));
    assert_eq!(login(&Ok(None), "pw", now, 30, "s"), Err(LoginRefusal::InvalidCredentials));
    assert_eq!(login(&Err(()), "pw", now, 30, "s"), Err(LoginRefusal::Internal));
    let off = Ok(Some(admin(false, &hash)));
    assert_eq!(login(&off, "pw", now, 30, "s"), Err(LoginRefusal::Disabled));
    let broken = Ok(Some(admin(true, "not a hash")));
    assert_eq!(login(&broken, "pw", now, 30, "s"), Err(LoginRefusal::Internal));
    assert_eq!(login(&found, "pw", i64::MAX, 30, "s"), Err(LoginRefusal::Internal));
    assert_eq!(LoginRefusal::Disabled.text(), "account disabled");
    assert_eq!(LoginRefusal::Disabled.api_error(), ApiError::Unauthorized);
    assert_eq!(LoginRefusal::Internal.api_error(), ApiError::Internal);
}

#[test]
fn a_new_admin_has_a_known_role_and_a_hashed_password() {
    let body = |role: Option<&str>| CreateAdminRequest {
        name: "n".into(),
        password: "pw".into(),
        role: role.map(|r| r.into()),
    };
    assert_eq!(
        body(Some("root")).new_admin().unwrap_err(),
        ApiError::InvalidRequest("role must be 'superadmin' or 'viewer'".into())
    );
    let a = body(None).new_admin().unwrap();
    assert_eq!(a.role, "viewer");
    assert!(bcrypt::verify("pw", &a.password_hash).unwrap());
}

#[test]
fn an_admin_is_made_from_whatever_came_of_hashing() {
    let form = CreateAdminForm { name: "n".into(), password: "pw".into(), role: None };
    let a = form.admin_with(Some("h".into())).unwrap();
    assert_eq!((a.name.as_str(), a.role.as_str(), a.password_hash.as_str()), ("n", "viewer", "h"));
    assert_eq!(form.admin_with(None).unwrap_err(), DashboardError::Internal);
    let body = |role: &str| CreateAdminRequest {
        name: "n".into(),
        password: "pw".into(),
        role: Some(role.into()),
    };
    let a = body("superadmin").admin_with(Some("h".into())).unwrap();
    assert_eq!((a.role.as_str(), a.password_hash.as_str()), ("superadmin", "h"));
    assert_eq!(body("viewer").admin_with(None).unwrap_err(), ApiError::Internal);
    assert!(matches!(
        body("root").admin_with(Some("h".into())).unwrap_err(),
        ApiError::InvalidRequest(_)
    ));
}

#[test]
fn a_fresh_key_is_stored_as_its_hash() {
    let k = IssuedKey::draw();
    assert_eq!(k.raw.len(), 35);
    assert!(k.raw.starts_with("mr-"));
    assert_eq!(k.hash, hash_token(&k.raw));
    assert_ne!(IssuedKey::draw().raw, k.raw);
}

#[test]
fn every_dashboard_error_has_its_page() {
    assert_eq!(
        DashboardError::Unauthorized.answer(),
        ErrorPage::Redirect("/admin/login".into())
    );
    let page = |e: DashboardError| match e.answer() {
        ErrorPage::Html { status, html } => (status, html),
        ErrorPage::Redirect(_) => panic!("redirected"),
    };
    assert_eq!(page(DashboardError::Forbidden).0, 403);
    assert_eq!(
        page(DashboardError::Template("t".into())),
        (500, "<h1>Template error</h1><pre>t</pre>".to_string())
    );
    assert_eq!(
        page(DashboardError::BadRequest("m".into())),
        (400, "<h1>Bad Request</h1><p>m</p>".to_string())
    );
    assert_eq!(
        page(DashboardError::NotFound("m".into())),
        (404, "<h1>Not Found</h1><p>m</p>".to_string())
    );
    assert_eq!(page(DashboardError::Internal).0, 500);
}
