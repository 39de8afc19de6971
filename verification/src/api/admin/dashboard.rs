//! The pages of the dashboard: who may see them, what their forms accept, and
//! the fragments that they swap in.

use crate::api::admin::audit::{entry, entry_of, name_of, named};
use crate::api::admin::auth::{
    cookie, cookie_of, jwt_claims, opt_claims, session_at, session_of, verify_jwt, AdminClaims,
    SUPERADMIN,
};
use crate::clock::{
    day_start, month_start, offset_text, start_of_day, start_of_month, start_of_week, week_start,
    with_offset,
};
use crate::codec::{bcrypt_accepts, hash_password};
use crate::json::{json_int, text_of_json, Json, JsonModel};
use crate::ordered::with_entry;
use crate::records::{NewAdminUser, NewAuditLogEntry, NewUser, Usd, User};
use crate::sums::{lemma_picked_selects, picked, selects};
use crate::text::{
    contains_text, escaped, has_prefix, he, i64_text, int_text, opt_text, same, trim, trimmed,
};
use axum::http::{HeaderMap, HeaderValue};
use vstd::prelude::*;

verus! {

// ---------------------------------------------------------------------------
// Errors
// ---------------------------------------------------------------------------

/// Why a page is not shown.
#[derive(Debug, Clone, PartialEq, Eq)]
pub enum DashboardError {
    Template(String),
    Unauthorized,
    Forbidden,
    BadRequest(String),
    NotFound(String),
    Internal,
}

/// What the browser gets instead.
#[derive(Debug, Clone, PartialEq, Eq)]
pub enum ErrorPage {
    Redirect(String),
    Html { status: u16, html: String },
}

impl DashboardError {
    /// The page of an error that has one, and its status.
    pub open spec fn page(&self) -> Option<(u16, Seq<char>)> {
        match self {
            DashboardError::Unauthorized => None,
            DashboardError::Forbidden => Some((403, "<h1>403 Forbidden</h1>"@)),
            DashboardError::Template(m) => Some(
                (500, "<h1>Template error</h1><pre>"@ + m@ + "</pre>"@),
            ),
            DashboardError::BadRequest(m) => Some((400, "<h1>Bad Request</h1><p>"@ + m@ + "</p>"@)),
            DashboardError::NotFound(m) => Some((404, "<h1>Not Found</h1><p>"@ + m@ + "</p>"@)),
            DashboardError::Internal => Some((500, "<h1>Internal Error</h1>"@)),
        }
    }

    /// The answer: whoever is not logged in is sent to the login page.
    pub fn answer(&self) -> (r: ErrorPage)
        ensures
            match self.page() {
                None => r matches ErrorPage::Redirect(to) && to@ == "/admin/login"@,
                Some((code, text)) => r matches ErrorPage::Html { status, html } && status == code
                    && html@ == text,
            },
    {
        match self {
            DashboardError::Unauthorized => ErrorPage::Redirect("/admin/login".to_owned()),
            DashboardError::Forbidden => ErrorPage::Html {
                status: 403,
                html: "<h1>403 Forbidden</h1>".to_owned(),
            },
            DashboardError::Template(m) => ErrorPage::Html {
                status: 500,
                html: "<h1>Template error</h1><pre>".to_owned().concat(m.as_str()).concat("</pre>"),
            },
            DashboardError::BadRequest(m) => ErrorPage::Html {
                status: 400,
                html: "<h1>Bad Request</h1><p>".to_owned().concat(m.as_str()).concat("</p>"),
            },
            DashboardError::NotFound(m) => ErrorPage::Html {
                status: 404,
                html: "<h1>Not Found</h1><p>".to_owned().concat(m.as_str()).concat("</p>"),
            },
            DashboardError::Internal => ErrorPage::Html {
                status: 500,
                html: "<h1>Internal Error</h1>".to_owned(),
            },
        }
    }
}

// ---------------------------------------------------------------------------
// Sessions
// ---------------------------------------------------------------------------

#[derive(Debug, Clone, PartialEq, Eq)]
pub struct DashboardSession(pub AdminClaims);

/// A session that may change things.
#[derive(Debug, Clone, PartialEq, Eq)]
pub struct SuperDashboardSession(pub AdminClaims);

/// How the session cookie starts.
pub const SESSION_COOKIE: &'static str = "mr_admin_session=";

/// The cookie that ends a session.
pub const CLEAR_COOKIE: &'static str =
    "mr_admin_session=; Path=/; HttpOnly; SameSite=Lax; Max-Age=0";

/// The cookie that carries a session.
pub fn session_cookie(token: &str) -> (r: String)
    ensures
        r@ == SESSION_COOKIE@ + token@ + "; Path=/; HttpOnly; SameSite=Lax"@,
{
    SESSION_COOKIE.to_owned().concat(token).concat("; Path=/; HttpOnly; SameSite=Lax")
}

/// Opens the session of a page request: only the cookie counts.
pub fn dashboard_session(headers: &HeaderMap<HeaderValue>, secret: &str) -> (r: Result<
    DashboardSession,
    DashboardError,
>)
    ensures
        exists|limit: u64|
            match #[trigger] session_of(cookie_of(*headers, SESSION_COOKIE@), secret@, limit) {
                Some(c) => r matches Ok(s) && s.0@ == c,
                None => r == Err::<DashboardSession, DashboardError>(DashboardError::Unauthorized),
            },
{
    let token = match cookie(headers, SESSION_COOKIE) {
        Some(t) => t,
        None => {
            assert(session_of(cookie_of(*headers, SESSION_COOKIE@), secret@, 0) is None);
            return Err(DashboardError::Unauthorized);
        },
    };
    let opened = verify_jwt(token.as_str(), secret);
    let ghost limit = choose|limit: u64|
        opt_claims(opened) == #[trigger] session_at(jwt_claims(token@, secret@), limit);
    assert(session_of(cookie_of(*headers, SESSION_COOKIE@), secret@, limit) == opt_claims(opened));
    match opened {
        Some(claims) => Ok(DashboardSession(claims)),
        None => Err(DashboardError::Unauthorized),
    }
}

/// Lets only superadmins through.
pub fn require_super(session: DashboardSession) -> (r: Result<SuperDashboardSession, DashboardError>)
    ensures
        session.0.role@ == SUPERADMIN@ ==> r == Ok::<SuperDashboardSession, DashboardError>(
            SuperDashboardSession(session.0),
        ),
        session.0.role@ != SUPERADMIN@ ==> r == Err::<SuperDashboardSession, DashboardError>(
            DashboardError::Forbidden,
        ),
{
    if same(session.0.role.as_str(), SUPERADMIN) {
        Ok(SuperDashboardSession(session.0))
    } else {
        Err(DashboardError::Forbidden)
    }
}

#[derive(Debug, Clone, PartialEq, Eq)]
pub struct LoginForm {
    pub username: String,
    pub password: String,
}

// ---------------------------------------------------------------------------
// Overview
// ---------------------------------------------------------------------------

/// Since when the overview adds up: today, this week, this month.
#[derive(Debug, Clone, PartialEq, Eq)]
pub struct Since {
    pub today: String,
    pub week: String,
    pub month: String,
}

pub open spec fn offset_of(secs: Option<i64>) -> Option<Seq<char>> {
    match secs {
        Some(t) => offset_text(t),
        None => None,
    }
}

fn write_offset(secs: Option<i64>) -> (r: Option<String>)
    ensures
        opt_text(r) == offset_of(secs),
{
    match secs {
        Some(t) => with_offset(t),
        None => None,
    }
}

impl Since {
    /// The three beginnings as of `secs`; none only where the calendar ends.
    pub fn at(secs: i64) -> (r: Option<Since>)
        ensures
            match r {
                Some(s) => offset_of(day_start(secs)) == Some(s.today@) && offset_of(
                    week_start(secs),
                ) == Some(s.week@) && offset_of(month_start(secs)) == Some(s.month@),
                None => offset_of(day_start(secs)) is None || offset_of(week_start(secs)) is None
                    || offset_of(month_start(secs)) is None,
            },
    {
        let today = write_offset(start_of_day(secs));
        let week = write_offset(start_of_week(secs));
        let month = write_offset(start_of_month(secs));
        match (today, week, month) {
            (Some(today), Some(week), Some(month)) => Some(Since { today, week, month }),
            _ => None,
        }
    }

    /// Since when a budget of that window counts.
    pub fn of_window(&self, window: &str) -> (r: &str)
        ensures
            r@ == if window@ == "daily"@ {
                self.today@
            } else if window@ == "weekly"@ {
                self.week@
            } else {
                self.month@
            },
    {
        if same(window, "daily") {
            self.today.as_str()
        } else if same(window, "weekly") {
            self.week.as_str()
        } else {
            self.month.as_str()
        }
    }
}

// ---------------------------------------------------------------------------
// Users
// ---------------------------------------------------------------------------

pub open spec fn status_tag_of(enabled: bool) -> Seq<char> {
    if enabled {
        "<span class=\"tag tag-enabled\">Enabled</span>"@
    } else {
        "<span class=\"tag tag-disabled\">Disabled</span>"@
    }
}

pub fn status_tag(enabled: bool) -> (r: &'static str)
    ensures
        r@ == status_tag_of(enabled),
{
    if enabled {
        "<span class=\"tag tag-enabled\">Enabled</span>"
    } else {
        "<span class=\"tag tag-disabled\">Disabled</span>"
    }
}

pub open spec fn or_dash(s: Option<Seq<char>>) -> Seq<char> {
    match s {
        Some(t) => t,
        None => "\u{2014}"@,
    }
}

pub fn text_or_dash(s: &Option<String>) -> (r: &str)
    ensures
        r@ == or_dash(opt_text(*s)),
{
    match s {
        Some(t) => t.as_str(),
        None => "\u{2014}",
    }
}

/// The button that turns a caller off, or on again.
pub open spec fn toggle_button(id: Seq<char>, enabled: bool) -> Seq<char> {
    "<button class=\""@ + (if enabled {
        "btn btn-danger"@
    } else {
        "btn btn-success"@
    }) + "\" hx-post=\"/admin/users/"@ + id + (if enabled {
        "/disable"@
    } else {
        "/enable"@
    }) + "\" hx-target=\"#user-row-"@ + id + "\" hx-swap=\"outerHTML\">"@ + (if enabled {
        "Disable"@
    } else {
        "Enable"@
    }) + "</button>"@
}

fn make_toggle_button(id: &str, enabled: bool) -> (r: String)
    ensures
        r@ == toggle_button(id@, enabled),
{
    let (action, label, class) = if enabled {
        ("/disable", "Disable", "btn btn-danger")
    } else {
        ("/enable", "Enable", "btn btn-success")
    };
    "<button class=\"".to_owned().concat(class).concat("\" hx-post=\"/admin/users/").concat(
        id,
    ).concat(action).concat("\" hx-target=\"#user-row-").concat(id).concat(
        "\" hx-swap=\"outerHTML\">",
    ).concat(label).concat("</button>")
}

/// The table row of a caller.
pub open spec fn user_row(u: User) -> Seq<char> {
    let id = int_text(u.id as int);
    "<tr id=\"user-row-"@ + id + "\"><td>"@ + id + "</td><td>"@ + u.name@ + "</td><td>"@ + or_dash(
        opt_text(u.email),
    ) + "</td><td>"@ + status_tag_of(u.enabled) + "</td><td>"@ + u.created_at@ + "</td><td>"@
        + toggle_button(id, u.enabled) + "</td></tr>"@
}

pub fn user_row_html(user: &User) -> (r: String)
    ensures
        r@ == user_row(*user),
{
    let id = i64_text(user.id);
    let button = make_toggle_button(id.as_str(), user.enabled);
    "<tr id=\"user-row-".to_owned().concat(id.as_str()).concat("\"><td>").concat(
        id.as_str(),
    ).concat("</td><td>").concat(user.name.as_str()).concat("</td><td>").concat(
        text_or_dash(&user.email),
    ).concat("</td><td>").concat(status_tag(user.enabled)).concat("</td><td>").concat(
        user.created_at.as_str(),
    ).concat("</td><td>").concat(button.as_str()).concat("</td></tr>")
}

/// What is shown of a caller after a change.
pub fn changed_user_html(id: i64, found: &Option<User>) -> (r: Result<String, DashboardError>)
    ensures
        match *found {
            Some(u) => r matches Ok(html) && html@ == user_row(u),
            None => r matches Err(DashboardError::NotFound(m)) && m@ == "user "@ + int_text(id as int)
                + " not found"@,
        },
{
    match found {
        Some(u) => Ok(user_row_html(u)),
        None => Err(
            DashboardError::NotFound(
                "user ".to_owned().concat(i64_text(id).as_str()).concat(" not found"),
            ),
        ),
    }
}

/// `{"enabled": ..}`, as it is written to the audit log.
pub open spec fn enabled_json(enabled: bool) -> Seq<char> {
    text_of_json(
        JsonModel::Obj(with_entry(Seq::empty(), "enabled"@, JsonModel::Bool(enabled))),
    )
}

pub fn enabled_text(enabled: bool) -> (r: String)
    ensures
        r@ == enabled_json(enabled),
{
    Json::object().with("enabled", Json::Bool(enabled)).to_text()
}

/// The audit line of turning a caller on or off.
pub fn toggled_user(session: &SuperDashboardSession, id: i64, enabled: bool) -> (r: NewAuditLogEntry)
    ensures
        r@ == entry_of(
            session.0,
            if enabled {
                "user.enable"@
            } else {
                "user.disable"@
            },
            named("user"@, id),
            Some(enabled_json(enabled)),
        ),
{
    let action = if enabled {
        "user.enable"
    } else {
        "user.disable"
    };
    entry(&session.0, action, name_of("user", id), Some(enabled_text(enabled)))
}

#[derive(Debug, Clone, PartialEq, Eq)]
pub struct CreateUserForm {
    pub name: String,
    pub group_name: Option<String>,
}

/// A field that may be left blank.
pub open spec fn unless_blank(s: Seq<char>) -> Option<Seq<char>> {
    if trimmed(s).len() == 0 {
        None
    } else {
        Some(trimmed(s))
    }
}

pub fn keep_unless_blank(s: &str) -> (r: Option<String>)
    ensures
        opt_text(r) == unless_blank(s@),
{
    let t = trim(s);
    if t.is_empty() {
        None
    } else {
        Some(t.to_owned())
    }
}

impl CreateUserForm {
    /// The caller that the form asks for.
    pub fn new_user(&self) -> (r: Result<NewUser, DashboardError>)
        ensures
            trimmed(self.name@).len() == 0 ==> (r matches Err(DashboardError::BadRequest(m)) && m@
                == "name is required"@),
            trimmed(self.name@).len() > 0 ==> (r matches Ok(u) && u.name@ == trimmed(self.name@)
                && u.email is None && opt_text(u.group_name) == match self.group_name {
                Some(g) => unless_blank(g@),
                None => None,
            }),
    {
        let name = trim(self.name.as_str());
        if name.is_empty() {
            return Err(DashboardError::BadRequest("name is required".to_owned()));
        }
        let group_name = match &self.group_name {
            Some(g) => keep_unless_blank(g.as_str()),
            None => None,
        };
        Ok(NewUser { name: name.to_owned(), group_name, email: None })
    }
}

/// `{"name": ..}`, as it is written to the audit log.
pub open spec fn name_json(name: Seq<char>) -> Seq<char> {
    text_of_json(JsonModel::Obj(with_entry(Seq::empty(), "name"@, JsonModel::Str(name))))
}

/// The audit line of a new caller.
pub fn created_user(session: &SuperDashboardSession, user: &User) -> (r: NewAuditLogEntry)
    ensures
        r@ == entry_of(
            session.0,
            "user.create"@,
            named("user"@, user.id),
            Some(name_json(user.name@)),
        ),
{
    let after = Json::object().with("name", Json::Str(user.name.clone())).to_text();
    entry(&session.0, "user.create", name_of("user", user.id), Some(after))
}

// ---------------------------------------------------------------------------
// Pages of a list
// ---------------------------------------------------------------------------

#[derive(Debug, Clone, Copy, PartialEq, Eq)]
pub struct PageQuery {
    pub page: Option<u32>,
}

pub const PROMPTS_PER_PAGE: i64 = 50;

pub const AUDIT_PER_PAGE: i64 = 100;

impl PageQuery {
    /// The page that is shown: the first one where none or page zero is asked
    /// for.
    pub open spec fn number_spec(self) -> int {
        match self.page {
            Some(n) => if n == 0 {
                1
            } else {
                n as int
            },
            None => 1,
        }
    }

    pub fn number(&self) -> (r: i64)
        ensures
            r == self.number_spec(),
    {
        match self.page {
            Some(n) => if n == 0 {
                1
            } else {
                n as i64
            },
            None => 1,
        }
    }

    /// How many entries come before it.
    pub fn offset(&self, per_page: i64) -> (r: i64)
        requires
            0 <= per_page <= 0x7fff_ffff,
        ensures
            r == (self.number_spec() - 1) * per_page,
    {
        let n: i64 = self.number();
        assert(0 <= (n - 1) * per_page <= 0xffff_ffff * 0x7fff_ffff) by (nonlinear_arith)
            requires
                1 <= n <= 0xffff_ffff,
                0 <= per_page <= 0x7fff_ffff,
        ;
        (n - 1) * per_page
    }
}

/// Whether another page may follow: this one is full.
pub fn has_next(shown: usize, per_page: i64) -> (r: bool)
    ensures
        r == (shown == per_page),
{
    per_page >= 0 && shown as u64 == per_page as u64
}

// ---------------------------------------------------------------------------
// One prompt
// ---------------------------------------------------------------------------

/// A stored prompt, as far as it is shown.
pub struct PromptDetail {
    pub messages: String,
    pub response: Option<String>,
    pub finish_reason: Option<String>,
    pub latency_ms: Option<i64>,
}

pub open spec fn prompt_fragment(p: PromptDetail) -> Seq<char> {
    "<div style=\"padding:0.75rem; background:#f9f9f9; border:1px solid #eee; border-radius:4px; margin-top:0.5rem;\">\n                    <strong>Messages:</strong><pre style=\"white-space:pre-wrap; font-size:0.8rem;\">"@
        + escaped(p.messages@)
        + "</pre>\n                    <strong>Response:</strong><pre style=\"white-space:pre-wrap; font-size:0.8rem;\">"@
        + escaped(
        match p.response {
            Some(t) => t@,
            None => "(none)"@,
        },
    ) + "</pre>\n                    <strong>Finish:</strong> "@ + escaped(
        or_dash(opt_text(p.finish_reason)),
    ) + " | <strong>Latency:</strong> "@ + int_text(
        match p.latency_ms {
            Some(n) => n as int,
            None => 0,
        },
    ) + "ms\n                </div>"@
}

/// What is shown of a prompt. Its texts are escaped.
pub fn prompt_html(id: i64, found: &Option<PromptDetail>) -> (r: String)
    ensures
        r@ == match *found {
            Some(p) => prompt_fragment(p),
            None => "<div>Prompt "@ + int_text(id as int) + " not found.</div>"@,
        },
{
    match found {
        Some(p) => {
            let messages = he(p.messages.as_str());
            let response = he(
                match &p.response {
                    Some(t) => t.as_str(),
                    None => "(none)",
                },
            );
            let finish = he(text_or_dash(&p.finish_reason));
            let latency: i64 = match p.latency_ms {
                Some(n) => n,
                None => 0,
            };
            "<div style=\"padding:0.75rem; background:#f9f9f9; border:1px solid #eee; border-radius:4px; margin-top:0.5rem;\">\n                    <strong>Messages:</strong><pre style=\"white-space:pre-wrap; font-size:0.8rem;\">".to_owned().concat(
                messages.as_str(),
            ).concat(
                "</pre>\n                    <strong>Response:</strong><pre style=\"white-space:pre-wrap; font-size:0.8rem;\">",
            ).concat(response.as_str()).concat(
                "</pre>\n                    <strong>Finish:</strong> ",
            ).concat(finish.as_str()).concat(" | <strong>Latency:</strong> ").concat(
                i64_text(latency).as_str(),
            ).concat("ms\n                </div>")
        },
        None => "<div>Prompt ".to_owned().concat(i64_text(id).as_str()).concat(" not found.</div>"),
    }
}

// ---------------------------------------------------------------------------
// Costs
// ---------------------------------------------------------------------------

#[derive(Debug, Clone, PartialEq, Eq)]
pub struct CostQuery {
    pub user: Option<String>,
    pub window: Option<String>,
}

impl CostQuery {
    /// The window that is shown: the month where none, or an unknown one, is
    /// asked for.
    pub fn chosen_window(&self) -> (r: &str)
        ensures
            r@ == match self.window {
                Some(w) => if w@ == "daily"@ || w@ == "weekly"@ || w@ == "monthly"@ {
                    w@
                } else {
                    "monthly"@
                },
                None => "monthly"@,
            },
    {
        match &self.window {
            Some(w) => if same(w.as_str(), "daily") || same(w.as_str(), "weekly") || same(
                w.as_str(),
                "monthly",
            ) {
                w.as_str()
            } else {
                "monthly"
            },
            None => "monthly",
        }
    }

    /// Whether a caller is shown: all are where none is asked for.
    pub open spec fn shows(self, name: Seq<char>) -> bool {
        match self.user {
            Some(u) => u@.len() == 0 || u@ == name,
            None => true,
        }
    }

    pub fn selects(&self, name: &str) -> (r: bool)
        ensures
            r == self.shows(name@),
    {
        match &self.user {
            Some(u) => u.as_str().is_empty() || same(u.as_str(), name),
            None => true,
        }
    }
}

/// What a caller has cost.
#[derive(Debug, Clone, PartialEq, Eq)]
pub struct CostLine {
    pub user_name: String,
    pub total_cost_usd: Usd,
}

/// The lines of the cost page: each caller that is asked for and has cost
/// something, in order.
pub open spec fn cost_lines(q: CostQuery, costs: Seq<CostLine>) -> Seq<CostLine>
    decreases costs.len(),
{
    if costs.len() == 0 {
        Seq::empty()
    } else {
        let rest = cost_lines(q, costs.drop_last());
        let line = costs.last();
        if q.shows(line.user_name@) && line.total_cost_usd.positive() {
            rest.push(line)
        } else {
            rest
        }
    }
}

pub open spec fn line_model() -> spec_fn(CostLine) -> (Seq<char>, Usd) {
    |l: CostLine| (l.user_name@, l.total_cost_usd)
}

pub fn cost_rows(q: &CostQuery, costs: &Vec<CostLine>) -> (r: Vec<CostLine>)
    ensures
        r@.map_values(line_model()) == cost_lines(*q, costs@).map_values(line_model()),
{
    let mut out: Vec<CostLine> = Vec::new();
    let mut i: usize = 0;
    while i < costs.len()
        invariant
            i <= costs@.len(),
            out@.map_values(line_model()) =~= cost_lines(*q, costs@.take(i as int)).map_values(
                line_model(),
            ),
        decreases costs@.len() - i,
    {
        assert(costs@.take(i + 1).drop_last() =~= costs@.take(i as int));
        if q.selects(costs[i].user_name.as_str()) && costs[i].total_cost_usd.is_positive() {
            let line = CostLine {
                user_name: costs[i].user_name.clone(),
                total_cost_usd: costs[i].total_cost_usd,
            };
            let ghost before = out@;
            let ghost rest = cost_lines(*q, costs@.take(i as int));
            out.push(line);
            assert(out@.map_values(line_model()) =~= before.map_values(line_model()).push(
                (line.user_name@, line.total_cost_usd),
            ));
            assert(rest.push(costs@[i as int]).map_values(line_model()) =~= rest.map_values(
                line_model(),
            ).push((costs@[i as int].user_name@, costs@[i as int].total_cost_usd)));
        }
        i += 1;
    }
    assert(costs@.take(costs@.len() as int) =~= costs@);
    out
}

// ---------------------------------------------------------------------------
// Admins
// ---------------------------------------------------------------------------

#[derive(Debug, Clone, PartialEq, Eq)]
pub struct CreateAdminForm {
    pub name: String,
    pub password: String,
    pub role: Option<String>,
}

pub open spec fn role_or_viewer(role: Option<Seq<char>>) -> Seq<char> {
    match role {
        Some(r) => r,
        None => "viewer"@,
    }
}

pub fn chosen_role(role: &Option<String>) -> (r: String)
    ensures
        r@ == role_or_viewer(opt_text(*role)),
{
    match role {
        Some(t) => t.clone(),
        None => "viewer".to_owned(),
    }
}

impl CreateAdminForm {
    /// The admin that the form asks for, with the password hashed. The hash
    /// accepts the password, and nothing else is kept of it.
    pub fn new_admin(&self) -> (r: Result<NewAdminUser, DashboardError>)
        ensures
            match r {
                Ok(a) => a.name@ == self.name@ && a.role@ == role_or_viewer(opt_text(self.role))
                    && bcrypt_accepts(self.password@, a.password_hash@) == Some(true),
                Err(e) => e == DashboardError::Internal,
            },
    {
        self.admin_with(hash_password(self.password.as_str()))
    }

    /// The admin that the form asks for, with what came of hashing the password.
    pub fn admin_with(&self, hash: Option<String>) -> (r: Result<NewAdminUser, DashboardError>)
        ensures
            match hash {
                Some(h) => r matches Ok(a) && a.name@ == self.name@ && a.role@ == role_or_viewer(
                    opt_text(self.role),
                ) && a.password_hash@ == h@,
                None => r == Err::<NewAdminUser, DashboardError>(DashboardError::Internal),
            },
    {
        match hash {
            Some(password_hash) => Ok(
                NewAdminUser {
                    name: self.name.clone(),
                    password_hash,
                    role: chosen_role(&self.role),
                },
            ),
            None => Err(DashboardError::Internal),
        }
    }
}

pub open spec fn admin_json(id: i64, name: Seq<char>) -> Seq<char> {
    text_of_json(
        JsonModel::Obj(
            with_entry(
                with_entry(Seq::empty(), "id"@, JsonModel::Int(id as int)),
                "name"@,
                JsonModel::Str(name),
            ),
        ),
    )
}

/// The audit line of a new admin.
pub fn created_admin(session: &SuperDashboardSession, id: i64, name: &str) -> (r: NewAuditLogEntry)
    ensures
        r@ == entry_of(
            session.0,
            "admin.create"@,
            named("admin"@, id),
            Some(admin_json(id, name@)),
        ),
{
    let after = Json::object().with("id", json_int(id)).with(
        "name",
        Json::Str(name.to_owned()),
    ).to_text();
    entry(&session.0, "admin.create", name_of("admin", id), Some(after))
}

pub fn created_admin_html(name: &str, role: &str) -> (r: String)
    ensures
        r@
            == "<div class=\"alert\" style=\"background:#d4edda; border:1px solid #28a745; color:#155724; padding:0.75rem; border-radius:4px;\">\n            Admin <strong>"@
            + name@ + "</strong> created successfully (role: "@ + role@ + ").\n        </div>"@,
{
    "<div class=\"alert\" style=\"background:#d4edda; border:1px solid #28a745; color:#155724; padding:0.75rem; border-radius:4px;\">\n            Admin <strong>".to_owned().concat(
        name,
    ).concat("</strong> created successfully (role: ").concat(role).concat(").\n        </div>")
}

/// What refuses a request to delete an admin: nobody deletes themselves.
pub fn refuse_deletion(session: &SuperDashboardSession, id: i64) -> (r: Option<String>)
    ensures
        r is Some <==> id == session.0.sub,
        r matches Some(html) ==> html@ == "<td colspan='6'>Cannot delete yourself.</td>"@,
{
    if id == session.0.sub {
        Some("<td colspan='6'>Cannot delete yourself.</td>".to_owned())
    } else {
        None
    }
}

/// The audit line of a deleted admin.
pub fn deleted_admin(session: &SuperDashboardSession, id: i64) -> (r: NewAuditLogEntry)
    ensures
        r@ == entry_of(session.0, "admin.delete"@, named("admin"@, id), None),
{
    entry(&session.0, "admin.delete", name_of("admin", id), None)
}

/// The row that a deleted admin leaves.
pub fn deleted_admin_html(id: i64) -> (r: String)
    ensures
        r@ == "<tr id=\"admin-row-"@ + int_text(id as int)
            + "\" style=\"opacity:0.4\"><td colspan=\"6\"><em>Deleted</em></td></tr>"@,
{
    "<tr id=\"admin-row-".to_owned().concat(i64_text(id).as_str()).concat(
        "\" style=\"opacity:0.4\"><td colspan=\"6\"><em>Deleted</em></td></tr>",
    )
}

/// Every error has its own page and status; one who is not let in is sent to the login.
pub proof fn errors_have_their_page(m: String)
    ensures
        DashboardError::Unauthorized.page() is None,
        DashboardError::Forbidden.page() == Some((403u16, "<h1>403 Forbidden</h1>"@)),
        DashboardError::BadRequest(m).page() == Some(
            (400u16, "<h1>Bad Request</h1><p>"@ + m@ + "</p>"@),
        ),
        DashboardError::NotFound(m).page() == Some((404u16, "<h1>Not Found</h1><p>"@ + m@ + "</p>"@)),
        DashboardError::Template(m).page() == Some(
            (500u16, "<h1>Template error</h1><pre>"@ + m@ + "</pre>"@),
        ),
        DashboardError::Internal.page() == Some((500u16, "<h1>Internal Error</h1>"@)),
{
}

/// The row of a user shows their number, name, address and state and when they were created,
/// in that order; the button turns the state round.
pub proof fn user_rows_show_their_user(u: User)
    ensures
        has_prefix(
            user_row(u),
            "<tr id=\"user-row-"@ + int_text(u.id as int) + "\"><td>"@ + int_text(u.id as int) + "</td><td>"@
                + u.name@ + "</td><td>"@ + or_dash(opt_text(u.email)) + "</td><td>"@ + status_tag_of(u.enabled)
                + "</td><td>"@ + u.created_at@ + "</td><td>"@,
        ),
        u.enabled ==> contains_text(
            user_row(u),
            "/admin/users/"@ + int_text(u.id as int) + "/disable"@,
        ),
        !u.enabled ==> contains_text(
            user_row(u),
            "/admin/users/"@ + int_text(u.id as int) + "/enable"@,
        ),
        status_tag_of(true) == "<span class=\"tag tag-enabled\">Enabled</span>"@,
        status_tag_of(false) == "<span class=\"tag tag-disabled\">Disabled</span>"@,
        or_dash(Some(u.name@)) == u.name@,
        or_dash(None) == "\u{2014}"@,
{
    let id = int_text(u.id as int);
    let head = "<tr id=\"user-row-"@ + id + "\"><td>"@ + id + "</td><td>"@ + u.name@ + "</td><td>"@
        + or_dash(opt_text(u.email)) + "</td><td>"@ + status_tag_of(u.enabled) + "</td><td>"@
        + u.created_at@ + "</td><td>"@;
    let row = user_row(u);
    assert(row.take(head.len() as int) =~= head);
    reveal_strlit("\" hx-post=\"/admin/users/");
    reveal_strlit("/admin/users/");
    let class = if u.enabled {
        "btn btn-danger"@
    } else {
        "btn btn-success"@
    };
    let verb = if u.enabled {
        "/disable"@
    } else {
        "/enable"@
    };
    let part = "/admin/users/"@ + id + verb;
    let at = head.len() + "<button class=\""@.len() + class.len() + "\" hx-post=\"/admin/users/"@.len()
        - "/admin/users/"@.len();
    assert(row.subrange(at, at + part.len()) =~= part);
}

proof fn lemma_lines_are_picked(q: CostQuery, costs: Seq<CostLine>)
    ensures
        cost_lines(q, costs) == picked(
            costs,
            |l: CostLine| q.shows(l.user_name@) && l.total_cost_usd.positive(),
            |l: CostLine| l,
        ),
    decreases costs.len(),
{
    if costs.len() > 0 {
        lemma_lines_are_picked(q, costs.drop_last());
    }
}

/// Costs are shown in their order: those of the user asked for, or of everyone, that are
/// more than nothing.
pub proof fn costs_are_shown_in_order(q: CostQuery, costs: Seq<CostLine>)
    ensures
        selects(
            cost_lines(q, costs),
            costs,
            |l: CostLine|
                (q.user is None || q.user->0@.len() == 0 || q.user->0@ == l.user_name@)
                    && l.total_cost_usd.positive(),
            |l: CostLine| l,
        ),
{
    lemma_lines_are_picked(q, costs);
    lemma_picked_selects(
        costs,
        |l: CostLine| q.shows(l.user_name@) && l.total_cost_usd.positive(),
        |l: CostLine| l,
        |l: CostLine|
            (q.user is None || q.user->0@.len() == 0 || q.user->0@ == l.user_name@)
                && l.total_cost_usd.positive(),
        |l: CostLine| l,
    );
}

/// Pages count from one; a blank text is none; an administrator is a viewer where nothing
/// else is said.
pub proof fn forms_are_read(q: PageQuery, s: Seq<char>, t: i64)
    ensures
        q.page is None ==> q.number_spec() == 1,
        q.page matches Some(n) ==> (n > 0 ==> q.number_spec() == n),
        q.page matches Some(n) ==> (n == 0 ==> q.number_spec() == 1),
        trimmed(s).len() == 0 ==> unless_blank(s) is None,
        trimmed(s).len() > 0 ==> unless_blank(s) == Some(trimmed(s)),
        role_or_viewer(None) == "viewer"@,
        role_or_viewer(Some(s)) == s,
        offset_of(None) is None,
        offset_of(Some(t)) == offset_text(t),
{
}

/// What is recorded of a change is the state, the name or the number and name.
pub proof fn changes_are_recorded(enabled: bool, name: Seq<char>, id: i64)
    ensures
        exists|o: JsonModel|
            enabled_json(enabled) == #[trigger] text_of_json(o) && o.at("enabled"@) == JsonModel::Bool(
                enabled,
            ),
        exists|o: JsonModel|
            name_json(name) == #[trigger] text_of_json(o) && o.at("name"@) == JsonModel::Str(name),
        exists|o: JsonModel|
            admin_json(id, name) == #[trigger] text_of_json(o) && o.at("id"@) == JsonModel::Int(id as int)
                && o.at("name"@) == JsonModel::Str(name),
{
    broadcast use {
        crate::ordered::entries_are_found,
        crate::ordered::nothing_is_found_in_nothing,
    };

    reveal_strlit("enabled");
    reveal_strlit("name");
    reveal_strlit("id");
    assert("enabled"@.len() == 7);
    assert("name"@.len() == 4);
    assert("id"@.len() == 2);
    let a = JsonModel::Obj(with_entry(Seq::empty(), "enabled"@, JsonModel::Bool(enabled)));
    assert(enabled_json(enabled) == text_of_json(a));
    let b = JsonModel::Obj(with_entry(Seq::empty(), "name"@, JsonModel::Str(name)));
    assert(name_json(name) == text_of_json(b));
    let c = with_entry(Seq::empty(), "id"@, JsonModel::Int(id as int));
    let c = JsonModel::Obj(with_entry(c, "name"@, JsonModel::Str(name)));
    assert(admin_json(id, name) == text_of_json(c));
}

/// A prompt is shown with its messages, its answer, how it finished and how long it took, each
/// behind its own heading.
pub proof fn prompts_are_shown_in_their_parts(p: PromptDetail, t: String, n: i64)
    ensures
        contains_text(
            prompt_fragment(p),
            "<strong>Messages:</strong><pre style=\"white-space:pre-wrap; font-size:0.8rem;\">"@ + escaped(
                p.messages@,
            ),
        ),
        p.response == Some(t) ==> contains_text(
            prompt_fragment(p),
            "<strong>Response:</strong><pre style=\"white-space:pre-wrap; font-size:0.8rem;\">"@ + escaped(t@),
        ),
        p.latency_ms == Some(n) ==> contains_text(
            prompt_fragment(p),
            " | <strong>Latency:</strong> "@ + int_text(n as int) + "ms"@,
        ),
{
    let head = "<div style=\"padding:0.75rem; background:#f9f9f9; border:1px solid #eee; border-radius:4px; margin-top:0.5rem;\">\n                    <strong>Messages:</strong><pre style=\"white-space:pre-wrap; font-size:0.8rem;\">"@;
    let next = "</pre>\n                    <strong>Response:</strong><pre style=\"white-space:pre-wrap; font-size:0.8rem;\">"@;
    let end = "</pre>\n                    <strong>Finish:</strong> "@;
    let last = "ms\n                </div>"@;
    reveal_strlit("<div style=\"padding:0.75rem; background:#f9f9f9; border:1px solid #eee; border-radius:4px; margin-top:0.5rem;\">\n                    <strong>Messages:</strong><pre style=\"white-space:pre-wrap; font-size:0.8rem;\">");
    reveal_strlit("</pre>\n                    <strong>Response:</strong><pre style=\"white-space:pre-wrap; font-size:0.8rem;\">");
    reveal_strlit("ms\n                </div>");
    reveal_strlit("ms");
    reveal_strlit("<strong>Messages:</strong><pre style=\"white-space:pre-wrap; font-size:0.8rem;\">");
    reveal_strlit("<strong>Response:</strong><pre style=\"white-space:pre-wrap; font-size:0.8rem;\">");
    let a = "<strong>Messages:</strong><pre style=\"white-space:pre-wrap; font-size:0.8rem;\">"@;
    let b = "<strong>Response:</strong><pre style=\"white-space:pre-wrap; font-size:0.8rem;\">"@;
    let all = prompt_fragment(p);
    let m = escaped(p.messages@);
    let at = head.len() - a.len();
    assert(all.subrange(at, at + (a + m).len()) =~= a + m);
    let shown = escaped(
        match p.response {
            Some(t) => t@,
            None => "(none)"@,
        },
    );
    let from = head.len() + m.len() + next.len() - b.len();
    assert(all.subrange(from, from + (b + shown).len()) =~= b + shown);
    let f = escaped(or_dash(opt_text(p.finish_reason)));
    let k = int_text(
        match p.latency_ms {
            Some(n) => n as int,
            None => 0,
        },
    );
    let part = " | <strong>Latency:</strong> "@ + k + "ms"@;
    let place = (head + m + next + shown + end + f).len() as int;
    assert(all.subrange(place, place + part.len()) =~= part);
}

} // verus!
