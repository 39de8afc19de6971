//! The page of budgets: the rules of the whole organisation, of projects, of
//! callers and of groups, each scope on a card of its own.

use crate::api::admin::dashboard::DashboardError;
use crate::api::error::ApiError;
use crate::json::{json_of_text, Json, JsonModel};
use crate::ordered::{ascending, lemma_sorted_labels, lookup, sorted_labels, OrderedMap};
use crate::records::{ApiKey, Usd, User};
use crate::sums::{lemma_added_in_turn, lemma_nothing_added, lemma_picked_selects, picked, selects};
use crate::text::{
    byte_prefix, contains_text, escaped, fill, filled, he, holds_text, i64_text, int_text,
    is_before, join, joined, lemma_first_named, opt_text, pairs, precedes, same, slug, slug_of,
    take_bytes, texts, value_named,
};
use vstd::prelude::*;

verus! {

/// An amount of dollars as it is shown: with two decimals, and in full.
#[derive(Debug, Clone, PartialEq, Eq)]
pub struct ShownUsd {
    pub fixed: String,
    pub plain: String,
}

/// A budget rule as it is stored. The lists of models are JSON arrays.
#[derive(Debug, Clone, PartialEq, Eq)]
pub struct BudgetRule {
    pub id: i64,
    pub user_id: Option<i64>,
    pub group_name: Option<String>,
    pub api_key_id: Option<i64>,
    pub project: Option<String>,
    pub window: String,
    pub window_start: Option<String>,
    pub window_end: Option<String>,
    pub limit_usd: Option<ShownUsd>,
    pub limit_tokens: Option<i64>,
    pub rate_rpm: Option<i64>,
    pub model_allow: String,
    pub model_deny: String,
}

/// Whom a rule is for.
#[derive(Debug, Clone, PartialEq, Eq)]
pub enum BudgetScope {
    Global,
    Project(String),
    User(i64),
    Group(String),
}

pub enum ScopeModel {
    Global,
    Project(Seq<char>),
    User(i64),
    Group(Seq<char>),
}

impl View for BudgetScope {
    type V = ScopeModel;

    open spec fn view(&self) -> ScopeModel {
        match self {
            BudgetScope::Global => ScopeModel::Global,
            BudgetScope::Project(p) => ScopeModel::Project(p@),
            BudgetScope::User(id) => ScopeModel::User(*id),
            BudgetScope::Group(g) => ScopeModel::Group(g@),
        }
    }
}

impl BudgetRule {
    /// Whether the rule stands on the card of a scope.
    pub open spec fn is_for(self, scope: ScopeModel) -> bool {
        match scope {
            ScopeModel::Global => self.user_id is None && self.group_name is None && self.project is None
                && self.api_key_id is None,
            ScopeModel::Project(p) => opt_text(self.project) == Some(p),
            ScopeModel::User(id) => self.user_id == Some(id),
            ScopeModel::Group(g) => opt_text(self.group_name) == Some(g),
        }
    }

    fn falls_under(&self, scope: &BudgetScope) -> (r: bool)
        ensures
            r == self.is_for(scope@),
    {
        match scope {
            BudgetScope::Global => self.user_id.is_none() && self.group_name.is_none()
                && self.project.is_none() && self.api_key_id.is_none(),
            BudgetScope::Project(p) => match &self.project {
                Some(q) => same(q.as_str(), p.as_str()),
                None => false,
            },
            BudgetScope::User(id) => match self.user_id {
                Some(u) => u == *id,
                None => false,
            },
            BudgetScope::Group(g) => match &self.group_name {
                Some(h) => same(h.as_str(), g.as_str()),
                None => false,
            },
        }
    }
}

// ---------------------------------------------------------------------------
// Rows
// ---------------------------------------------------------------------------

/// What a row shows for what is not set.
pub const DASH: &'static str = "\u{2014}";

pub open spec fn or_unknown(s: Option<Seq<char>>) -> Seq<char> {
    match s {
        Some(t) => t,
        None => "?"@,
    }
}

fn text_or_unknown(s: &Option<String>) -> (r: &str)
    ensures
        r@ == or_unknown(opt_text(*s)),
{
    match s {
        Some(t) => t.as_str(),
        None => "?",
    }
}

/// The window of a rule in words.
pub open spec fn window_words(rule: BudgetRule) -> Seq<char> {
    if rule.window@ == "monthly"@ {
        "Monthly"@
    } else if rule.window@ == "total"@ {
        "Total ("@ + or_unknown(opt_text(rule.window_start)) + " \u{2013} "@ + or_unknown(
            opt_text(rule.window_end),
        ) + ")"@
    } else if rule.window@ == "target"@ {
        "Target"@
    } else {
        escaped(rule.window@)
    }
}

fn window_label(rule: &BudgetRule) -> (r: String)
    ensures
        r@ == window_words(*rule),
{
    let window = rule.window.as_str();
    if same(window, "monthly") {
        "Monthly".to_owned()
    } else if same(window, "total") {
        "Total (".to_owned().concat(text_or_unknown(&rule.window_start)).concat(
            " \u{2013} ",
        ).concat(text_or_unknown(&rule.window_end)).concat(")")
    } else if same(window, "target") {
        "Target".to_owned()
    } else {
        he(window)
    }
}

pub open spec fn count_or(n: Option<i64>, otherwise: Seq<char>) -> Seq<char> {
    match n {
        Some(n) => int_text(n as int),
        None => otherwise,
    }
}

fn count_text(n: Option<i64>, otherwise: &str) -> (r: String)
    ensures
        r@ == count_or(n, otherwise@),
{
    match n {
        Some(n) => i64_text(n),
        None => otherwise.to_owned(),
    }
}

pub open spec fn plain_or(v: Option<ShownUsd>, otherwise: Seq<char>) -> Seq<char> {
    match v {
        Some(v) => v.plain@,
        None => otherwise,
    }
}

fn plain_text<'a>(v: &'a Option<ShownUsd>, otherwise: &'a str) -> (r: &'a str)
    ensures
        r@ == plain_or(*v, otherwise@),
{
    match v {
        Some(v) => v.plain.as_str(),
        None => otherwise,
    }
}

pub open spec fn fixed_or_zero(v: Option<ShownUsd>) -> Seq<char> {
    match v {
        Some(v) => v.fixed@,
        None => "0.00"@,
    }
}

fn fixed_text(v: &Option<ShownUsd>) -> (r: &str)
    ensures
        r@ == fixed_or_zero(*v),
{
    match v {
        Some(v) => v.fixed.as_str(),
        None => "0.00",
    }
}

/// The texts of a list, where it holds nothing else.
pub open spec fn all_texts(items: Seq<JsonModel>) -> Option<Seq<Seq<char>>>
    decreases items.len(),
{
    if items.len() == 0 {
        Some(Seq::empty())
    } else {
        match (all_texts(items.drop_last()), items.last().text()) {
            (Some(rest), Some(t)) => Some(rest.push(t)),
            _ => None,
        }
    }
}

/// The models of a stored list; none where it is no list of texts.
pub open spec fn models_in(stored: Seq<char>) -> Seq<Seq<char>> {
    match json_of_text(stored) {
        Some(JsonModel::Arr(items)) => match all_texts(items) {
            Some(v) => v,
            None => Seq::empty(),
        },
        _ => Seq::empty(),
    }
}

fn read_models(stored: &str) -> (r: Vec<String>)
    ensures
        texts(r@) == models_in(stored@),
{
    let none: Vec<String> = Vec::new();
    assert(texts(none@) =~= Seq::empty());
    let doc = match Json::parse(stored) {
        Some(doc) => doc,
        None => {
            return none;
        },
    };
    let items = match doc.as_array() {
        Some(items) => items,
        None => {
            return none;
        },
    };
    let ghost all = doc.model()->Arr_0;
    let mut out: Vec<String> = Vec::new();
    let mut i: usize = 0;
    assert(all.take(0) =~= Seq::empty());
    while i < items.len()
        invariant
            i <= items@.len(),
            all == crate::json::list_models(items@),
            json_of_text(stored@) == Some(JsonModel::Arr(all)),
            all_texts(all.take(i as int)) == Some(texts(out@)),
            texts(none@) == Seq::<Seq<char>>::empty(),
        decreases items@.len() - i,
    {
        assert(all.take(i + 1).drop_last() =~= all.take(i as int));
        assert(all.take(i + 1).last() == items@[i as int].model());
        match items[i].as_str() {
            Some(t) => {
                let ghost before = out@;
                out.push(t.to_owned());
                assert(texts(out@) =~= texts(before).push(t@));
            },
            None => {
                proof {
                    lemma_not_all_texts(all, i as int);
                }
                return none;
            },
        }
        i += 1;
    }
    assert(all.take(all.len() as int) =~= all);
    out
}

proof fn lemma_not_all_texts(items: Seq<JsonModel>, i: int)
    requires
        0 <= i < items.len(),
        items[i].text() is None,
    ensures
        all_texts(items) is None,
    decreases items.len(),
{
    if i < items.len() - 1 {
        lemma_not_all_texts(items.drop_last(), i);
    }
}

pub open spec fn models_shown(stored: Seq<char>) -> Seq<char> {
    if models_in(stored).len() == 0 {
        DASH@
    } else {
        joined(models_in(stored), ", "@)
    }
}

fn show_models(stored: &str) -> (r: String)
    ensures
        r@ == models_shown(stored@),
{
    let v = read_models(stored);
    assert(texts(v@).len() == v@.len());
    if v.len() == 0 {
        DASH.to_owned()
    } else {
        join(&v, ", ")
    }
}

/// The form that changes the target of a group.
pub const TARGET_FORM: &'static str =
    "<form hx-post=\"/admin/budgets/{id}/edit\" hx-target=\"{target}\" hx-swap=\"outerHTML\" style=\"display:inline;\">
                <input type=\"number\" name=\"limit_usd\" step=\"0.01\" value=\"{lusd}\" style=\"width:80px;padding:0.25rem;\">
                <button type=\"submit\" class=\"btn btn-secondary\" style=\"font-size:0.8rem;padding:0.3rem 0.6rem;\">Save</button>
            </form>";

pub const DATE_INPUTS: &'static str =
    "<input type=\"date\" name=\"window_start\" value=\"{ws}\" style=\"padding:0.25rem;border:1px solid #ccc;border-radius:4px;\">
                   <input type=\"date\" name=\"window_end\" value=\"{we}\" style=\"padding:0.25rem;border:1px solid #ccc;border-radius:4px;\">";

/// The form that changes the limits of a rule.
pub const LIMITS_FORM: &'static str =
    "<form hx-post=\"/admin/budgets/{id}/edit\" hx-target=\"{target}\" hx-swap=\"outerHTML\" style=\"display:flex;gap:0.3rem;align-items:center;flex-wrap:wrap;\">
                <input type=\"number\" name=\"limit_usd\" step=\"0.01\" placeholder=\"USD\" value=\"{lusd}\" style=\"width:80px;padding:0.25rem;border:1px solid #ccc;border-radius:4px;\" title=\"Limit USD\">
                <input type=\"number\" name=\"limit_tokens\" placeholder=\"Tokens\" value=\"{ltok}\" style=\"width:80px;padding:0.25rem;border:1px solid #ccc;border-radius:4px;\" title=\"Limit Tokens\">
                <input type=\"number\" name=\"rate_rpm\" placeholder=\"RPM\" value=\"{rpm}\" style=\"width:60px;padding:0.25rem;border:1px solid #ccc;border-radius:4px;\" title=\"Rate RPM\">
                {date_inputs}
                <button type=\"submit\" class=\"btn btn-secondary\" style=\"font-size:0.8rem;padding:0.3rem 0.6rem;\">Save</button>
            </form>";

pub const DELETE_BUTTON: &'static str =
    "<button class=\"btn btn-danger\" style=\"font-size:0.8rem;padding:0.3rem 0.6rem;\" hx-post=\"/admin/budgets/{id}/delete\" hx-target=\"{target}\" hx-swap=\"outerHTML\" hx-confirm=\"Delete this budget rule?\">Delete</button>";

pub const RULE_ROW: &'static str =
    "<tr><td>{window}</td><td>{limit_usd}</td><td>{limit_tokens}</td><td>{rate_rpm}</td><td>{allow}</td><td>{deny}</td><td style='display:flex;gap:0.4rem;'>{edit}{delete}</td></tr>";

/// The day of a timestamp, for a date input.
pub open spec fn day_of(s: Option<Seq<char>>) -> Seq<char> {
    match s {
        Some(t) => match byte_prefix(t, 10) {
            Some(d) => d,
            None => ""@,
        },
        None => ""@,
    }
}

fn day_text(s: &Option<String>) -> (r: &str)
    ensures
        r@ == day_of(opt_text(*s)),
{
    match s {
        Some(t) => match take_bytes(t.as_str(), 10) {
            Some(d) => d,
            None => "",
        },
        None => "",
    }
}

pub open spec fn edit_form_of(rule: BudgetRule, target: Seq<char>) -> Seq<char> {
    let id = int_text(rule.id as int);
    if rule.window@ == "target"@ {
        filled(
            TARGET_FORM@,
            seq![
                ("id"@, id),
                ("target"@, target),
                ("lusd"@, plain_or(rule.limit_usd, "0"@)),
            ],
        )
    } else {
        let dates = if rule.window@ == "total"@ {
            filled(
                DATE_INPUTS@,
                seq![
                    ("ws"@, day_of(opt_text(rule.window_start))),
                    ("we"@, day_of(opt_text(rule.window_end))),
                ],
            )
        } else {
            ""@
        };
        filled(
            LIMITS_FORM@,
            seq![
                ("id"@, id),
                ("target"@, target),
                ("lusd"@, plain_or(rule.limit_usd, ""@)),
                ("ltok"@, count_or(rule.limit_tokens, ""@)),
                ("rpm"@, count_or(rule.rate_rpm, ""@)),
                ("date_inputs"@, dates),
            ],
        )
    }
}

fn edit_form(rule: &BudgetRule, target: &str) -> (r: String)
    ensures
        r@ == edit_form_of(*rule, target@),
{
    let id = i64_text(rule.id);
    if same(rule.window.as_str(), "target") {
        let values = vec![
            ("id", id.as_str()),
            ("target", target),
            ("lusd", plain_text(&rule.limit_usd, "0")),
        ];
        let r = fill(TARGET_FORM, &values);
        assert(pairs(values@) =~= seq![
            ("id"@, id@),
            ("target"@, target@),
            ("lusd"@, plain_or(rule.limit_usd, "0"@)),
        ]);
        r
    } else {
        let dates = if same(rule.window.as_str(), "total") {
            let values = vec![
                ("ws", day_text(&rule.window_start)),
                ("we", day_text(&rule.window_end)),
            ];
            let r = fill(DATE_INPUTS, &values);
            assert(pairs(values@) =~= seq![
                ("ws"@, day_of(opt_text(rule.window_start))),
                ("we"@, day_of(opt_text(rule.window_end))),
            ]);
            r
        } else {
            "".to_owned()
        };
        let tokens = count_text(rule.limit_tokens, "");
        let rpm = count_text(rule.rate_rpm, "");
        let values = vec![
            ("id", id.as_str()),
            ("target", target),
            ("lusd", plain_text(&rule.limit_usd, "")),
            ("ltok", tokens.as_str()),
            ("rpm", rpm.as_str()),
            ("date_inputs", dates.as_str()),
        ];
        let r = fill(LIMITS_FORM, &values);
        assert(pairs(values@) =~= seq![
            ("id"@, id@),
            ("target"@, target@),
            ("lusd"@, plain_or(rule.limit_usd, ""@)),
            ("ltok"@, count_or(rule.limit_tokens, ""@)),
            ("rpm"@, count_or(rule.rate_rpm, ""@)),
            ("date_inputs"@, dates@),
        ]);
        r
    }
}

/// The limit of a rule in dollars.
pub open spec fn limit_words(v: Option<ShownUsd>) -> Seq<char> {
    match v {
        Some(v) => "$"@ + v.fixed@,
        None => DASH@,
    }
}

fn limit_text(v: &Option<ShownUsd>) -> (r: String)
    ensures
        r@ == limit_words(*v),
{
    match v {
        Some(v) => "$".to_owned().concat(v.fixed.as_str()),
        None => DASH.to_owned(),
    }
}

/// The table row of a rule.
pub open spec fn rule_row(rule: BudgetRule, target: Seq<char>) -> Seq<char> {
    filled(
        RULE_ROW@,
        seq![
            ("window"@, window_words(rule)),
            ("limit_usd"@, limit_words(rule.limit_usd)),
            ("limit_tokens"@, count_or(rule.limit_tokens, DASH@)),
            ("rate_rpm"@, count_or(rule.rate_rpm, DASH@)),
            ("allow"@, escaped(models_shown(rule.model_allow@))),
            ("deny"@, escaped(models_shown(rule.model_deny@))),
            ("edit"@, edit_form_of(rule, target)),
            ("delete"@, delete_button_of(rule.id, target)),
        ],
    )
}

pub open spec fn delete_button_of(id: i64, target: Seq<char>) -> Seq<char> {
    filled(DELETE_BUTTON@, seq![("id"@, int_text(id as int)), ("target"@, target)])
}

fn delete_button(id: i64, target: &str) -> (r: String)
    ensures
        r@ == delete_button_of(id, target@),
{
    let id_text = i64_text(id);
    let values = vec![("id", id_text.as_str()), ("target", target)];
    let r = fill(DELETE_BUTTON, &values);
    assert(pairs(values@) =~= seq![("id"@, id_text@), ("target"@, target@)]);
    r
}

pub fn rule_row_html(rule: &BudgetRule, card_target: &str) -> (r: String)
    ensures
        r@ == rule_row(*rule, card_target@),
{
    let window = window_label(rule);
    let limit = limit_text(&rule.limit_usd);
    let tokens = count_text(rule.limit_tokens, DASH);
    let rpm = count_text(rule.rate_rpm, DASH);
    let allow = he(show_models(rule.model_allow.as_str()).as_str());
    let deny = he(show_models(rule.model_deny.as_str()).as_str());
    let edit = edit_form(rule, card_target);
    let delete = delete_button(rule.id, card_target);
    let values = vec![
        ("window", window.as_str()),
        ("limit_usd", limit.as_str()),
        ("limit_tokens", tokens.as_str()),
        ("rate_rpm", rpm.as_str()),
        ("allow", allow.as_str()),
        ("deny", deny.as_str()),
        ("edit", edit.as_str()),
        ("delete", delete.as_str()),
    ];
    let r = fill(RULE_ROW, &values);
    assert(pairs(values@) =~= seq![
        ("window"@, window@),
        ("limit_usd"@, limit@),
        ("limit_tokens"@, tokens@),
        ("rate_rpm"@, rpm@),
        ("allow"@, allow@),
        ("deny"@, deny@),
        ("edit"@, edit@),
        ("delete"@, delete@),
    ]);
    r
}

// ---------------------------------------------------------------------------
// Cards
// ---------------------------------------------------------------------------

pub const ADD_FORM: &'static str =
    "<form hx-post=\"/admin/budgets\" hx-target=\"{target}\" hx-swap=\"outerHTML\" style=\"display:flex;gap:0.5rem;flex-wrap:wrap;align-items:flex-end;margin-top:0.75rem;padding-top:0.75rem;border-top:1px solid #eee;\">
            {scope_fields}
            <div>
                <label style=\"display:block;font-size:0.8rem;margin-bottom:0.2rem;\">Window</label>
                <select name=\"window\" style=\"padding:0.3rem;border:1px solid #ccc;border-radius:4px;font-size:0.85rem;\">
                    <option value=\"monthly\">Monthly</option>
                    <option value=\"total\">Total (date range)</option>
                </select>
            </div>
            <div>
                <label style=\"display:block;font-size:0.8rem;margin-bottom:0.2rem;\">Limit USD</label>
                <input type=\"number\" name=\"limit_usd\" step=\"0.01\" placeholder=\"100.00\" style=\"width:90px;padding:0.3rem;border:1px solid #ccc;border-radius:4px;\">
            </div>
            <div>
                <label style=\"display:block;font-size:0.8rem;margin-bottom:0.2rem;\">Start (total only)</label>
                <input type=\"date\" name=\"window_start\" style=\"padding:0.3rem;border:1px solid #ccc;border-radius:4px;\">
            </div>
            <div>
                <label style=\"display:block;font-size:0.8rem;margin-bottom:0.2rem;\">End (total only)</label>
                <input type=\"date\" name=\"window_end\" style=\"padding:0.3rem;border:1px solid #ccc;border-radius:4px;\">
            </div>
            <button type=\"submit\" class=\"btn btn-primary\" style=\"font-size:0.85rem;\">Add Rule</button>
        </form>";

pub const NO_RULES: &'static str =
    "<tr><td colspan='7' style='color:#999;text-align:center;padding:0.5rem;'>No rules yet.</td></tr>";

pub const CARD: &'static str =
    "<div id=\"{card_id}\" style=\"background:#fff;border-radius:6px;padding:1.25rem;box-shadow:0 1px 3px rgba(0,0,0,0.1);margin-bottom:1rem;\">
            <h3 style=\"margin-bottom:0.75rem;font-size:1rem;\">{title}</h3>
            <table style=\"width:100%;border-collapse:collapse;\">
                <thead>
                    <tr style=\"font-size:0.8rem;text-transform:uppercase;color:#777;\">
                        <th>Window</th><th>Limit USD</th><th>Limit Tokens</th>
                        <th>Rate RPM</th><th>Allow Models</th><th>Deny Models</th><th>Actions</th>
                    </tr>
                </thead>
                <tbody>{rows}</tbody>
            </table>
            {add_form}
        </div>";

pub open spec fn add_rule_form(target: Seq<char>, scope_fields: Seq<char>) -> Seq<char> {
    filled(ADD_FORM@, seq![("target"@, target), ("scope_fields"@, scope_fields)])
}

pub fn add_rule_form_html(card_target: &str, scope_fields: &str) -> (r: String)
    ensures
        r@ == add_rule_form(card_target@, scope_fields@),
{
    let values = vec![("target", card_target), ("scope_fields", scope_fields)];
    let r = fill(ADD_FORM, &values);
    assert(pairs(values@) =~= seq![("target"@, card_target@), ("scope_fields"@, scope_fields@)]);
    r
}

/// The rows of some rules, one after the other.
pub open spec fn rule_rows(rules: Seq<BudgetRule>, target: Seq<char>) -> Seq<char>
    decreases rules.len(),
{
    if rules.len() == 0 {
        ""@
    } else {
        rule_rows(rules.drop_last(), target) + rule_row(rules.last(), target)
    }
}

/// The card of a scope.
pub open spec fn budget_card(
    card_id: Seq<char>,
    title: Seq<char>,
    rules: Seq<BudgetRule>,
    scope_fields: Seq<char>,
) -> Seq<char> {
    let target = "#"@ + card_id;
    let rows = if rules.len() == 0 {
        NO_RULES@
    } else {
        rule_rows(rules, target)
    };
    filled(
        CARD@,
        seq![
            ("card_id"@, card_id),
            ("title"@, escaped(title)),
            ("rows"@, rows),
            ("add_form"@, add_rule_form(target, scope_fields)),
        ],
    )
}

/// Some rules that are borrowed from a list.
pub open spec fn lent(rules: Seq<&BudgetRule>) -> Seq<BudgetRule> {
    Seq::new(rules.len(), |i: int| *rules[i])
}

pub fn budget_card_html(card_id: &str, title: &str, rules: &Vec<&BudgetRule>, scope_fields: &str) -> (r:
    String)
    ensures
        r@ == budget_card(card_id@, title@, lent(rules@), scope_fields@),
{
    let target = "#".to_owned().concat(card_id);
    let ghost all = lent(rules@);
    let rows = if rules.len() == 0 {
        NO_RULES.to_owned()
    } else {
        let mut rows: String = "".to_owned();
        let mut i: usize = 0;
        assert(all.take(0) =~= Seq::empty());
        while i < rules.len()
            invariant
                i <= rules@.len(),
                all == lent(rules@),
                rows@ == rule_rows(all.take(i as int), target@),
            decreases rules@.len() - i,
        {
            let row = rule_row_html(rules[i], target.as_str());
            rows.append(row.as_str());
            assert(all.take(i + 1).drop_last() =~= all.take(i as int));
            i += 1;
        }
        assert(all.take(all.len() as int) =~= all);
        rows
    };
    let add_form = add_rule_form_html(target.as_str(), scope_fields);
    let title_html = he(title);
    let values = vec![
        ("card_id", card_id),
        ("title", title_html.as_str()),
        ("rows", rows.as_str()),
        ("add_form", add_form.as_str()),
    ];
    let r = fill(CARD, &values);
    assert(pairs(values@) =~= seq![
        ("card_id"@, card_id@),
        ("title"@, title_html@),
        ("rows"@, rows@),
        ("add_form"@, add_form@),
    ]);
    r
}

// ---------------------------------------------------------------------------
// The card of each scope
// ---------------------------------------------------------------------------

pub const GLOBAL_FIELDS: &'static str = "<input type=\"hidden\" name=\"scope\" value=\"global\">";

pub const GLOBAL_TITLE: &'static str = "Global (Org-Wide)";

pub open spec fn project_fields(project: Seq<char>) -> Seq<char> {
    "<input type=\"hidden\" name=\"scope\" value=\"project\"><input type=\"hidden\" name=\"project\" value=\""@
        + escaped(project) + "\">"@
}

pub open spec fn user_fields(id: i64) -> Seq<char> {
    "<input type=\"hidden\" name=\"scope\" value=\"user\"><input type=\"hidden\" name=\"user_id\" value=\""@
        + int_text(id as int) + "\">"@
}

pub open spec fn project_card(project: Seq<char>, rules: Seq<BudgetRule>) -> Seq<char> {
    budget_card(
        "budget-card-project-"@ + slug_of(project),
        project,
        rules,
        project_fields(project),
    )
}

pub open spec fn user_card(id: i64, name: Seq<char>, rules: Seq<BudgetRule>) -> Seq<char> {
    budget_card("budget-card-user-"@ + int_text(id as int), name, rules, user_fields(id))
}

fn global_card_html(rules: &Vec<&BudgetRule>) -> (r: String)
    ensures
        r@ == budget_card("budget-card-global"@, GLOBAL_TITLE@, lent(rules@), GLOBAL_FIELDS@),
{
    budget_card_html("budget-card-global", GLOBAL_TITLE, rules, GLOBAL_FIELDS)
}

fn project_card_html(project: &str, rules: &Vec<&BudgetRule>) -> (r: String)
    ensures
        r@ == project_card(project@, lent(rules@)),
{
    let card_id = "budget-card-project-".to_owned().concat(slug(project).as_str());
    let fields =
        "<input type=\"hidden\" name=\"scope\" value=\"project\"><input type=\"hidden\" name=\"project\" value=\"".to_owned().concat(
    he(project).as_str()).concat("\">");
    budget_card_html(card_id.as_str(), project, rules, fields.as_str())
}

fn user_card_html(id: i64, name: &str, rules: &Vec<&BudgetRule>) -> (r: String)
    ensures
        r@ == user_card(id, name@, lent(rules@)),
{
    let id_text = i64_text(id);
    let card_id = "budget-card-user-".to_owned().concat(id_text.as_str());
    let fields =
        "<input type=\"hidden\" name=\"scope\" value=\"user\"><input type=\"hidden\" name=\"user_id\" value=\"".to_owned().concat(
    id_text.as_str()).concat("\">");
    budget_card_html(card_id.as_str(), name, rules, fields.as_str())
}

/// The card of a group, with the one rule that it may have: a target, which
/// nothing enforces.
pub const GROUP_CARD: &'static str =
    "<div id=\"{card_id}\" style=\"background:#fff;border-radius:6px;padding:1.25rem;box-shadow:0 1px 3px rgba(0,0,0,0.1);margin-bottom:1rem;\">
                <h3 style=\"margin-bottom:0.5rem;font-size:1rem;\">{name} <span style=\"font-size:0.75rem;color:#777;\">(soft target)</span></h3>
                {target_html}
            </div>";

pub const GROUP_TARGET: &'static str =
    "<p style=\"margin:0.5rem 0;\">Target: <strong>${fixed}</strong>
                    <button class=\"btn btn-danger\" style=\"font-size:0.8rem;padding:0.2rem 0.5rem;margin-left:0.5rem;\" hx-post=\"/admin/budgets/{id}/delete\" hx-target=\"{target}\" hx-swap=\"outerHTML\" hx-confirm=\"Remove group target?\">Remove</button>
                    <form hx-post=\"/admin/budgets/{id}/edit\" hx-target=\"{target}\" hx-swap=\"outerHTML\" style=\"display:inline;\">
                        <input type=\"number\" name=\"limit_usd\" step=\"0.01\" value=\"{lusd}\" style=\"width:80px;padding:0.25rem;\">
                        <button type=\"submit\" class=\"btn btn-secondary\" style=\"font-size:0.8rem;padding:0.3rem 0.6rem;\">Save</button>
                    </form>
                </p>";

pub const GROUP_FORM: &'static str =
    "<form hx-post=\"/admin/budgets\" hx-target=\"{target}\" hx-swap=\"outerHTML\" style=\"display:flex;gap:0.5rem;align-items:flex-end;margin-top:0.5rem;\">
                    <input type=\"hidden\" name=\"scope\" value=\"group\"><input type=\"hidden\" name=\"group_name\" value=\"{group}\">
                    <input type=\"hidden\" name=\"window\" value=\"target\">
                    <div>
                        <label style=\"display:block;font-size:0.8rem;margin-bottom:0.2rem;\">Target USD</label>
                        <input type=\"number\" name=\"limit_usd\" step=\"0.01\" placeholder=\"1000.00\" style=\"width:100px;padding:0.3rem;border:1px solid #ccc;border-radius:4px;\">
                    </div>
                    <button type=\"submit\" class=\"btn btn-primary\" style=\"font-size:0.85rem;\">Set Target</button>
                </form>";

/// The same card once its rule has changed, as it goes out on its own.
pub const CHANGED_CARD: &'static str =
    "<div id=\"{card_id}\" style=\"background:#fff;border-radius:6px;padding:1.25rem;box-shadow:0 1px 3px rgba(0,0,0,0.1);margin-bottom:1rem;\">
                    <h3 style=\"margin-bottom:0.5rem;font-size:1rem;\">{name} <span style=\"font-size:0.75rem;color:#777;\">(soft target)</span></h3>
                    {target_html}
                </div>";

pub const CHANGED_TARGET: &'static str =
    "<p style=\"margin:0.5rem 0;\">Target: <strong>${fixed}</strong>
                        <button class=\"btn btn-danger\" style=\"font-size:0.8rem;padding:0.2rem 0.5rem;margin-left:0.5rem;\" hx-post=\"/admin/budgets/{id}/delete\" hx-target=\"{target}\" hx-swap=\"outerHTML\" hx-confirm=\"Remove group target?\">Remove</button>
                        <form hx-post=\"/admin/budgets/{id}/edit\" hx-target=\"{target}\" hx-swap=\"outerHTML\" style=\"display:inline;\">
                            <input type=\"number\" name=\"limit_usd\" step=\"0.01\" value=\"{lusd}\" style=\"width:80px;padding:0.25rem;\">
                            <button type=\"submit\" class=\"btn btn-secondary\" style=\"font-size:0.8rem;padding:0.3rem 0.6rem;\">Save</button>
                        </form>
                    </p>";

pub const CHANGED_FORM: &'static str =
    "<form hx-post=\"/admin/budgets\" hx-target=\"{target}\" hx-swap=\"outerHTML\" style=\"display:flex;gap:0.5rem;align-items:flex-end;margin-top:0.5rem;\">
                        <input type=\"hidden\" name=\"scope\" value=\"group\">
                        <input type=\"hidden\" name=\"group_name\" value=\"{group}\">
                        <input type=\"hidden\" name=\"window\" value=\"target\">
                        <div>
                            <label style=\"display:block;font-size:0.8rem;margin-bottom:0.2rem;\">Target USD</label>
                            <input type=\"number\" name=\"limit_usd\" step=\"0.01\" placeholder=\"1000.00\" style=\"width:100px;padding:0.3rem;border:1px solid #ccc;border-radius:4px;\">
                        </div>
                        <button type=\"submit\" class=\"btn btn-primary\" style=\"font-size:0.85rem;\">Set Target</button>
                    </form>";

/// Where the card of a group stands.
#[derive(Debug, Clone, Copy, PartialEq, Eq, Structural)]
pub enum GroupLayout {
    /// On the page.
    Page,
    /// On its own, after a change.
    Changed,
}

impl GroupLayout {
    pub open spec fn card(self) -> Seq<char> {
        match self {
            GroupLayout::Page => GROUP_CARD@,
            GroupLayout::Changed => CHANGED_CARD@,
        }
    }

    pub open spec fn target(self) -> Seq<char> {
        match self {
            GroupLayout::Page => GROUP_TARGET@,
            GroupLayout::Changed => CHANGED_TARGET@,
        }
    }

    pub open spec fn form(self) -> Seq<char> {
        match self {
            GroupLayout::Page => GROUP_FORM@,
            GroupLayout::Changed => CHANGED_FORM@,
        }
    }

    /// The templates of the card, of its target and of its form.
    fn templates(self) -> (r: (&'static str, &'static str, &'static str))
        ensures
            r.0@ == self.card(),
            r.1@ == self.target(),
            r.2@ == self.form(),
    {
        match self {
            GroupLayout::Page => (GROUP_CARD, GROUP_TARGET, GROUP_FORM),
            GroupLayout::Changed => (CHANGED_CARD, CHANGED_TARGET, CHANGED_FORM),
        }
    }
}

pub open spec fn group_card(layout: GroupLayout, group: Seq<char>, rules: Seq<BudgetRule>) -> Seq<
    char,
> {
    let card_id = "budget-card-group-"@ + escaped(group);
    let target = "#"@ + card_id;
    let target_html = if rules.len() > 0 {
        filled(
            layout.target(),
            seq![
                ("fixed"@, fixed_or_zero(rules[0].limit_usd)),
                ("id"@, int_text(rules[0].id as int)),
                ("target"@, target),
                ("lusd"@, plain_or(rules[0].limit_usd, "0"@)),
            ],
        )
    } else {
        filled(layout.form(), seq![("target"@, target), ("group"@, escaped(group))])
    };
    filled(
        layout.card(),
        seq![
            ("card_id"@, card_id),
            ("name"@, escaped(group)),
            ("target_html"@, target_html),
        ],
    )
}

fn group_card_html(layout: GroupLayout, group: &str, rules: &Vec<&BudgetRule>) -> (r: String)
    ensures
        r@ == group_card(layout, group@, lent(rules@)),
{
    let (card, target_form, empty_form) = layout.templates();
    let safe = he(group);
    let card_id = "budget-card-group-".to_owned().concat(safe.as_str());
    let target = "#".to_owned().concat(card_id.as_str());
    let target_html = if rules.len() > 0 {
        let rule: &BudgetRule = rules[0];
        let id = i64_text(rule.id);
        let values = vec![
            ("fixed", fixed_text(&rule.limit_usd)),
            ("id", id.as_str()),
            ("target", target.as_str()),
            ("lusd", plain_text(&rule.limit_usd, "0")),
        ];
        let r = fill(target_form, &values);
        assert(pairs(values@) =~= seq![
            ("fixed"@, fixed_or_zero(rule.limit_usd)),
            ("id"@, id@),
            ("target"@, target@),
            ("lusd"@, plain_or(rule.limit_usd, "0"@)),
        ]);
        r
    } else {
        let values = vec![("target", target.as_str()), ("group", safe.as_str())];
        let r = fill(empty_form, &values);
        assert(pairs(values@) =~= seq![("target"@, target@), ("group"@, safe@)]);
        r
    };
    let values = vec![
        ("card_id", card_id.as_str()),
        ("name", safe.as_str()),
        ("target_html", target_html.as_str()),
    ];
    let r = fill(card, &values);
    assert(pairs(values@) =~= seq![
        ("card_id"@, card_id@),
        ("name"@, safe@),
        ("target_html"@, target_html@),
    ]);
    r
}

/// The card of a rule whose group is gone.
pub const ORPHAN_CARD: &'static str =
    "<div id=\"{card_id}\" style=\"background:#fff3cd;border-radius:6px;padding:1rem;box-shadow:0 1px 3px rgba(0,0,0,0.1);margin-bottom:1rem;\">
                    <strong style=\"color:#856404;\">Group not found: {group}</strong>
                    \u{2014} <span style=\"font-size:0.85rem;\">Target ${fixed}</span>
                    <button class=\"btn btn-danger\" style=\"font-size:0.8rem;padding:0.2rem 0.5rem;margin-left:0.5rem;\" hx-post=\"/admin/budgets/{id}/delete\" hx-target=\"#{card_id}\" hx-swap=\"outerHTML\" hx-confirm=\"Delete orphaned rule?\">Delete</button>
                </div>";

pub open spec fn orphan_card(rule: BudgetRule, group: Seq<char>) -> Seq<char> {
    let id = int_text(rule.id as int);
    filled(
        ORPHAN_CARD@,
        seq![
            ("card_id"@, "budget-card-group-orphan-"@ + id),
            ("group"@, escaped(group)),
            ("fixed"@, fixed_or_zero(rule.limit_usd)),
            ("id"@, id),
        ],
    )
}

fn orphan_card_html(rule: &BudgetRule, group: &str) -> (r: String)
    ensures
        r@ == orphan_card(*rule, group@),
{
    let id = i64_text(rule.id);
    let card_id = "budget-card-group-orphan-".to_owned().concat(id.as_str());
    let safe = he(group);
    let values = vec![
        ("card_id", card_id.as_str()),
        ("group", safe.as_str()),
        ("fixed", fixed_text(&rule.limit_usd)),
        ("id", id.as_str()),
    ];
    let r = fill(ORPHAN_CARD, &values);
    assert(pairs(values@) =~= seq![
        ("card_id"@, card_id@),
        ("group"@, safe@),
        ("fixed"@, fixed_or_zero(rule.limit_usd)),
        ("id"@, id@),
    ]);
    r
}

/// The card that is shown after a change to a scope. A caller that is gone goes
/// by its number.
pub open spec fn scope_card(scope: ScopeModel, rules: Seq<BudgetRule>, user_name: Option<Seq<char>>) -> Seq<
    char,
> {
    match scope {
        ScopeModel::Global => budget_card(
            "budget-card-global"@,
            GLOBAL_TITLE@,
            rules,
            GLOBAL_FIELDS@,
        ),
        ScopeModel::Project(p) => project_card(p, rules),
        ScopeModel::User(id) => user_card(
            id,
            match user_name {
                Some(name) => name,
                None => "User #"@ + int_text(id as int),
            },
            rules,
        ),
        ScopeModel::Group(g) => group_card(GroupLayout::Changed, g, rules),
    }
}

pub fn scope_card_html(scope: &BudgetScope, rules: &Vec<&BudgetRule>, user_name: &Option<String>) -> (r:
    String)
    ensures
        r@ == scope_card(scope@, lent(rules@), opt_text(*user_name)),
{
    match scope {
        BudgetScope::Global => global_card_html(rules),
        BudgetScope::Project(p) => project_card_html(p.as_str(), rules),
        BudgetScope::User(id) => match user_name {
            Some(name) => user_card_html(*id, name.as_str(), rules),
            None => {
                let name = "User #".to_owned().concat(i64_text(*id).as_str());
                user_card_html(*id, name.as_str(), rules)
            },
        },
        BudgetScope::Group(g) => group_card_html(GroupLayout::Changed, g.as_str(), rules),
    }
}

// ---------------------------------------------------------------------------
// The page
// ---------------------------------------------------------------------------

/// The rules of a scope, in order.
pub open spec fn rules_for(rules: Seq<BudgetRule>, scope: ScopeModel) -> Seq<BudgetRule>
    decreases rules.len(),
{
    if rules.len() == 0 {
        Seq::empty()
    } else {
        let rest = rules_for(rules.drop_last(), scope);
        if rules.last().is_for(scope) {
            rest.push(rules.last())
        } else {
            rest
        }
    }
}

pub fn select_rules<'a>(rules: &'a Vec<BudgetRule>, scope: &BudgetScope) -> (r: Vec<&'a BudgetRule>)
    ensures
        lent(r@) == rules_for(rules@, scope@),
{
    let mut out: Vec<&'a BudgetRule> = Vec::new();
    let mut i: usize = 0;
    while i < rules.len()
        invariant
            i <= rules@.len(),
            lent(out@) =~= rules_for(rules@.take(i as int), scope@),
        decreases rules@.len() - i,
    {
        assert(rules@.take(i + 1).drop_last() =~= rules@.take(i as int));
        if rules[i].falls_under(scope) {
            let ghost before = out@;
            out.push(&rules[i]);
            assert(lent(out@) =~= lent(before).push(rules@[i as int]));
        }
        i += 1;
    }
    assert(rules@.take(rules@.len() as int) =~= rules@);
    out
}

/// The projects that keys and rules name, in the order in which they are met.
pub open spec fn met_projects(keys: Seq<ApiKey>, rules: Seq<BudgetRule>) -> Seq<Seq<char>> {
    key_projects(keys) + rule_projects(rules)
}

pub open spec fn key_projects(keys: Seq<ApiKey>) -> Seq<Seq<char>>
    decreases keys.len(),
{
    if keys.len() == 0 {
        Seq::empty()
    } else {
        match keys.last().project {
            Some(p) => key_projects(keys.drop_last()).push(p@),
            None => key_projects(keys.drop_last()),
        }
    }
}

pub open spec fn rule_projects(rules: Seq<BudgetRule>) -> Seq<Seq<char>>
    decreases rules.len(),
{
    if rules.len() == 0 {
        Seq::empty()
    } else {
        match rules.last().project {
            Some(p) => rule_projects(rules.drop_last()).push(p@),
            None => rule_projects(rules.drop_last()),
        }
    }
}

fn sort_projects(keys: &Vec<ApiKey>, rules: &Vec<BudgetRule>) -> (r: OrderedMap<String, ()>)
    ensures
        r.wf(),
        r@ == sorted_labels(met_projects(keys@, rules@)),
{
    let mut out: OrderedMap<String, ()> = OrderedMap::new();
    let mut i: usize = 0;
    assert(keys@.take(0) =~= Seq::empty());
    while i < keys.len()
        invariant
            i <= keys@.len(),
            out.wf(),
            out@ == sorted_labels(key_projects(keys@.take(i as int))),
        decreases keys@.len() - i,
    {
        assert(keys@.take(i + 1).drop_last() =~= keys@.take(i as int));
        let ghost before = key_projects(keys@.take(i as int));
        if let Some(p) = &keys[i].project {
            out.insert(p.clone(), ());
            assert(before.push(p@).drop_last() =~= before);
        }
        i += 1;
    }
    assert(keys@.take(keys@.len() as int) =~= keys@);
    let ghost of_keys = key_projects(keys@);
    assert(of_keys + Seq::empty() =~= of_keys);
    assert(rules@.take(0) =~= Seq::empty());
    let mut j: usize = 0;
    while j < rules.len()
        invariant
            j <= rules@.len(),
            out.wf(),
            out@ == sorted_labels(of_keys + rule_projects(rules@.take(j as int))),
        decreases rules@.len() - j,
    {
        assert(rules@.take(j + 1).drop_last() =~= rules@.take(j as int));
        let ghost before = of_keys + rule_projects(rules@.take(j as int));
        if let Some(p) = &rules[j].project {
            out.insert(p.clone(), ());
            assert(before.push(p@).drop_last() =~= before);
            assert(of_keys + rule_projects(rules@.take(j as int)).push(p@) =~= before.push(p@));
        }
        j += 1;
    }
    assert(rules@.take(rules@.len() as int) =~= rules@);
    out
}

pub open spec fn project_cards_of(projects: Seq<(Seq<char>, ())>, rules: Seq<BudgetRule>) -> Seq<char>
    decreases projects.len(),
{
    if projects.len() == 0 {
        ""@
    } else {
        let p = projects.last().0;
        project_cards_of(projects.drop_last(), rules) + project_card(
            p,
            rules_for(rules, ScopeModel::Project(p)),
        )
    }
}

pub open spec fn user_cards_of(users: Seq<User>, rules: Seq<BudgetRule>) -> Seq<char>
    decreases users.len(),
{
    if users.len() == 0 {
        ""@
    } else {
        let u = users.last();
        user_cards_of(users.drop_last(), rules) + user_card(
            u.id,
            u.name@,
            rules_for(rules, ScopeModel::User(u.id)),
        )
    }
}

pub open spec fn group_cards_of(groups: Seq<Seq<char>>, rules: Seq<BudgetRule>) -> Seq<char>
    decreases groups.len(),
{
    if groups.len() == 0 {
        ""@
    } else {
        let g = groups.last();
        group_cards_of(groups.drop_last(), rules) + group_card(
            GroupLayout::Page,
            g,
            rules_for(rules, ScopeModel::Group(g)),
        )
    }
}

/// The cards of the rules whose group is not among `groups`.
pub open spec fn orphan_cards_of(groups: Seq<Seq<char>>, rules: Seq<BudgetRule>) -> Seq<char>
    decreases rules.len(),
{
    if rules.len() == 0 {
        ""@
    } else {
        let rest = orphan_cards_of(groups, rules.drop_last());
        match rules.last().group_name {
            Some(g) => if groups.contains(g@) {
                rest
            } else {
                rest + orphan_card(rules.last(), g@)
            },
            None => rest,
        }
    }
}

/// What the page of budgets shows.
pub struct BudgetsPage {
    pub global_card: String,
    pub project_cards: String,
    pub user_cards: String,
    pub group_cards: String,
}

fn all_project_cards(keys: &Vec<ApiKey>, rules: &Vec<BudgetRule>) -> (r: String)
    ensures
        r@ == project_cards_of(sorted_labels(met_projects(keys@, rules@)), rules@),
{
    let projects = sort_projects(keys, rules);
    let ghost all = projects@;
    let mut out: String = "".to_owned();
    let mut i: usize = 0;
    assert(all.take(0) =~= Seq::empty());
    while i < projects.len()
        invariant
            i <= all.len(),
            projects.wf(),
            all == projects@,
            out@ == project_cards_of(all.take(i as int), rules@),
        decreases all.len() - i,
    {
        let scope = BudgetScope::Project(projects.key(i).clone());
        let chosen = select_rules(rules, &scope);
        let card = project_card_html(projects.key(i).as_str(), &chosen);
        out.append(card.as_str());
        assert(all.take(i + 1).drop_last() =~= all.take(i as int));
        i += 1;
    }
    assert(all.take(all.len() as int) =~= all);
    out
}

fn all_user_cards(users: &Vec<User>, rules: &Vec<BudgetRule>) -> (r: String)
    ensures
        r@ == user_cards_of(users@, rules@),
{
    let mut out: String = "".to_owned();
    let mut i: usize = 0;
    assert(users@.take(0) =~= Seq::empty());
    while i < users.len()
        invariant
            i <= users@.len(),
            out@ == user_cards_of(users@.take(i as int), rules@),
        decreases users@.len() - i,
    {
        let chosen = select_rules(rules, &BudgetScope::User(users[i].id));
        let card = user_card_html(users[i].id, users[i].name.as_str(), &chosen);
        out.append(card.as_str());
        assert(users@.take(i + 1).drop_last() =~= users@.take(i as int));
        i += 1;
    }
    assert(users@.take(users@.len() as int) =~= users@);
    out
}

fn all_group_cards(groups: &Vec<String>, rules: &Vec<BudgetRule>) -> (r: String)
    ensures
        r@ == group_cards_of(texts(groups@), rules@) + orphan_cards_of(texts(groups@), rules@),
{
    let ghost all = texts(groups@);
    let mut out: String = "".to_owned();
    let mut i: usize = 0;
    assert(all.take(0) =~= Seq::empty());
    while i < groups.len()
        invariant
            i <= groups@.len(),
            all == texts(groups@),
            out@ == group_cards_of(all.take(i as int), rules@),
        decreases groups@.len() - i,
    {
        let scope = BudgetScope::Group(groups[i].clone());
        let chosen = select_rules(rules, &scope);
        let card = group_card_html(GroupLayout::Page, groups[i].as_str(), &chosen);
        out.append(card.as_str());
        assert(all.take(i + 1).drop_last() =~= all.take(i as int));
        i += 1;
    }
    assert(all.take(all.len() as int) =~= all);
    let ghost cards = out@;
    let mut j: usize = 0;
    assert(rules@.take(0) =~= Seq::empty());
    assert(cards + ""@ =~= cards) by {
        reveal_strlit("");
    }
    while j < rules.len()
        invariant
            j <= rules@.len(),
            all == texts(groups@),
            out@ == cards + orphan_cards_of(all, rules@.take(j as int)),
        decreases rules@.len() - j,
    {
        assert(rules@.take(j + 1).drop_last() =~= rules@.take(j as int));
        if let Some(g) = &rules[j].group_name {
            if !holds_text(groups, g.as_str()) {
                let ghost before = orphan_cards_of(all, rules@.take(j as int));
                let card = orphan_card_html(&rules[j], g.as_str());
                out.append(card.as_str());
                assert(cards + before + card@ =~= cards + (before + card@));
            }
        }
        j += 1;
    }
    assert(rules@.take(rules@.len() as int) =~= rules@);
    out
}

/// Puts the page of budgets together.
pub fn budgets_page(
    rules: &Vec<BudgetRule>,
    keys: &Vec<ApiKey>,
    users: &Vec<User>,
    groups: &Vec<String>,
) -> (r: BudgetsPage)
    ensures
        r.global_card@ == budget_card(
            "budget-card-global"@,
            GLOBAL_TITLE@,
            rules_for(rules@, ScopeModel::Global),
            GLOBAL_FIELDS@,
        ),
        r.project_cards@ == project_cards_of(sorted_labels(met_projects(keys@, rules@)), rules@),
        r.user_cards@ == user_cards_of(users@, rules@),
        r.group_cards@ == group_cards_of(texts(groups@), rules@) + orphan_cards_of(
            texts(groups@),
            rules@,
        ),
{
    let global = select_rules(rules, &BudgetScope::Global);
    BudgetsPage {
        global_card: global_card_html(&global),
        project_cards: all_project_cards(keys, rules),
        user_cards: all_user_cards(users, rules),
        group_cards: all_group_cards(groups, rules),
    }
}

// ---------------------------------------------------------------------------
// Creating a rule
// ---------------------------------------------------------------------------

#[derive(Debug, Clone, PartialEq, Eq)]
pub struct CreateBudgetForm {
    pub scope: String,
    pub project: Option<String>,
    pub user_id: Option<i64>,
    pub group_name: Option<String>,
    pub window: String,
    pub limit_usd: Option<Usd>,
    pub limit_tokens: Option<i64>,
    pub rate_rpm: Option<i64>,
    pub max_concurrent: Option<i64>,
    pub window_start: Option<String>,
    pub window_end: Option<String>,
}

/// A rule to be stored.
#[derive(Debug, Clone, PartialEq, Eq)]
pub struct NewBudgetRule {
    pub user_id: Option<i64>,
    pub group_name: Option<String>,
    pub api_key_id: Option<i64>,
    pub tag: Option<String>,
    pub project: Option<String>,
    pub window: String,
    pub limit_usd: Option<Usd>,
    pub limit_tokens: Option<i64>,
    pub model_allow: Vec<String>,
    pub model_deny: Vec<String>,
    pub rate_rpm: Option<i64>,
    pub max_concurrent: Option<i64>,
    pub window_start: Option<String>,
    pub window_end: Option<String>,
}

pub const BAD_RANGE: &'static str =
    "<div class=\"alert alert-danger\">Total window requires start &lt; end dates.</div>";

pub const NOT_A_GROUP: &'static str =
    "<div class=\"alert alert-danger\">Target window is only for group rules.</div>";

pub const BAD_SCOPE: &'static str = "<div class=\"alert alert-danger\">Invalid scope.</div>";

pub open spec fn or_nothing(s: Option<Seq<char>>) -> Seq<char> {
    match s {
        Some(t) => t,
        None => Seq::empty(),
    }
}

fn text_or_nothing(s: &Option<String>) -> (r: String)
    ensures
        r@ == or_nothing(opt_text(*s)),
{
    match s {
        Some(t) => t.clone(),
        None => String::new(),
    }
}

impl CreateBudgetForm {
    /// Whether a range of dates that is needed is there and runs forward.
    pub open spec fn range_is_sound(self) -> bool {
        self.window@ != "total"@ || match (self.window_start, self.window_end) {
            (Some(s), Some(e)) => precedes(s@, e@),
            _ => false,
        }
    }

    /// The scope that the form names, or what is shown where it cannot be
    /// accepted.
    pub open spec fn scope_asked(self) -> Result<ScopeModel, Seq<char>> {
        if !self.range_is_sound() {
            Err(BAD_RANGE@)
        } else if self.window@ == "target"@ && self.scope@ != "group"@ {
            Err(NOT_A_GROUP@)
        } else if self.scope@ == "global"@ {
            Ok(ScopeModel::Global)
        } else if self.scope@ == "project"@ {
            Ok(ScopeModel::Project(or_nothing(opt_text(self.project))))
        } else if self.scope@ == "user"@ {
            Ok(
                ScopeModel::User(
                    match self.user_id {
                        Some(id) => id,
                        None => 0,
                    },
                ),
            )
        } else if self.scope@ == "group"@ {
            Ok(ScopeModel::Group(or_nothing(opt_text(self.group_name))))
        } else {
            Err(BAD_SCOPE@)
        }
    }

    pub fn check(&self) -> (r: Result<BudgetScope, String>)
        ensures
            match self.scope_asked() {
                Ok(scope) => r matches Ok(s) && s@ == scope,
                Err(html) => r matches Err(h) && h@ == html,
            },
    {
        if same(self.window.as_str(), "total") {
            let sound = match (&self.window_start, &self.window_end) {
                (Some(s), Some(e)) => is_before(s.as_str(), e.as_str()),
                _ => false,
            };
            if !sound {
                return Err(BAD_RANGE.to_owned());
            }
        }
        let scope = self.scope.as_str();
        if same(self.window.as_str(), "target") && !same(scope, "group") {
            return Err(NOT_A_GROUP.to_owned());
        }
        if same(scope, "global") {
            Ok(BudgetScope::Global)
        } else if same(scope, "project") {
            Ok(BudgetScope::Project(text_or_nothing(&self.project)))
        } else if same(scope, "user") {
            let id: i64 = match self.user_id {
                Some(id) => id,
                None => 0,
            };
            Ok(BudgetScope::User(id))
        } else if same(scope, "group") {
            Ok(BudgetScope::Group(text_or_nothing(&self.group_name)))
        } else {
            Err(BAD_SCOPE.to_owned())
        }
    }
}

/// Whether a scope already has a rule for the window.
pub open spec fn window_taken(existing: Seq<BudgetRule>, window: Seq<char>) -> bool {
    exists|i: int| 0 <= i < existing.len() && (#[trigger] existing[i]).window@ == window
}

pub fn has_window(existing: &Vec<BudgetRule>, window: &str) -> (r: bool)
    ensures
        r == window_taken(existing@, window@),
{
    let mut i: usize = 0;
    while i < existing.len()
        invariant
            i <= existing@.len(),
            forall|j: int| 0 <= j < i ==> (#[trigger] existing@[j]).window@ != window@,
        decreases existing@.len() - i,
    {
        if same(existing[i].window.as_str(), window) {
            return true;
        }
        i += 1;
    }
    false
}

/// What is shown where a scope already has a rule for the window.
pub fn duplicate_html(window: &str, card: &str) -> (r: String)
    ensures
        r@ == "<div class=\"alert alert-danger\" style=\"margin-bottom:0.75rem;\">A "@ + escaped(window@)
            + " rule already exists for this scope.</div>"@ + card@,
{
    "<div class=\"alert alert-danger\" style=\"margin-bottom:0.75rem;\">A ".to_owned().concat(
        he(window).as_str(),
    ).concat(" rule already exists for this scope.</div>").concat(card)
}

/// Midnight of a day.
pub open spec fn midnight(d: Option<Seq<char>>) -> Option<Seq<char>> {
    match d {
        Some(d) => Some(d + "T00:00:00+00:00"@),
        None => None,
    }
}

fn at_midnight(d: &Option<String>) -> (r: Option<String>)
    ensures
        opt_text(r) == midnight(opt_text(*d)),
{
    match d {
        Some(d) => Some(d.clone().concat("T00:00:00+00:00")),
        None => None,
    }
}

impl NewBudgetRule {
    /// Whether the rule is for a scope and for no other.
    pub open spec fn is_for(self, scope: ScopeModel) -> bool {
        &&& self.api_key_id is None
        &&& self.user_id == match scope {
            ScopeModel::User(id) => Some(id),
            _ => None,
        }
        &&& opt_text(self.group_name) == match scope {
            ScopeModel::Group(g) => Some(g),
            _ => None,
        }
        &&& opt_text(self.project) == match scope {
            ScopeModel::Project(p) => Some(p),
            _ => None,
        }
    }
}

/// The rule that a form asks for. It restricts no models.
pub fn new_rule(form: &CreateBudgetForm, scope: &BudgetScope) -> (r: NewBudgetRule)
    ensures
        r.is_for(scope@),
        r.tag is None,
        r.window@ == form.window@,
        r.limit_usd == form.limit_usd,
        r.limit_tokens == form.limit_tokens,
        r.model_allow@.len() == 0 && r.model_deny@.len() == 0,
        r.rate_rpm == form.rate_rpm,
        r.max_concurrent == form.max_concurrent,
        opt_text(r.window_start) == midnight(opt_text(form.window_start)),
        opt_text(r.window_end) == midnight(opt_text(form.window_end)),
{
    let (user_id, group_name, project) = match scope {
        BudgetScope::Global => (None, None, None),
        BudgetScope::Project(p) => (None, None, Some(p.clone())),
        BudgetScope::User(id) => (Some(*id), None, None),
        BudgetScope::Group(g) => (None, Some(g.clone()), None),
    };
    NewBudgetRule {
        user_id,
        group_name,
        api_key_id: None,
        tag: None,
        project,
        window: form.window.clone(),
        limit_usd: form.limit_usd,
        limit_tokens: form.limit_tokens,
        model_allow: Vec::new(),
        model_deny: Vec::new(),
        rate_rpm: form.rate_rpm,
        max_concurrent: form.max_concurrent,
        window_start: at_midnight(&form.window_start),
        window_end: at_midnight(&form.window_end),
    }
}

// ---------------------------------------------------------------------------
// Changing a rule
// ---------------------------------------------------------------------------

#[derive(Debug, Clone, PartialEq, Eq)]
pub struct EditBudgetForm {
    pub limit_usd: Option<Usd>,
    pub limit_tokens: Option<i64>,
    pub rate_rpm: Option<i64>,
    pub max_concurrent: Option<i64>,
    pub window_start: Option<String>,
    pub window_end: Option<String>,
}

/// What is changed of a rule.
#[derive(Debug, Clone, PartialEq, Eq)]
pub struct UpdateBudgetRule {
    pub limit_usd: Option<Usd>,
    pub limit_tokens: Option<i64>,
    pub model_allow: Option<Vec<String>>,
    pub model_deny: Option<Vec<String>>,
    pub rate_rpm: Option<i64>,
    pub max_concurrent: Option<i64>,
    pub window_start: Option<String>,
    pub window_end: Option<String>,
}

impl EditBudgetForm {
    /// The change that the form asks for. The lists of models stay.
    pub fn update(self) -> (r: UpdateBudgetRule)
        ensures
            r == (UpdateBudgetRule {
                limit_usd: self.limit_usd,
                limit_tokens: self.limit_tokens,
                model_allow: None,
                model_deny: None,
                rate_rpm: self.rate_rpm,
                max_concurrent: self.max_concurrent,
                window_start: self.window_start,
                window_end: self.window_end,
            }),
    {
        UpdateBudgetRule {
            limit_usd: self.limit_usd,
            limit_tokens: self.limit_tokens,
            model_allow: None,
            model_deny: None,
            rate_rpm: self.rate_rpm,
            max_concurrent: self.max_concurrent,
            window_start: self.window_start,
            window_end: self.window_end,
        }
    }
}

/// The scope on whose card a rule stands.
pub open spec fn scope_of(
    user_id: Option<i64>,
    group_name: Option<Seq<char>>,
    project: Option<Seq<char>>,
) -> ScopeModel {
    match (user_id, group_name, project) {
        (Some(id), _, _) => ScopeModel::User(id),
        (None, Some(g), _) => ScopeModel::Group(g),
        (None, None, Some(p)) => ScopeModel::Project(p),
        (None, None, None) => ScopeModel::Global,
    }
}

/// The first rule of that id.
pub open spec fn rule_with_id(rules: Seq<BudgetRule>, id: i64) -> Option<BudgetRule>
    decreases rules.len(),
{
    if rules.len() == 0 {
        None
    } else if rules[0].id == id {
        Some(rules[0])
    } else {
        rule_with_id(rules.drop_first(), id)
    }
}

fn scope_of_rule(rule: &BudgetRule) -> (r: BudgetScope)
    ensures
        r@ == scope_of(rule.user_id, opt_text(rule.group_name), opt_text(rule.project)),
{
    match rule.user_id {
        Some(id) => BudgetScope::User(id),
        None => match &rule.group_name {
            Some(g) => BudgetScope::Group(g.clone()),
            None => match &rule.project {
                Some(p) => BudgetScope::Project(p.clone()),
                None => BudgetScope::Global,
            },
        },
    }
}

/// The scope whose card is shown again after a change to a rule.
pub fn scope_for_rule_id(rules: &Vec<BudgetRule>, id: i64) -> (r: Result<BudgetScope, DashboardError>)
    ensures
        match rule_with_id(rules@, id) {
            Some(rule) => r matches Ok(s) && s@ == scope_of(
                rule.user_id,
                opt_text(rule.group_name),
                opt_text(rule.project),
            ),
            None => r matches Err(DashboardError::NotFound(m)) && m@ == "budget rule not found"@,
        },
{
    let mut i: usize = 0;
    assert(rules@.skip(0) =~= rules@);
    while i < rules.len()
        invariant
            i <= rules@.len(),
            rule_with_id(rules@.skip(i as int), id) == rule_with_id(rules@, id),
        decreases rules@.len() - i,
    {
        if rules[i].id == id {
            return Ok(scope_of_rule(&rules[i]));
        }
        assert(rules@.skip(i as int).drop_first() =~= rules@.skip(i + 1));
        i += 1;
    }
    Err(DashboardError::NotFound("budget rule not found".to_owned()))
}

// ---------------------------------------------------------------------------
// The API
// ---------------------------------------------------------------------------

#[derive(Debug, Clone, PartialEq, Eq)]
pub struct CreateBudgetRequest {
    pub user_id: Option<i64>,
    pub group_name: Option<String>,
    pub api_key_id: Option<i64>,
    pub window: String,
    pub limit_usd: Option<Usd>,
    pub limit_tokens: Option<i64>,
    pub rate_rpm: Option<i64>,
    pub model_allow: Vec<String>,
    pub model_deny: Vec<String>,
}

pub const BAD_WINDOW: &'static str = "window must be 'daily', 'weekly', or 'monthly'";

impl CreateBudgetRequest {
    pub open spec fn window_is_known(self) -> bool {
        self.window@ == "daily"@ || self.window@ == "weekly"@ || self.window@ == "monthly"@
    }

    /// The rule that is asked for.
    pub fn new_rule(self) -> (r: Result<NewBudgetRule, ApiError>)
        ensures
            !self.window_is_known() ==> (r matches Err(ApiError::InvalidRequest(m)) && m@
                == BAD_WINDOW@),
            self.window_is_known() ==> r == Ok::<NewBudgetRule, ApiError>(
                (NewBudgetRule {
                    user_id: self.user_id,
                    group_name: self.group_name,
                    api_key_id: self.api_key_id,
                    tag: None,
                    project: None,
                    window: self.window,
                    limit_usd: self.limit_usd,
                    limit_tokens: self.limit_tokens,
                    model_allow: self.model_allow,
                    model_deny: self.model_deny,
                    rate_rpm: self.rate_rpm,
                    max_concurrent: None,
                    window_start: None,
                    window_end: None,
                }),
            ),
    {
        let window = self.window.as_str();
        if !same(window, "daily") && !same(window, "weekly") && !same(window, "monthly") {
            return Err(ApiError::InvalidRequest(BAD_WINDOW.to_owned()));
        }
        Ok(
            NewBudgetRule {
                user_id: self.user_id,
                group_name: self.group_name,
                api_key_id: self.api_key_id,
                tag: None,
                project: None,
                window: self.window,
                limit_usd: self.limit_usd,
                limit_tokens: self.limit_tokens,
                model_allow: self.model_allow,
                model_deny: self.model_deny,
                rate_rpm: self.rate_rpm,
                max_concurrent: None,
                window_start: None,
                window_end: None,
            },
        )
    }
}

// ---------------------------------------------------------------------------
// Laws
// ---------------------------------------------------------------------------

/// A rule that a form created is found again under the scope that the form
/// named.
pub proof fn new_rules_stay_in_their_scope(rule: NewBudgetRule, scope: ScopeModel)
    requires
        rule.is_for(scope),
    ensures
        scope_of(rule.user_id, opt_text(rule.group_name), opt_text(rule.project)) == scope,
{
}

/// A target is only ever set for a group, and a range of dates always runs
/// forward.
pub proof fn accepted_rules_are_sound(form: CreateBudgetForm, scope: ScopeModel)
    requires
        form.scope_asked() == Ok::<ScopeModel, Seq<char>>(scope),
    ensures
        form.window@ == "target"@ ==> scope is Group,
        form.window@ == "total"@ ==> (form.window_start matches Some(s)
            && form.window_end matches Some(e) && precedes(s@, e@)),
{
    reveal_strlit("group");
    reveal_strlit("global");
    reveal_strlit("project");
    reveal_strlit("user");
    assert("group"@.len() != "global"@.len() && "group"@.len() != "project"@.len() && "group"@.len()
        != "user"@.len());
}

/// Every rule is for the scope that its caller, group and project give: everybody
/// where it names none. Only a rule for a single key has no scope.
pub proof fn every_rule_has_a_scope(rule: BudgetRule)
    ensures
        rule.is_for(scope_of(rule.user_id, opt_text(rule.group_name), opt_text(rule.project))) || (
        rule.api_key_id is Some && rule.user_id is None && rule.group_name is None
            && rule.project is None),
{
}

/// A rule is for everyone where it names nobody, and otherwise for the user, the group or the
/// project that it names.
pub proof fn rules_are_for_whom_they_name(rule: BudgetRule, p: Seq<char>, id: i64, g: Seq<char>)
    ensures
        rule.is_for(ScopeModel::Global) <==> rule.user_id is None && rule.group_name is None
            && rule.project is None && rule.api_key_id is None,
        rule.is_for(ScopeModel::Project(p)) <==> (rule.project matches Some(t) && t@ == p),
        rule.is_for(ScopeModel::User(id)) <==> rule.user_id == Some(id),
        rule.is_for(ScopeModel::Group(g)) <==> (rule.group_name matches Some(t) && t@ == g),
        scope_of(Some(id), Some(g), Some(p)) == ScopeModel::User(id),
        scope_of(None, Some(g), Some(p)) == ScopeModel::Group(g),
        scope_of(None, None, Some(p)) == ScopeModel::Project(p),
        scope_of(None, None, None) == ScopeModel::Global,
{
}

proof fn lemma_rules_are_picked(rules: Seq<BudgetRule>, scope: ScopeModel)
    ensures
        rules_for(rules, scope) == picked(
            rules,
            |r: BudgetRule| r.is_for(scope),
            |r: BudgetRule| r,
        ),
    decreases rules.len(),
{
    if rules.len() > 0 {
        lemma_rules_are_picked(rules.drop_last(), scope);
    }
}

/// The rules of a scope are all those for it, in their order.
pub proof fn rules_of_a_scope_are_listed_in_order(rules: Seq<BudgetRule>, scope: ScopeModel)
    ensures
        selects(
            rules_for(rules, scope),
            rules,
            |r: BudgetRule| r.is_for(scope),
            |r: BudgetRule| r,
        ),
{
    let keep = |r: BudgetRule| r.is_for(scope);
    let same = |r: BudgetRule| r;
    lemma_rules_are_picked(rules, scope);
    lemma_picked_selects(rules, keep, same, keep, same);
}

/// A rule is found by its number, the first of them.
pub proof fn rules_are_found_by_number(s: Seq<BudgetRule>, id: i64, i: int)
    ensures
        0 <= i < s.len() && s[i].id == id && (forall|j: int| 0 <= j < i ==> !((#[trigger] s[j]).id == id)) ==> rule_with_id(s, id) == Some(s[i]),
        (forall|j: int| 0 <= j < s.len() ==> !((#[trigger] s[j]).id == id)) ==> rule_with_id(s, id) is None,
    decreases s.len(),
{
    if s.len() > 0 {
        let rest = s.drop_first();
        rules_are_found_by_number(rest, id, i - 1);
        assert(forall|j: int| 0 <= j < rest.len() ==> #[trigger] rest[j] == s[j + 1]);
        if 0 <= i < s.len() && s[i].id == id && (forall|j: int| 0 <= j < i ==> !((#[trigger] s[j]).id == id)) && i > 0 {
            assert(!(s[0].id == id));
            assert forall|j: int| 0 <= j < i - 1 implies !((#[trigger] rest[j]).id == id) by {
                assert(rest[j] == s[j + 1]);
            }
        }
    }
}

/// A window is told in words, a fixed one with its start and its end, in that order.
pub proof fn windows_are_told_in_words(rule: BudgetRule, s: Seq<char>, e: Seq<char>)
    ensures
        rule.window@ == "monthly"@ ==> window_words(rule) == "Monthly"@,
        rule.window@ == "target"@ ==> window_words(rule) == "Target"@,
        rule.window@ == "total"@ && opt_text(rule.window_start) == Some(s) && opt_text(rule.window_end)
            == Some(e) ==> window_words(rule) == "Total ("@ + s + " \u{2013} "@ + e + ")"@,
        rule.window@ != "monthly"@ && rule.window@ != "target"@ && rule.window@ != "total"@
            ==> window_words(rule) == escaped(rule.window@),
        midnight(Some(s)) == Some(s + "T00:00:00+00:00"@),
        midnight(None) is None,
{
    reveal_strlit("monthly");
    reveal_strlit("target");
    reveal_strlit("total");
    assert("monthly"@.len() == 7);
    assert("target"@.len() == 6);
    assert("total"@.len() == 5);
}

/// A list of models is read in its order where it holds only texts, and is empty otherwise.
pub proof fn lists_of_models_are_read_in_order(items: Seq<JsonModel>, i: int)
    ensures
        match all_texts(items) {
            Some(v) => v.len() == items.len() && (0 <= i < items.len() ==> items[i] == JsonModel::Str(
                v[i],
            )),
            None => exists|j: int| 0 <= j < items.len() && !((#[trigger] items[j]) is Str),
        },
    decreases items.len(),
{
    if items.len() > 0 {
        let front = items.drop_last();
        lists_of_models_are_read_in_order(front, i);
        assert(items[items.len() - 1] == items.last());
        if all_texts(front) is None {
            let j = choose|j: int| 0 <= j < front.len() && !((#[trigger] front[j]) is Str);
            assert(items[j] == front[j]);
        } else if i < front.len() && 0 <= i {
            assert(items[i] == front[i]);
        }
    }
}

/// The row of a rule shows its window, its limits, and the models it allows and denies, each
/// in its place.
pub proof fn rule_rows_show_their_rule(rule: BudgetRule, target: Seq<char>)
    ensures
        exists|values: Seq<(Seq<char>, Seq<char>)>|
            rule_row(rule, target) == #[trigger] filled(RULE_ROW@, values)
                && value_named(values, "window"@) == window_words(rule)
                && value_named(values, "limit_usd"@) == limit_words(rule.limit_usd)
                && value_named(values, "limit_tokens"@) == count_or(rule.limit_tokens, DASH@)
                && value_named(values, "rate_rpm"@) == count_or(rule.rate_rpm, DASH@)
                && value_named(values, "allow"@) == escaped(models_shown(rule.model_allow@))
                && value_named(values, "deny"@) == escaped(models_shown(rule.model_deny@))
                && value_named(values, "edit"@) == edit_form_of(rule, target)
                && value_named(values, "delete"@) == delete_button_of(rule.id, target),
{
    reveal_strlit("window");
    reveal_strlit("limit_usd");
    reveal_strlit("limit_tokens");
    reveal_strlit("rate_rpm");
    reveal_strlit("allow");
    reveal_strlit("deny");
    reveal_strlit("edit");
    reveal_strlit("delete");
    assert("window"@.len() == 6 && "window"@[0] == 'w');
    assert("limit_usd"@.len() == 9);
    assert("limit_tokens"@.len() == 12);
    assert("rate_rpm"@.len() == 8);
    assert("allow"@.len() == 5);
    assert("deny"@.len() == 4 && "deny"@[0] == 'd');
    assert("edit"@.len() == 4 && "edit"@[0] == 'e');
    assert("delete"@.len() == 6 && "delete"@[0] == 'd');
    let values = seq![
        ("window"@, window_words(rule)),
        ("limit_usd"@, limit_words(rule.limit_usd)),
        ("limit_tokens"@, count_or(rule.limit_tokens, DASH@)),
        ("rate_rpm"@, count_or(rule.rate_rpm, DASH@)),
        ("allow"@, escaped(models_shown(rule.model_allow@))),
        ("deny"@, escaped(models_shown(rule.model_deny@))),
        ("edit"@, edit_form_of(rule, target)),
        ("delete"@, delete_button_of(rule.id, target)),
    ];
    lemma_first_named(values, "window"@, 0);
    lemma_first_named(values, "limit_usd"@, 1);
    lemma_first_named(values, "limit_tokens"@, 2);
    lemma_first_named(values, "rate_rpm"@, 3);
    lemma_first_named(values, "allow"@, 4);
    lemma_first_named(values, "deny"@, 5);
    lemma_first_named(values, "edit"@, 6);
    lemma_first_named(values, "delete"@, 7);
    assert(rule_row(rule, target) == filled(RULE_ROW@, values));
}

/// The form that edits a rule starts from the rule: each limit in its own field.
pub proof fn forms_start_from_the_rule(rule: BudgetRule, target: Seq<char>)
    requires
        rule.window@ != "target"@,
    ensures
        exists|values: Seq<(Seq<char>, Seq<char>)>|
            edit_form_of(rule, target) == #[trigger] filled(LIMITS_FORM@, values)
                && value_named(values, "id"@) == int_text(rule.id as int)
                && value_named(values, "target"@) == target
                && value_named(values, "lusd"@) == plain_or(rule.limit_usd, ""@)
                && value_named(values, "ltok"@) == count_or(rule.limit_tokens, ""@)
                && value_named(values, "rpm"@) == count_or(rule.rate_rpm, ""@)
                && value_named(values, "date_inputs"@) == (if rule.window@ == "total"@ {
                    filled(
                        DATE_INPUTS@,
                        seq![
                            ("ws"@, day_of(opt_text(rule.window_start))),
                            ("we"@, day_of(opt_text(rule.window_end))),
                        ],
                    )
                } else {
                    ""@
                }),
{
    reveal_strlit("id");
    reveal_strlit("target");
    reveal_strlit("lusd");
    reveal_strlit("ltok");
    reveal_strlit("rpm");
    reveal_strlit("date_inputs");
    assert("id"@.len() == 2);
    assert("target"@.len() == 6);
    assert("lusd"@.len() == 4 && "lusd"@[1] == 'u');
    assert("ltok"@.len() == 4 && "ltok"@[1] == 't');
    assert("rpm"@.len() == 3);
    assert("date_inputs"@.len() == 11);
    let values = seq![
        ("id"@, int_text(rule.id as int)),
        ("target"@, target),
        ("lusd"@, plain_or(rule.limit_usd, ""@)),
        ("ltok"@, count_or(rule.limit_tokens, ""@)),
        ("rpm"@, count_or(rule.rate_rpm, ""@)),
        ("date_inputs"@, if rule.window@ == "total"@ {
                filled(
                    DATE_INPUTS@,
                    seq![
                        ("ws"@, day_of(opt_text(rule.window_start))),
                        ("we"@, day_of(opt_text(rule.window_end))),
                    ],
                )
            } else {
                ""@
            }),
    ];
    lemma_first_named(values, "id"@, 0);
    lemma_first_named(values, "target"@, 1);
    lemma_first_named(values, "lusd"@, 2);
    lemma_first_named(values, "ltok"@, 3);
    lemma_first_named(values, "rpm"@, 4);
    lemma_first_named(values, "date_inputs"@, 5);
    assert(edit_form_of(rule, target) == filled(LIMITS_FORM@, values));
}

/// Rules are shown one row after the other, in their order.
pub proof fn rules_are_shown_in_order(s: Seq<BudgetRule>, t: Seq<BudgetRule>, x: BudgetRule, target: Seq<char>)
    ensures
        rule_rows(seq![x], target) == rule_row(x, target),
        rule_rows(s + t, target) == rule_rows(s, target) + rule_rows(t, target),
    decreases t.len(),
{
    reveal_strlit("");
    assert(""@.len() == 0);
    let one = seq![x];
    assert(one.drop_last() =~= Seq::<BudgetRule>::empty());
    lemma_nothing_added(rule_rows(one.drop_last(), target), rule_row(x, target));
    if t.len() == 0 {
        assert(s + t =~= s);
        lemma_nothing_added(rule_rows(t, target), rule_rows(s, target));
    } else {
        let front = t.drop_last();
        rules_are_shown_in_order(s, front, x, target);
        assert((s + t).drop_last() =~= s + front);
        assert((s + t).last() == t.last());
        lemma_added_in_turn(rule_rows(s, target), rule_rows(front, target), rule_row(t.last(), target));
    }
}

/// Users are shown one card after the other, in their order, each with their own rules.
pub proof fn users_are_shown_in_order(s: Seq<User>, t: Seq<User>, x: User, rules: Seq<BudgetRule>)
    ensures
        user_cards_of(seq![x], rules) == user_card(x.id, x.name@, rules_for(rules, ScopeModel::User(x.id))),
        user_cards_of(s + t, rules) == user_cards_of(s, rules) + user_cards_of(t, rules),
    decreases t.len(),
{
    reveal_strlit("");
    assert(""@.len() == 0);
    let one = seq![x];
    assert(one.drop_last() =~= Seq::<User>::empty());
    lemma_nothing_added(user_cards_of(one.drop_last(), rules), user_card(x.id, x.name@, rules_for(rules, ScopeModel::User(x.id))));
    if t.len() == 0 {
        assert(s + t =~= s);
        lemma_nothing_added(user_cards_of(t, rules), user_cards_of(s, rules));
    } else {
        let front = t.drop_last();
        users_are_shown_in_order(s, front, x, rules);
        assert((s + t).drop_last() =~= s + front);
        assert((s + t).last() == t.last());
        lemma_added_in_turn(user_cards_of(s, rules), user_cards_of(front, rules), user_card(t.last().id, t.last().name@, rules_for(rules, ScopeModel::User(t.last().id))));
    }
}

/// Groups are shown one card after the other, in their order, each with its own rules.
pub proof fn groups_are_shown_in_order(s: Seq<Seq<char>>, t: Seq<Seq<char>>, x: Seq<char>, rules: Seq<BudgetRule>)
    ensures
        group_cards_of(seq![x], rules) == group_card(GroupLayout::Page, x, rules_for(rules, ScopeModel::Group(x))),
        group_cards_of(s + t, rules) == group_cards_of(s, rules) + group_cards_of(t, rules),
    decreases t.len(),
{
    reveal_strlit("");
    assert(""@.len() == 0);
    let one = seq![x];
    assert(one.drop_last() =~= Seq::<Seq<char>>::empty());
    lemma_nothing_added(group_cards_of(one.drop_last(), rules), group_card(GroupLayout::Page, x, rules_for(rules, ScopeModel::Group(x))));
    if t.len() == 0 {
        assert(s + t =~= s);
        lemma_nothing_added(group_cards_of(t, rules), group_cards_of(s, rules));
    } else {
        let front = t.drop_last();
        groups_are_shown_in_order(s, front, x, rules);
        assert((s + t).drop_last() =~= s + front);
        assert((s + t).last() == t.last());
        lemma_added_in_turn(group_cards_of(s, rules), group_cards_of(front, rules), group_card(GroupLayout::Page, t.last(), rules_for(rules, ScopeModel::Group(t.last()))));
    }
}

/// Projects are shown one card after the other, in their order, each with its own rules.
pub proof fn projects_are_shown_in_order(s: Seq<(Seq<char>, ())>, t: Seq<(Seq<char>, ())>, x: (Seq<char>, ()), rules: Seq<BudgetRule>)
    ensures
        project_cards_of(seq![x], rules) == project_card(x.0, rules_for(rules, ScopeModel::Project(x.0))),
        project_cards_of(s + t, rules) == project_cards_of(s, rules) + project_cards_of(t, rules),
    decreases t.len(),
{
    reveal_strlit("");
    assert(""@.len() == 0);
    let one = seq![x];
    assert(one.drop_last() =~= Seq::<(Seq<char>, ())>::empty());
    lemma_nothing_added(project_cards_of(one.drop_last(), rules), project_card(x.0, rules_for(rules, ScopeModel::Project(x.0))));
    if t.len() == 0 {
        assert(s + t =~= s);
        lemma_nothing_added(project_cards_of(t, rules), project_cards_of(s, rules));
    } else {
        let front = t.drop_last();
        projects_are_shown_in_order(s, front, x, rules);
        assert((s + t).drop_last() =~= s + front);
        assert((s + t).last() == t.last());
        lemma_added_in_turn(project_cards_of(s, rules), project_cards_of(front, rules), project_card(t.last().0, rules_for(rules, ScopeModel::Project(t.last().0))));
    }
}

/// A card of a scope is its own: under its own name, with its own rules.
pub proof fn cards_belong_to_their_scope(p: Seq<char>, id: i64, g: Seq<char>, rules: Seq<BudgetRule>, name: Seq<char>)
    ensures
        scope_card(ScopeModel::Project(p), rules, None) == budget_card(
            "budget-card-project-"@ + slug_of(p),
            p,
            rules,
            project_fields(p),
        ),
        scope_card(ScopeModel::User(id), rules, Some(name)) == budget_card(
            "budget-card-user-"@ + int_text(id as int),
            name,
            rules,
            user_fields(id),
        ),
        scope_card(ScopeModel::User(id), rules, None) == budget_card(
            "budget-card-user-"@ + int_text(id as int),
            "User #"@ + int_text(id as int),
            rules,
            user_fields(id),
        ),
        scope_card(ScopeModel::Group(g), rules, None) == group_card(GroupLayout::Changed, g, rules),
        contains_text(project_fields(p), "name=\"project\" value=\""@ + escaped(p) + "\">"@),
        contains_text(user_fields(id), "name=\"user_id\" value=\""@ + int_text(id as int) + "\">"@),
{
    reveal_strlit("<input type=\"hidden\" name=\"scope\" value=\"project\"><input type=\"hidden\" name=\"project\" value=\"");
    reveal_strlit("<input type=\"hidden\" name=\"scope\" value=\"user\"><input type=\"hidden\" name=\"user_id\" value=\"");
    reveal_strlit("name=\"project\" value=\"");
    reveal_strlit("name=\"user_id\" value=\"");
    let a = "<input type=\"hidden\" name=\"scope\" value=\"project\"><input type=\"hidden\" name=\"project\" value=\""@;
    let b = "<input type=\"hidden\" name=\"scope\" value=\"user\"><input type=\"hidden\" name=\"user_id\" value=\""@;
    let x = "name=\"project\" value=\""@;
    let y = "name=\"user_id\" value=\""@;
    let i = a.len() - x.len();
    let j = b.len() - y.len();
    let u = x + escaped(p) + "\">"@;
    let v = y + int_text(id as int) + "\">"@;
    assert(project_fields(p).subrange(i, i + u.len()) =~= u);
    assert(user_fields(id).subrange(j, j + v.len()) =~= v);
}

/// A card shows its title, the rows of its rules and the form that adds one to it.
pub proof fn cards_show_their_rules(card_id: Seq<char>, title: Seq<char>, rules: Seq<BudgetRule>, scope_fields: Seq<char>)
    ensures
        exists|values: Seq<(Seq<char>, Seq<char>)>|
            budget_card(card_id, title, rules, scope_fields) == #[trigger] filled(CARD@, values)
                && value_named(values, "card_id"@) == card_id
                && value_named(values, "title"@) == escaped(title)
                && value_named(values, "rows"@) == (if rules.len() == 0 {
                    NO_RULES@
                } else {
                    rule_rows(rules, "#"@ + card_id)
                })
                && value_named(values, "add_form"@) == add_rule_form("#"@ + card_id, scope_fields),
{
    reveal_strlit("card_id");
    reveal_strlit("title");
    reveal_strlit("rows");
    reveal_strlit("add_form");
    assert("card_id"@.len() == 7);
    assert("title"@.len() == 5);
    assert("rows"@.len() == 4);
    assert("add_form"@.len() == 8);
    let values = seq![
        ("card_id"@, card_id),
        ("title"@, escaped(title)),
        ("rows"@, if rules.len() == 0 {
                NO_RULES@
            } else {
                rule_rows(rules, "#"@ + card_id)
            }),
        ("add_form"@, add_rule_form("#"@ + card_id, scope_fields)),
    ];
    lemma_first_named(values, "card_id"@, 0);
    lemma_first_named(values, "title"@, 1);
    lemma_first_named(values, "rows"@, 2);
    lemma_first_named(values, "add_form"@, 3);
    assert(budget_card(card_id, title, rules, scope_fields) == filled(CARD@, values));
}

/// A new rule goes to the scope that was asked for; a fixed window must start before it ends,
/// and a target is for a group.
pub proof fn rules_go_where_they_are_asked(f: CreateBudgetForm, id: i64, t: Seq<char>, s: ScopeModel)
    ensures
        f.range_is_sound() && f.window@ != "target"@ && f.scope@ == "global"@ ==> f.scope_asked() == Ok::<
            ScopeModel,
            Seq<char>,
        >(ScopeModel::Global),
        f.range_is_sound() && f.window@ != "target"@ && f.scope@ == "project"@ && opt_text(f.project) == Some(
            t,
        ) ==> f.scope_asked() == Ok::<ScopeModel, Seq<char>>(ScopeModel::Project(t)),
        f.range_is_sound() && f.window@ != "target"@ && f.scope@ == "user"@ && f.user_id == Some(id)
            ==> f.scope_asked() == Ok::<ScopeModel, Seq<char>>(ScopeModel::User(id)),
        f.range_is_sound() && f.scope@ == "group"@ && opt_text(f.group_name) == Some(t) ==> f.scope_asked()
            == Ok::<ScopeModel, Seq<char>>(ScopeModel::Group(t)),
        f.window@ == "target"@ && f.scope@ != "group"@ ==> f.scope_asked() is Err,
        f.window@ == "total"@ && (f.window_start is None || f.window_end is None) ==> f.scope_asked() is Err,
        f.window@ == "total"@ ==> (f.window_start matches Some(a) ==> (f.window_end matches Some(b)
            ==> (f.range_is_sound() <==> precedes(a@, b@)))),
        f.window@ != "total"@ ==> f.range_is_sound(),
{
    reveal_strlit("global");
    reveal_strlit("project");
    reveal_strlit("user");
    reveal_strlit("group");
    reveal_strlit("target");
    reveal_strlit("total");
    assert("global"@.len() == 6 && "global"@[0] == 'g');
    assert("project"@.len() == 7);
    assert("user"@.len() == 4);
    assert("group"@.len() == 5 && "group"@[0] == 'g');
    assert("target"@.len() == 6 && "target"@[0] == 't');
    assert("total"@.len() == 5 && "total"@[0] == 't');
}

/// A group's budget is the first of its rules; without one, the form that sets it stands
/// there. An amount that is not set is shown as nothing, or as zero in a form.
pub proof fn amounts_are_shown_as_set(v: ShownUsd, n: i64, other: Seq<char>)
    ensures
        limit_words(Some(v)) == "$"@ + v.fixed@,
        limit_words(None) == DASH@,
        plain_or(Some(v), other) == v.plain@ && plain_or(None, other) == other,
        fixed_or_zero(Some(v)) == v.fixed@ && fixed_or_zero(None) == "0.00"@,
        count_or(Some(n), other) == int_text(n as int) && count_or(None, other) == other,
{
}

/// The projects shown are those that a key or a rule names.
pub proof fn projects_are_those_named(keys: Seq<ApiKey>, rules: Seq<BudgetRule>, p: Seq<char>)
    ensures
        ascending(sorted_labels(met_projects(keys, rules))),
        lookup(sorted_labels(met_projects(keys, rules)), p) is Some <==> (exists|i: int|
            0 <= i < keys.len() && opt_text((#[trigger] keys[i]).project) == Some(p)) || (exists|i: int|
            0 <= i < rules.len() && opt_text((#[trigger] rules[i]).project) == Some(p)),
{
    lemma_sorted_labels(met_projects(keys, rules), p);
    lemma_key_projects(keys, p);
    lemma_rule_projects(rules, p);
    let a = key_projects(keys);
    let b = rule_projects(rules);
    if a.contains(p) {
        let i = choose|i: int| 0 <= i < a.len() && a[i] == p;
        assert((a + b)[i] == p);
    }
    if b.contains(p) {
        let i = choose|i: int| 0 <= i < b.len() && b[i] == p;
        assert((a + b)[a.len() + i] == p);
    }
}

proof fn lemma_key_projects(s: Seq<ApiKey>, p: Seq<char>)
    ensures
        key_projects(s).contains(p) <==> exists|i: int|
            0 <= i < s.len() && opt_text((#[trigger] s[i]).project) == Some(p),
    decreases s.len(),
{
    if s.len() > 0 {
        let front = s.drop_last();
        let met = key_projects(front);
        let all = key_projects(s);
        lemma_key_projects(front, p);
        assert(s[s.len() - 1] == s.last());
        if all.contains(p) {
            let k = choose|k: int| 0 <= k < all.len() && all[k] == p;
            if k < met.len() {
                assert(met[k] == p);
                let i = choose|i: int|
                    0 <= i < front.len() && opt_text((#[trigger] front[i]).project) == Some(p);
                assert(s[i] == front[i]);
            }
        }
        if exists|i: int| 0 <= i < s.len() && opt_text((#[trigger] s[i]).project) == Some(p) {
            let i = choose|i: int|
                0 <= i < s.len() && opt_text((#[trigger] s[i]).project) == Some(p);
            if i < front.len() {
                assert(front[i] == s[i]);
                let k = choose|k: int| 0 <= k < met.len() && met[k] == p;
                assert(all[k] == p);
            } else {
                assert(all[met.len() as int] == p);
            }
        }
    }
}

proof fn lemma_rule_projects(s: Seq<BudgetRule>, p: Seq<char>)
    ensures
        rule_projects(s).contains(p) <==> exists|i: int|
            0 <= i < s.len() && opt_text((#[trigger] s[i]).project) == Some(p),
    decreases s.len(),
{
    if s.len() > 0 {
        let front = s.drop_last();
        let met = rule_projects(front);
        let all = rule_projects(s);
        lemma_rule_projects(front, p);
        assert(s[s.len() - 1] == s.last());
        if all.contains(p) {
            let k = choose|k: int| 0 <= k < all.len() && all[k] == p;
            if k < met.len() {
                assert(met[k] == p);
                let i = choose|i: int|
                    0 <= i < front.len() && opt_text((#[trigger] front[i]).project) == Some(p);
                assert(s[i] == front[i]);
            }
        }
        if exists|i: int| 0 <= i < s.len() && opt_text((#[trigger] s[i]).project) == Some(p) {
            let i = choose|i: int|
                0 <= i < s.len() && opt_text((#[trigger] s[i]).project) == Some(p);
            if i < front.len() {
                assert(front[i] == s[i]);
                let k = choose|k: int| 0 <= k < met.len() && met[k] == p;
                assert(all[k] == p);
            } else {
                assert(all[met.len() as int] == p);
            }
        }
    }
}

/// Rules for a group that is gone are shown in their order, and no others.
pub proof fn orphans_are_shown_in_order(s: Seq<BudgetRule>, t: Seq<BudgetRule>, groups: Seq<Seq<char>>)
    ensures
        orphan_cards_of(groups, s + t) == orphan_cards_of(groups, s) + orphan_cards_of(groups, t),
        s.len() == 1 ==> orphan_cards_of(groups, s) == match s[0].group_name {
            Some(g) => if groups.contains(g@) {
                Seq::<char>::empty()
            } else {
                orphan_card(s[0], g@)
            },
            None => Seq::<char>::empty(),
        },
    decreases t.len(),
{
    reveal_strlit("");
    assert(""@ =~= Seq::<char>::empty());
    if s.len() == 1 {
        assert(s.drop_last().len() == 0);
        assert(orphan_cards_of(groups, s.drop_last()) == ""@);
        if let Some(g) = s[0].group_name {
            lemma_nothing_added(""@, orphan_card(s[0], g@));
        }
    }
    if t.len() == 0 {
        assert(s + t =~= s);
        lemma_nothing_added(orphan_cards_of(groups, t), orphan_cards_of(groups, s));
    } else {
        let front = t.drop_last();
        orphans_are_shown_in_order(s, front, groups);
        assert((s + t).drop_last() =~= s + front);
        assert((s + t).last() == t.last());
        if let Some(g) = t.last().group_name {
            lemma_added_in_turn(
                orphan_cards_of(groups, s),
                orphan_cards_of(groups, front),
                orphan_card(t.last(), g@),
            );
        }
    }
}

/// The models of a rule are those its list names, shown in their order; a list that cannot be
/// read names none. A window is taken where a rule has it.
pub proof fn stored_models_are_shown(stored: Seq<char>, items: Seq<JsonModel>, v: Seq<Seq<char>>, rules: Seq<BudgetRule>, i: int)
    ensures
        json_of_text(stored) == Some(JsonModel::Arr(items)) && all_texts(items) == Some(v) ==> models_in(
            stored,
        ) == v,
        json_of_text(stored) is None ==> models_in(stored).len() == 0,
        models_in(stored).len() == 0 ==> models_shown(stored) == DASH@,
        models_in(stored).len() > 0 ==> models_shown(stored) == joined(models_in(stored), ", "@),
        0 <= i < rules.len() ==> window_taken(rules, rules[i].window@),
        rules.len() == 0 ==> !window_taken(rules, stored),
{
}

/// The card of such a rule shows the group it was for, its limit and its number.
pub proof fn orphans_show_their_rule(rule: BudgetRule, group: Seq<char>)
    ensures
        exists|values: Seq<(Seq<char>, Seq<char>)>|
            orphan_card(rule, group) == #[trigger] filled(ORPHAN_CARD@, values)
                && value_named(values, "card_id"@) == "budget-card-group-orphan-"@ + int_text(rule.id as int)
                && value_named(values, "group"@) == escaped(group)
                && value_named(values, "fixed"@) == fixed_or_zero(rule.limit_usd)
                && value_named(values, "id"@) == int_text(rule.id as int),
{
    reveal_strlit("card_id");
    reveal_strlit("group");
    reveal_strlit("fixed");
    reveal_strlit("id");
    assert("card_id"@.len() == 7);
    assert("group"@.len() == 5 && "group"@[0] == 'g');
    assert("fixed"@.len() == 5 && "fixed"@[0] == 'f');
    assert("id"@.len() == 2);
    let values = seq![
        ("card_id"@, "budget-card-group-orphan-"@ + int_text(rule.id as int)),
        ("group"@, escaped(group)),
        ("fixed"@, fixed_or_zero(rule.limit_usd)),
        ("id"@, int_text(rule.id as int)),
    ];
    lemma_first_named(values, "card_id"@, 0);
    lemma_first_named(values, "group"@, 1);
    lemma_first_named(values, "fixed"@, 2);
    lemma_first_named(values, "id"@, 3);
    assert(orphan_card(rule, group) == filled(ORPHAN_CARD@, values));
}

} // verus!
