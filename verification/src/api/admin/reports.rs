//! The reports page: which rows its panels ask for, and how they are added up.

use crate::api::admin::attribution::{
    filter_of, opt_bounds, start_of_window, window_start, AttributionFilter, AttributionQuery,
};
use crate::api::admin::budgets::{BudgetScope, ScopeModel};
use crate::api::admin::dashboard::DashboardError;
use crate::api::admin::keys::{name_or_number, show_name};
use crate::clock::{zulu, zulu_text};
use crate::json::{json_int, json_real, list_models, real_or_null, text_of_json, Json, JsonModel};
use crate::ordered::{ascending, lemma_sorted_labels, lookup, sorted_labels, with_entry, OrderedMap};
use crate::records::{Usd, User};
use crate::sums::{counted, lemma_picked_selects, lemma_total_alike, picked, selects, total};
use crate::text::{byte_prefix, i64_of_text, opt_text, parse_i64, same, take_bytes};
use vstd::prelude::*;

verus! {

/// What the page was asked to show.
#[derive(Debug, Clone, PartialEq, Eq)]
pub struct ReportsQuery {
    pub user: String,
    pub project: String,
    pub model: String,
    pub group: String,
    pub window: String,
    /// A tag key; empty for the correlation id. Goes with `value`.
    pub key: String,
    /// The attribution to filter on; empty for none.
    pub value: String,
}

// ---------------------------------------------------------------------------
// Which rows
// ---------------------------------------------------------------------------

/// The first and last moment of the panels: they start where the window does, and
/// end now.
pub open spec fn panel_bounds(window: Seq<char>, secs: i64) -> Option<(Seq<char>, Seq<char>)> {
    let start = match window_start(window, secs) {
        Some(t) => zulu_text(t),
        None => None,
    };
    match (start, zulu_text(secs)) {
        (Some(start), Some(end)) => Some((start, end)),
        _ => None,
    }
}

/// The bounds of the panels at a moment; none only where the calendar ends.
pub fn panel_range(window: &str, secs: i64) -> (r: Option<(String, String)>)
    ensures
        opt_bounds(r) == panel_bounds(window@, secs),
{
    let start = match start_of_window(window, secs) {
        Some(t) => zulu(t),
        None => None,
    };
    match (start, zulu(secs)) {
        (Some(start), Some(end)) => Some((start, end)),
        _ => None,
    }
}

/// The attribution filter that the page was asked for, if any. It replaces the
/// panels: they cannot express it, and showing both would invite reading
/// unfiltered numbers as if they were attributed.
pub fn attribution_filter(q: &ReportsQuery) -> (r: Result<Option<AttributionFilter>, DashboardError>)
    ensures
        match filter_of(q.key@, q.value@) {
            Ok(None) => r matches Ok(f) && f is None,
            Ok(Some(f)) => r matches Ok(Some(g)) && g@ == f,
            Err(message) => r matches Err(DashboardError::BadRequest(m)) && m@ == "invalid request: "@
                + message,
        },
{
    let query = AttributionQuery {
        key: q.key.clone(),
        value: q.value.clone(),
        window: q.window.clone(),
    };
    match query.filter() {
        Ok(f) => Ok(f),
        Err(e) => Err(DashboardError::BadRequest(e.describe())),
    }
}

/// A caller's membership in a group.
#[derive(Debug, Clone, PartialEq, Eq)]
pub struct Membership {
    pub user_id: i64,
    pub disabled_at: Option<String>,
}

pub open spec fn is_current() -> spec_fn(Membership) -> bool {
    |m: Membership| m.disabled_at is None
}

pub open spec fn member_id() -> spec_fn(Membership) -> i64 {
    |m: Membership| m.user_id
}

/// The callers of a group that still belong to it, in order.
pub open spec fn current_members(members: Seq<Membership>) -> Seq<i64> {
    picked(members, is_current(), member_id())
}

fn list_current(members: &Vec<Membership>) -> (r: Vec<i64>)
    ensures
        r@ == current_members(members@),
{
    let mut out: Vec<i64> = Vec::new();
    let mut i: usize = 0;
    while i < members.len()
        invariant
            i <= members@.len(),
            out@ =~= current_members(members@.take(i as int)),
        decreases members@.len() - i,
    {
        assert(members@.take(i + 1).drop_last() =~= members@.take(i as int));
        if members[i].disabled_at.is_none() {
            out.push(members[i].user_id);
        }
        i += 1;
    }
    assert(members@.take(members@.len() as int) =~= members@);
    out
}

/// Whose rows are counted: those of one caller, which goes before a group; of
/// the members of a group, none of them where there is no such group; or
/// everybody's.
pub open spec fn counted_users(q: ReportsQuery, members: Seq<Membership>) -> Option<Seq<i64>> {
    match i64_of_text(q.user@) {
        Some(id) => Some(seq![id]),
        None => if q.group@.len() > 0 {
            Some(current_members(members))
        } else {
            None
        },
    }
}

/// Whose budget the burndown is held against.
pub open spec fn budget_scope_of(q: ReportsQuery) -> ScopeModel {
    match i64_of_text(q.user@) {
        Some(id) => ScopeModel::User(id),
        None => if q.group@.len() > 0 {
            ScopeModel::Group(q.group@)
        } else {
            ScopeModel::Global
        },
    }
}

pub open spec fn unless_empty(s: Seq<char>) -> Option<Seq<char>> {
    if s.len() == 0 {
        None
    } else {
        Some(s)
    }
}

fn keep_unless_empty(s: &String) -> (r: Option<String>)
    ensures
        opt_text(r) == unless_empty(s@),
{
    if s.as_str().is_empty() {
        None
    } else {
        Some(s.clone())
    }
}

/// What the panels ask the ledger for.
#[derive(Debug, Clone, PartialEq, Eq)]
pub struct PanelFilters {
    pub user_ids: Option<Vec<i64>>,
    pub project: Option<String>,
    pub model: Option<String>,
    pub budget_scope: BudgetScope,
    pub budget_window: String,
}

impl ReportsQuery {
    /// The group whose members must be looked up first.
    pub fn group_to_find(&self) -> (r: Option<String>)
        ensures
            opt_text(r) == unless_empty(self.group@),
    {
        keep_unless_empty(&self.group)
    }

    /// The filters of the panels, once the members of the group are known.
    pub fn filters(&self, members: &Vec<Membership>) -> (r: PanelFilters)
        ensures
            match counted_users(*self, members@) {
                Some(ids) => r.user_ids matches Some(v) && v@ == ids,
                None => r.user_ids is None,
            },
            opt_text(r.project) == unless_empty(self.project@),
            opt_text(r.model) == unless_empty(self.model@),
            r.budget_scope@ == budget_scope_of(*self),
            r.budget_window@ == if self.window@ == "daily"@ || self.window@ == "weekly"@ {
                self.window@
            } else {
                "monthly"@
            },
    {
        let (user_ids, budget_scope) = match parse_i64(self.user.as_str()) {
            Some(id) => {
                let ids: Vec<i64> = vec![id];
                assert(ids@ =~= seq![id]);
                (Some(ids), BudgetScope::User(id))
            },
            None => if !self.group.as_str().is_empty() {
                (Some(list_current(members)), BudgetScope::Group(self.group.clone()))
            } else {
                (None, BudgetScope::Global)
            },
        };
        let window = self.window.as_str();
        let budget_window = if same(window, "daily") || same(window, "weekly") {
            window.to_owned()
        } else {
            "monthly".to_owned()
        };
        PanelFilters {
            user_ids,
            project: keep_unless_empty(&self.project),
            model: keep_unless_empty(&self.model),
            budget_scope,
            budget_window,
        }
    }
}

/// A budget rule, as far as the burndown reads it.
#[derive(Debug, Clone, PartialEq, Eq)]
pub struct LimitRule {
    pub window: String,
    pub limit_usd: Option<Usd>,
}

/// The limit of the first rule for a window.
pub open spec fn limit_for(rules: Seq<LimitRule>, window: Seq<char>) -> Option<Usd>
    decreases rules.len(),
{
    if rules.len() == 0 {
        None
    } else if rules[0].window@ == window {
        rules[0].limit_usd
    } else {
        limit_for(rules.drop_first(), window)
    }
}

pub fn budget_limit(rules: &Vec<LimitRule>, window: &str) -> (r: Option<Usd>)
    ensures
        r == limit_for(rules@, window@),
{
    let mut i: usize = 0;
    assert(rules@.skip(0) =~= rules@);
    while i < rules.len()
        invariant
            i <= rules@.len(),
            limit_for(rules@.skip(i as int), window@) == limit_for(rules@, window@),
        decreases rules@.len() - i,
    {
        if same(rules[i].window.as_str(), window) {
            return rules[i].limit_usd;
        }
        assert(rules@.skip(i as int).drop_first() =~= rules@.skip(i + 1));
        i += 1;
    }
    None
}

// ---------------------------------------------------------------------------
// By project
// ---------------------------------------------------------------------------

/// A group of ledger rows.
#[derive(Debug, Clone, PartialEq, Eq)]
pub struct DetailRow {
    pub project: Option<String>,
    pub cost: Usd,
    pub tokens_in: i64,
    pub tokens_out: i64,
    pub requests: i64,
}

/// What a project adds up to. The costs are the terms of its sum, in order.
#[derive(Debug, Clone, PartialEq, Eq)]
pub struct ProjectRow {
    pub project: String,
    pub costs: Vec<Usd>,
    pub tokens_in: i128,
    pub tokens_out: i128,
    pub requests: i128,
}

pub open spec fn of_project(p: Seq<char>) -> spec_fn(DetailRow) -> bool {
    |r: DetailRow| opt_text(r.project) == Some(p)
}

pub open spec fn row_cost() -> spec_fn(DetailRow) -> Usd {
    |r: DetailRow| r.cost
}

pub open spec fn tokens_in_of(p: Seq<char>) -> spec_fn(DetailRow) -> int {
    |r: DetailRow| counted(opt_text(r.project) == Some(p), r.tokens_in as int)
}

pub open spec fn tokens_out_of(p: Seq<char>) -> spec_fn(DetailRow) -> int {
    |r: DetailRow| counted(opt_text(r.project) == Some(p), r.tokens_out as int)
}

pub open spec fn requests_of(p: Seq<char>) -> spec_fn(DetailRow) -> int {
    |r: DetailRow| counted(opt_text(r.project) == Some(p), r.requests as int)
}

impl ProjectRow {
    /// Whether this is what a project adds up to.
    pub open spec fn sums(self, rows: Seq<DetailRow>, p: Seq<char>) -> bool {
        &&& self.project@ == p
        &&& self.costs@ == picked(rows, of_project(p), row_cost())
        &&& self.tokens_in == total(rows, tokens_in_of(p))
        &&& self.tokens_out == total(rows, tokens_out_of(p))
        &&& self.requests == total(rows, requests_of(p))
    }
}

/// The projects that rows name, in the order in which they are met.
pub open spec fn projects_met(rows: Seq<DetailRow>) -> Seq<Seq<char>>
    decreases rows.len(),
{
    if rows.len() == 0 {
        Seq::empty()
    } else {
        match rows.last().project {
            Some(p) => projects_met(rows.drop_last()).push(p@),
            None => projects_met(rows.drop_last()),
        }
    }
}

fn sort_projects(rows: &Vec<DetailRow>) -> (r: OrderedMap<String, ()>)
    ensures
        r.wf(),
        r@ == sorted_labels(projects_met(rows@)),
{
    let mut out: OrderedMap<String, ()> = OrderedMap::new();
    let mut i: usize = 0;
    assert(rows@.take(0) =~= Seq::empty());
    while i < rows.len()
        invariant
            i <= rows@.len(),
            out.wf(),
            out@ == sorted_labels(projects_met(rows@.take(i as int))),
        decreases rows@.len() - i,
    {
        assert(rows@.take(i + 1).drop_last() =~= rows@.take(i as int));
        let ghost before = projects_met(rows@.take(i as int));
        if let Some(p) = &rows[i].project {
            out.insert(p.clone(), ());
            assert(before.push(p@).drop_last() =~= before);
        }
        i += 1;
    }
    assert(rows@.take(rows@.len() as int) =~= rows@);
    out
}

fn sum_project(rows: &Vec<DetailRow>, p: &str) -> (r: ProjectRow)
    ensures
        r.sums(rows@, p@),
{
    let mut costs: Vec<Usd> = Vec::new();
    let mut tokens_in: i128 = 0;
    let mut tokens_out: i128 = 0;
    let mut requests: i128 = 0;
    let mut i: usize = 0;
    while i < rows.len()
        invariant
            i <= rows@.len(),
            costs@ =~= picked(rows@.take(i as int), of_project(p@), row_cost()),
            tokens_in == total(rows@.take(i as int), tokens_in_of(p@)),
            tokens_out == total(rows@.take(i as int), tokens_out_of(p@)),
            requests == total(rows@.take(i as int), requests_of(p@)),
            -0x8000_0000_0000_0000 * i <= tokens_in <= 0x8000_0000_0000_0000 * i,
            -0x8000_0000_0000_0000 * i <= tokens_out <= 0x8000_0000_0000_0000 * i,
            -0x8000_0000_0000_0000 * i <= requests <= 0x8000_0000_0000_0000 * i,
        decreases rows@.len() - i,
    {
        assert(rows@.take(i + 1).drop_last() =~= rows@.take(i as int));
        assert(i < 0x1_0000_0000_0000_0000);
        let row = &rows[i];
        let mine = match &row.project {
            Some(q) => same(q.as_str(), p),
            None => false,
        };
        if mine {
            costs.push(row.cost);
            tokens_in = tokens_in + row.tokens_in as i128;
            tokens_out = tokens_out + row.tokens_out as i128;
            requests = requests + row.requests as i128;
        }
        i += 1;
    }
    assert(rows@.take(rows@.len() as int) =~= rows@);
    ProjectRow { project: p.to_owned(), costs, tokens_in, tokens_out, requests }
}

/// What each project adds up to, by name. Rows without a project are in none.
pub fn project_rows(rows: &Vec<DetailRow>) -> (r: Vec<ProjectRow>)
    ensures
        r@.len() == sorted_labels(projects_met(rows@)).len(),
        forall|i: int|
            0 <= i < r@.len() ==> (#[trigger] r@[i]).sums(
                rows@,
                sorted_labels(projects_met(rows@))[i].0,
            ),
{
    let projects = sort_projects(rows);
    let mut out: Vec<ProjectRow> = Vec::new();
    let mut i: usize = 0;
    while i < projects.len()
        invariant
            i <= projects@.len(),
            projects.wf(),
            projects@ == sorted_labels(projects_met(rows@)),
            out@.len() == i,
            forall|k: int| 0 <= k < i ==> (#[trigger] out@[k]).sums(rows@, projects@[k].0),
        decreases projects@.len() - i,
    {
        let row = sum_project(rows, projects.key(i).as_str());
        out.push(row);
        i += 1;
    }
    out
}

/// Puts an amount after all that it does not exceed, in a list that starts with
/// the greatest.
pub open spec fn placed(ranking: Seq<(Usd, usize)>, x: (Usd, usize)) -> Seq<(Usd, usize)>
    decreases ranking.len(),
{
    if ranking.len() > 0 && x.0.above(ranking.last().0) {
        placed(ranking.drop_last(), x).push(ranking.last())
    } else {
        ranking.push(x)
    }
}

/// The places of some amounts, from the greatest down. Equal ones keep their
/// order.
pub open spec fn ranking_of(amounts: Seq<Usd>) -> Seq<(Usd, usize)>
    decreases amounts.len(),
{
    if amounts.len() == 0 {
        Seq::empty()
    } else {
        placed(
            ranking_of(amounts.drop_last()),
            (amounts.last(), (amounts.len() - 1) as usize),
        )
    }
}

fn place(ranking: &mut Vec<(Usd, usize)>, x: (Usd, usize))
    ensures
        final(ranking)@ == placed(old(ranking)@, x),
{
    let ghost before = ranking@;
    let mut at: usize = ranking.len();
    let ghost mut tail: Seq<(Usd, usize)> = Seq::empty();
    assert(before.take(at as int) =~= before);
    assert(placed(before, x) + tail =~= placed(before, x));
    while at > 0 && x.0.exceeds(&ranking[at - 1].0)
        invariant
            at <= ranking@.len(),
            ranking@ == before,
            tail == before.skip(at as int),
            placed(before.take(at as int), x) + tail == placed(before, x),
        decreases at,
    {
        proof {
            let head = before.take(at as int);
            assert(head.drop_last() =~= before.take(at - 1));
            assert(before.skip(at - 1) =~= seq![before[at - 1]] + tail);
            assert(placed(before.take(at - 1), x) + before.skip(at - 1) =~= placed(
                before.take(at - 1),
                x,
            ).push(head.last()) + tail);
            tail = before.skip(at - 1);
        }
        at -= 1;
    }
    ranking.insert(at, x);
    assert(ranking@ =~= before.take(at as int).push(x) + before.skip(at as int));
}

/// The order in which the projects are shown: the most expensive first. Takes
/// what each has cost, as it is shown.
pub fn by_cost(amounts: &Vec<Usd>) -> (r: Vec<usize>)
    ensures
        r@ == ranking_of(amounts@).map_values(second()),
{
    let mut ranking: Vec<(Usd, usize)> = Vec::new();
    let mut i: usize = 0;
    while i < amounts.len()
        invariant
            i <= amounts@.len(),
            ranking@ =~= ranking_of(amounts@.take(i as int)),
        decreases amounts@.len() - i,
    {
        assert(amounts@.take(i + 1).drop_last() =~= amounts@.take(i as int));
        place(&mut ranking, (amounts[i], i));
        i += 1;
    }
    assert(amounts@.take(amounts@.len() as int) =~= amounts@);
    let mut out: Vec<usize> = Vec::new();
    let mut j: usize = 0;
    while j < ranking.len()
        invariant
            j <= ranking@.len(),
            ranking@ == ranking_of(amounts@),
            out@ =~= ranking@.take(j as int).map_values(second()),
        decreases ranking@.len() - j,
    {
        out.push(ranking[j].1);
        j += 1;
    }
    assert(ranking@.take(ranking@.len() as int) =~= ranking@);
    out
}

pub open spec fn second() -> spec_fn((Usd, usize)) -> usize {
    |e: (Usd, usize)| e.1
}

// ---------------------------------------------------------------------------
// Charts
// ---------------------------------------------------------------------------

/// What a caller has used.
#[derive(Debug, Clone, PartialEq, Eq)]
pub struct UserStat {
    pub user_id: i64,
    pub tokens_in: i64,
    pub tokens_out: i64,
}

/// The name under which a caller is reported.
pub open spec fn report_name(users: Seq<User>, id: i64) -> Seq<char> {
    name_or_number(users, id, "#"@)
}

pub fn user_label(users: &Vec<User>, id: i64) -> (r: String)
    ensures
        r@ == report_name(users@, id),
{
    show_name(users, id, "#")
}

pub open spec fn model_point(model: Seq<char>, cost: Usd) -> JsonModel {
    JsonModel::Obj(
        with_entry(
            with_entry(Seq::empty(), "model"@, JsonModel::Str(model)),
            "cost"@,
            real_or_null(cost.bits),
        ),
    )
}

pub open spec fn model_points(rows: Seq<(String, Usd)>) -> Seq<JsonModel> {
    Seq::new(rows.len(), |i: int| model_point(rows[i].0@, rows[i].1))
}

/// The chart of models by cost.
pub fn top_models_json(rows: &Vec<(String, Usd)>) -> (r: String)
    ensures
        r@ == text_of_json(JsonModel::Arr(model_points(rows@))),
{
    let mut out: Vec<Json> = Vec::new();
    let mut i: usize = 0;
    while i < rows.len()
        invariant
            i <= rows@.len(),
            out@.len() == i,
            forall|k: int|
                0 <= k < i ==> (#[trigger] out@[k]).model() == model_point(rows@[k].0@, rows@[k].1)
                    && out@[k].wf(),
        decreases rows@.len() - i,
    {
        out.push(
            Json::object().with("model", Json::Str(rows[i].0.clone())).with(
                "cost",
                json_real(rows[i].1.bits),
            ),
        );
        i += 1;
    }
    proof {
        Json::lemma_array_wf(out);
        assert(list_models(out@) =~= model_points(rows@));
    }
    Json::Arr(out).to_text()
}

pub open spec fn usage_point(users: Seq<User>, s: UserStat) -> JsonModel {
    let o = with_entry(Seq::empty(), "user"@, JsonModel::Str(report_name(users, s.user_id)));
    let o = with_entry(o, "tokens_in"@, JsonModel::Int(s.tokens_in as int));
    JsonModel::Obj(with_entry(o, "tokens_out"@, JsonModel::Int(s.tokens_out as int)))
}

pub open spec fn usage_points(users: Seq<User>, stats: Seq<UserStat>) -> Seq<JsonModel> {
    Seq::new(stats.len(), |i: int| usage_point(users, stats[i]))
}

/// The chart of tokens by caller.
pub fn token_usage_json(users: &Vec<User>, stats: &Vec<UserStat>) -> (r: String)
    ensures
        r@ == text_of_json(JsonModel::Arr(usage_points(users@, stats@))),
{
    let mut out: Vec<Json> = Vec::new();
    let mut i: usize = 0;
    while i < stats.len()
        invariant
            i <= stats@.len(),
            out@.len() == i,
            forall|k: int|
                0 <= k < i ==> (#[trigger] out@[k]).model() == usage_point(users@, stats@[k])
                    && out@[k].wf(),
        decreases stats@.len() - i,
    {
        let name = user_label(users, stats[i].user_id);
        out.push(
            Json::object().with("user", Json::Str(name)).with(
                "tokens_in",
                json_int(stats[i].tokens_in),
            ).with("tokens_out", json_int(stats[i].tokens_out)),
        );
        i += 1;
    }
    proof {
        Json::lemma_array_wf(out);
        assert(list_models(out@) =~= usage_points(users@, stats@));
    }
    Json::Arr(out).to_text()
}

pub open spec fn spend_point(day: Seq<char>, cost: Usd) -> JsonModel {
    JsonModel::Arr(seq![JsonModel::Str(day), real_or_null(cost.bits)])
}

pub open spec fn spend_points(days: Seq<(String, Usd)>) -> Seq<JsonModel> {
    Seq::new(days.len(), |i: int| spend_point(days[i].0@, days[i].1))
}

/// The burndown: what each day cost, the limit it is held against, and the day
/// that it starts on.
pub open spec fn burndown_of(days: Seq<(String, Usd)>, limit: Option<Usd>, start: Seq<char>) -> JsonModel {
    let o = with_entry(Seq::empty(), "series"@, JsonModel::Arr(spend_points(days)));
    let o = with_entry(
        o,
        "limit"@,
        match limit {
            Some(l) => real_or_null(l.bits),
            None => JsonModel::Null,
        },
    );
    JsonModel::Obj(
        with_entry(
            o,
            "start"@,
            JsonModel::Str(
                match byte_prefix(start, 10) {
                    Some(d) => d,
                    None => ""@,
                },
            ),
        ),
    )
}

fn spend_pair(day: &String, cost: &Usd) -> (r: Json)
    ensures
        r.model() == spend_point(day@, *cost),
        r.wf(),
{
    let pair = vec![Json::Str(day.clone()), json_real(cost.bits)];
    proof {
        Json::lemma_array_wf(pair);
        assert(list_models(pair@) =~= seq![JsonModel::Str(day@), real_or_null(cost.bits)]);
    }
    Json::Arr(pair)
}

pub fn burndown_json(days: &Vec<(String, Usd)>, limit: Option<Usd>, start: &str) -> (r: String)
    ensures
        r@ == text_of_json(burndown_of(days@, limit, start@)),
{
    let mut out: Vec<Json> = Vec::new();
    let mut i: usize = 0;
    while i < days.len()
        invariant
            i <= days@.len(),
            out@.len() == i,
            forall|k: int|
                0 <= k < i ==> (#[trigger] out@[k]).model() == spend_point(days@[k].0@, days@[k].1)
                    && out@[k].wf(),
        decreases days@.len() - i,
    {
        let pair = spend_pair(&days[i].0, &days[i].1);
        out.push(pair);
        i += 1;
    }
    proof {
        Json::lemma_array_wf(out);
        assert(list_models(out@) =~= spend_points(days@));
    }
    let limit_json = match limit {
        Some(l) => json_real(l.bits),
        None => Json::Null,
    };
    let day = match take_bytes(start, 10) {
        Some(d) => d,
        None => "",
    };
    Json::object().with("series", Json::Arr(out)).with("limit", limit_json).with(
        "start",
        Json::Str(day.to_owned()),
    ).to_text()
}

// ---------------------------------------------------------------------------
// Laws
// ---------------------------------------------------------------------------

/// One place of a ranking does not come before another without reason: it costs
/// more, or as much and was met first.
pub open spec fn comes_before(x: (Usd, usize), y: (Usd, usize)) -> bool {
    x.0.rank() > y.0.rank() || (x.0.rank() == y.0.rank() && x.1 < y.1)
}

/// Where the new place goes: behind all that come before it.
proof fn lemma_place_of(ranking: Seq<(Usd, usize)>, x: (Usd, usize)) -> (k: int)
    requires
        x.0.is_number(),
        forall|i: int| 0 <= i < ranking.len() ==> (#[trigger] ranking[i]).0.is_number(),
        forall|i: int| 0 <= i < ranking.len() ==> (#[trigger] ranking[i]).1 < x.1,
        forall|i: int, j: int|
            0 <= i < j < ranking.len() ==> comes_before(#[trigger] ranking[i], #[trigger] ranking[j]),
    ensures
        0 <= k <= ranking.len(),
        placed(ranking, x) == ranking.insert(k, x),
        forall|i: int| 0 <= i < k ==> comes_before(#[trigger] ranking[i], x),
        forall|i: int| k <= i < ranking.len() ==> comes_before(x, #[trigger] ranking[i]),
    decreases ranking.len(),
{
    if ranking.len() > 0 && x.0.above(ranking.last().0) {
        let front = ranking.drop_last();
        assert(forall|i: int| 0 <= i < front.len() ==> #[trigger] front[i] == ranking[i]);
        let k = lemma_place_of(front, x);
        assert(placed(ranking, x) =~= ranking.insert(k, x));
        assert forall|i: int| 0 <= i < k implies comes_before(#[trigger] ranking[i], x) by {
            assert(comes_before(front[i], x));
        }
        assert forall|i: int| k <= i < ranking.len() implies comes_before(
            x,
            #[trigger] ranking[i],
        ) by {
            if i < front.len() {
                assert(comes_before(x, front[i]));
            }
        }
        k
    } else {
        let k = ranking.len() as int;
        assert(placed(ranking, x) =~= ranking.insert(k, x));
        assert forall|i: int| 0 <= i < k implies comes_before(#[trigger] ranking[i], x) by {
            if i < k - 1 {
                assert(comes_before(ranking[i], ranking[k - 1]));
            }
        }
        k
    }
}

proof fn lemma_placed(ranking: Seq<(Usd, usize)>, x: (Usd, usize))
    requires
        x.0.is_number(),
        forall|i: int| 0 <= i < ranking.len() ==> (#[trigger] ranking[i]).0.is_number(),
        forall|i: int| 0 <= i < ranking.len() ==> (#[trigger] ranking[i]).1 < x.1,
        forall|i: int, j: int|
            0 <= i < j < ranking.len() ==> comes_before(#[trigger] ranking[i], #[trigger] ranking[j]),
    ensures
        placed(ranking, x).len() == ranking.len() + 1,
        placed(ranking, x).contains(x),
        forall|i: int|
            0 <= i < placed(ranking, x).len() ==> (#[trigger] placed(ranking, x)[i]) == x
                || ranking.contains(placed(ranking, x)[i]),
        forall|i: int|
            0 <= i < ranking.len() ==> placed(ranking, x).contains(#[trigger] ranking[i]),
        forall|i: int, j: int|
            0 <= i < j < placed(ranking, x).len() ==> comes_before(
                #[trigger] placed(ranking, x)[i],
                #[trigger] placed(ranking, x)[j],
            ),
{
    let p = placed(ranking, x);
    let k = lemma_place_of(ranking, x);
    assert(p[k] == x);
    assert forall|i: int| 0 <= i < p.len() implies (#[trigger] p[i]) == x || ranking.contains(
        p[i],
    ) by {
        if i < k {
            assert(p[i] == ranking[i]);
        } else if i > k {
            assert(p[i] == ranking[i - 1]);
        }
    }
    assert forall|i: int| 0 <= i < ranking.len() implies p.contains(#[trigger] ranking[i]) by {
        if i < k {
            assert(p[i] == ranking[i]);
        } else {
            assert(p[i + 1] == ranking[i]);
        }
    }
    assert forall|i: int, j: int| 0 <= i < j < p.len() implies comes_before(
        #[trigger] p[i],
        #[trigger] p[j],
    ) by {
        let a = if i < k {
            i
        } else {
            i - 1
        };
        let b = if j < k {
            j
        } else {
            j - 1
        };
        assert(i != k ==> p[i] == ranking[a]);
        assert(j != k ==> p[j] == ranking[b]);
        if i != k && j != k {
            assert(comes_before(ranking[a], ranking[b]));
        }
    }
}

/// The ranking of amounts holds every place once, the greatest amounts first,
/// and equal ones in the order in which they came.
pub proof fn the_most_expensive_come_first(amounts: Seq<Usd>)
    requires
        forall|i: int| 0 <= i < amounts.len() ==> (#[trigger] amounts[i]).is_number(),
        amounts.len() <= usize::MAX,
    ensures
        ranking_of(amounts).len() == amounts.len(),
        forall|i: int|
            0 <= i < amounts.len() ==> (#[trigger] ranking_of(amounts)[i]).1 < amounts.len()
                && ranking_of(amounts)[i].0 == amounts[ranking_of(amounts)[i].1 as int],
        forall|k: int|
            0 <= k < amounts.len() ==> ranking_of(amounts).contains(
                (#[trigger] amounts[k], k as usize),
            ),
        forall|i: int, j: int|
            0 <= i < j < amounts.len() ==> comes_before(
                #[trigger] ranking_of(amounts)[i],
                #[trigger] ranking_of(amounts)[j],
            ),
    decreases amounts.len(),
{
    if amounts.len() > 0 {
        let front = amounts.drop_last();
        assert forall|i: int| 0 <= i < front.len() implies (#[trigger] front[i]).is_number() by {
            assert(amounts[i].is_number());
        }
        the_most_expensive_come_first(front);
        let x = (amounts.last(), (amounts.len() - 1) as usize);
        let r = ranking_of(front);
        assert(amounts[amounts.len() - 1].is_number());
        assert forall|i: int| 0 <= i < r.len() implies (#[trigger] r[i]).0.is_number() by {
            assert(front[r[i].1 as int].is_number());
        }
        lemma_placed(r, x);
        let p = ranking_of(amounts);
        assert forall|i: int| 0 <= i < amounts.len() implies (#[trigger] p[i]).1 < amounts.len()
            && p[i].0 == amounts[p[i].1 as int] by {
            if p[i] != x {
                let m = choose|m: int| 0 <= m < r.len() && r[m] == p[i];
                assert(front[r[m].1 as int] == amounts[r[m].1 as int]);
            }
        }
        assert forall|k: int| 0 <= k < amounts.len() implies p.contains(
            (#[trigger] amounts[k], k as usize),
        ) by {
            if k < front.len() {
                assert(front[k] == amounts[k]);
                assert(r.contains((front[k], k as usize)));
                let m = choose|m: int| 0 <= m < r.len() && r[m] == (front[k], k as usize);
                assert(p.contains(r[m]));
            }
        }
    }
}

/// A caller that is asked for goes before a group, and a group that is unknown
/// or has nobody left in it matches no rows rather than all of them.
pub proof fn narrowing_never_widens(q: ReportsQuery, members: Seq<Membership>)
    ensures
        i64_of_text(q.user@) matches Some(id) ==> counted_users(q, members) == Some(seq![id]),
        i64_of_text(q.user@) is None && q.group@.len() > 0 && members.len() == 0 ==> counted_users(
            q,
            members,
        ) == Some(Seq::<i64>::empty()),
        counted_users(q, members) is None <==> i64_of_text(q.user@) is None && q.group@.len() == 0,
{
}

/// A project's row sums the ledger rows of that project and no others: the tokens that went
/// in and those that came out each for itself, and the costs one by one, in their order.
pub proof fn projects_sum_their_own_rows(r: ProjectRow, rows: Seq<DetailRow>, p: Seq<char>)
    requires
        r.sums(rows, p),
    ensures
        r.project@ == p,
        r.tokens_in == total(
            rows,
            |w: DetailRow|
                if opt_text(w.project) == Some(p) {
                    w.tokens_in as int
                } else {
                    0
                },
        ),
        r.tokens_out == total(
            rows,
            |w: DetailRow|
                if opt_text(w.project) == Some(p) {
                    w.tokens_out as int
                } else {
                    0
                },
        ),
        r.requests == total(
            rows,
            |w: DetailRow|
                if opt_text(w.project) == Some(p) {
                    w.requests as int
                } else {
                    0
                },
        ),
        selects(
            r.costs@,
            rows,
            |w: DetailRow| opt_text(w.project) == Some(p),
            |w: DetailRow| w.cost,
        ),
{
    lemma_total_alike(
        rows,
        tokens_in_of(p),
        rows,
        |w: DetailRow|
            if opt_text(w.project) == Some(p) {
                w.tokens_in as int
            } else {
                0
            },
    );
    lemma_total_alike(
        rows,
        tokens_out_of(p),
        rows,
        |w: DetailRow|
            if opt_text(w.project) == Some(p) {
                w.tokens_out as int
            } else {
                0
            },
    );
    lemma_total_alike(
        rows,
        requests_of(p),
        rows,
        |w: DetailRow|
            if opt_text(w.project) == Some(p) {
                w.requests as int
            } else {
                0
            },
    );
    lemma_picked_selects(
        rows,
        of_project(p),
        row_cost(),
        |w: DetailRow| opt_text(w.project) == Some(p),
        |w: DetailRow| w.cost,
    );
}

/// Every project that a row names has a row of its own, once, by name; rows that name none
/// have none.
pub proof fn projects_are_those_named(rows: Seq<DetailRow>, p: Seq<char>)
    ensures
        ascending(sorted_labels(projects_met(rows))),
        lookup(sorted_labels(projects_met(rows)), p) is Some <==> exists|i: int|
            0 <= i < rows.len() && opt_text((#[trigger] rows[i]).project) == Some(p),
{
    lemma_sorted_labels(projects_met(rows), p);
    lemma_projects_met(rows, p);
}

proof fn lemma_projects_met(rows: Seq<DetailRow>, p: Seq<char>)
    ensures
        projects_met(rows).contains(p) <==> exists|i: int|
            0 <= i < rows.len() && opt_text((#[trigger] rows[i]).project) == Some(p),
    decreases rows.len(),
{
    if rows.len() > 0 {
        let front = rows.drop_last();
        let met = projects_met(front);
        let all = projects_met(rows);
        lemma_projects_met(front, p);
        assert(rows[rows.len() - 1] == rows.last());
        if all.contains(p) {
            let k = choose|k: int| 0 <= k < all.len() && all[k] == p;
            if k < met.len() {
                assert(met[k] == p);
                let i = choose|i: int|
                    0 <= i < front.len() && opt_text((#[trigger] front[i]).project) == Some(p);
                assert(rows[i] == front[i]);
            }
        }
        if exists|i: int| 0 <= i < rows.len() && opt_text((#[trigger] rows[i]).project) == Some(p) {
            let i = choose|i: int|
                0 <= i < rows.len() && opt_text((#[trigger] rows[i]).project) == Some(p);
            if i < front.len() {
                assert(front[i] == rows[i]);
                let k = choose|k: int| 0 <= k < met.len() && met[k] == p;
                assert(all[k] == p);
            } else {
                assert(all[met.len() as int] == p);
            }
        }
    }
}

/// A report is narrowed to one user, or to the current members of a group, in their order.
pub proof fn reports_count_the_users_asked_for(q: ReportsQuery, members: Seq<Membership>, id: i64)
    ensures
        i64_of_text(q.user@) == Some(id) ==> counted_users(q, members) == Some(seq![id])
            && budget_scope_of(q) == ScopeModel::User(id),
        i64_of_text(q.user@) is None && q.group@.len() > 0 ==> (counted_users(q, members) matches Some(
            ids,
        ) && selects(ids, members, |m: Membership| m.disabled_at is None, |m: Membership| m.user_id)
            && budget_scope_of(q) == ScopeModel::Group(q.group@)),
        i64_of_text(q.user@) is None && q.group@.len() == 0 ==> counted_users(q, members) is None
            && budget_scope_of(q) == ScopeModel::Global,
{
    lemma_picked_selects(
        members,
        is_current(),
        member_id(),
        |m: Membership| m.disabled_at is None,
        |m: Membership| m.user_id,
    );
}

/// The limit of a window is that of the first rule for it.
pub proof fn the_first_rule_limits(rules: Seq<LimitRule>, window: Seq<char>, i: int)
    ensures
        0 <= i < rules.len() && rules[i].window@ == window && (forall|j: int|
            0 <= j < i ==> (#[trigger] rules[j]).window@ != window) ==> limit_for(rules, window)
            == rules[i].limit_usd,
        (forall|j: int| 0 <= j < rules.len() ==> (#[trigger] rules[j]).window@ != window)
            ==> limit_for(rules, window) is None,
    decreases rules.len(),
{
    if rules.len() > 0 {
        let rest = rules.drop_first();
        the_first_rule_limits(rest, window, i - 1);
        assert(forall|j: int| 0 <= j < rest.len() ==> #[trigger] rest[j] == rules[j + 1]);
    }
}

/// The charts show their rows in order, each figure under its own name.
pub proof fn charts_show_their_rows(
    rows: Seq<(String, Usd)>,
    users: Seq<User>,
    stats: Seq<UserStat>,
    limit: Option<Usd>,
    start: Seq<char>,
    i: int,
)
    ensures
        model_points(rows).len() == rows.len() && usage_points(users, stats).len() == stats.len(),
        0 <= i < rows.len() ==> model_points(rows)[i].at("model"@) == JsonModel::Str(rows[i].0@)
            && model_points(rows)[i].at("cost"@) == real_or_null(rows[i].1.bits),
        0 <= i < stats.len() ==> usage_points(users, stats)[i].at("user"@) == JsonModel::Str(
            report_name(users, stats[i].user_id),
        ) && usage_points(users, stats)[i].at("tokens_in"@) == JsonModel::Int(stats[i].tokens_in as int)
            && usage_points(users, stats)[i].at("tokens_out"@) == JsonModel::Int(stats[i].tokens_out as int),
        burndown_of(rows, limit, start).at("series"@).items() matches Some(all) && all.len() == rows.len(),
        0 <= i < rows.len() ==> burndown_of(rows, limit, start).at("series"@).item(i).item(0)
            == JsonModel::Str(rows[i].0@) && burndown_of(rows, limit, start).at("series"@).item(i).item(1)
            == real_or_null(rows[i].1.bits),
        limit matches Some(l) ==> burndown_of(rows, limit, start).at("limit"@) == real_or_null(l.bits),
        limit is None ==> burndown_of(rows, limit, start).at("limit"@) is Null,
        byte_prefix(start, 10) matches Some(d) ==> burndown_of(rows, limit, start).at("start"@)
            == JsonModel::Str(d),
{
    broadcast use {
        crate::ordered::entries_are_found,
        crate::ordered::nothing_is_found_in_nothing,
    };

    reveal_strlit("model");
    reveal_strlit("cost");
    reveal_strlit("user");
    reveal_strlit("tokens_in");
    reveal_strlit("tokens_out");
    reveal_strlit("series");
    reveal_strlit("limit");
    reveal_strlit("start");
    assert("model"@.len() == 5 && "model"@[0] == 'm');
    assert("cost"@.len() == 4 && "cost"@[0] == 'c');
    assert("user"@.len() == 4 && "user"@[0] == 'u');
    assert("tokens_in"@.len() == 9);
    assert("tokens_out"@.len() == 10);
    assert("series"@.len() == 6);
    assert("limit"@.len() == 5 && "limit"@[0] == 'l');
    assert("start"@.len() == 5 && "start"@[0] == 's');
}

/// A panel runs from the start of its window to now.
pub proof fn panels_run_to_now(window: Seq<char>, secs: i64, b: (Seq<char>, Seq<char>), start: i64)
    requires
        panel_bounds(window, secs) == Some(b),
        window_start(window, secs) == Some(start),
    ensures
        zulu_text(start) == Some(b.0),
        zulu_text(secs) == Some(b.1),
{
}

} // verus!
