//! The response cache: what is told of it, and who may empty it.
//!
//! Any admin may read; emptying it and changing its policy takes a superadmin,
//! and is audited.

use crate::api::admin::audit::{change, change_of, entry, entry_of};
use crate::api::admin::auth::SuperAdminSession;
use crate::api::admin::dashboard::{DashboardError, SuperDashboardSession};
use crate::api::error::ApiError;
use crate::clock::{shift_days, shifted, zulu, zulu_text};
use crate::json::{json_int, json_real, list_models, real_or_null, Json, JsonModel};
use crate::ordered::with_entry;
use crate::records::{NewAuditLogEntry, Usd};
use crate::text::{
    i64_text, in_one_piece, int_text, last_piece, nat_text, opt_str, opt_text, pieces, quote, quoted,
    same, signed, u64_text, without_sign, written_number_reads_back,
};
use vstd::prelude::*;

verus! {

/// How many days the ledger is looked back over.
pub const LEDGER_WINDOW_DAYS: i64 = 30;

/// From when the ledger is looked at, as of `secs`.
pub open spec fn ledger_start(secs: i64) -> Option<Seq<char>> {
    match shifted(secs, -LEDGER_WINDOW_DAYS) {
        Some(t) => zulu_text(t),
        None => None,
    }
}

pub fn ledger_since(secs: i64) -> (r: Option<String>)
    ensures
        opt_text(r) == ledger_start(secs),
{
    match shift_days(secs, -LEDGER_WINDOW_DAYS) {
        Some(t) => zulu(t),
        None => None,
    }
}

// ---------------------------------------------------------------------------
// Statistics
// ---------------------------------------------------------------------------

/// What the ledger says of the cache.
#[derive(Debug, Clone, Copy, PartialEq, Eq)]
pub struct CacheSummary {
    pub hits: i64,
    pub requests: i64,
    /// The bits of a double.
    pub hit_rate: u64,
    pub saved_usd: Usd,
}

pub open spec fn summary_members(s: CacheSummary, o: Seq<(Seq<char>, JsonModel)>) -> Seq<
    (Seq<char>, JsonModel),
> {
    let o = with_entry(o, "hits"@, JsonModel::Int(s.hits as int));
    let o = with_entry(o, "requests"@, JsonModel::Int(s.requests as int));
    let o = with_entry(o, "hit_rate"@, real_or_null(s.hit_rate));
    with_entry(o, "saved_usd"@, real_or_null(s.saved_usd.bits))
}

fn with_summary(o: Json, s: &CacheSummary) -> (r: Json)
    requires
        o.wf(),
        o.model() is Obj,
    ensures
        r.wf(),
        r.model() == JsonModel::Obj(summary_members(*s, o.model()->Obj_0)),
{
    o.with("hits", json_int(s.hits)).with("requests", json_int(s.requests)).with(
        "hit_rate",
        json_real(s.hit_rate),
    ).with("saved_usd", json_real(s.saved_usd.bits))
}

pub open spec fn model_summary(model: Seq<char>, s: CacheSummary) -> JsonModel {
    JsonModel::Obj(summary_members(s, with_entry(Seq::empty(), "model"@, JsonModel::Str(model))))
}

pub open spec fn model_summaries(by_model: Seq<(String, CacheSummary)>) -> Seq<JsonModel> {
    Seq::new(by_model.len(), |i: int| model_summary(by_model[i].0@, by_model[i].1))
}

/// What the ledger says of the cache, in all and by model.
pub open spec fn ledger_object(
    since: Seq<char>,
    all: CacheSummary,
    by_model: Seq<(String, CacheSummary)>,
) -> JsonModel {
    let o = with_entry(Seq::empty(), "window_days"@, JsonModel::Int(LEDGER_WINDOW_DAYS as int));
    let o = with_entry(o, "since"@, JsonModel::Str(since));
    JsonModel::Obj(
        with_entry(summary_members(all, o), "by_model"@, JsonModel::Arr(model_summaries(by_model))),
    )
}

fn summarise_models(by_model: &Vec<(String, CacheSummary)>) -> (r: Json)
    ensures
        r.model() == JsonModel::Arr(model_summaries(by_model@)),
        r.wf(),
{
    let mut out: Vec<Json> = Vec::new();
    let mut i: usize = 0;
    while i < by_model.len()
        invariant
            i <= by_model@.len(),
            out@.len() == i,
            forall|k: int|
                0 <= k < i ==> (#[trigger] out@[k]).model() == model_summary(
                    by_model@[k].0@,
                    by_model@[k].1,
                ) && out@[k].wf(),
        decreases by_model@.len() - i,
    {
        let o = Json::object().with("model", Json::Str(by_model[i].0.clone()));
        out.push(with_summary(o, &by_model[i].1));
        i += 1;
    }
    proof {
        Json::lemma_array_wf(out);
        assert(list_models(out@) =~= model_summaries(by_model@));
    }
    Json::Arr(out)
}

/// The places of the models that were asked for at all.
pub open spec fn used_places(by_model: Seq<(String, CacheSummary)>) -> Seq<usize>
    decreases by_model.len(),
{
    if by_model.len() == 0 {
        Seq::empty()
    } else if by_model.last().1.requests > 0 {
        used_places(by_model.drop_last()).push((by_model.len() - 1) as usize)
    } else {
        used_places(by_model.drop_last())
    }
}

/// Which models the page shows: those that were asked for at all, in order.
pub fn used_models(by_model: &Vec<(String, CacheSummary)>) -> (r: Vec<usize>)
    ensures
        r@ == used_places(by_model@),
{
    let mut out: Vec<usize> = Vec::new();
    let mut i: usize = 0;
    while i < by_model.len()
        invariant
            i <= by_model@.len(),
            out@ == used_places(by_model@.take(i as int)),
        decreases by_model@.len() - i,
    {
        assert(by_model@.take(i + 1).drop_last() =~= by_model@.take(i as int));
        if by_model[i].1.requests > 0 {
            out.push(i);
        }
        i += 1;
    }
    assert(by_model@.take(i as int) =~= by_model@);
    out
}

/// The statistics: those of this process, and those of the ledger.
pub fn stats_body(
    live: Json,
    since: &str,
    all: &CacheSummary,
    by_model: &Vec<(String, CacheSummary)>,
) -> (r: Json)
    requires
        live.wf(),
    ensures
        r.wf(),
        r.model() == JsonModel::Obj(
            with_entry(
                with_entry(Seq::empty(), "live"@, live.model()),
                "ledger"@,
                ledger_object(since@, *all, by_model@),
            ),
        ),
{
    let head = Json::object().with("window_days", json_int(LEDGER_WINDOW_DAYS)).with(
        "since",
        Json::Str(since.to_owned()),
    );
    let ledger = with_summary(head, all).with("by_model", summarise_models(by_model));
    Json::object().with("live", live).with("ledger", ledger)
}

// ---------------------------------------------------------------------------
// Emptying the cache
// ---------------------------------------------------------------------------

#[derive(Debug, Clone, PartialEq, Eq)]
pub struct PurgeRequest {
    /// `all`, which is also meant where nothing is said, `model`, or `key`.
    pub scope: Option<String>,
    pub model: Option<String>,
    pub key: Option<String>,
}

#[derive(Debug, Clone, PartialEq, Eq)]
pub struct PurgeForm {
    pub scope: Option<String>,
    pub model: Option<String>,
    pub key: Option<String>,
}

#[derive(Debug, Clone, PartialEq, Eq)]
pub struct CachePageQuery {
    pub msg: Option<String>,
}

/// What is to be removed.
#[derive(Debug, Clone, PartialEq, Eq)]
pub enum Purge {
    All,
    Model(String),
    Key(String),
}

pub enum PurgeModel {
    All,
    Model(Seq<char>),
    Key(Seq<char>),
}

impl View for Purge {
    type V = PurgeModel;

    open spec fn view(&self) -> PurgeModel {
        match self {
            Purge::All => PurgeModel::All,
            Purge::Model(m) => PurgeModel::Model(m@),
            Purge::Key(k) => PurgeModel::Key(k@),
        }
    }
}

impl PurgeModel {
    /// It in words.
    pub open spec fn words(self) -> Seq<char> {
        match self {
            PurgeModel::All => "all"@,
            PurgeModel::Model(m) => "model:"@ + m,
            PurgeModel::Key(k) => "key:"@ + k,
        }
    }
}

impl Purge {
    /// It in words, as the answer and the audit log have it.
    pub fn describe(&self) -> (r: String)
        ensures
            r@ == self@.words(),
    {
        match self {
            Purge::All => "all".to_owned(),
            Purge::Model(m) => "model:".to_owned().concat(m.as_str()),
            Purge::Key(k) => "key:".to_owned().concat(k.as_str()),
        }
    }
}

/// What a request asks to remove, or why it cannot be served.
pub open spec fn purge_asked(
    scope: Option<Seq<char>>,
    model: Option<Seq<char>>,
    key: Option<Seq<char>>,
) -> Result<PurgeModel, Seq<char>> {
    let scope = match scope {
        Some(s) => s,
        None => "all"@,
    };
    if scope == "all"@ {
        Ok(PurgeModel::All)
    } else if scope == "model"@ {
        match model {
            Some(m) => if m.len() > 0 {
                Ok(PurgeModel::Model(m))
            } else {
                Err("scope=model requires a model"@)
            },
            None => Err("scope=model requires a model"@),
        }
    } else if scope == "key"@ {
        match key {
            Some(k) => if k.len() > 0 {
                Ok(PurgeModel::Key(k))
            } else {
                Err("scope=key requires a key"@)
            },
            None => Err("scope=key requires a key"@),
        }
    } else {
        Err("unknown purge scope: "@ + scope)
    }
}

impl PurgeRequest {
    pub fn check(&self) -> (r: Result<Purge, ApiError>)
        ensures
            match purge_asked(opt_text(self.scope), opt_text(self.model), opt_text(self.key)) {
                Ok(p) => r matches Ok(q) && q@ == p,
                Err(message) => r matches Err(ApiError::InvalidRequest(m)) && m@ == message,
            },
    {
        let scope = match &self.scope {
            Some(s) => s.as_str(),
            None => "all",
        };
        if same(scope, "all") {
            return Ok(Purge::All);
        }
        if same(scope, "model") {
            if let Some(m) = &self.model {
                if !m.as_str().is_empty() {
                    return Ok(Purge::Model(m.clone()));
                }
            }
            return Err(ApiError::InvalidRequest("scope=model requires a model".to_owned()));
        }
        if same(scope, "key") {
            if let Some(k) = &self.key {
                if !k.as_str().is_empty() {
                    return Ok(Purge::Key(k.clone()));
                }
            }
            return Err(ApiError::InvalidRequest("scope=key requires a key".to_owned()));
        }
        Err(ApiError::InvalidRequest("unknown purge scope: ".to_owned().concat(scope)))
    }
}

impl PurgeForm {
    /// The same, for the dashboard.
    pub fn check(self) -> (r: Result<Purge, DashboardError>)
        ensures
            match purge_asked(opt_text(self.scope), opt_text(self.model), opt_text(self.key)) {
                Ok(p) => r matches Ok(q) && q@ == p,
                Err(message) => r matches Err(DashboardError::BadRequest(m)) && m@
                    == "InvalidRequest("@ + quoted(message) + ")"@,
            },
    {
        let request = PurgeRequest { scope: self.scope, model: self.model, key: self.key };
        match request.check() {
            Ok(p) => Ok(p),
            Err(e) => match e {
                ApiError::InvalidRequest(m) => Err(
                    DashboardError::BadRequest(
                        "InvalidRequest(".to_owned().concat(quote(m.as_str()).as_str()).concat(")"),
                    ),
                ),
                _ => Err(DashboardError::Internal),
            },
        }
    }
}

pub open spec fn removed_words(removed: u64) -> Seq<char> {
    "removed:"@ + nat_text(removed as nat)
}

/// The audit line of emptying the cache through the API.
pub fn purged(session: &SuperAdminSession, purge: &Purge, removed: u64) -> (r: NewAuditLogEntry)
    ensures
        r@ == entry_of(session.0, "cache.purge"@, purge@.words(), Some(removed_words(removed))),
{
    entry(
        &session.0,
        "cache.purge",
        purge.describe(),
        Some("removed:".to_owned().concat(u64_text(removed).as_str())),
    )
}

/// The same, for the dashboard.
pub fn purged_page(session: &SuperDashboardSession, purge: &Purge, removed: u64) -> (r: NewAuditLogEntry)
    ensures
        r@ == entry_of(session.0, "cache.purge"@, purge@.words(), Some(removed_words(removed))),
{
    entry(
        &session.0,
        "cache.purge",
        purge.describe(),
        Some("removed:".to_owned().concat(u64_text(removed).as_str())),
    )
}

pub fn purged_body(purge: &Purge, removed: u64) -> (r: Json)
    ensures
        r.wf(),
        r.model() == JsonModel::Obj(
            with_entry(
                with_entry(Seq::empty(), "scope"@, JsonModel::Str(purge@.words())),
                "removed"@,
                JsonModel::Int(removed as int),
            ),
        ),
{
    Json::object().with("scope", Json::Str(purge.describe())).with("removed", Json::PosInt(removed))
}

/// Where the browser goes after the cache was emptied.
pub fn purged_location(removed: u64) -> (r: String)
    ensures
        r@ == "/admin/cache?msg=Purged%20"@ + nat_text(removed as nat) + "%20entries"@,
{
    "/admin/cache?msg=Purged%20".to_owned().concat(u64_text(removed).as_str()).concat("%20entries")
}

// ---------------------------------------------------------------------------
// The policy
// ---------------------------------------------------------------------------

/// The form of the policy. A box that is not ticked is not sent.
#[derive(Debug, Clone, PartialEq, Eq)]
pub struct PolicyForm {
    pub enabled: Option<String>,
    pub completions_enabled: Option<String>,
    pub search_enabled: Option<String>,
    /// The bits of a double.
    pub completions_max_temperature: Option<u64>,
    pub completions_ttl_seconds: Option<u64>,
    pub search_ttl_seconds: Option<u64>,
}

/// A change to the policy. What is absent stays.
#[derive(Debug, Clone, Copy, PartialEq, Eq)]
pub struct PolicyUpdate {
    pub enabled: Option<bool>,
    pub completions_enabled: Option<bool>,
    pub search_enabled: Option<bool>,
    pub completions_max_temperature: Option<u64>,
    pub completions_ttl_seconds: Option<u64>,
    pub search_ttl_seconds: Option<u64>,
}

impl PolicyForm {
    /// The change that the form asks for: each box is either ticked or not.
    pub fn update(&self) -> (r: PolicyUpdate)
        ensures
            r == (PolicyUpdate {
                enabled: Some(self.enabled is Some),
                completions_enabled: Some(self.completions_enabled is Some),
                search_enabled: Some(self.search_enabled is Some),
                completions_max_temperature: self.completions_max_temperature,
                completions_ttl_seconds: self.completions_ttl_seconds,
                search_ttl_seconds: self.search_ttl_seconds,
            }),
    {
        PolicyUpdate {
            enabled: Some(self.enabled.is_some()),
            completions_enabled: Some(self.completions_enabled.is_some()),
            search_enabled: Some(self.search_enabled.is_some()),
            completions_max_temperature: self.completions_max_temperature,
            completions_ttl_seconds: self.completions_ttl_seconds,
            search_ttl_seconds: self.search_ttl_seconds,
        }
    }
}

/// The audit line of a change to the policy through the API.
pub fn policy_changed(session: &SuperAdminSession, before: Option<String>, after: Option<String>) -> (r:
    NewAuditLogEntry)
    ensures
        r@ == change_of(
            session.0,
            "cache.policy_update"@,
            "cache"@,
            opt_text(before),
            opt_text(after),
        ),
{
    change(&session.0, "cache.policy_update", "cache".to_owned(), before, after)
}

/// The same, for the dashboard.
pub fn policy_changed_page(
    session: &SuperDashboardSession,
    before: Option<String>,
    after: Option<String>,
) -> (r: NewAuditLogEntry)
    ensures
        r@ == change_of(
            session.0,
            "cache.policy_update"@,
            "cache"@,
            opt_text(before),
            opt_text(after),
        ),
{
    change(&session.0, "cache.policy_update", "cache".to_owned(), before, after)
}

// ---------------------------------------------------------------------------
// Joining rows
// ---------------------------------------------------------------------------

pub open spec fn id_or_nothing(id: Option<i64>) -> Seq<char> {
    match id {
        Some(n) => int_text(n as int),
        None => Seq::empty(),
    }
}

pub open spec fn text_or_empty(s: Option<Seq<char>>) -> Seq<char> {
    match s {
        Some(t) => t,
        None => Seq::empty(),
    }
}

/// What a cost row and its cache aggregates have in common.
pub open spec fn row_key(
    user_id: i64,
    model: Seq<char>,
    project: Option<Seq<char>>,
    api_key_id: Option<i64>,
) -> Seq<char> {
    int_text(user_id as int) + "|"@ + model + "|"@ + text_or_empty(project) + "|"@ + id_or_nothing(
        api_key_id,
    )
}

/// The key by which a cost row is joined with its cache aggregates.
pub fn cost_row_key(
    user_id: i64,
    model: &str,
    project: Option<&str>,
    api_key_id: Option<i64>,
) -> (r: String)
    ensures
        r@ == row_key(user_id, model@, opt_str(project), api_key_id),
{
    let project = match project {
        Some(p) => p.to_owned(),
        None => String::new(),
    };
    let key = match api_key_id {
        Some(id) => i64_text(id),
        None => String::new(),
    };
    i64_text(user_id).concat("|").concat(model).concat("|").concat(project.as_str()).concat(
        "|",
    ).concat(key.as_str())
}

// ---------------------------------------------------------------------------
// Laws
// ---------------------------------------------------------------------------

pub open spec fn no_bar(s: Seq<char>) -> bool {
    in_one_piece(s, '|', '|')
}

proof fn lemma_number_has_no_bar(n: i64)
    ensures
        no_bar(int_text(n as int)),
        int_text(n as int).len() > 0,
{
    written_number_reads_back(n);
    let t = int_text(n as int);
    assert forall|i: int| 0 <= i < t.len() implies #[trigger] t[i] != '|' by {
        let d = without_sign(t);
        if signed(t) {
            if i > 0 {
                assert(d[i - 1] == t[i]);
            }
        } else {
            assert(d[i] == t[i]);
        }
    }
}

proof fn lemma_key_pieces(
    user_id: i64,
    model: Seq<char>,
    project: Option<Seq<char>>,
    api_key_id: Option<i64>,
)
    requires
        no_bar(model),
        no_bar(text_or_empty(project)),
    ensures
        pieces(row_key(user_id, model, project, api_key_id), '|', '|') == seq![
            int_text(user_id as int),
            model,
            text_or_empty(project),
            id_or_nothing(api_key_id),
        ],
{
    lemma_number_has_no_bar(user_id);
    if let Some(k) = api_key_id {
        lemma_number_has_no_bar(k);
    }
    let u = int_text(user_id as int);
    let p = text_or_empty(project);
    let k = id_or_nothing(api_key_id);
    reveal_strlit("|");
    assert("|"@ =~= seq!['|']);
    let one = u.push('|') + model;
    let two = one.push('|') + p;
    let three = two.push('|') + k;
    assert(u + "|"@ + model =~= one);
    assert(one + "|"@ + p =~= two);
    assert(two + "|"@ + k =~= three);
    last_piece(Seq::empty(), '|', '|', u);
    last_piece(u, '|', '|', model);
    last_piece(one, '|', '|', p);
    last_piece(two, '|', '|', k);
    assert(pieces(three, '|', '|') =~= seq![u, model, p, k]);
}

/// Two cost rows share a key only where they are of the same caller, model,
/// project and key, as long as no model and no project has a bar in its name.
pub proof fn cost_rows_join_uniquely(
    a: (i64, Seq<char>, Option<Seq<char>>, Option<i64>),
    b: (i64, Seq<char>, Option<Seq<char>>, Option<i64>),
)
    requires
        no_bar(a.1) && no_bar(b.1),
        no_bar(text_or_empty(a.2)) && no_bar(text_or_empty(b.2)),
        row_key(a.0, a.1, a.2, a.3) == row_key(b.0, b.1, b.2, b.3),
    ensures
        a.0 == b.0,
        a.1 == b.1,
        text_or_empty(a.2) == text_or_empty(b.2),
        a.3 == b.3,
{
    lemma_key_pieces(a.0, a.1, a.2, a.3);
    lemma_key_pieces(b.0, b.1, b.2, b.3);
    let x = seq![int_text(a.0 as int), a.1, text_or_empty(a.2), id_or_nothing(a.3)];
    let y = seq![int_text(b.0 as int), b.1, text_or_empty(b.2), id_or_nothing(b.3)];
    assert(x[0] == y[0] && x[1] == y[1] && x[2] == y[2] && x[3] == y[3]);
    written_number_reads_back(a.0);
    written_number_reads_back(b.0);
    if let Some(k) = a.3 {
        written_number_reads_back(k);
        lemma_number_has_no_bar(k);
    }
    if let Some(k) = b.3 {
        written_number_reads_back(k);
        lemma_number_has_no_bar(k);
    }
}

/// The cache is summed up under the names of its figures, for all models and for each, in
/// their order, over the days of the window.
pub proof fn summaries_tell_their_figures(
    since: Seq<char>,
    all: CacheSummary,
    by_model: Seq<(String, CacheSummary)>,
    i: int,
)
    ensures
        ledger_object(since, all, by_model).at("window_days"@) == JsonModel::Int(30),
        ledger_object(since, all, by_model).at("since"@) == JsonModel::Str(since),
        ledger_object(since, all, by_model).at("hits"@) == JsonModel::Int(all.hits as int),
        ledger_object(since, all, by_model).at("requests"@) == JsonModel::Int(all.requests as int),
        ledger_object(since, all, by_model).at("hit_rate"@) == real_or_null(all.hit_rate),
        ledger_object(since, all, by_model).at("saved_usd"@) == real_or_null(all.saved_usd.bits),
        ledger_object(since, all, by_model).at("by_model"@).items() matches Some(list) && list.len()
            == by_model.len(),
        0 <= i < by_model.len() ==> {
            let m = ledger_object(since, all, by_model).at("by_model"@).item(i);
            &&& m.at("model"@) == JsonModel::Str(by_model[i].0@)
            &&& m.at("hits"@) == JsonModel::Int(by_model[i].1.hits as int)
            &&& m.at("requests"@) == JsonModel::Int(by_model[i].1.requests as int)
            &&& m.at("hit_rate"@) == real_or_null(by_model[i].1.hit_rate)
            &&& m.at("saved_usd"@) == real_or_null(by_model[i].1.saved_usd.bits)
        },
{
    broadcast use {
        crate::ordered::entries_are_found,
        crate::ordered::nothing_is_found_in_nothing,
    };

    reveal_strlit("window_days");
    reveal_strlit("since");
    reveal_strlit("hits");
    reveal_strlit("requests");
    reveal_strlit("hit_rate");
    reveal_strlit("saved_usd");
    reveal_strlit("by_model");
    reveal_strlit("model");
    assert("window_days"@.len() == 11);
    assert("since"@.len() == 5 && "since"@[0] == 's');
    assert("hits"@.len() == 4);
    assert("requests"@.len() == 8 && "requests"@[0] == 'r');
    assert("hit_rate"@.len() == 8 && "hit_rate"@[0] == 'h');
    assert("saved_usd"@.len() == 9);
    assert("by_model"@.len() == 8 && "by_model"@[0] == 'b');
    assert("model"@.len() == 5 && "model"@[0] == 'm');
}

/// The models shown are those with requests, in their order.
pub proof fn used_models_are_shown_in_order(by_model: Seq<(String, CacheSummary)>)
    requires
        by_model.len() <= usize::MAX,
    ensures
        forall|j: int, k: int|
            0 <= j < k < used_places(by_model).len() ==> #[trigger] used_places(by_model)[j]
                < #[trigger] used_places(by_model)[k],
        forall|k: int|
            0 <= k < used_places(by_model).len() ==> (#[trigger] used_places(by_model)[k])
                < by_model.len() && by_model[used_places(by_model)[k] as int].1.requests > 0,
        forall|i: int|
            0 <= i < by_model.len() && by_model[i].1.requests > 0 ==> used_places(by_model).contains(
                #[trigger] place_of(i),
            ),
    decreases by_model.len(),
{
    if by_model.len() > 0 {
        let front = by_model.drop_last();
        let before = used_places(front);
        let all = used_places(by_model);
        let n = by_model.len() - 1;
        used_models_are_shown_in_order(front);
        assert(by_model[n] == by_model.last());
        assert forall|k: int| 0 <= k < all.len() implies (#[trigger] all[k]) < by_model.len()
            && by_model[all[k] as int].1.requests > 0 by {
            if k < before.len() {
                assert(all[k] == before[k]);
                assert(front[before[k] as int] == by_model[before[k] as int]);
            }
        }
        assert forall|j: int, k: int| 0 <= j < k < all.len() implies #[trigger] all[j]
            < #[trigger] all[k] by {
            assert(all[j] == before[j]);
            if k < before.len() {
                assert(all[k] == before[k]);
            }
        }
        assert forall|i: int| 0 <= i < by_model.len() && by_model[i].1.requests > 0 implies all.contains(
            #[trigger] place_of(i),
        ) by {
            if i < n {
                assert(front[i] == by_model[i]);
                assert(before.contains(place_of(i)));
                let k = choose|k: int| 0 <= k < before.len() && before[k] == place_of(i);
                assert(all[k] == place_of(i));
            } else {
                assert(all[before.len() as int] == place_of(i));
            }
        }
    }
}

/// A place in a list.
pub open spec fn place_of(i: int) -> usize {
    i as usize
}

/// A purge asks for everything, for a model or for a key; nothing said means everything, and
/// the model or key must be named.
pub proof fn purges_ask_for_what_they_name(s: Seq<char>, m: Option<Seq<char>>, k: Option<Seq<char>>, t: Seq<char>)
    ensures
        purge_asked(None, m, k) == Ok::<PurgeModel, Seq<char>>(PurgeModel::All),
        purge_asked(Some("all"@), m, k) == Ok::<PurgeModel, Seq<char>>(PurgeModel::All),
        t.len() > 0 ==> purge_asked(Some("model"@), Some(t), k) == Ok::<PurgeModel, Seq<char>>(
            PurgeModel::Model(t),
        ),
        t.len() > 0 ==> purge_asked(Some("key"@), m, Some(t)) == Ok::<PurgeModel, Seq<char>>(
            PurgeModel::Key(t),
        ),
        purge_asked(Some("model"@), None, k) is Err && purge_asked(Some("key"@), m, None) is Err,
        purge_asked(Some("model"@), Some(Seq::empty()), k) is Err,
        s != "all"@ && s != "model"@ && s != "key"@ ==> purge_asked(Some(s), m, k) == Err::<
            PurgeModel,
            Seq<char>,
        >("unknown purge scope: "@ + s),
        PurgeModel::All.words() == "all"@,
        PurgeModel::Model(t).words() == "model:"@ + t,
        PurgeModel::Key(t).words() == "key:"@ + t,
{
    reveal_strlit("all");
    reveal_strlit("model");
    reveal_strlit("key");
    assert("all"@.len() == 3 && "all"@[0] == 'a');
    assert("model"@.len() == 5);
    assert("key"@.len() == 3 && "key"@[0] == 'k');
}

/// A row of the ledger goes by its user, its model, its project and its key, in that order.
pub proof fn rows_go_by_four_names(user: i64, model: Seq<char>, project: Seq<char>, key: i64)
    ensures
        row_key(user, model, Some(project), Some(key)) == int_text(user as int) + "|"@ + model + "|"@
            + project + "|"@ + int_text(key as int),
        row_key(user, model, None, Some(key)) == row_key(user, model, Some(Seq::empty()), Some(key)),
        id_or_nothing(None) == Seq::<char>::empty(),
{
}

/// The ledger is read back thirty days, and a purge says how much it removed.
pub proof fn the_ledger_is_read_back_thirty_days(secs: i64, start: i64, n: u64)
    ensures
        start == secs - 30 * 86400 ==> ledger_start(secs) == zulu_text(start),
        removed_words(n) == "removed:"@ + nat_text(n as nat),
        Purge::All@ == PurgeModel::All,
{
}

} // verus!
