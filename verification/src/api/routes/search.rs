//! Web search through a configured engine.

use crate::api::attribution::{extracted, Attribution};
use crate::api::error::{ApiError, BindError};
use crate::api::routes::audio::{member_text, text_or};
use crate::api::routes::gate::{
    is_denial, is_invalid, is_provider_error, pass_policy, reject_experiment_header, PolicyDecision,
};
use crate::api::routes::proxy::{find_unit_price, plain_call, unit_price, PricingEntry};
use crate::api::routes::usage::{is_ledger_of, Call, LedgerWrite, Payer};
use crate::json::{
    assigned, finite_bits, json_int, json_real, list_models, real_or_null, Json, JsonModel,
};
use crate::ordered::with_entry;
use crate::records::{Usd, User};
use crate::text::{as_count, join, joined, nat_text, opt_text, texts, to_count, trim, trimmed, u64_text};
use axum::http::{HeaderMap, HeaderValue};
use vstd::prelude::*;

verus! {

/// The price of a query where none is configured: 0.005 dollars, as the bits of
/// a double.
pub const DEFAULT_COST_BITS: u64 = 0x3f747ae147ae147b;

/// Bounds the work of one request.
pub const MAX_RESULTS_LIMIT: u32 = 20;

// ---------------------------------------------------------------------------
// The request
// ---------------------------------------------------------------------------

/// A text without the white space around it, where there is anything left.
pub open spec fn stated_text(s: Option<Seq<char>>) -> Option<Seq<char>> {
    match s {
        Some(t) => if trimmed(t).len() > 0 {
            Some(trimmed(t))
        } else {
            None
        },
        None => None,
    }
}

fn non_blank(s: Option<&str>) -> (r: Option<String>)
    ensures
        opt_text(r) == stated_text(crate::text::opt_str(s)),
{
    match s {
        Some(t) => {
            let v = trim(t);
            if v.is_empty() {
                None
            } else {
                Some(v.to_owned())
            }
        },
        None => None,
    }
}

/// The engine that serves a request: the one it names, or else the operator's
/// default, or else the only one that is configured. With several to choose from
/// and no default the request is refused rather than guessed at.
pub open spec fn chosen_engine(
    requested: Option<Seq<char>>,
    default_engine: Option<Seq<char>>,
    configured: Seq<Seq<char>>,
) -> Result<Seq<char>, Seq<char>> {
    match stated_text(requested) {
        Some(e) => Ok(e),
        None => match stated_text(default_engine) {
            Some(e) => Ok(e),
            None => if configured.len() == 1 {
                Ok(configured[0])
            } else if configured.len() == 0 {
                Err(
                    "no search engine configured: add a [providers.<engine>] section (supported: tavily, vertex) to config.toml"@,
                )
            } else {
                Err(
                    "request omitted `engine` and multiple search engines are configured ("@ + joined(
                        configured,
                        ", "@,
                    ) + "); send `engine` explicitly or set [routing] default_search_engine"@,
                )
            },
        },
    }
}

pub fn resolve_engine(
    requested: Option<&str>,
    default_engine: Option<&str>,
    configured: &Vec<String>,
) -> (r: Result<String, ApiError>)
    ensures
        match chosen_engine(
            crate::text::opt_str(requested),
            crate::text::opt_str(default_engine),
            texts(configured@),
        ) {
            Ok(engine) => r matches Ok(s) && s@ == engine,
            Err(msg) => r matches Err(e) && is_invalid(e, msg),
        },
{
    if let Some(e) = non_blank(requested) {
        return Ok(e);
    }
    if let Some(e) = non_blank(default_engine) {
        return Ok(e);
    }
    assert(texts(configured@).len() == configured@.len());
    if configured.len() == 1 {
        assert(texts(configured@)[0] == configured@[0]@);
        return Ok(configured[0].clone());
    }
    if configured.len() == 0 {
        return Err(
            ApiError::InvalidRequest(
                "no search engine configured: add a [providers.<engine>] section (supported: tavily, vertex) to config.toml".to_owned(),
            ),
        );
    }
    let mut msg = "request omitted `engine` and multiple search engines are configured (".to_owned();
    msg.append(join(configured, ", ").as_str());
    msg.append("); send `engine` explicitly or set [routing] default_search_engine");
    Err(ApiError::InvalidRequest(msg))
}

/// How many results are asked for: between one and the limit, or left open.
pub open spec fn stated_max_results(body: JsonModel) -> Result<Option<u32>, Seq<char>> {
    match body.at("max_results"@).unsigned() {
        None => Ok(None),
        Some(n) => if n == 0 {
            Err("max_results must be at least 1"@)
        } else if n > MAX_RESULTS_LIMIT {
            Err("max_results must be at most "@ + nat_text(MAX_RESULTS_LIMIT as nat))
        } else {
            Ok(Some(n as u32))
        },
    }
}

pub fn parse_max_results(body: &Json) -> (r: Result<Option<u32>, ApiError>)
    ensures
        match stated_max_results(body.model()) {
            Ok(n) => r == Ok::<Option<u32>, ApiError>(n),
            Err(msg) => r matches Err(e) && is_invalid(e, msg),
        },
{
    let n: u64 = match body.get("max_results") {
        Some(v) => match v.as_u64() {
            Some(n) => n,
            None => {
                return Ok(None);
            },
        },
        None => {
            return Ok(None);
        },
    };
    if n == 0 {
        return Err(ApiError::InvalidRequest("max_results must be at least 1".to_owned()));
    }
    if n > MAX_RESULTS_LIMIT as u64 {
        return Err(
            ApiError::InvalidRequest(
                "max_results must be at most ".to_owned().concat(
                    u64_text(MAX_RESULTS_LIMIT as u64).as_str(),
                ),
            ),
        );
    }
    Ok(Some(n as u32))
}

/// The pseudo-model under which an engine is allowed, budgeted and priced.
pub open spec fn engine_model(engine: Seq<char>) -> Seq<char> {
    "search/"@ + engine
}

// ---------------------------------------------------------------------------
// The flow
// ---------------------------------------------------------------------------

/// What the request waits for.
#[derive(Debug, Clone, Copy, PartialEq, Eq, Structural)]
pub enum SearchPhase {
    Engine,
    Policy,
    CacheRules,
    CacheLookup,
    Adapter,
    Upstream,
    Ended,
}

/// What the driver is to do.
#[derive(Debug, PartialEq, Eq)]
pub enum SearchAction {
    /// Is this engine one that the router can speak to?
    CheckEngine { engine: String },
    CheckPolicy { model: String },
    /// Is the cache on for the user and the pseudo-model, and for searches?
    CheckCacheRules { model: String },
    LookUpCache { engine: String, query: String, max_results: Option<u32> },
    ServeCached,
    FindAdapter { engine: String },
    /// Search. The answer is kept in the cache where it was looked up there.
    Search { engine: String, query: String, max_results: Option<u32>, keep: bool },
    Fail(ApiError),
}

/// One search.
#[derive(Debug, PartialEq, Eq)]
pub struct SearchFlow {
    pub attribution: Attribution,
    pub query: String,
    pub max_results: Option<u32>,
    pub engine: String,
    /// The pseudo-model.
    pub model: String,
    pub supported: bool,
    pub admitted: bool,
    pub looked_up: bool,
    pub phase: SearchPhase,
}

pub open spec fn failure(a: SearchAction) -> Option<ApiError> {
    match a {
        SearchAction::Fail(e) => Some(e),
        _ => None,
    }
}

pub open spec fn finds_adapter(a: SearchAction, engine: Seq<char>) -> bool {
    a matches SearchAction::FindAdapter { engine: e } && e@ == engine
}

impl SearchFlow {
    /// No engine is called that the router cannot speak to or the policy
    /// forbids.
    pub open spec fn wf(&self) -> bool {
        &&& self.model@ == engine_model(self.engine@)
        &&& trimmed(self.query@).len() > 0
        &&& self.phase != SearchPhase::Engine && self.phase != SearchPhase::Ended
            ==> self.supported
        &&& self.phase != SearchPhase::Engine && self.phase != SearchPhase::Policy && self.phase
            != SearchPhase::Ended ==> self.admitted
    }

    pub open spec fn goes_on(&self, next: SearchFlow, action: SearchAction) -> bool {
        &&& next.wf()
        &&& next.attribution == self.attribution
        &&& next.query == self.query
        &&& next.max_results == self.max_results
        &&& next.engine == self.engine
        &&& next.model == self.model
        &&& action is Fail || action is ServeCached <==> next.phase == SearchPhase::Ended
        &&& action is Search <==> next.phase == SearchPhase::Upstream
    }

    pub fn begin(
        refusal: Option<BindError>,
        headers: &HeaderMap<HeaderValue>,
        body: &Json,
        default_engine: Option<&str>,
        configured: &Vec<String>,
    ) -> (r: Result<(SearchFlow, SearchAction), ApiError>)
        requires
            body.wf(),
        ensures
            ({
                let b = body.model();
                let query = text_or(b, "query"@, ""@);
                let engine = chosen_engine(
                    b.at("engine"@).text(),
                    crate::text::opt_str(default_engine),
                    texts(configured@),
                );
                match refusal {
                    Some(err) => r matches Err(e) && is_invalid(e, err.0@),
                    None => match extracted(b, *headers) {
                        Err(msg) => r matches Err(e) && is_invalid(e, msg),
                        Ok(a) => if trimmed(query).len() == 0 {
                            r matches Err(e) && is_invalid(e, "query must not be empty"@)
                        } else {
                            match stated_max_results(b) {
                                Err(msg) => r matches Err(e) && is_invalid(e, msg),
                                Ok(n) => match engine {
                                    Err(msg) => r matches Err(e) && is_invalid(e, msg),
                                    Ok(name) => {
                                        &&& r matches Ok((flow, action))
                                        &&& flow.wf()
                                        &&& flow.attribution@ == a
                                        &&& flow.query@ == query
                                        &&& flow.max_results == n
                                        &&& flow.engine@ == name
                                        &&& !flow.looked_up
                                        &&& flow.phase == SearchPhase::Engine
                                        &&& action matches SearchAction::CheckEngine { engine: e }
                                            && e@ == name
                                    },
                                },
                            }
                        },
                    },
                }
            }),
    {
        match reject_experiment_header(refusal) {
            Err(e) => {
                return Err(e);
            },
            Ok(_) => {},
        }
        let attribution = match Attribution::extract(body, headers) {
            Ok(a) => a,
            Err(e) => {
                return Err(ApiError::InvalidRequest(e.0));
            },
        };
        let query = member_text(body, "query", "");
        if trim(query.as_str()).is_empty() {
            return Err(ApiError::InvalidRequest("query must not be empty".to_owned()));
        }
        let max_results = match parse_max_results(body) {
            Ok(n) => n,
            Err(e) => {
                return Err(e);
            },
        };
        let requested = match body.get("engine") {
            Some(v) => v.as_str(),
            None => None,
        };
        let engine = match resolve_engine(requested, default_engine, configured) {
            Ok(engine) => engine,
            Err(e) => {
                return Err(e);
            },
        };
        let model = "search/".to_owned().concat(engine.as_str());
        let action = SearchAction::CheckEngine { engine: engine.clone() };
        let flow = SearchFlow {
            attribution,
            query,
            max_results,
            engine,
            model,
            supported: false,
            admitted: false,
            looked_up: false,
            phase: SearchPhase::Engine,
        };
        Ok((flow, action))
    }

    pub fn on_engine(&mut self, supported: bool) -> (r: SearchAction)
        requires
            old(self).wf(),
            old(self).phase == SearchPhase::Engine,
        ensures
            old(self).goes_on(*final(self), r),
            final(self).looked_up == old(self).looked_up,
            supported ==> final(self).phase == SearchPhase::Policy && (
            r matches SearchAction::CheckPolicy { model } && model@ == old(self).model@),
            !supported ==> (failure(r) matches Some(e) && is_invalid(
                e,
                "unsupported search engine: "@ + old(self).engine@,
            )),
    {
        if !supported {
            self.phase = SearchPhase::Ended;
            return SearchAction::Fail(
                ApiError::InvalidRequest(
                    "unsupported search engine: ".to_owned().concat(self.engine.as_str()),
                ),
            );
        }
        self.supported = true;
        self.phase = SearchPhase::Policy;
        SearchAction::CheckPolicy { model: self.model.clone() }
    }

    pub fn on_policy(&mut self, asked: Result<PolicyDecision, String>) -> (r: SearchAction)
        requires
            old(self).wf(),
            old(self).phase == SearchPhase::Policy,
        ensures
            old(self).goes_on(*final(self), r),
            final(self).looked_up == old(self).looked_up,
            match asked {
                Err(_) => failure(r) == Some(ApiError::Internal),
                Ok(PolicyDecision::Deny { reason, status, .. }) => failure(r) matches Some(e)
                    && is_denial(e, reason@, status),
                Ok(PolicyDecision::Allow { .. }) => final(self).phase == SearchPhase::CacheRules
                    && (r matches SearchAction::CheckCacheRules { model } && model@
                    == old(self).model@),
            },
    {
        match pass_policy(asked) {
            Err(e) => {
                self.phase = SearchPhase::Ended;
                SearchAction::Fail(e)
            },
            Ok(_) => {
                self.admitted = true;
                self.phase = SearchPhase::CacheRules;
                SearchAction::CheckCacheRules { model: self.model.clone() }
            },
        }
    }

    pub fn on_cache_rules(&mut self, enabled: bool, eligible: bool) -> (r: SearchAction)
        requires
            old(self).wf(),
            old(self).phase == SearchPhase::CacheRules,
        ensures
            old(self).goes_on(*final(self), r),
            enabled && eligible ==> {
                &&& final(self).looked_up
                &&& final(self).phase == SearchPhase::CacheLookup
                &&& r matches SearchAction::LookUpCache { engine, query, max_results } && engine@
                    == old(self).engine@ && query@ == old(self).query@ && max_results
                    == old(self).max_results
            },
            !(enabled && eligible) ==> {
                &&& final(self).looked_up == old(self).looked_up
                &&& final(self).phase == SearchPhase::Adapter
                &&& finds_adapter(r, old(self).engine@)
            },
    {
        if enabled && eligible {
            self.looked_up = true;
            self.phase = SearchPhase::CacheLookup;
            SearchAction::LookUpCache {
                engine: self.engine.clone(),
                query: self.query.clone(),
                max_results: self.max_results,
            }
        } else {
            self.phase = SearchPhase::Adapter;
            SearchAction::FindAdapter { engine: self.engine.clone() }
        }
    }

    pub fn on_cached(&mut self, hit: bool) -> (r: SearchAction)
        requires
            old(self).wf(),
            old(self).phase == SearchPhase::CacheLookup,
        ensures
            old(self).goes_on(*final(self), r),
            final(self).looked_up == old(self).looked_up,
            hit ==> r is ServeCached,
            !hit ==> final(self).phase == SearchPhase::Adapter && finds_adapter(
                r,
                old(self).engine@,
            ),
    {
        if hit {
            self.phase = SearchPhase::Ended;
            SearchAction::ServeCached
        } else {
            self.phase = SearchPhase::Adapter;
            SearchAction::FindAdapter { engine: self.engine.clone() }
        }
    }

    pub fn on_adapter(&mut self, found: Result<(), String>) -> (r: SearchAction)
        requires
            old(self).wf(),
            old(self).phase == SearchPhase::Adapter,
        ensures
            old(self).goes_on(*final(self), r),
            final(self).looked_up == old(self).looked_up,
            match found {
                Err(msg) => failure(r) matches Some(e) && is_provider_error(e, msg@),
                Ok(_) => r matches SearchAction::Search { engine, query, max_results, keep }
                    && engine@ == old(self).engine@ && query@ == old(self).query@ && max_results
                    == old(self).max_results && keep == old(self).looked_up,
            },
    {
        match found {
            Err(msg) => {
                self.phase = SearchPhase::Ended;
                SearchAction::Fail(ApiError::ProviderError(msg))
            },
            Ok(_) => {
                self.phase = SearchPhase::Upstream;
                SearchAction::Search {
                    engine: self.engine.clone(),
                    query: self.query.clone(),
                    max_results: self.max_results,
                    keep: self.looked_up,
                }
            },
        }
    }

    /// The price of a query: the pseudo-model's, or else the default.
    pub fn price(&self, pricing: &Vec<PricingEntry>) -> (r: Usd)
        ensures
            r == unit_price(pricing@, self.model@, (Usd { bits: DEFAULT_COST_BITS })),
    {
        find_unit_price(pricing, self.model.as_str(), Usd { bits: DEFAULT_COST_BITS })
    }

    /// The call that a search is charged as: as many units as it found.
    pub fn call(&self, user: &User, results: i64, cost_usd: Usd, latency_ms: Option<i64>) -> (r:
        Call)
        ensures
            r.payer.pays_for(*user, self.attribution),
            r.request_model@ == self.model@,
            r.model@ == self.model@,
            r.provider@ == self.engine@,
            r.messages@ == "[]"@,
            r.response is None,
            r.finish_reason is None,
            r.prompt_tokens == results,
            r.completion_tokens == 0,
            r.cache_read_tokens == 0,
            r.cache_write_tokens == 0,
            !r.tokens_estimated,
            r.cost_usd == cost_usd,
            r.latency_ms == latency_ms,
            r.ttft_ms is None,
            r.attempts is None,
    {
        plain_call(
            Payer::new(user, &self.attribution),
            self.model.clone(),
            self.engine.clone(),
            self.model.clone(),
            results,
            0,
            cost_usd,
            latency_ms,
        )
    }

    /// The ledger row of a search that the cache answered: what it would have
    /// cost is a saving, and no prompt is stored.
    pub fn cache_hit(&self, user: &User, results: i64, avoided_cost: Usd) -> (r: LedgerWrite)
        ensures
            r matches LedgerWrite::CacheHit(e) && exists|c: Call|
                is_ledger_of(e, c, None) && c.payer.pays_for(*user, self.attribution) && c.model@
                    == self.model@ && c.provider@ == self.engine@ && c.prompt_tokens == results
                    && c.completion_tokens == 0 && c.cost_usd == avoided_cost
                    && !c.tokens_estimated,
    {
        let call = self.call(user, results, avoided_cost, None);
        let row = call.ledger_row(None);
        assert(is_ledger_of(row, call, None));
        LedgerWrite::CacheHit(row)
    }
}

// ---------------------------------------------------------------------------
// The answer
// ---------------------------------------------------------------------------

/// How many results a cached answer holds.
pub open spec fn results_in(payload: JsonModel) -> i64 {
    match payload.at("results"@).items() {
        Some(items) => as_count(items.len()),
        None => 0,
    }
}

pub fn count_results(payload: &Json) -> (r: i64)
    ensures
        r == results_in(payload.model()),
{
    if let Some(v) = payload.get("results") {
        if let Some(items) = v.as_array() {
            assert(list_models(items@).len() == items@.len());
            return to_count(items.len());
        }
    }
    0
}

/// The usage of a cached answer: nothing was spent, and this much saved.
pub open spec fn hit_usage(results: i64, saved: Usd) -> JsonModel {
    let u = with_entry(Seq::empty(), "results"@, JsonModel::Int(results as int));
    let u = with_entry(u, "cost_usd"@, JsonModel::Float(0));
    let u = with_entry(u, "cache_hit"@, JsonModel::Bool(true));
    JsonModel::Obj(with_entry(u, "saved_usd"@, real_or_null(saved.bits)))
}

/// The answer from the cache, with its own usage.
pub fn cached_payload(payload: Json, cost: Usd) -> (r: Json)
    requires
        payload.wf(),
        payload.model() is Obj || payload.model() is Null,
    ensures
        r.model() == assigned(
            payload.model(),
            "usage"@,
            hit_usage(results_in(payload.model()), cost),
        ),
        r.wf(),
{
    let results: i64 = count_results(&payload);
    let usage = Json::object().with("results", json_int(results)).with(
        "cost_usd",
        Json::Float(0),
    ).with("cache_hit", Json::Bool(true)).with("saved_usd", json_real(cost.bits));
    payload.assign("usage", usage)
}

pub open spec fn miss_usage(results: i64, cost: Usd) -> JsonModel {
    let u = with_entry(Seq::empty(), "results"@, JsonModel::Int(results as int));
    JsonModel::Obj(with_entry(u, "cost_usd"@, real_or_null(cost.bits)))
}

/// The answer of an engine.
pub open spec fn search_body(
    engine: Seq<char>,
    results: Seq<JsonModel>,
    cost: Usd,
) -> JsonModel {
    let b = with_entry(Seq::empty(), "engine"@, JsonModel::Str(engine));
    let b = with_entry(b, "results"@, JsonModel::Arr(results));
    JsonModel::Obj(with_entry(b, "usage"@, miss_usage(as_count(results.len()), cost)))
}

/// Builds the answer.
pub fn search_payload(engine: String, results: Vec<Json>, cost: Usd) -> (r: Json)
    requires
        forall|i: int| 0 <= i < results@.len() ==> (#[trigger] results@[i]).wf(),
    ensures
        r.model() == search_body(engine@, list_models(results@), cost),
        r.wf(),
{
    let n: i64 = to_count(results.len());
    let usage = Json::object().with("results", json_int(n)).with("cost_usd", json_real(cost.bits));
    let ghost all = list_models(results@);
    let list = Json::Arr(results);
    proof {
        Json::lemma_arr(results);
        assert forall|i: int| 0 <= i < all.len() implies (#[trigger] all[i]).wf() by {
            assert(results@[i].wf());
        }
    }
    Json::object().with("engine", Json::Str(engine)).with("results", list).with("usage", usage)
}

// ---------------------------------------------------------------------------
// Laws
// ---------------------------------------------------------------------------

/// A request that names an engine gets that engine, whatever is configured.
pub proof fn named_engine_wins(
    requested: Seq<char>,
    default_engine: Option<Seq<char>>,
    configured: Seq<Seq<char>>,
)
    requires
        trimmed(requested).len() > 0,
    ensures
        chosen_engine(Some(requested), default_engine, configured) == Ok::<Seq<char>, Seq<char>>(
            trimmed(requested),
        ),
{
}

/// A sole configured engine serves every request that names none and meets no
/// default.
pub proof fn sole_engine_serves(only: Seq<char>)
    ensures
        chosen_engine(None, None, seq![only]) == Ok::<Seq<char>, Seq<char>>(only),
{
}

/// The answer of a search names the engine, holds its results in order and says how many
/// there are and what they cost.
pub proof fn search_answers_tell_results_and_cost(
    engine: Seq<char>,
    results: Seq<JsonModel>,
    cost: Usd,
    answer: JsonModel,
)
    requires
        answer == search_body(engine, results, cost),
        results.len() <= i64::MAX,
    ensures
        answer.at("engine"@) == JsonModel::Str(engine),
        answer.at("results"@) == JsonModel::Arr(results),
        answer.at("usage"@).at("results"@) == JsonModel::Int(results.len() as int),
        finite_bits(cost.bits) ==> answer.at("usage"@).at("cost_usd"@) == JsonModel::Float(cost.bits),
        answer.at("usage"@).field("cache_hit"@) is None,
        answer.at("usage"@).field("saved_usd"@) is None,
{
    broadcast use {
        crate::ordered::entries_are_found,
        crate::ordered::nothing_is_found_in_nothing,
    };

    reveal_strlit("engine");
    reveal_strlit("results");
    reveal_strlit("usage");
    reveal_strlit("cost_usd");
    reveal_strlit("cache_hit");
    reveal_strlit("saved_usd");
    assert("engine"@.len() == 6);
    assert("results"@.len() == 7);
    assert("usage"@.len() == 5);
    assert("cost_usd"@.len() == 8);
    assert("cache_hit"@.len() == 9 && "cache_hit"@[0] == 'c');
    assert("saved_usd"@.len() == 9 && "saved_usd"@[0] == 's');
}

/// An answer from the cache is the stored one with another usage: nothing was spent, and
/// what the search would have cost was saved.
pub proof fn cached_searches_cost_nothing(payload: JsonModel, cost: Usd, answer: JsonModel, other: Seq<char>)
    requires
        payload is Obj,
        answer == assigned(payload, "usage"@, hit_usage(results_in(payload), cost)),
    ensures
        answer.at("usage"@).at("cost_usd"@) == JsonModel::Float(0),
        answer.at("usage"@).at("cache_hit"@) == JsonModel::Bool(true),
        finite_bits(cost.bits) ==> answer.at("usage"@).at("saved_usd"@) == JsonModel::Float(cost.bits),
        payload.at("results"@) matches JsonModel::Arr(items) ==> (items.len() <= i64::MAX ==> answer.at(
            "usage"@,
        ).at("results"@) == JsonModel::Int(items.len() as int)),
        !(payload.at("results"@) is Arr) ==> answer.at("usage"@).at("results"@) == JsonModel::Int(0),
        other != "usage"@ ==> answer.field(other) == payload.field(other),
{
    broadcast use {
        crate::ordered::entries_are_found,
        crate::ordered::nothing_is_found_in_nothing,
    };

    reveal_strlit("usage");
    reveal_strlit("cost_usd");
    reveal_strlit("cache_hit");
    reveal_strlit("saved_usd");
    reveal_strlit("results");
    assert("usage"@.len() == 5);
    assert("cost_usd"@.len() == 8);
    assert("cache_hit"@.len() == 9 && "cache_hit"@[0] == 'c');
    assert("saved_usd"@.len() == 9 && "saved_usd"@[0] == 's');
    assert("results"@.len() == 7);
}

/// The engine is the one that the request names, else the default, else the only one that
/// is set up; with none or several the caller must choose.
pub proof fn engines_are_chosen_in_turn(
    requested: Option<Seq<char>>,
    default_engine: Option<Seq<char>>,
    configured: Seq<Seq<char>>,
)
    ensures
        requested matches Some(e) ==> (trimmed(e).len() > 0 ==> chosen_engine(
            requested,
            default_engine,
            configured,
        ) == Ok::<Seq<char>, Seq<char>>(trimmed(e))),
        requested is None ==> (default_engine matches Some(d) ==> (trimmed(d).len() > 0 ==> chosen_engine(
            requested,
            default_engine,
            configured,
        ) == Ok::<Seq<char>, Seq<char>>(trimmed(d)))),
        requested is None && default_engine is None ==> (chosen_engine(requested, default_engine, configured)
            is Ok <==> configured.len() == 1),
        requested is None && default_engine is None && configured.len() == 1 ==> chosen_engine(
            requested,
            default_engine,
            configured,
        ) == Ok::<Seq<char>, Seq<char>>(configured[0]),
{
}

/// A request may ask for one to twenty results; without a number the engine decides.
pub proof fn the_number_of_results_is_bounded(body: JsonModel)
    ensures
        body.at("max_results"@) matches JsonModel::Int(n) ==> (1 <= n <= 20 ==> stated_max_results(body)
            == Ok::<Option<u32>, Seq<char>>(Some(n as u32))) && (n == 0 || 20 < n <= u64::MAX
            ==> stated_max_results(body) is Err),
        !(body.at("max_results"@) is Int) ==> stated_max_results(body) == Ok::<Option<u32>, Seq<char>>(
            None,
        ),
{
}

/// Searches are priced under a name of their own, which tells the engines apart.
pub proof fn engines_have_their_own_price(a: Seq<char>, b: Seq<char>)
    ensures
        engine_model(a).take(7) == "search/"@,
        engine_model(a).skip(7) == a,
        engine_model(a) == engine_model(b) ==> a == b,
{
    reveal_strlit("search/");
    assert(engine_model(a).take(7) =~= "search/"@);
    assert(engine_model(a).skip(7) =~= a);
    assert(engine_model(b).skip(7) =~= b);
}

/// A step of the flow keeps who is charged, the question, the number of results and the
/// engine; it ends where it fails or serves from the cache, and searches where it goes
/// upstream.
pub proof fn steps_keep_the_question(f: SearchFlow, next: SearchFlow, a: SearchAction, e: Seq<char>)
    ensures
        f.goes_on(next, a) ==> next.attribution == f.attribution && next.query == f.query
            && next.max_results == f.max_results && next.engine == f.engine && next.model == f.model,
        f.goes_on(next, a) ==> (a is Fail || a is ServeCached <==> next.phase == SearchPhase::Ended),
        f.goes_on(next, a) ==> (a is Search <==> next.phase == SearchPhase::Upstream),
        f.goes_on(next, a) && next.phase == SearchPhase::Upstream ==> next.admitted && next.supported,
        f.goes_on(next, a) ==> next.model@ == "search/"@ + next.engine@,
        finds_adapter(a, e) <==> (a matches SearchAction::FindAdapter { engine } && engine@ == e),
{
}

} // verus!
