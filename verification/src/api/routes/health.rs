//! Liveness, and deep health: one minimal call per capability along the normal
//! routing path.
//!
//! A cache that is down is not unhealthy: requests are served live.

use crate::api::error::Unavailable;
use crate::api::routes::proxy::{find_unit_price, unit_price, PricingEntry};
use crate::api::routes::search::{engine_model, DEFAULT_COST_BITS};
use crate::json::{assigned, json_int, json_text_or_null, text_or_null, Json, JsonModel};
use crate::ordered::with_entry;
use crate::records::{NewCostLedgerEntry, Usd};
use crate::text::opt_text;
use vstd::prelude::*;

verus! {

/// The state of the response cache, where it is on.
#[derive(Debug, Clone, PartialEq, Eq)]
pub struct CacheState {
    pub backend: String,
    pub connected: bool,
    pub namespace: String,
    /// Counted only while connected.
    pub entries: u64,
}

pub open spec fn cache_object(c: CacheState) -> JsonModel {
    let o = with_entry(Seq::empty(), "backend"@, JsonModel::Str(c.backend@));
    let o = with_entry(o, "connected"@, JsonModel::Bool(c.connected));
    let o = with_entry(o, "namespace"@, JsonModel::Str(c.namespace@));
    JsonModel::Obj(
        with_entry(
            o,
            "entries"@,
            JsonModel::Int(
                if c.connected {
                    c.entries as int
                } else {
                    0
                },
            ),
        ),
    )
}

pub fn cache_json(c: &CacheState) -> (r: Json)
    ensures
        r.model() == cache_object(*c),
        r.wf(),
{
    let entries: u64 = if c.connected {
        c.entries
    } else {
        0
    };
    Json::object().with("backend", Json::Str(c.backend.clone())).with(
        "connected",
        Json::Bool(c.connected),
    ).with("namespace", Json::Str(c.namespace.clone())).with("entries", Json::PosInt(entries))
}

/// The body of the liveness probe. A cache that is switched off is a choice and
/// not reported.
pub open spec fn health_body(cache: Option<CacheState>) -> JsonModel {
    let b = with_entry(Seq::empty(), "status"@, JsonModel::Str("ok"@));
    JsonModel::Obj(
        match cache {
            Some(c) => with_entry(b, "cache"@, cache_object(c)),
            None => b,
        },
    )
}

pub fn health_check(cache: &Option<CacheState>) -> (r: Json)
    ensures
        r.model() == health_body(*cache),
        r.wf(),
{
    let body = Json::object().with("status", Json::Str("ok".to_owned()));
    match cache {
        Some(c) => body.with("cache", cache_json(c)),
        None => body,
    }
}

// ---------------------------------------------------------------------------
// One capability
// ---------------------------------------------------------------------------

/// How a capability fares.
#[derive(Debug, Clone, Copy, PartialEq, Eq, Structural)]
pub enum Health {
    Working,
    Failed,
    /// Not set up on this gateway.
    Skipped,
}

#[derive(Debug, PartialEq, Eq)]
pub struct CapabilityReport {
    pub status: Health,
    pub target: String,
    pub latency_ms: i64,
    pub error: Option<String>,
}

pub open spec fn health_text(h: Health) -> Seq<char> {
    match h {
        Health::Working => "ok"@,
        Health::Failed => "failed"@,
        Health::Skipped => "skipped"@,
    }
}

impl Health {
    pub fn as_str(&self) -> (r: &'static str)
        ensures
            r@ == health_text(*self),
    {
        match self {
            Health::Working => "ok",
            Health::Failed => "failed",
            Health::Skipped => "skipped",
        }
    }
}

pub open spec fn report_object(c: CapabilityReport) -> JsonModel {
    let o = with_entry(Seq::empty(), "status"@, JsonModel::Str(health_text(c.status)));
    let o = with_entry(o, "target"@, JsonModel::Str(c.target@));
    let o = with_entry(o, "latency_ms"@, JsonModel::Int(c.latency_ms as int));
    JsonModel::Obj(with_entry(o, "error"@, text_or_null(opt_text(c.error))))
}

impl CapabilityReport {
    pub fn ok(target: String, latency_ms: i64) -> (r: CapabilityReport)
        ensures
            r == (CapabilityReport { status: Health::Working, target, latency_ms, error: None }),
    {
        CapabilityReport { status: Health::Working, target, latency_ms, error: None }
    }

    pub fn failed(target: String, latency_ms: i64, error: String) -> (r: CapabilityReport)
        ensures
            r == (CapabilityReport {
                status: Health::Failed,
                target,
                latency_ms,
                error: Some(error),
            }),
    {
        CapabilityReport { status: Health::Failed, target, latency_ms, error: Some(error) }
    }

    pub fn skipped(target: String, reason: String) -> (r: CapabilityReport)
        ensures
            r == (CapabilityReport {
                status: Health::Skipped,
                target,
                latency_ms: 0,
                error: Some(reason),
            }),
    {
        CapabilityReport { status: Health::Skipped, target, latency_ms: 0, error: Some(reason) }
    }

    pub fn to_json(&self) -> (r: Json)
        ensures
            r.model() == report_object(*self),
            r.wf(),
    {
        Json::object().with("status", Json::Str(self.status.as_str().to_owned())).with(
            "target",
            Json::Str(self.target.clone()),
        ).with("latency_ms", json_int(self.latency_ms)).with(
            "error",
            json_text_or_null(&self.error),
        )
    }
}

/// The target of a probe, by provider and model.
pub fn probe_target(provider: &str, model: &str) -> (r: String)
    ensures
        r@ == provider@ + "/"@ + model@,
{
    let mut t = provider.to_owned();
    t.append("/");
    t.append(model);
    t
}

/// Whether a capability can be probed. No adapter and no configuration means
/// that it is simply not set up; an adapter that cannot be built for a
/// configured provider is a fault, and so is a disabled model.
pub fn before_probe(
    target: String,
    adapter: Result<(), String>,
    provider_configured: bool,
    what: &str,
    disabled: Option<Unavailable>,
) -> (r: Result<String, CapabilityReport>)
    ensures
        match adapter {
            Err(msg) => if provider_configured {
                r == Err::<String, CapabilityReport>(
                    CapabilityReport {
                        status: Health::Failed,
                        target,
                        latency_ms: 0,
                        error: Some(msg),
                    },
                )
            } else {
                r matches Err(c) && c.status == Health::Skipped && c.target == target
                    && c.latency_ms == 0 && opt_text(c.error) == Some(
                    "no "@ + what@ + " configured: "@ + msg@,
                )
            },
            Ok(_) => match disabled {
                Some(u) => r == Err::<String, CapabilityReport>(
                    CapabilityReport {
                        status: Health::Failed,
                        target,
                        latency_ms: 0,
                        error: Some(u.0),
                    },
                ),
                None => r == Ok::<String, CapabilityReport>(target),
            },
        },
{
    match adapter {
        Err(msg) => {
            if provider_configured {
                return Err(CapabilityReport::failed(target, 0, msg));
            }
            let mut reason = "no ".to_owned();
            reason.append(what);
            reason.append(" configured: ");
            reason.append(msg.as_str());
            Err(CapabilityReport::skipped(target, reason))
        },
        Ok(_) => match disabled {
            Some(u) => Err(CapabilityReport::failed(target, 0, u.0)),
            None => Ok(target),
        },
    }
}

/// What a probe came to.
pub fn after_probe(target: String, latency_ms: i64, result: Result<(), String>) -> (r:
    CapabilityReport)
    ensures
        r == match result {
            Ok(_) => CapabilityReport { status: Health::Working, target, latency_ms, error: None },
            Err(msg) => CapabilityReport {
                status: Health::Failed,
                target,
                latency_ms,
                error: Some(msg),
            },
        },
{
    match result {
        Ok(_) => CapabilityReport::ok(target, latency_ms),
        Err(msg) => CapabilityReport::failed(target, latency_ms, msg),
    }
}

// ---------------------------------------------------------------------------
// The whole
// ---------------------------------------------------------------------------

pub open spec fn one_if(b: bool) -> int {
    if b {
        1
    } else {
        0
    }
}

/// The overall status: fine while nothing failed, failed once everything that is
/// set up did, degraded in between.
pub open spec fn overall(a: Health, b: Health, c: Health) -> Seq<char> {
    let failed = one_if(a == Health::Failed) + one_if(b == Health::Failed) + one_if(
        c == Health::Failed,
    );
    let configured = one_if(a != Health::Skipped) + one_if(b != Health::Skipped) + one_if(
        c != Health::Skipped,
    );
    if failed == 0 {
        "ok"@
    } else if failed == configured {
        "failed"@
    } else {
        "degraded"@
    }
}

fn bit(b: bool) -> (r: u8)
    ensures
        r == one_if(b),
{
    if b {
        1
    } else {
        0
    }
}

pub fn overall_status(a: Health, b: Health, c: Health) -> (r: &'static str)
    ensures
        r@ == overall(a, b, c),
{
    let failed: u8 = bit(a == Health::Failed) + bit(b == Health::Failed) + bit(c == Health::Failed);
    let configured: u8 = bit(a != Health::Skipped) + bit(b != Health::Skipped) + bit(
        c != Health::Skipped,
    );
    if failed == 0 {
        "ok"
    } else if failed == configured {
        "failed"
    } else {
        "degraded"
    }
}

/// The body of the deep probe.
pub open spec fn deep_body(
    llm: CapabilityReport,
    embedding: CapabilityReport,
    search: CapabilityReport,
    checked_at: i64,
    cache: Option<CacheState>,
) -> JsonModel {
    let caps = with_entry(Seq::empty(), "llm"@, report_object(llm));
    let caps = with_entry(caps, "embedding"@, report_object(embedding));
    let caps = with_entry(caps, "search"@, report_object(search));
    let b = with_entry(
        Seq::empty(),
        "status"@,
        JsonModel::Str(overall(llm.status, embedding.status, search.status)),
    );
    let b = with_entry(b, "capabilities"@, JsonModel::Obj(caps));
    let b = with_entry(b, "checked_at"@, JsonModel::Int(checked_at as int));
    let b = with_entry(b, "cached"@, JsonModel::Bool(false));
    JsonModel::Obj(
        match cache {
            Some(c) => with_entry(b, "cache"@, cache_object(c)),
            None => b,
        },
    )
}

pub fn deep_health(
    llm: &CapabilityReport,
    embedding: &CapabilityReport,
    search: &CapabilityReport,
    checked_at: i64,
    cache: &Option<CacheState>,
) -> (r: Json)
    ensures
        r.model() == deep_body(*llm, *embedding, *search, checked_at, *cache),
        r.wf(),
{
    let caps = Json::object().with("llm", llm.to_json()).with("embedding", embedding.to_json()).with(
        "search",
        search.to_json(),
    );
    let status = overall_status(llm.status, embedding.status, search.status);
    let body = Json::object().with("status", Json::Str(status.to_owned())).with(
        "capabilities",
        caps,
    ).with("checked_at", json_int(checked_at)).with("cached", Json::Bool(false));
    match cache {
        Some(c) => body.with("cache", cache_json(c)),
        None => body,
    }
}

/// Whether an earlier result still stands: for at least a second, so that polling
/// cannot burn provider quota.
pub fn still_fresh(age_nanos: u64, ttl_seconds: u64) -> (r: bool)
    ensures
        r == ((age_nanos as int) < 1_000_000_000 * (if ttl_seconds > 1 {
            ttl_seconds as int
        } else {
            1
        })),
{
    let ttl: u64 = if ttl_seconds > 1 {
        ttl_seconds
    } else {
        1
    };
    (age_nanos as u128) < 1_000_000_000u128 * (ttl as u128)
}

/// An earlier result, marked as such.
pub fn mark_cached(body: Json) -> (r: Json)
    requires
        body.wf(),
        body.model() is Obj,
    ensures
        r.model() == assigned(body.model(), "cached"@, JsonModel::Bool(true)),
        r.wf(),
{
    body.assign("cached", Json::Bool(true))
}

// ---------------------------------------------------------------------------
// What probes cost
// ---------------------------------------------------------------------------

/// The user that probes are charged to, so that their spend is visible and
/// separable.
pub const PROBE_USER: &'static str = "health-probe";

/// The price of a search probe: as for any other query.
pub fn search_probe_cost(pricing: &Vec<PricingEntry>, engine: &str) -> (r: Usd)
    ensures
        r == unit_price(pricing@, engine_model(engine@), (Usd { bits: DEFAULT_COST_BITS })),
{
    let name = "search/".to_owned().concat(engine);
    find_unit_price(pricing, name.as_str(), Usd { bits: DEFAULT_COST_BITS })
}

/// The ledger row of a probe: a real provider call like any other.
pub fn probe_row(
    user_id: i64,
    model: String,
    provider: String,
    tokens_in: i64,
    tokens_out: i64,
    cost_usd: Usd,
) -> (r: NewCostLedgerEntry)
    ensures
        r.user_id == user_id,
        r.prompt_id is None,
        r.model == model,
        r.provider == provider,
        opt_text(r.project) == Some(PROBE_USER@),
        r.tokens_in == tokens_in,
        r.tokens_out == tokens_out,
        r.cost_usd == cost_usd,
        r.api_key_id is None,
        r.attribution_correlation_id is None,
        r.attribution_tags@ == "[]"@,
        r.experiment_id is None,
        r.experiment_variant is None,
        !r.tokens_estimated,
{
    NewCostLedgerEntry {
        user_id,
        prompt_id: None,
        model,
        provider,
        project: Some(PROBE_USER.to_owned()),
        tokens_in,
        tokens_out,
        cost_usd,
        api_key_id: None,
        attribution_correlation_id: None,
        attribution_tags: "[]".to_owned(),
        experiment_id: None,
        experiment_variant: None,
        tokens_estimated: false,
    }
}

// ---------------------------------------------------------------------------
// Laws
// ---------------------------------------------------------------------------

/// What is not set up counts for nothing: the gateway is fine unless something that
/// is set up failed, has failed once all that is set up did, and is degraded in
/// between.
pub proof fn skipped_capabilities_do_not_count(a: Health, b: Health, c: Health)
    ensures
        ({
            let some_failed = a == Health::Failed || b == Health::Failed || c == Health::Failed;
            let all_failed = (a == Health::Failed || a == Health::Skipped) && (b == Health::Failed
                || b == Health::Skipped) && (c == Health::Failed || c == Health::Skipped);
            overall(a, b, c) == if !some_failed {
                "ok"@
            } else if all_failed {
                "failed"@
            } else {
                "degraded"@
            }
        }),
{
}

/// A report tells of its capability under the names of its parts, and of the cache only what
/// was counted while it was connected.
pub proof fn reports_tell_of_their_capability(c: CapabilityReport, s: CacheState)
    ensures
        report_object(c).at("status"@) == JsonModel::Str(health_text(c.status)),
        report_object(c).at("target"@) == JsonModel::Str(c.target@),
        report_object(c).at("latency_ms"@) == JsonModel::Int(c.latency_ms as int),
        report_object(c).at("error"@) == match c.error {
            Some(e) => JsonModel::Str(e@),
            None => JsonModel::Null,
        },
        cache_object(s).at("backend"@) == JsonModel::Str(s.backend@),
        cache_object(s).at("connected"@) == JsonModel::Bool(s.connected),
        cache_object(s).at("namespace"@) == JsonModel::Str(s.namespace@),
        s.connected ==> cache_object(s).at("entries"@) == JsonModel::Int(s.entries as int),
        !s.connected ==> cache_object(s).at("entries"@) == JsonModel::Int(0),
        health_body(Some(s)).at("cache"@) == cache_object(s),
        health_body(Some(s)).at("status"@) == JsonModel::Str("ok"@),
        health_body(None).at("status"@) == JsonModel::Str("ok"@),
        health_body(None).field("cache"@) is None,
{
    broadcast use {
        crate::ordered::entries_are_found,
        crate::ordered::nothing_is_found_in_nothing,
    };

    reveal_strlit("status");
    reveal_strlit("target");
    reveal_strlit("latency_ms");
    reveal_strlit("error");
    reveal_strlit("backend");
    reveal_strlit("connected");
    reveal_strlit("namespace");
    reveal_strlit("entries");
    reveal_strlit("cache");
    assert("status"@.len() == 6 && "status"@[0] == 's');
    assert("target"@.len() == 6 && "target"@[0] == 't');
    assert("latency_ms"@.len() == 10);
    assert("error"@.len() == 5 && "error"@[0] == 'e');
    assert("backend"@.len() == 7 && "backend"@[0] == 'b');
    assert("connected"@.len() == 9 && "connected"@[0] == 'c');
    assert("namespace"@.len() == 9 && "namespace"@[0] == 'n');
    assert("entries"@.len() == 7 && "entries"@[0] == 'e');
    assert("cache"@.len() == 5 && "cache"@[0] == 'c');
}

/// The gateway is well where nothing failed, down where everything that is set up failed, and
/// degraded in between.
pub proof fn the_whole_follows_its_parts(a: Health, b: Health, c: Health)
    ensures
        overall(a, b, c) == "ok"@ <==> a != Health::Failed && b != Health::Failed && c != Health::Failed,
        overall(a, b, c) == "failed"@ <==> (a == Health::Failed || b == Health::Failed || c
            == Health::Failed) && (a == Health::Failed || a == Health::Skipped) && (b == Health::Failed || b
            == Health::Skipped) && (c == Health::Failed || c == Health::Skipped),
        overall(a, b, c) == "degraded"@ <==> (a == Health::Failed || b == Health::Failed || c
            == Health::Failed) && (a == Health::Working || b == Health::Working || c == Health::Working),
        health_text(a) == "ok"@ <==> a == Health::Working,
        health_text(a) == "failed"@ <==> a == Health::Failed,
        health_text(a) == "skipped"@ <==> a == Health::Skipped,
{
    reveal_strlit("ok");
    reveal_strlit("failed");
    reveal_strlit("degraded");
    reveal_strlit("skipped");
    assert("ok"@.len() == 2);
    assert("failed"@.len() == 6);
    assert("degraded"@.len() == 8);
    assert("skipped"@.len() == 7);
}

/// The deep check reports each capability under its own name.
pub proof fn deep_checks_report_each_capability(
    llm: CapabilityReport,
    embedding: CapabilityReport,
    search: CapabilityReport,
    checked_at: i64,
    cache: Option<CacheState>,
)
    ensures
        deep_body(llm, embedding, search, checked_at, cache).at("capabilities"@).at("llm"@)
            == report_object(llm),
        deep_body(llm, embedding, search, checked_at, cache).at("capabilities"@).at("embedding"@)
            == report_object(embedding),
        deep_body(llm, embedding, search, checked_at, cache).at("capabilities"@).at("search"@)
            == report_object(search),
        deep_body(llm, embedding, search, checked_at, cache).at("status"@) == JsonModel::Str(
            overall(llm.status, embedding.status, search.status),
        ),
        deep_body(llm, embedding, search, checked_at, cache).at("checked_at"@) == JsonModel::Int(
            checked_at as int,
        ),
        deep_body(llm, embedding, search, checked_at, cache).at("cached"@) == JsonModel::Bool(false),
        cache matches Some(c) ==> deep_body(llm, embedding, search, checked_at, cache).at("cache"@)
            == cache_object(c),
{
    broadcast use {
        crate::ordered::entries_are_found,
        crate::ordered::nothing_is_found_in_nothing,
    };

    reveal_strlit("capabilities");
    reveal_strlit("llm");
    reveal_strlit("embedding");
    reveal_strlit("search");
    reveal_strlit("status");
    reveal_strlit("checked_at");
    reveal_strlit("cached");
    reveal_strlit("cache");
    assert("capabilities"@.len() == 12);
    assert("llm"@.len() == 3);
    assert("embedding"@.len() == 9);
    assert("search"@.len() == 6 && "search"@[1] == 'e');
    assert("status"@.len() == 6 && "status"@[1] == 't');
    assert("checked_at"@.len() == 10);
    assert("cached"@.len() == 6 && "cached"@[1] == 'a');
    assert("cache"@.len() == 5);
}

} // verus!
