//! The router's own account of one priced call, returned beside the usage of an
//! answer as `x_router`. Every figure is the one that was written to the ledger
//! for the same request.

use crate::json::{assigned, json_int, json_real, real_or_null, Json, JsonModel};
use crate::ordered::with_entry;
use crate::records::Usd;
use vstd::prelude::*;

verus! {

/// What one call cost.
#[derive(Debug, Clone, Copy, PartialEq, Eq, Structural)]
pub struct CallCost {
    pub cost_usd: Usd,
    /// Served from the response cache: nothing was spent.
    pub cache_hit: bool,
    pub saved_usd: Option<Usd>,
}

impl CallCost {
    /// A call that reached a provider.
    pub fn spent(cost_usd: Usd) -> (r: CallCost)
        ensures
            r == (CallCost { cost_usd, cache_hit: false, saved_usd: None }),
    {
        CallCost { cost_usd, cache_hit: false, saved_usd: None }
    }

    /// A hit in the response cache: nothing spent, this much saved.
    pub fn cache_hit(avoided: Usd) -> (r: CallCost)
        ensures
            r == (CallCost {
                cost_usd: Usd::zero_spec(),
                cache_hit: true,
                saved_usd: Some(avoided),
            }),
    {
        CallCost { cost_usd: Usd::zero(), cache_hit: true, saved_usd: Some(avoided) }
    }

    /// The usage with the cost in it: always what it cost, and only on a hit that
    /// it was one and what it saved.
    pub open spec fn written(&self, usage: JsonModel) -> JsonModel {
        let u = assigned(usage, "cost_usd"@, real_or_null(self.cost_usd.bits));
        let u = if self.cache_hit {
            assigned(u, "cache_hit"@, JsonModel::Bool(true))
        } else {
            u
        };
        match self.saved_usd {
            Some(s) => assigned(u, "saved_usd"@, real_or_null(s.bits)),
            None => u,
        }
    }

    /// Writes the cost into a usage object.
    pub fn write_into(&self, usage: Json) -> (r: Json)
        requires
            usage.wf(),
            usage.model() is Obj || usage.model() is Null,
        ensures
            r.model() == self.written(usage.model()),
            r.wf(),
    {
        let mut u = usage.assign("cost_usd", json_real(self.cost_usd.bits));
        if self.cache_hit {
            u = u.assign("cache_hit", Json::Bool(true));
        }
        if let Some(s) = self.saved_usd {
            u = u.assign("saved_usd", json_real(s.bits));
        }
        u
    }

    pub open spec fn object(&self) -> JsonModel {
        let o = with_entry(Seq::empty(), "cost_usd"@, real_or_null(self.cost_usd.bits));
        let o = with_entry(o, "cache_hit"@, JsonModel::Bool(self.cache_hit));
        JsonModel::Obj(
            match self.saved_usd {
                Some(s) => with_entry(o, "saved_usd"@, real_or_null(s.bits)),
                None => o,
            },
        )
    }

    pub fn to_json(&self) -> (r: Json)
        ensures
            r.model() == self.object(),
            r.wf(),
    {
        let o = Json::object().with("cost_usd", json_real(self.cost_usd.bits)).with(
            "cache_hit",
            Json::Bool(self.cache_hit),
        );
        match self.saved_usd {
            Some(s) => o.with("saved_usd", json_real(s.bits)),
            None => o,
        }
    }
}

/// The tokens of one call.
#[derive(Debug, Clone, Copy, PartialEq, Eq, Structural)]
pub struct TokenMeta {
    /// The whole prompt, with what came from the provider's cache.
    pub prompt: u32,
    pub completion: u32,
    pub total: u32,
    pub cache_read: u32,
    pub cache_write: u32,
    /// Reasoning tokens, where the provider reported them.
    pub reasoning: Option<u32>,
    /// The counts are the router's estimate.
    pub estimated: bool,
}

pub open spec fn count_or_null(n: Option<u32>) -> JsonModel {
    match n {
        Some(n) => JsonModel::Int(n as int),
        None => JsonModel::Null,
    }
}

impl TokenMeta {
    pub fn new(prompt: u32, completion: u32) -> (r: TokenMeta)
        requires
            prompt + completion <= u32::MAX,
        ensures
            r.prompt == prompt,
            r.completion == completion,
            r.total == prompt + completion,
            r.cache_read == 0,
            r.cache_write == 0,
            r.reasoning is None,
            !r.estimated,
    {
        TokenMeta {
            prompt,
            completion,
            total: prompt + completion,
            cache_read: 0,
            cache_write: 0,
            reasoning: None,
            estimated: false,
        }
    }

    pub open spec fn object(&self) -> JsonModel {
        let o = with_entry(Seq::empty(), "prompt"@, JsonModel::Int(self.prompt as int));
        let o = with_entry(o, "completion"@, JsonModel::Int(self.completion as int));
        let o = with_entry(o, "total"@, JsonModel::Int(self.total as int));
        let o = with_entry(o, "cache_read"@, JsonModel::Int(self.cache_read as int));
        let o = with_entry(o, "cache_write"@, JsonModel::Int(self.cache_write as int));
        let o = with_entry(o, "reasoning"@, count_or_null(self.reasoning));
        JsonModel::Obj(with_entry(o, "estimated"@, JsonModel::Bool(self.estimated)))
    }

    pub fn to_json(&self) -> (r: Json)
        ensures
            r.model() == self.object(),
            r.wf(),
    {
        let reasoning = match self.reasoning {
            Some(n) => Json::PosInt(n as u64),
            None => Json::Null,
        };
        Json::object().with("prompt", Json::PosInt(self.prompt as u64)).with(
            "completion",
            Json::PosInt(self.completion as u64),
        ).with("total", Json::PosInt(self.total as u64)).with(
            "cache_read",
            Json::PosInt(self.cache_read as u64),
        ).with("cache_write", Json::PosInt(self.cache_write as u64)).with(
            "reasoning",
            reasoning,
        ).with("estimated", Json::Bool(self.estimated))
    }
}

/// Where the time went.
#[derive(Debug, Clone, Copy, PartialEq, Eq, Structural)]
pub struct TimingMeta {
    /// From the request to its answer.
    pub total_ms: i64,
    /// From dispatch to completion, with retries and fallbacks. 0 on a cache
    /// hit.
    pub latency_ms: i64,
    /// The provider call that answered. None on a cache hit.
    pub provider_ms: Option<i64>,
    /// The time to the first token, where it was measured.
    pub ttft_ms: Option<i64>,
    /// Provider calls made. 0 on a hit.
    pub attempts: i64,
    /// Hops along the fallback chain.
    pub fallbacks: i64,
}

pub open spec fn int_or_null(n: Option<i64>) -> JsonModel {
    match n {
        Some(n) => JsonModel::Int(n as int),
        None => JsonModel::Null,
    }
}

fn json_int_or_null(n: Option<i64>) -> (r: Json)
    ensures
        r.model() == int_or_null(n),
        r.wf(),
{
    match n {
        Some(n) => json_int(n),
        None => Json::Null,
    }
}

impl TimingMeta {
    pub open spec fn object(&self) -> JsonModel {
        let o = with_entry(Seq::empty(), "total_ms"@, JsonModel::Int(self.total_ms as int));
        let o = with_entry(o, "latency_ms"@, JsonModel::Int(self.latency_ms as int));
        let o = with_entry(o, "provider_ms"@, int_or_null(self.provider_ms));
        let o = with_entry(o, "ttft_ms"@, int_or_null(self.ttft_ms));
        let o = with_entry(o, "attempts"@, JsonModel::Int(self.attempts as int));
        JsonModel::Obj(with_entry(o, "fallbacks"@, JsonModel::Int(self.fallbacks as int)))
    }

    pub fn to_json(&self) -> (r: Json)
        ensures
            r.model() == self.object(),
            r.wf(),
    {
        Json::object().with("total_ms", json_int(self.total_ms)).with(
            "latency_ms",
            json_int(self.latency_ms),
        ).with("provider_ms", json_int_or_null(self.provider_ms)).with(
            "ttft_ms",
            json_int_or_null(self.ttft_ms),
        ).with("attempts", json_int(self.attempts)).with("fallbacks", json_int(self.fallbacks))
    }
}

/// The `x_router` object.
#[derive(Debug, PartialEq, Eq)]
pub struct RouterMeta {
    /// The name that the caller sent.
    pub requested_model: String,
    /// The model that answered.
    pub model: String,
    /// The provider that answered.
    pub provider: String,
    /// The settings that the provider was sent.
    pub settings: Json,
    /// Tokens, of completions and embeddings.
    pub tokens: Option<TokenMeta>,
    /// Results, of searches.
    pub results: Option<i64>,
    pub cost: CallCost,
    pub timing: TimingMeta,
}

impl RouterMeta {
    pub open spec fn wf(&self) -> bool {
        self.settings.wf()
    }

    /// Tokens and results stand in the object only where there are any.
    pub open spec fn object(&self) -> JsonModel {
        let o = with_entry(
            Seq::empty(),
            "requested_model"@,
            JsonModel::Str(self.requested_model@),
        );
        let o = with_entry(o, "model"@, JsonModel::Str(self.model@));
        let o = with_entry(o, "provider"@, JsonModel::Str(self.provider@));
        let o = with_entry(o, "settings"@, self.settings.model());
        let o = match self.tokens {
            Some(t) => with_entry(o, "tokens"@, t.object()),
            None => o,
        };
        let o = match self.results {
            Some(n) => with_entry(o, "results"@, JsonModel::Int(n as int)),
            None => o,
        };
        let o = with_entry(o, "cost"@, self.cost.object());
        JsonModel::Obj(with_entry(o, "timing"@, self.timing.object()))
    }

    pub fn to_value(&self) -> (r: Json)
        requires
            self.wf(),
        ensures
            r.model() == self.object(),
            r.wf(),
    {
        let mut o = Json::object().with(
            "requested_model",
            Json::Str(self.requested_model.clone()),
        ).with("model", Json::Str(self.model.clone())).with(
            "provider",
            Json::Str(self.provider.clone()),
        ).with("settings", self.settings.copied());
        if let Some(t) = &self.tokens {
            o = o.with("tokens", t.to_json());
        }
        if let Some(n) = self.results {
            o = o.with("results", json_int(n));
        }
        o.with("cost", self.cost.to_json()).with("timing", self.timing.to_json())
    }

    /// Puts the account into the body of an answer.
    pub fn attach(&self, body: Json) -> (r: Json)
        requires
            self.wf(),
            body.wf(),
            body.model() is Obj || body.model() is Null,
        ensures
            r.model() == assigned(body.model(), "x_router"@, self.object()),
            r.wf(),
    {
        body.assign("x_router", self.to_value())
    }

    /// Prices the body of an answer: the cost goes into its usage, and the account
    /// beside it.
    pub fn price(&self, body: Json) -> (r: Json)
        requires
            self.wf(),
            body.wf(),
            body.model() is Obj,
            body.model().at("usage"@) is Obj || body.model().at("usage"@) is Null,
        ensures
            r.model() == priced(body.model(), *self),
            r.wf(),
    {
        let usage = match body.get("usage") {
            Some(u) => {
                proof {
                    Json::lemma_field_wf(body.model(), "usage"@);
                }
                u.copied()
            },
            None => Json::Null,
        };
        let usage = self.cost.write_into(usage);
        self.attach(body.assign("usage", usage))
    }
}

/// A priced answer.
pub open spec fn priced(body: JsonModel, meta: RouterMeta) -> JsonModel {
    assigned(
        assigned(body, "usage"@, meta.cost.written(body.at("usage"@))),
        "x_router"@,
        meta.object(),
    )
}

/// Costs, tokens and timings are told under their own names.
pub proof fn figures_are_told_by_name(c: CallCost, t: TokenMeta, w: TimingMeta)
    ensures
        c.object().at("cost_usd"@) == real_or_null(c.cost_usd.bits),
        c.object().at("cache_hit"@) == JsonModel::Bool(c.cache_hit),
        c.saved_usd matches Some(s) ==> c.object().at("saved_usd"@) == real_or_null(s.bits),
        c.saved_usd is None ==> c.object().field("saved_usd"@) is None,
        t.object().at("prompt"@) == JsonModel::Int(t.prompt as int),
        t.object().at("completion"@) == JsonModel::Int(t.completion as int),
        t.object().at("total"@) == JsonModel::Int(t.total as int),
        t.object().at("cache_read"@) == JsonModel::Int(t.cache_read as int),
        t.object().at("cache_write"@) == JsonModel::Int(t.cache_write as int),
        t.object().at("reasoning"@) == match t.reasoning {
            Some(n) => JsonModel::Int(n as int),
            None => JsonModel::Null,
        },
        t.object().at("estimated"@) == JsonModel::Bool(t.estimated),
        w.object().at("total_ms"@) == JsonModel::Int(w.total_ms as int),
        w.object().at("latency_ms"@) == JsonModel::Int(w.latency_ms as int),
        w.object().at("provider_ms"@) == match w.provider_ms {
            Some(n) => JsonModel::Int(n as int),
            None => JsonModel::Null,
        },
        w.object().at("ttft_ms"@) == match w.ttft_ms {
            Some(n) => JsonModel::Int(n as int),
            None => JsonModel::Null,
        },
        w.object().at("attempts"@) == JsonModel::Int(w.attempts as int),
        w.object().at("fallbacks"@) == JsonModel::Int(w.fallbacks as int),
{
    broadcast use {
        crate::ordered::entries_are_found,
        crate::ordered::nothing_is_found_in_nothing,
    };

    reveal_strlit("cost_usd");
    reveal_strlit("cache_hit");
    reveal_strlit("saved_usd");
    reveal_strlit("prompt");
    reveal_strlit("completion");
    reveal_strlit("total");
    reveal_strlit("cache_read");
    reveal_strlit("cache_write");
    reveal_strlit("reasoning");
    reveal_strlit("estimated");
    reveal_strlit("total_ms");
    reveal_strlit("latency_ms");
    reveal_strlit("provider_ms");
    reveal_strlit("ttft_ms");
    reveal_strlit("attempts");
    reveal_strlit("fallbacks");
    assert("cost_usd"@.len() == 8 && "cost_usd"@[0] == 'c');
    assert("cache_hit"@.len() == 9 && "cache_hit"@[0] == 'c');
    assert("saved_usd"@.len() == 9 && "saved_usd"@[0] == 's');
    assert("prompt"@.len() == 6);
    assert("completion"@.len() == 10 && "completion"@[2] == 'm');
    assert("total"@.len() == 5);
    assert("cache_read"@.len() == 10 && "cache_read"@[2] == 'c');
    assert("cache_write"@.len() == 11 && "cache_write"@[0] == 'c');
    assert("reasoning"@.len() == 9 && "reasoning"@[0] == 'r');
    assert("estimated"@.len() == 9 && "estimated"@[0] == 'e');
    assert("total_ms"@.len() == 8 && "total_ms"@[0] == 't');
    assert("latency_ms"@.len() == 10 && "latency_ms"@[2] == 't');
    assert("provider_ms"@.len() == 11 && "provider_ms"@[0] == 'p');
    assert("ttft_ms"@.len() == 7);
    assert("attempts"@.len() == 8 && "attempts"@[0] == 'a');
    assert("fallbacks"@.len() == 9 && "fallbacks"@[0] == 'f');
}

/// What the router says of a call names what was asked for and what answered, each under its
/// own name, and tells of tokens and results only where there are any.
pub proof fn the_router_names_what_answered(m: RouterMeta)
    ensures
        m.object().at("requested_model"@) == JsonModel::Str(m.requested_model@),
        m.object().at("model"@) == JsonModel::Str(m.model@),
        m.object().at("provider"@) == JsonModel::Str(m.provider@),
        m.object().at("settings"@) == m.settings.model(),
        m.object().at("cost"@) == m.cost.object(),
        m.object().at("timing"@) == m.timing.object(),
        m.tokens matches Some(t) ==> m.object().at("tokens"@) == t.object(),
        m.tokens is None ==> m.object().field("tokens"@) is None,
        m.results matches Some(n) ==> m.object().at("results"@) == JsonModel::Int(n as int),
        m.results is None ==> m.object().field("results"@) is None,
{
    broadcast use {
        crate::ordered::entries_are_found,
        crate::ordered::nothing_is_found_in_nothing,
    };

    reveal_strlit("requested_model");
    reveal_strlit("model");
    reveal_strlit("provider");
    reveal_strlit("settings");
    reveal_strlit("cost");
    reveal_strlit("timing");
    reveal_strlit("tokens");
    reveal_strlit("results");
    assert("requested_model"@.len() == 15);
    assert("model"@.len() == 5);
    assert("provider"@.len() == 8 && "provider"@[0] == 'p');
    assert("settings"@.len() == 8 && "settings"@[0] == 's');
    assert("cost"@.len() == 4);
    assert("timing"@.len() == 6 && "timing"@[1] == 'i');
    assert("tokens"@.len() == 6 && "tokens"@[1] == 'o');
    assert("results"@.len() == 7);
}

/// A cost is written into the usage beside what is there: every other member reads as before.
pub proof fn costs_stand_beside_the_usage(c: CallCost, usage: JsonModel, other: Seq<char>)
    requires
        usage is Obj || usage is Null,
    ensures
        c.written(usage).at("cost_usd"@) == real_or_null(c.cost_usd.bits),
        c.cache_hit ==> c.written(usage).at("cache_hit"@) == JsonModel::Bool(true),
        c.saved_usd matches Some(s) ==> c.written(usage).at("saved_usd"@) == real_or_null(s.bits),
        other != "cost_usd"@ && other != "cache_hit"@ && other != "saved_usd"@ ==> c.written(usage).field(
            other,
        ) == usage.field(other),
        !c.cache_hit ==> c.written(usage).field("cache_hit"@) == usage.field("cache_hit"@),
        c.saved_usd is None ==> c.written(usage).field("saved_usd"@) == usage.field("saved_usd"@),
{
    broadcast use {
        crate::ordered::entries_are_found,
        crate::ordered::nothing_is_found_in_nothing,
    };

    reveal_strlit("cost_usd");
    reveal_strlit("cache_hit");
    reveal_strlit("saved_usd");
    assert("cost_usd"@.len() == 8);
    assert("cache_hit"@.len() == 9 && "cache_hit"@[0] == 'c');
    assert("saved_usd"@.len() == 9 && "saved_usd"@[0] == 's');
}

/// A priced answer carries its cost in the usage and the router's account beside it, and is
/// otherwise as it was.
pub proof fn priced_answers_keep_their_members(body: JsonModel, m: RouterMeta, other: Seq<char>)
    requires
        body is Obj,
        body.at("usage"@) is Obj || body.at("usage"@) is Null,
    ensures
        priced(body, m).at("usage"@).at("cost_usd"@) == real_or_null(m.cost.cost_usd.bits),
        priced(body, m).at("x_router"@).at("model"@) == JsonModel::Str(m.model@),
        priced(body, m).at("x_router"@).at("provider"@) == JsonModel::Str(m.provider@),
        priced(body, m).at("x_router"@).at("cost"@).at("cost_usd"@) == real_or_null(m.cost.cost_usd.bits),
        other != "usage"@ && other != "x_router"@ ==> priced(body, m).field(other) == body.field(other),
{
    broadcast use {
        crate::ordered::entries_are_found,
        crate::ordered::nothing_is_found_in_nothing,
    };

    reveal_strlit("usage");
    reveal_strlit("cost_usd");
    reveal_strlit("x_router");
    reveal_strlit("model");
    reveal_strlit("provider");
    reveal_strlit("cost");
    reveal_strlit("requested_model");
    reveal_strlit("settings");
    reveal_strlit("tokens");
    reveal_strlit("results");
    reveal_strlit("timing");
    reveal_strlit("cache_hit");
    reveal_strlit("saved_usd");
    assert("usage"@.len() == 5 && "usage"@[0] == 'u');
    assert("cost_usd"@.len() == 8 && "cost_usd"@[0] == 'c');
    assert("x_router"@.len() == 8 && "x_router"@[0] == 'x');
    assert("model"@.len() == 5 && "model"@[0] == 'm');
    assert("provider"@.len() == 8 && "provider"@[0] == 'p');
    assert("cost"@.len() == 4);
    assert("requested_model"@.len() == 15);
    assert("settings"@.len() == 8 && "settings"@[0] == 's');
    assert("tokens"@.len() == 6 && "tokens"@[1] == 'o');
    assert("results"@.len() == 7);
    assert("timing"@.len() == 6 && "timing"@[1] == 'i');
    assert("cache_hit"@.len() == 9 && "cache_hit"@[0] == 'c');
    assert("saved_usd"@.len() == 9 && "saved_usd"@[0] == 's');
}

} // verus!
