//! Registered models and providers: creating them, turning them off and on, and
//! the chains of models that stand in for one another.
//!
//! What an operator has turned off stays off: it is stored, nothing turns it on
//! again by itself, and only an explicit enable does.

use crate::api::admin::aliases::{
    id_of, qualified, qualified_name, sanitize_id, Model, ProviderState,
};
use crate::api::admin::audit::{change, change_of, entry, entry_of, name_of, named};
use crate::api::admin::auth::AdminClaims;
use crate::api::admin::dashboard::{
    enabled_json, enabled_text, keep_unless_blank, or_dash, text_or_dash, unless_blank,
    DashboardError,
};
use crate::api::error::ApiError;
use crate::codec::{percent_text, url_encode};
use crate::json::{
    json_int, json_text_or_null, json_texts, list_models, text_array, text_of_json, text_or_null,
    Json, JsonModel,
};
use crate::ordered::{ascending, lemma_sorted_labels, lookup, sorted_labels, with_entry, OrderedMap};
use crate::records::NewAuditLogEntry;
use crate::sums::{lemma_picked_selects, picked, selects};
use crate::text::{
    contains_text, copy_text, escaped, fill, filled, he, holds_text, i64_text, in_order, int_text,
    join, joined, lemma_first_named, opt_text, pairs, pieces, same, sort_texts, split, texts, trim,
    trimmed, value_named,
};
use crate::text_map::TextMap;
use vstd::prelude::*;

verus! {

// ---------------------------------------------------------------------------
// Failover chains
// ---------------------------------------------------------------------------

/// A model that stands in for another.
#[derive(Debug, Clone, PartialEq, Eq)]
pub struct Failover {
    pub primary_model: String,
    pub fallback_model: String,
}

pub open spec fn stands_in(primary: Seq<char>) -> spec_fn(Failover) -> bool {
    |f: Failover| f.primary_model@ == primary
}

pub open spec fn stand_in() -> spec_fn(Failover) -> Seq<char> {
    |f: Failover| f.fallback_model@
}

/// The models that stand in for one, in order.
pub open spec fn chain_of(rows: Seq<Failover>, primary: Seq<char>) -> Seq<Seq<char>> {
    picked(rows, stands_in(primary), stand_in())
}

pub fn chain(rows: &Vec<Failover>, primary: &str) -> (r: Vec<String>)
    ensures
        texts(r@) == chain_of(rows@, primary@),
{
    let mut out: Vec<String> = Vec::new();
    let mut i: usize = 0;
    while i < rows.len()
        invariant
            i <= rows@.len(),
            texts(out@) =~= chain_of(rows@.take(i as int), primary@),
        decreases rows@.len() - i,
    {
        assert(rows@.take(i + 1).drop_last() =~= rows@.take(i as int));
        if same(rows[i].primary_model.as_str(), primary) {
            let ghost before = out@;
            out.push(rows[i].fallback_model.clone());
            assert(texts(out@) =~= texts(before).push(rows@[i as int].fallback_model@));
        }
        i += 1;
    }
    assert(rows@.take(rows@.len() as int) =~= rows@);
    out
}

pub open spec fn primaries_met(rows: Seq<Failover>) -> Seq<Seq<char>> {
    Seq::new(rows.len(), |i: int| rows[i].primary_model@)
}

fn sort_primaries(rows: &Vec<Failover>) -> (r: OrderedMap<String, ()>)
    ensures
        r.wf(),
        r@ == sorted_labels(primaries_met(rows@)),
{
    let mut out: OrderedMap<String, ()> = OrderedMap::new();
    let ghost all = primaries_met(rows@);
    let mut i: usize = 0;
    assert(all.take(0) =~= Seq::empty());
    while i < rows.len()
        invariant
            i <= rows@.len(),
            all == primaries_met(rows@),
            out.wf(),
            out@ == sorted_labels(all.take(i as int)),
        decreases rows@.len() - i,
    {
        assert(all.take(i + 1).drop_last() =~= all.take(i as int));
        out.insert(rows[i].primary_model.clone(), ());
        i += 1;
    }
    assert(all.take(all.len() as int) =~= all);
    out
}

/// The chains of all models that have one, by model. Every chain has a link.
pub fn all_chains(rows: &Vec<Failover>) -> (r: Vec<(String, Vec<String>)>)
    ensures
        r@.len() == sorted_labels(primaries_met(rows@)).len(),
        forall|i: int|
            0 <= i < r@.len() ==> (#[trigger] r@[i]).0@ == sorted_labels(primaries_met(rows@))[i].0
                && texts(r@[i].1@) == chain_of(rows@, r@[i].0@),
{
    let primaries = sort_primaries(rows);
    let mut out: Vec<(String, Vec<String>)> = Vec::new();
    let mut i: usize = 0;
    while i < primaries.len()
        invariant
            i <= primaries@.len(),
            primaries.wf(),
            primaries@ == sorted_labels(primaries_met(rows@)),
            out@.len() == i,
            forall|k: int|
                0 <= k < i ==> (#[trigger] out@[k]).0@ == primaries@[k].0 && texts(out@[k].1@)
                    == chain_of(rows@, out@[k].0@),
        decreases primaries@.len() - i,
    {
        let links = chain(rows, primaries.key(i).as_str());
        out.push((primaries.key(i).clone(), links));
        i += 1;
    }
    out
}

pub open spec fn chain_object(primary: Seq<char>, links: Seq<Seq<char>>) -> JsonModel {
    JsonModel::Obj(
        with_entry(
            with_entry(Seq::empty(), "primary"@, JsonModel::Str(primary)),
            "chain"@,
            text_array(links),
        ),
    )
}

pub open spec fn chain_objects(rows: Seq<Failover>) -> Seq<JsonModel> {
    let primaries = sorted_labels(primaries_met(rows));
    Seq::new(primaries.len(), |i: int| chain_object(primaries[i].0, chain_of(rows, primaries[i].0)))
}

/// The chains as the page lists them.
pub fn failover_rows(rows: &Vec<Failover>) -> (r: Json)
    ensures
        r.model() == JsonModel::Arr(chain_objects(rows@)),
        r.wf(),
{
    let chains = all_chains(rows);
    let ghost primaries = sorted_labels(primaries_met(rows@));
    let mut out: Vec<Json> = Vec::new();
    let mut i: usize = 0;
    while i < chains.len()
        invariant
            i <= chains@.len(),
            chains@.len() == primaries.len(),
            forall|k: int|
                0 <= k < chains@.len() ==> (#[trigger] chains@[k]).0@ == primaries[k].0 && texts(
                    chains@[k].1@,
                ) == chain_of(rows@, chains@[k].0@),
            out@.len() == i,
            forall|k: int|
                0 <= k < i ==> (#[trigger] out@[k]).model() == chain_object(
                    primaries[k].0,
                    chain_of(rows@, primaries[k].0),
                ) && out@[k].wf(),
        decreases chains@.len() - i,
    {
        let o = Json::object().with("primary", Json::Str(chains[i].0.clone())).with(
            "chain",
            json_texts(&chains[i].1),
        );
        out.push(o);
        i += 1;
    }
    proof {
        Json::lemma_array_wf(out);
        assert(list_models(out@) =~= chain_objects(rows@));
    }
    Json::Arr(out)
}

/// The chain that a registered model is shown with: that of its alias, or of its
/// name where it has none, or else that of its qualified name.
pub open spec fn chain_for(rows: Seq<Failover>, m: Model) -> Seq<Seq<char>> {
    let by_alias = chain_of(
        rows,
        match m.alias {
            Some(a) => a@,
            None => m.name@,
        },
    );
    if by_alias.len() > 0 {
        by_alias
    } else {
        chain_of(rows, qualified(m.provider@, m.name@))
    }
}

fn chain_for_model(rows: &Vec<Failover>, m: &Model) -> (r: Vec<String>)
    ensures
        texts(r@) == chain_for(rows@, *m),
{
    let by_alias = match &m.alias {
        Some(a) => chain(rows, a.as_str()),
        None => chain(rows, m.name.as_str()),
    };
    assert(texts(by_alias@).len() == by_alias@.len());
    if by_alias.len() > 0 {
        by_alias
    } else {
        let name = qualified_name(m.provider.as_str(), m.name.as_str());
        chain(rows, name.as_str())
    }
}

/// A registered model as the page lists it.
pub open spec fn model_object(m: Model, links: Seq<Seq<char>>) -> JsonModel {
    let o = with_entry(Seq::empty(), "id"@, JsonModel::Int(m.id as int));
    let o = with_entry(o, "provider"@, JsonModel::Str(m.provider@));
    let o = with_entry(o, "name"@, JsonModel::Str(m.name@));
    let o = with_entry(o, "alias"@, text_or_null(opt_text(m.alias)));
    let o = with_entry(o, "enabled"@, JsonModel::Bool(m.enabled));
    let o = with_entry(o, "created_at"@, JsonModel::Str(m.created_at@));
    let o = with_entry(o, "disabled_reason"@, text_or_null(opt_text(m.disabled_reason)));
    let o = with_entry(o, "disabled_by"@, text_or_null(opt_text(m.disabled_by)));
    let o = with_entry(o, "disabled_at"@, text_or_null(opt_text(m.disabled_at)));
    JsonModel::Obj(with_entry(o, "failovers"@, text_array(links)))
}

pub open spec fn model_objects(models: Seq<Model>, rows: Seq<Failover>) -> Seq<JsonModel> {
    Seq::new(models.len(), |i: int| model_object(models[i], chain_for(rows, models[i])))
}

fn model_json(m: &Model, links: &Vec<String>) -> (r: Json)
    ensures
        r.model() == model_object(*m, texts(links@)),
        r.wf(),
{
    Json::object().with("id", json_int(m.id)).with("provider", Json::Str(m.provider.clone())).with(
        "name",
        Json::Str(m.name.clone()),
    ).with("alias", json_text_or_null(&m.alias)).with("enabled", Json::Bool(m.enabled)).with(
        "created_at",
        Json::Str(m.created_at.clone()),
    ).with("disabled_reason", json_text_or_null(&m.disabled_reason)).with(
        "disabled_by",
        json_text_or_null(&m.disabled_by),
    ).with("disabled_at", json_text_or_null(&m.disabled_at)).with("failovers", json_texts(links))
}

/// The registered models as the page lists them, each with its chain.
pub fn model_list(models: &Vec<Model>, rows: &Vec<Failover>) -> (r: Json)
    ensures
        r.model() == JsonModel::Arr(model_objects(models@, rows@)),
        r.wf(),
{
    let mut out: Vec<Json> = Vec::new();
    let mut i: usize = 0;
    while i < models.len()
        invariant
            i <= models@.len(),
            out@.len() == i,
            forall|k: int|
                0 <= k < i ==> (#[trigger] out@[k]).model() == model_object(
                    models@[k],
                    chain_for(rows@, models@[k]),
                ) && out@[k].wf(),
        decreases models@.len() - i,
    {
        let links = chain_for_model(rows, &models[i]);
        let o = model_json(&models[i], &links);
        out.push(o);
        i += 1;
    }
    proof {
        Json::lemma_array_wf(out);
        assert(list_models(out@) =~= model_objects(models@, rows@));
    }
    Json::Arr(out)
}

/// An alias of the configuration as the page lists it.
pub open spec fn config_object(
    e: (Seq<char>, Seq<char>),
    effective: Seq<(Seq<char>, Seq<char>)>,
) -> JsonModel {
    let o = with_entry(Seq::empty(), "alias"@, JsonModel::Str(e.0));
    let o = with_entry(o, "target"@, JsonModel::Str(e.1));
    JsonModel::Obj(with_entry(o, "overridden"@, JsonModel::Bool(lookup(effective, e.0) is Some)))
}

pub open spec fn config_objects(
    config: Seq<(Seq<char>, Seq<char>)>,
    effective: Seq<(Seq<char>, Seq<char>)>,
) -> Seq<JsonModel> {
    Seq::new(config.len(), |i: int| config_object(config[i], effective))
}

/// The aliases of the configuration by name, with a mark on those that an alias
/// set at run time overrides.
pub fn config_alias_list(config: &TextMap, effective: &TextMap) -> (r: Json)
    ensures
        r.model() == JsonModel::Arr(config_objects(config@, effective@)),
        r.wf(),
{
    let mut out: Vec<Json> = Vec::new();
    let mut i: usize = 0;
    while i < config.len()
        invariant
            i <= config@.len(),
            out@.len() == i,
            forall|k: int|
                0 <= k < i ==> (#[trigger] out@[k]).model() == config_object(config@[k], effective@)
                    && out@[k].wf(),
        decreases config@.len() - i,
    {
        let overridden = effective.get(config.key(i).as_str()).is_some();
        let o = Json::object().with("alias", Json::Str(config.key(i).clone())).with(
            "target",
            Json::Str(config.value(i).clone()),
        ).with("overridden", Json::Bool(overridden));
        out.push(o);
        i += 1;
    }
    proof {
        Json::lemma_array_wf(out);
        assert(list_models(out@) =~= config_objects(config@, effective@));
    }
    Json::Arr(out)
}

#[derive(Debug, Clone, PartialEq, Eq)]
pub struct SetFailoverForm {
    /// The models of the chain in order, one to a line or with commas between.
    pub fallbacks: String,
}

/// The parts of a list that are not blank, without the white space around them.
pub open spec fn stated_parts(parts: Seq<Seq<char>>) -> Seq<Seq<char>>
    decreases parts.len(),
{
    if parts.len() == 0 {
        Seq::empty()
    } else {
        let rest = stated_parts(parts.drop_last());
        if trimmed(parts.last()).len() == 0 {
            rest
        } else {
            rest.push(trimmed(parts.last()))
        }
    }
}

impl SetFailoverForm {
    pub fn chain(&self) -> (r: Vec<String>)
        ensures
            texts(r@) == stated_parts(pieces(self.fallbacks@, ',', '\n')),
    {
        let parts = split(self.fallbacks.as_str(), ',', '\n');
        let ghost all = texts(parts@);
        let mut out: Vec<String> = Vec::new();
        let mut i: usize = 0;
        assert(all.take(0) =~= Seq::empty());
        assert(texts(out@) =~= Seq::empty());
        while i < parts.len()
            invariant
                i <= parts@.len(),
                all == texts(parts@),
                texts(out@) == stated_parts(all.take(i as int)),
            decreases parts@.len() - i,
        {
            assert(all.take(i + 1).drop_last() =~= all.take(i as int));
            assert(all.take(i + 1).last() == parts@[i as int]@);
            let t = trim(parts[i].as_str());
            if !t.is_empty() {
                let ghost before = out@;
                out.push(t.to_owned());
                assert(texts(out@) =~= texts(before).push(t@));
            }
            i += 1;
        }
        assert(all.take(all.len() as int) =~= all);
        out
    }
}

/// The audit line of a chain that was set.
pub fn failovers_set(actor: &AdminClaims, primary: &str, fallbacks: &Vec<String>) -> (r:
    NewAuditLogEntry)
    ensures
        r@ == entry_of(
            *actor,
            "model.failover.set"@,
            "model:"@ + primary@,
            Some(
                text_of_json(
                    JsonModel::Obj(
                        with_entry(Seq::empty(), "fallbacks"@, text_array(texts(fallbacks@))),
                    ),
                ),
            ),
        ),
{
    let after = Json::object().with("fallbacks", json_texts(fallbacks)).to_text();
    entry(actor, "model.failover.set", "model:".to_owned().concat(primary), Some(after))
}

pub open spec fn escape_each() -> spec_fn(Seq<char>) -> Seq<char> {
    |t: Seq<char>| escaped(t)
}

/// What is shown of a chain that was set.
pub open spec fn failovers_fragment(primary: Seq<char>, fallbacks: Seq<Seq<char>>) -> Seq<char> {
    "<div class=\"alert\" style=\"background:#d4edda;border:1px solid #c3e6cb;color:#155724;margin-top:0.5rem\">\u{2713} Failover chain for <strong>"@
        + escaped(primary) + "</strong> saved: "@ + (if fallbacks.len() == 0 {
        "<em>cleared</em>"@
    } else {
        joined(fallbacks.map_values(escape_each()), " \u{2192} "@)
    }) + "</div>"@
}

pub fn failovers_html(primary: &str, fallbacks: &Vec<String>) -> (r: String)
    ensures
        r@ == failovers_fragment(primary@, texts(fallbacks@)),
{
    let shown = if fallbacks.len() == 0 {
        "<em>cleared</em>".to_owned()
    } else {
        let mut safe: Vec<String> = Vec::new();
        let mut i: usize = 0;
        while i < fallbacks.len()
            invariant
                i <= fallbacks@.len(),
                safe@.len() == i,
                forall|k: int| 0 <= k < i ==> (#[trigger] safe@[k])@ == escaped(fallbacks@[k]@),
            decreases fallbacks@.len() - i,
        {
            safe.push(he(fallbacks[i].as_str()));
            i += 1;
        }
        assert(texts(safe@) =~= texts(fallbacks@).map_values(escape_each()));
        join(&safe, " \u{2192} ")
    };
    assert(texts(fallbacks@).len() == fallbacks@.len());
    "<div class=\"alert\" style=\"background:#d4edda;border:1px solid #c3e6cb;color:#155724;margin-top:0.5rem\">\u{2713} Failover chain for <strong>".to_owned().concat(
        he(primary).as_str(),
    ).concat("</strong> saved: ").concat(shown.as_str()).concat("</div>")
}

// ---------------------------------------------------------------------------
// Models
// ---------------------------------------------------------------------------

#[derive(Debug, Clone, PartialEq, Eq)]
pub struct CreateModelForm {
    pub provider: String,
    pub name: String,
    pub alias: Option<String>,
}

/// A model to be registered.
#[derive(Debug, Clone, PartialEq, Eq)]
pub struct NewModel {
    pub provider: String,
    pub name: String,
    pub alias: Option<String>,
}

pub const MODEL_INCOMPLETE: &'static str =
    "<div class=\"alert alert-danger\">Provider and name are required.</div>";

impl CreateModelForm {
    /// The model that the form asks for, or what is shown where it does not say
    /// enough.
    pub fn new_model(&self) -> (r: Result<NewModel, String>)
        ensures
            match r {
                Ok(m) => trimmed(self.provider@).len() > 0 && trimmed(self.name@).len() > 0
                    && m.provider@ == trimmed(self.provider@) && m.name@ == trimmed(self.name@)
                    && opt_text(m.alias) == match self.alias {
                    Some(a) => unless_blank(a@),
                    None => None,
                },
                Err(html) => (trimmed(self.provider@).len() == 0 || trimmed(self.name@).len() == 0)
                    && html@ == MODEL_INCOMPLETE@,
            },
    {
        let provider = trim(self.provider.as_str());
        let name = trim(self.name.as_str());
        let alias = match &self.alias {
            Some(a) => keep_unless_blank(a.as_str()),
            None => None,
        };
        if provider.is_empty() || name.is_empty() {
            return Err(MODEL_INCOMPLETE.to_owned());
        }
        Ok(NewModel { provider: provider.to_owned(), name: name.to_owned(), alias })
    }
}

pub open spec fn new_model_json(m: NewModel) -> Seq<char> {
    let o = with_entry(Seq::empty(), "provider"@, JsonModel::Str(m.provider@));
    let o = with_entry(o, "name"@, JsonModel::Str(m.name@));
    text_of_json(JsonModel::Obj(with_entry(o, "alias"@, text_or_null(opt_text(m.alias)))))
}

/// The audit line of a new model.
pub fn created_model(actor: &AdminClaims, id: i64, m: &NewModel) -> (r: NewAuditLogEntry)
    ensures
        r@ == entry_of(*actor, "model.create"@, named("model"@, id), Some(new_model_json(*m))),
{
    let after = Json::object().with("provider", Json::Str(m.provider.clone())).with(
        "name",
        Json::Str(m.name.clone()),
    ).with("alias", json_text_or_null(&m.alias)).to_text();
    entry(actor, "model.create", name_of("model", id), Some(after))
}

pub const CREATED_MODEL: &'static str =
    "<tr id=\"model-row-{id}\"><td>{id}</td><td>{provider}</td><td>{name}</td><td>{alias}</td><td><span class=\"tag tag-enabled\">Enabled</span></td><td><button class=\"btn btn-danger\" style=\"font-size:0.8rem;padding:0.25rem 0.5rem\" hx-post=\"/admin/models/{id}/delete\" hx-target=\"#model-row-{id}\" hx-swap=\"outerHTML\">Delete</button><button class=\"btn btn-secondary\" style=\"font-size:0.8rem;padding:0.25rem 0.5rem\" hx-post=\"/admin/models/{id}/disable\" hx-target=\"#model-row-{id}\" hx-swap=\"outerHTML\">Disable</button></td></tr><div id=\"model-form-message\" hx-swap-oob=\"innerHTML\"><div class=\"alert\" style=\"background:#d4edda;border:1px solid #c3e6cb;color:#155724\">\u{2713} Model <strong>{provider}/{name}</strong> created (id={id}).</div></div>";

/// What is shown of a new model: its row and a message.
pub fn created_model_html(m: &Model) -> (r: String)
    ensures
        r@ == filled(
            CREATED_MODEL@,
            seq![
                ("id"@, int_text(m.id as int)),
                ("provider"@, escaped(m.provider@)),
                ("name"@, escaped(m.name@)),
                ("alias"@, escaped(or_dash(opt_text(m.alias)))),
            ],
        ),
{
    let id = i64_text(m.id);
    let provider = he(m.provider.as_str());
    let name = he(m.name.as_str());
    let alias = he(text_or_dash(&m.alias));
    let values = vec![
        ("id", id.as_str()),
        ("provider", provider.as_str()),
        ("name", name.as_str()),
        ("alias", alias.as_str()),
    ];
    let r = fill(CREATED_MODEL, &values);
    assert(pairs(values@) =~= seq![
        ("id"@, id@),
        ("provider"@, provider@),
        ("name"@, name@),
        ("alias"@, alias@),
    ]);
    r
}

/// Why something is off, in words.
pub open spec fn off_words(
    reason: Option<Seq<char>>,
    by: Option<Seq<char>>,
    at: Option<Seq<char>>,
) -> Seq<char> {
    "<span class=\"tag tag-disabled\">Disabled</span><br><small style=\"color:#666\">"@ + escaped(
        match reason {
            Some(t) => t,
            None => "no reason recorded"@,
        },
    ) + " \u{2014} "@ + escaped(
        match by {
            Some(t) => t,
            None => "unknown"@,
        },
    ) + (match at {
        Some(t) => ", "@ + escaped(t),
        None => ""@,
    }) + "</small>"@
}

pub open spec fn status_words(
    enabled: bool,
    reason: Option<Seq<char>>,
    by: Option<Seq<char>>,
    at: Option<Seq<char>>,
) -> Seq<char> {
    if enabled {
        "<span class=\"tag tag-enabled\">Enabled</span>"@
    } else {
        off_words(reason, by, at)
    }
}

fn status_html(
    enabled: bool,
    reason: &Option<String>,
    by: &Option<String>,
    at: &Option<String>,
) -> (r: String)
    ensures
        r@ == status_words(enabled, opt_text(*reason), opt_text(*by), opt_text(*at)),
{
    if enabled {
        return "<span class=\"tag tag-enabled\">Enabled</span>".to_owned();
    }
    let reason_html = he(
        match reason {
            Some(t) => t.as_str(),
            None => "no reason recorded",
        },
    );
    let by_html = he(
        match by {
            Some(t) => t.as_str(),
            None => "unknown",
        },
    );
    let at_html = match at {
        Some(t) => ", ".to_owned().concat(he(t.as_str()).as_str()),
        None => "".to_owned(),
    };
    "<span class=\"tag tag-disabled\">Disabled</span><br><small style=\"color:#666\">".to_owned().concat(
        reason_html.as_str(),
    ).concat(" \u{2014} ").concat(by_html.as_str()).concat(at_html.as_str()).concat("</small>")
}

pub const MODEL_OFF: &'static str =
    "<input type=\"text\" name=\"reason\" placeholder=\"reason\" id=\"model-reason-{id}\" style=\"padding:0.2rem 0.4rem;border:1px solid #ccc;border-radius:4px;width:150px\"><button class=\"btn btn-secondary\" style=\"font-size:0.8rem;padding:0.25rem 0.5rem\" hx-post=\"/admin/models/{id}/disable\" hx-include=\"#model-reason-{id}\" hx-target=\"#model-row-{id}\" hx-swap=\"outerHTML\">Disable</button>";

pub const MODEL_ON: &'static str =
    "<button class=\"btn btn-success\" style=\"font-size:0.8rem;padding:0.25rem 0.5rem\" hx-post=\"/admin/models/{id}/enable\" hx-target=\"#model-row-{id}\" hx-swap=\"outerHTML\">Enable</button>";

pub const MODEL_ROW: &'static str =
    "<tr id=\"model-row-{id}\"><td>{id}</td><td>{provider}</td><td>{name}</td><td>{alias}</td><td>{status}</td><td><button class=\"btn btn-danger\" style=\"font-size:0.8rem;padding:0.25rem 0.5rem\" hx-post=\"/admin/models/{id}/delete\" hx-target=\"#model-row-{id}\" hx-swap=\"outerHTML\" hx-confirm=\"Delete this model?\">Delete</button>{toggle}</td></tr>";

/// The table row of a model.
pub open spec fn model_row(m: Model) -> Seq<char> {
    let id = int_text(m.id as int);
    filled(
        MODEL_ROW@,
        seq![
            ("id"@, id),
            ("provider"@, escaped(m.provider@)),
            ("name"@, escaped(m.name@)),
            ("alias"@, escaped(or_dash(opt_text(m.alias)))),
            (
                "status"@,
                status_words(
                    m.enabled,
                    opt_text(m.disabled_reason),
                    opt_text(m.disabled_by),
                    opt_text(m.disabled_at),
                ),
            ),
            (
                "toggle"@,
                filled(
                    if m.enabled {
                        MODEL_OFF@
                    } else {
                        MODEL_ON@
                    },
                    seq![("id"@, id)],
                ),
            ),
        ],
    )
}

pub fn model_row_html(m: &Model) -> (r: String)
    ensures
        r@ == model_row(*m),
{
    let id = i64_text(m.id);
    let provider = he(m.provider.as_str());
    let name = he(m.name.as_str());
    let alias = he(text_or_dash(&m.alias));
    let status = status_html(m.enabled, &m.disabled_reason, &m.disabled_by, &m.disabled_at);
    let ids = vec![("id", id.as_str())];
    let toggle = if m.enabled {
        fill(MODEL_OFF, &ids)
    } else {
        fill(MODEL_ON, &ids)
    };
    assert(pairs(ids@) =~= seq![("id"@, id@)]);
    let values = vec![
        ("id", id.as_str()),
        ("provider", provider.as_str()),
        ("name", name.as_str()),
        ("alias", alias.as_str()),
        ("status", status.as_str()),
        ("toggle", toggle.as_str()),
    ];
    let r = fill(MODEL_ROW, &values);
    assert(pairs(values@) =~= seq![
        ("id"@, id@),
        ("provider"@, provider@),
        ("name"@, name@),
        ("alias"@, alias@),
        ("status"@, status@),
        ("toggle"@, toggle@),
    ]);
    r
}

/// What is shown of a model that was changed.
pub fn changed_model_html(id: i64, found: &Option<Model>) -> (r: Result<String, DashboardError>)
    ensures
        match *found {
            Some(m) => r matches Ok(html) && html@ == model_row(m),
            None => r matches Err(DashboardError::NotFound(t)) && t@ == "model "@ + int_text(
                id as int,
            ),
        },
{
    match found {
        Some(m) => Ok(model_row_html(m)),
        None => Err(DashboardError::NotFound("model ".to_owned().concat(i64_text(id).as_str()))),
    }
}

/// The model that is to be turned off or on through the API.
pub fn model_to_set<'a>(id: i64, found: &'a Option<Model>) -> (r: Result<&'a Model, ApiError>)
    ensures
        match *found {
            Some(m) => r matches Ok(n) && *n == m,
            None => r matches Err(ApiError::InvalidRequest(t)) && t@ == "no such model: "@ + int_text(
                id as int,
            ),
        },
{
    match found {
        Some(m) => Ok(m),
        None => Err(
            ApiError::InvalidRequest("no such model: ".to_owned().concat(i64_text(id).as_str())),
        ),
    }
}

// ---------------------------------------------------------------------------
// Turning things off and on
// ---------------------------------------------------------------------------

#[derive(Debug, Clone, PartialEq, Eq)]
pub struct SetEnabledRequest {
    pub enabled: bool,
    /// Recorded as it stands and shown to callers.
    pub reason: Option<String>,
}

#[derive(Debug, Clone, PartialEq, Eq)]
pub struct DisableReasonForm {
    pub reason: Option<String>,
}

/// A reason, where one was given.
pub fn clean_reason(reason: Option<&str>) -> (r: Option<String>)
    ensures
        opt_text(r) == match reason {
            Some(t) => unless_blank(t@),
            None => None,
        },
{
    match reason {
        Some(t) => keep_unless_blank(t),
        None => None,
    }
}

/// What is written to the audit log of turning something off or on.
pub open spec fn set_json(enabled: bool, reason: Option<Seq<char>>) -> Seq<char> {
    let o = with_entry(Seq::empty(), "enabled"@, JsonModel::Bool(enabled));
    text_of_json(JsonModel::Obj(with_entry(o, "reason"@, text_or_null(reason))))
}

fn set_text(enabled: bool, reason: &Option<String>) -> (r: String)
    ensures
        r@ == set_json(enabled, opt_text(*reason)),
{
    Json::object().with("enabled", Json::Bool(enabled)).with(
        "reason",
        json_text_or_null(reason),
    ).to_text()
}

/// The audit line of a model that was turned off or on.
pub fn model_set(actor: &AdminClaims, before: &Model, enabled: bool, reason: &Option<String>) -> (r:
    NewAuditLogEntry)
    ensures
        r@ == change_of(
            *actor,
            if enabled {
                "model.enable"@
            } else {
                "model.disable"@
            },
            "model:"@ + qualified(before.provider@, before.name@),
            Some(enabled_json(before.enabled)),
            Some(set_json(enabled, opt_text(*reason))),
        ),
{
    let action = if enabled {
        "model.enable"
    } else {
        "model.disable"
    };
    let name = qualified_name(before.provider.as_str(), before.name.as_str());
    change(
        actor,
        action,
        "model:".to_owned().concat(name.as_str()),
        Some(enabled_text(before.enabled)),
        Some(set_text(enabled, reason)),
    )
}

/// The audit line of a provider that was turned off or on.
pub fn provider_set(actor: &AdminClaims, provider: &str, enabled: bool, reason: &Option<String>) -> (r:
    NewAuditLogEntry)
    ensures
        r@ == entry_of(
            *actor,
            if enabled {
                "provider.enable"@
            } else {
                "provider.disable"@
            },
            "provider:"@ + provider@,
            Some(set_json(enabled, opt_text(*reason))),
        ),
{
    let action = if enabled {
        "provider.enable"
    } else {
        "provider.disable"
    };
    entry(actor, action, "provider:".to_owned().concat(provider), Some(set_text(enabled, reason)))
}

/// The audit line of a deleted model.
pub fn deleted_model(actor: &AdminClaims, id: i64) -> (r: NewAuditLogEntry)
    ensures
        r@ == entry_of(*actor, "model.delete"@, named("model"@, id), None),
{
    entry(actor, "model.delete", name_of("model", id), None)
}

/// Only a provider of the configuration can be turned off or on: a typo must not
/// leave an entry that does nothing.
pub fn check_provider(known: &Vec<String>, provider: &str) -> (r: Result<(), ApiError>)
    ensures
        r is Ok <==> texts(known@).contains(provider@),
        r matches Err(e) ==> (e matches ApiError::InvalidRequest(m) && m@ == "unknown provider: "@
            + provider@),
{
    if holds_text(known, provider) {
        Ok(())
    } else {
        Err(ApiError::InvalidRequest("unknown provider: ".to_owned().concat(provider)))
    }
}

/// The same, for the dashboard.
pub fn find_provider(known: &Vec<String>, provider: &str) -> (r: Result<(), DashboardError>)
    ensures
        r is Ok <==> texts(known@).contains(provider@),
        r matches Err(e) ==> (e matches DashboardError::NotFound(m) && m@ == "provider "@ + provider@),
{
    if holds_text(known, provider) {
        Ok(())
    } else {
        Err(DashboardError::NotFound("provider ".to_owned().concat(provider)))
    }
}

// ---------------------------------------------------------------------------
// Providers
// ---------------------------------------------------------------------------

/// A provider as it is listed.
#[derive(Debug, Clone, PartialEq, Eq)]
pub struct ProviderView {
    pub provider: String,
    pub enabled: bool,
    pub disabled_reason: Option<String>,
    pub disabled_by: Option<String>,
    pub disabled_at: Option<String>,
}

/// The first state of a provider that is stored.
pub open spec fn state_of(states: Seq<ProviderState>, provider: Seq<char>) -> Option<ProviderState>
    decreases states.len(),
{
    if states.len() == 0 {
        None
    } else if states[0].provider@ == provider {
        Some(states[0])
    } else {
        state_of(states.drop_first(), provider)
    }
}

impl ProviderView {
    /// Whether this shows a provider: on, unless it is stored otherwise.
    pub open spec fn shows(self, provider: Seq<char>, state: Option<ProviderState>) -> bool {
        &&& self.provider@ == provider
        &&& match state {
            Some(s) => self.enabled == s.enabled && opt_text(self.disabled_reason) == opt_text(
                s.disabled_reason,
            ) && opt_text(self.disabled_by) == opt_text(s.disabled_by) && opt_text(self.disabled_at)
                == opt_text(s.disabled_at),
            None => self.enabled && self.disabled_reason is None && self.disabled_by is None
                && self.disabled_at is None,
        }
    }

    pub open spec fn object(self) -> JsonModel {
        let o = with_entry(Seq::empty(), "provider"@, JsonModel::Str(self.provider@));
        let o = with_entry(o, "enabled"@, JsonModel::Bool(self.enabled));
        let o = with_entry(o, "disabled_reason"@, text_or_null(opt_text(self.disabled_reason)));
        let o = with_entry(o, "disabled_by"@, text_or_null(opt_text(self.disabled_by)));
        JsonModel::Obj(
            with_entry(o, "disabled_at"@, text_or_null(opt_text(self.disabled_at))),
        )
    }

    pub fn to_json(&self) -> (r: Json)
        ensures
            r.model() == self.object(),
            r.wf(),
    {
        Json::object().with("provider", Json::Str(self.provider.clone())).with(
            "enabled",
            Json::Bool(self.enabled),
        ).with("disabled_reason", json_text_or_null(&self.disabled_reason)).with(
            "disabled_by",
            json_text_or_null(&self.disabled_by),
        ).with("disabled_at", json_text_or_null(&self.disabled_at))
    }
}

/// What is stored of a provider, if anything.
pub fn find_state<'a>(states: &'a Vec<ProviderState>, provider: &str) -> (r: Option<
    &'a ProviderState,
>)
    ensures
        match r {
            Some(s) => state_of(states@, provider@) == Some(*s),
            None => state_of(states@, provider@) is None,
        },
{
    let mut i: usize = 0;
    assert(states@.skip(0) =~= states@);
    while i < states.len()
        invariant
            i <= states@.len(),
            state_of(states@.skip(i as int), provider@) == state_of(states@, provider@),
        decreases states@.len() - i,
    {
        if same(states[i].provider.as_str(), provider) {
            return Some(&states[i]);
        }
        assert(states@.skip(i as int).drop_first() =~= states@.skip(i + 1));
        i += 1;
    }
    None
}

fn view_provider(states: &Vec<ProviderState>, provider: &str) -> (r: ProviderView)
    ensures
        r.shows(provider@, state_of(states@, provider@)),
{
    match find_state(states, provider) {
        Some(s) => ProviderView {
            provider: provider.to_owned(),
            enabled: s.enabled,
            disabled_reason: copy_text(&s.disabled_reason),
            disabled_by: copy_text(&s.disabled_by),
            disabled_at: copy_text(&s.disabled_at),
        },
        None => ProviderView {
            provider: provider.to_owned(),
            enabled: true,
            disabled_reason: None,
            disabled_by: None,
            disabled_at: None,
        },
    }
}

/// The configured providers, and after them those that are only stored.
pub open spec fn provider_names(configured: Seq<Seq<char>>, states: Seq<ProviderState>) -> Seq<Seq<char>>
    decreases states.len(),
{
    if states.len() == 0 {
        configured
    } else {
        let rest = provider_names(configured, states.drop_last());
        if rest.contains(states.last().provider@) {
            rest
        } else {
            rest.push(states.last().provider@)
        }
    }
}

fn list_names(configured: &Vec<String>, states: &Vec<ProviderState>) -> (r: Vec<String>)
    ensures
        texts(r@) == provider_names(texts(configured@), states@),
{
    let mut out: Vec<String> = Vec::new();
    let mut k: usize = 0;
    while k < configured.len()
        invariant
            k <= configured@.len(),
            texts(out@) =~= texts(configured@).take(k as int),
        decreases configured@.len() - k,
    {
        let ghost before = out@;
        out.push(configured[k].clone());
        assert(texts(out@) =~= texts(before).push(configured@[k as int]@));
        k += 1;
    }
    assert(texts(configured@).take(k as int) =~= texts(configured@));
    let mut i: usize = 0;
    assert(states@.take(0) =~= Seq::empty());
    while i < states.len()
        invariant
            i <= states@.len(),
            texts(out@) == provider_names(texts(configured@), states@.take(i as int)),
        decreases states@.len() - i,
    {
        assert(states@.take(i + 1).drop_last() =~= states@.take(i as int));
        if !holds_text(&out, states[i].provider.as_str()) {
            let ghost before = out@;
            out.push(states[i].provider.clone());
            assert(texts(out@) =~= texts(before).push(states@[i as int].provider@));
        }
        i += 1;
    }
    assert(states@.take(states@.len() as int) =~= states@);
    out
}

pub open spec fn view_names(views: Seq<ProviderView>) -> Seq<Seq<char>> {
    Seq::new(views.len(), |i: int| views[i].provider@)
}

/// The providers by name, each with what is stored of it.
pub fn provider_views(configured: &Vec<String>, states: &Vec<ProviderState>) -> (r: Vec<ProviderView>)
    ensures
        in_order(view_names(r@)),
        view_names(r@).to_multiset() == provider_names(texts(configured@), states@).to_multiset(),
        forall|i: int|
            0 <= i < r@.len() ==> (#[trigger] r@[i]).shows(
                r@[i].provider@,
                state_of(states@, r@[i].provider@),
            ),
{
    let names = sort_texts(list_names(configured, states));
    let mut out: Vec<ProviderView> = Vec::new();
    let mut i: usize = 0;
    while i < names.len()
        invariant
            i <= names@.len(),
            out@.len() == i,
            forall|k: int|
                0 <= k < i ==> (#[trigger] out@[k]).shows(names@[k]@, state_of(states@, names@[k]@)),
        decreases names@.len() - i,
    {
        let view = view_provider(states, names[i].as_str());
        out.push(view);
        i += 1;
    }
    assert(view_names(out@) =~= texts(names@));
    out
}

pub open spec fn view_objects(views: Seq<ProviderView>) -> Seq<JsonModel> {
    Seq::new(views.len(), |i: int| views[i].object())
}

/// The list of providers as the API tells it.
pub fn providers_body(views: &Vec<ProviderView>) -> (r: Json)
    ensures
        r.model() == JsonModel::Obj(
            with_entry(Seq::empty(), "providers"@, JsonModel::Arr(view_objects(views@))),
        ),
        r.wf(),
{
    let mut out: Vec<Json> = Vec::new();
    let mut i: usize = 0;
    while i < views.len()
        invariant
            i <= views@.len(),
            out@.len() == i,
            forall|k: int|
                0 <= k < i ==> (#[trigger] out@[k]).model() == views@[k].object() && out@[k].wf(),
        decreases views@.len() - i,
    {
        out.push(views[i].to_json());
        i += 1;
    }
    proof {
        Json::lemma_array_wf(out);
        assert(list_models(out@) =~= view_objects(views@));
    }
    Json::object().with("providers", Json::Arr(out))
}

pub const PROVIDER_OFF: &'static str =
    "<input type=\"text\" name=\"reason\" placeholder=\"reason\" style=\"padding:0.2rem 0.4rem;border:1px solid #ccc;border-radius:4px;width:150px\" id=\"provider-reason-{id}\"><button class=\"btn btn-secondary\" style=\"font-size:0.8rem;padding:0.25rem 0.5rem\" hx-post=\"/admin/providers/{url}/disable\" hx-include=\"#provider-reason-{id}\" hx-target=\"#provider-row-{id}\" hx-swap=\"outerHTML\">Disable</button>";

pub const PROVIDER_ON: &'static str =
    "<button class=\"btn btn-success\" style=\"font-size:0.8rem;padding:0.25rem 0.5rem\" hx-post=\"/admin/providers/{url}/enable\" hx-target=\"#provider-row-{id}\" hx-swap=\"outerHTML\">Enable</button>";

pub const PROVIDER_ROW: &'static str =
    "<tr id=\"provider-row-{id}\"><td><code>{name}</code></td><td>{status}</td><td>{action}</td></tr>";

pub const NO_PROVIDERS: &'static str =
    "<tr><td colspan=\"3\" style=\"color:#999;font-style:italic;\">No providers configured.</td></tr>";

/// The table row of a provider.
pub open spec fn provider_row(
    provider: Seq<char>,
    enabled: bool,
    reason: Option<Seq<char>>,
    by: Option<Seq<char>>,
    at: Option<Seq<char>>,
) -> Seq<char> {
    let id = id_of(provider);
    filled(
        PROVIDER_ROW@,
        seq![
            ("id"@, id),
            ("name"@, escaped(provider)),
            ("status"@, status_words(enabled, reason, by, at)),
            (
                "action"@,
                filled(
                    if enabled {
                        PROVIDER_OFF@
                    } else {
                        PROVIDER_ON@
                    },
                    seq![
                        ("id"@, id),
                        ("url"@, percent_text(vstd::utf8::encode_utf8(provider))),
                    ],
                ),
            ),
        ],
    )
}

pub fn provider_row_html(
    provider: &str,
    enabled: bool,
    reason: &Option<String>,
    by: &Option<String>,
    at: &Option<String>,
) -> (r: String)
    ensures
        r@ == provider_row(provider@, enabled, opt_text(*reason), opt_text(*by), opt_text(*at)),
{
    let id = sanitize_id(provider);
    let name = he(provider);
    let url = url_encode(provider);
    let status = status_html(enabled, reason, by, at);
    let ids = vec![("id", id.as_str()), ("url", url.as_str())];
    let action = if enabled {
        fill(PROVIDER_OFF, &ids)
    } else {
        fill(PROVIDER_ON, &ids)
    };
    assert(pairs(ids@) =~= seq![("id"@, id@), ("url"@, url@)]);
    let values = vec![
        ("id", id.as_str()),
        ("name", name.as_str()),
        ("status", status.as_str()),
        ("action", action.as_str()),
    ];
    let r = fill(PROVIDER_ROW, &values);
    assert(pairs(values@) =~= seq![
        ("id"@, id@),
        ("name"@, name@),
        ("status"@, status@),
        ("action"@, action@),
    ]);
    r
}

pub open spec fn row_of_view(v: ProviderView) -> Seq<char> {
    provider_row(
        v.provider@,
        v.enabled,
        opt_text(v.disabled_reason),
        opt_text(v.disabled_by),
        opt_text(v.disabled_at),
    )
}

pub open spec fn rows_of_views(views: Seq<ProviderView>) -> Seq<char>
    decreases views.len(),
{
    if views.len() == 0 {
        ""@
    } else {
        rows_of_views(views.drop_last()) + row_of_view(views.last())
    }
}

/// The body of the table of providers.
pub fn provider_rows_html(views: &Vec<ProviderView>) -> (r: String)
    ensures
        r@ == if views@.len() == 0 {
            NO_PROVIDERS@
        } else {
            rows_of_views(views@)
        },
{
    if views.len() == 0 {
        return NO_PROVIDERS.to_owned();
    }
    let mut out: String = "".to_owned();
    let mut i: usize = 0;
    assert(views@.take(0) =~= Seq::empty());
    while i < views.len()
        invariant
            i <= views@.len(),
            out@ == rows_of_views(views@.take(i as int)),
        decreases views@.len() - i,
    {
        assert(views@.take(i + 1).drop_last() =~= views@.take(i as int));
        let v = &views[i];
        let row = provider_row_html(
            v.provider.as_str(),
            v.enabled,
            &v.disabled_reason,
            &v.disabled_by,
            &v.disabled_at,
        );
        out.append(row.as_str());
        i += 1;
    }
    assert(views@.take(views@.len() as int) =~= views@);
    out
}

// ---------------------------------------------------------------------------
// The catalog
// ---------------------------------------------------------------------------

/// How long a catalog is kept, in seconds: asking the providers costs quota.
pub const CATALOG_TTL_SECS: u64 = 900;

#[derive(Debug, Clone, Copy, PartialEq, Eq)]
pub struct AvailableModelsQuery {
    pub refresh: bool,
}

impl AvailableModelsQuery {
    /// Whether a catalog that was kept for so many whole seconds will do.
    pub fn accepts(&self, kept_secs: Option<u64>) -> (r: bool)
        ensures
            r == (!self.refresh && (kept_secs matches Some(age) && age < CATALOG_TTL_SECS)),
    {
        match kept_secs {
            Some(age) => !self.refresh && age < CATALOG_TTL_SECS,
            None => false,
        }
    }
}

/// The catalog as it is told and kept.
pub fn catalog_body(providers: Json) -> (r: Json)
    requires
        providers.wf(),
    ensures
        r.model() == JsonModel::Obj(
            with_entry(
                with_entry(Seq::empty(), "providers"@, providers.model()),
                "ttl_seconds"@,
                JsonModel::Int(CATALOG_TTL_SECS as int),
            ),
        ),
        r.wf(),
{
    Json::object().with("providers", providers).with("ttl_seconds", Json::PosInt(CATALOG_TTL_SECS))
}

/// The chain of a model is the list of models that stand in for it, in the order of the rows.
pub proof fn chains_keep_their_order(rows: Seq<Failover>, primary: Seq<char>)
    ensures
        selects(
            chain_of(rows, primary),
            rows,
            |f: Failover| f.primary_model@ == primary,
            |f: Failover| f.fallback_model@,
        ),
{
    lemma_picked_selects(
        rows,
        stands_in(primary),
        stand_in(),
        |f: Failover| f.primary_model@ == primary,
        |f: Failover| f.fallback_model@,
    );
}

/// A chain is told under the model it belongs to; every model with one has its place, once,
/// by name.
pub proof fn chains_are_told_by_model(rows: Seq<Failover>, i: int, name: Seq<char>)
    ensures
        chain_objects(rows).len() == sorted_labels(primaries_met(rows)).len(),
        ascending(sorted_labels(primaries_met(rows))),
        lookup(sorted_labels(primaries_met(rows)), name) is Some <==> exists|j: int|
            0 <= j < rows.len() && (#[trigger] rows[j]).primary_model@ == name,
        0 <= i < chain_objects(rows).len() ==> {
            let primary = sorted_labels(primaries_met(rows))[i].0;
            let links = chain_of(rows, primary);
            &&& chain_objects(rows)[i].at("primary"@) == JsonModel::Str(primary)
            &&& chain_objects(rows)[i].at("chain"@) == text_array(links)
        },
{
    broadcast use {
        crate::ordered::entries_are_found,
        crate::ordered::nothing_is_found_in_nothing,
    };

    reveal_strlit("primary");
    reveal_strlit("chain");
    assert("primary"@.len() == 7);
    assert("chain"@.len() == 5);
    lemma_sorted_labels(primaries_met(rows), name);
    let met = primaries_met(rows);
    assert forall|j: int| 0 <= j < rows.len() && (#[trigger] rows[j]).primary_model@ == name implies met.contains(
        name,
    ) by {
        assert(met[j] == name);
    }
    if met.contains(name) {
        let j = choose|j: int| 0 <= j < met.len() && met[j] == name;
        assert(rows[j].primary_model@ == name);
    }
}

/// A model's chain is looked for under its alias, or its name where it has none, and then
/// under its full name.
pub proof fn chains_are_found_by_alias(rows: Seq<Failover>, m: Model, a: Seq<char>)
    ensures
        opt_text(m.alias) == Some(a) && chain_of(rows, a).len() > 0 ==> chain_for(rows, m) == chain_of(
            rows,
            a,
        ),
        opt_text(m.alias) == Some(a) && chain_of(rows, a).len() == 0 ==> chain_for(rows, m) == chain_of(
            rows,
            m.provider@ + "/"@ + m.name@,
        ),
        m.alias is None && chain_of(rows, m.name@).len() > 0 ==> chain_for(rows, m) == chain_of(rows, m.name@),
{
}

/// A model is told by name: what it is, whether it is in rotation and, if not, why, who took
/// it out and when; models are listed in their order.
pub proof fn models_are_told_by_name(models: Seq<Model>, rows: Seq<Failover>, i: int)
    requires
        0 <= i < models.len(),
    ensures
        model_objects(models, rows).len() == models.len(),
        model_objects(models, rows)[i].at("id"@) == JsonModel::Int(models[i].id as int),
        model_objects(models, rows)[i].at("provider"@) == JsonModel::Str(models[i].provider@),
        model_objects(models, rows)[i].at("name"@) == JsonModel::Str(models[i].name@),
        model_objects(models, rows)[i].at("alias"@) == match models[i].alias {
            Some(t) => JsonModel::Str(t@),
            None => JsonModel::Null,
        },
        model_objects(models, rows)[i].at("enabled"@) == JsonModel::Bool(models[i].enabled),
        model_objects(models, rows)[i].at("created_at"@) == JsonModel::Str(models[i].created_at@),
        model_objects(models, rows)[i].at("disabled_reason"@) == match models[i].disabled_reason {
            Some(t) => JsonModel::Str(t@),
            None => JsonModel::Null,
        },
        model_objects(models, rows)[i].at("disabled_by"@) == match models[i].disabled_by {
            Some(t) => JsonModel::Str(t@),
            None => JsonModel::Null,
        },
        model_objects(models, rows)[i].at("disabled_at"@) == match models[i].disabled_at {
            Some(t) => JsonModel::Str(t@),
            None => JsonModel::Null,
        },
        model_objects(models, rows)[i].at("failovers"@) == text_array(chain_for(rows, models[i])),
{
    broadcast use {
        crate::ordered::entries_are_found,
        crate::ordered::nothing_is_found_in_nothing,
    };

    reveal_strlit("id");
    reveal_strlit("provider");
    reveal_strlit("name");
    reveal_strlit("alias");
    reveal_strlit("enabled");
    reveal_strlit("created_at");
    reveal_strlit("disabled_reason");
    reveal_strlit("disabled_by");
    reveal_strlit("disabled_at");
    reveal_strlit("failovers");
    assert("id"@.len() == 2);
    assert("provider"@.len() == 8);
    assert("name"@.len() == 4);
    assert("alias"@.len() == 5);
    assert("enabled"@.len() == 7);
    assert("created_at"@.len() == 10);
    assert("disabled_reason"@.len() == 15);
    assert("disabled_by"@.len() == 11 && "disabled_by"@[9] == 'b');
    assert("disabled_at"@.len() == 11 && "disabled_at"@[9] == 'a');
    assert("failovers"@.len() == 9);
}

/// An alias of the configuration is told with its target, and as overridden where a managed
/// one has its name.
pub proof fn configured_aliases_are_told(config: Seq<(Seq<char>, Seq<char>)>, effective: Seq<(Seq<char>, Seq<char>)>, i: int)
    requires
        0 <= i < config.len(),
    ensures
        config_objects(config, effective).len() == config.len(),
        config_objects(config, effective)[i].at("alias"@) == JsonModel::Str(config[i].0),
        config_objects(config, effective)[i].at("target"@) == JsonModel::Str(config[i].1),
        config_objects(config, effective)[i].at("overridden"@) == JsonModel::Bool(
            lookup(effective, config[i].0) is Some,
        ),
{
    broadcast use {
        crate::ordered::entries_are_found,
        crate::ordered::nothing_is_found_in_nothing,
    };

    reveal_strlit("alias");
    reveal_strlit("target");
    reveal_strlit("overridden");
    assert("alias"@.len() == 5);
    assert("target"@.len() == 6);
    assert("overridden"@.len() == 10);
}

/// The parts of a chain are taken in their order, without the white space around them; blank
/// ones are passed over.
pub proof fn blank_parts_are_passed_over(s: Seq<Seq<char>>, t: Seq<Seq<char>>, x: Seq<char>)
    ensures
        stated_parts(seq![x]) == (if trimmed(x).len() > 0 {
            seq![trimmed(x)]
        } else {
            Seq::<Seq<char>>::empty()
        }),
        stated_parts(s + t) == stated_parts(s) + stated_parts(t),
    decreases t.len(),
{
    assert(seq![x].drop_last() =~= Seq::<Seq<char>>::empty());
    assert(stated_parts(seq![x].drop_last()).len() == 0);
    assert(stated_parts(seq![x]) =~= (if trimmed(x).len() > 0 {
            seq![trimmed(x)]
        } else {
            Seq::<Seq<char>>::empty()
        }));
    if t.len() == 0 {
        assert(s + t =~= s);
        assert(stated_parts(s) + stated_parts(t) =~= stated_parts(s));
    } else {
        blank_parts_are_passed_over(s, t.drop_last(), x);
        assert((s + t).drop_last() =~= s + t.drop_last());
        assert(stated_parts(s + t) =~= stated_parts(s) + stated_parts(t));
    }
}

/// What is out of rotation says why, who took it out and when, each in its place.
pub proof fn states_are_put_into_words(r: Seq<char>, b: Seq<char>, a: Seq<char>)
    ensures
        status_words(true, Some(r), Some(b), Some(a))
            == "<span class=\"tag tag-enabled\">Enabled</span>"@,
        status_words(false, Some(r), Some(b), Some(a))
            == "<span class=\"tag tag-disabled\">Disabled</span><br><small style=\"color:#666\">"@ + escaped(r)
            + " \u{2014} "@ + escaped(b) + (", "@ + escaped(a)) + "</small>"@,
        status_words(false, None, Some(b), Some(a)) == status_words(
            false,
            Some("no reason recorded"@),
            Some(b),
            Some(a),
        ),
        status_words(false, Some(r), None, Some(a)) == status_words(
            false,
            Some(r),
            Some("unknown"@),
            Some(a),
        ),
{
}

/// The row of a model shows the model: its number, provider, name and alias, its state, and
/// the button that changes that.
pub proof fn model_rows_show_their_model(m: Model)
    ensures
        exists|values: Seq<(Seq<char>, Seq<char>)>|
            model_row(m) == #[trigger] filled(MODEL_ROW@, values)
                && value_named(values, "id"@) == int_text(m.id as int)
                && value_named(values, "provider"@) == escaped(m.provider@)
                && value_named(values, "name"@) == escaped(m.name@)
                && value_named(values, "alias"@) == escaped(or_dash(opt_text(m.alias)))
                && value_named(values, "status"@) == status_words(
                    m.enabled,
                    opt_text(m.disabled_reason),
                    opt_text(m.disabled_by),
                    opt_text(m.disabled_at),
                )
                && value_named(values, "toggle"@) == filled(
                    if m.enabled {
                        MODEL_OFF@
                    } else {
                        MODEL_ON@
                    },
                    seq![("id"@, int_text(m.id as int))],
                ),
{
    reveal_strlit("id");
    reveal_strlit("provider");
    reveal_strlit("name");
    reveal_strlit("alias");
    reveal_strlit("status");
    reveal_strlit("toggle");
    assert("id"@.len() == 2);
    assert("provider"@.len() == 8);
    assert("name"@.len() == 4);
    assert("alias"@.len() == 5);
    assert("status"@.len() == 6 && "status"@[0] == 's');
    assert("toggle"@.len() == 6 && "toggle"@[0] == 't');
    let values = seq![
        ("id"@, int_text(m.id as int)),
        ("provider"@, escaped(m.provider@)),
        ("name"@, escaped(m.name@)),
        ("alias"@, escaped(or_dash(opt_text(m.alias)))),
        ("status"@, status_words(
                m.enabled,
                opt_text(m.disabled_reason),
                opt_text(m.disabled_by),
                opt_text(m.disabled_at),
            )),
        ("toggle"@, filled(
                if m.enabled {
                    MODEL_OFF@
                } else {
                    MODEL_ON@
                },
                seq![("id"@, int_text(m.id as int))],
            )),
    ];
    lemma_first_named(values, "id"@, 0);
    lemma_first_named(values, "provider"@, 1);
    lemma_first_named(values, "name"@, 2);
    lemma_first_named(values, "alias"@, 3);
    lemma_first_named(values, "status"@, 4);
    lemma_first_named(values, "toggle"@, 5);
    assert(model_row(m) == filled(MODEL_ROW@, values));
}

/// The row of a provider shows the provider, its state, and the button that changes that.
pub proof fn provider_rows_show_their_provider(v: ProviderView)
    ensures
        exists|values: Seq<(Seq<char>, Seq<char>)>|
            row_of_view(v) == #[trigger] filled(PROVIDER_ROW@, values)
                && value_named(values, "id"@) == id_of(v.provider@)
                && value_named(values, "name"@) == escaped(v.provider@)
                && value_named(values, "status"@) == status_words(
                    v.enabled,
                    opt_text(v.disabled_reason),
                    opt_text(v.disabled_by),
                    opt_text(v.disabled_at),
                )
                && value_named(values, "action"@) == filled(
                    if v.enabled {
                        PROVIDER_OFF@
                    } else {
                        PROVIDER_ON@
                    },
                    seq![
                        ("id"@, id_of(v.provider@)),
                        ("url"@, percent_text(vstd::utf8::encode_utf8(v.provider@))),
                    ],
                ),
{
    reveal_strlit("id");
    reveal_strlit("name");
    reveal_strlit("status");
    reveal_strlit("action");
    assert("id"@.len() == 2);
    assert("name"@.len() == 4);
    assert("status"@.len() == 6 && "status"@[0] == 's');
    assert("action"@.len() == 6 && "action"@[0] == 'a');
    let values = seq![
        ("id"@, id_of(v.provider@)),
        ("name"@, escaped(v.provider@)),
        ("status"@, status_words(
                v.enabled,
                opt_text(v.disabled_reason),
                opt_text(v.disabled_by),
                opt_text(v.disabled_at),
            )),
        ("action"@, filled(
                if v.enabled {
                    PROVIDER_OFF@
                } else {
                    PROVIDER_ON@
                },
                seq![
                    ("id"@, id_of(v.provider@)),
                    ("url"@, percent_text(vstd::utf8::encode_utf8(v.provider@))),
                ],
            )),
    ];
    lemma_first_named(values, "id"@, 0);
    lemma_first_named(values, "name"@, 1);
    lemma_first_named(values, "status"@, 2);
    lemma_first_named(values, "action"@, 3);
    assert(row_of_view(v) == filled(PROVIDER_ROW@, values));
}

/// Providers are shown one row after the other, in their order.
pub proof fn providers_are_shown_in_order(s: Seq<ProviderView>, t: Seq<ProviderView>, x: ProviderView)
    ensures
        rows_of_views(seq![x]) == row_of_view(x),
        rows_of_views(s + t) == rows_of_views(s) + rows_of_views(t),
    decreases t.len(),
{
    reveal_strlit("");
    assert(""@.len() == 0);
    assert(seq![x].drop_last() =~= Seq::<ProviderView>::empty());
    assert(rows_of_views(seq![x].drop_last()).len() == 0);
    assert(rows_of_views(seq![x]) =~= row_of_view(x));
    if t.len() == 0 {
        assert(s + t =~= s);
        assert(rows_of_views(s) + rows_of_views(t) =~= rows_of_views(s));
    } else {
        providers_are_shown_in_order(s, t.drop_last(), x);
        assert((s + t).drop_last() =~= s + t.drop_last());
        assert(rows_of_views(s + t) =~= rows_of_views(s) + rows_of_views(t));
    }
}

/// A provider is shown as the first state recorded for it says; one without a state is in
/// rotation.
pub proof fn providers_are_shown_as_recorded(
    v: ProviderView,
    provider: Seq<char>,
    states: Seq<ProviderState>,
    i: int,
)
    requires
        v.shows(provider, state_of(states, provider)),
    ensures
        v.provider@ == provider,
        0 <= i < states.len() && states[i].provider@ == provider && (forall|j: int|
            0 <= j < i ==> (#[trigger] states[j]).provider@ != provider) ==> v.enabled
            == states[i].enabled && opt_text(v.disabled_reason) == opt_text(states[i].disabled_reason)
            && opt_text(v.disabled_by) == opt_text(states[i].disabled_by) && opt_text(v.disabled_at)
            == opt_text(states[i].disabled_at),
        (forall|j: int| 0 <= j < states.len() ==> (#[trigger] states[j]).provider@ != provider)
            ==> v.enabled && v.disabled_reason is None && v.disabled_by is None && v.disabled_at is None,
{
    if 0 <= i < states.len() && states[i].provider@ == provider && (forall|j: int|
        0 <= j < i ==> (#[trigger] states[j]).provider@ != provider) {
        lemma_first_state(states, provider, i);
    }
    if forall|j: int| 0 <= j < states.len() ==> (#[trigger] states[j]).provider@ != provider {
        lemma_no_state(states, provider);
    }
}

proof fn lemma_first_state(states: Seq<ProviderState>, provider: Seq<char>, i: int)
    requires
        0 <= i < states.len(),
        states[i].provider@ == provider,
        forall|j: int| 0 <= j < i ==> (#[trigger] states[j]).provider@ != provider,
    ensures
        state_of(states, provider) == Some(states[i]),
    decreases i,
{
    if i > 0 {
        let rest = states.drop_first();
        assert(states[0].provider@ != provider);
        assert forall|j: int| 0 <= j < i - 1 implies (#[trigger] rest[j]).provider@ != provider by {
            assert(rest[j] == states[j + 1]);
        }
        lemma_first_state(rest, provider, i - 1);
    }
}

proof fn lemma_no_state(states: Seq<ProviderState>, provider: Seq<char>)
    requires
        forall|j: int| 0 <= j < states.len() ==> (#[trigger] states[j]).provider@ != provider,
    ensures
        state_of(states, provider) is None,
    decreases states.len(),
{
    if states.len() > 0 {
        let rest = states.drop_first();
        assert(states[0].provider@ != provider);
        assert forall|j: int| 0 <= j < rest.len() implies (#[trigger] rest[j]).provider@ != provider by {
            assert(rest[j] == states[j + 1]);
        }
        lemma_no_state(rest, provider);
    }
}

/// The providers shown are those configured and those a state is recorded for.
pub proof fn providers_are_those_known(
    configured: Seq<Seq<char>>,
    states: Seq<ProviderState>,
    name: Seq<char>,
)
    ensures
        provider_names(configured, states).contains(name) <==> configured.contains(name) || exists|
            i: int,
        |
            0 <= i < states.len() && (#[trigger] states[i]).provider@ == name,
        configured.no_duplicates() ==> provider_names(configured, states).no_duplicates(),
    decreases states.len(),
{
    if states.len() > 0 {
        let front = states.drop_last();
        let rest = provider_names(configured, front);
        let all = provider_names(configured, states);
        providers_are_those_known(configured, front, name);
        assert(states[states.len() - 1] == states.last());
        assert(forall|i: int| 0 <= i < front.len() ==> #[trigger] front[i] == states[i]);
        if rest.contains(name) {
            let k = choose|k: int| 0 <= k < rest.len() && rest[k] == name;
            assert(all[k] == name);
        }
        if all.contains(name) && !rest.contains(name) {
            let k = choose|k: int| 0 <= k < all.len() && all[k] == name;
            if k < rest.len() {
                assert(rest[k] == name);
            }
        }
        if states.last().provider@ == name && !rest.contains(name) {
            assert(all[rest.len() as int] == name);
        }
        if exists|i: int| 0 <= i < states.len() && (#[trigger] states[i]).provider@ == name {
            let i = choose|i: int| 0 <= i < states.len() && (#[trigger] states[i]).provider@ == name;
            if i < front.len() {
                assert(front[i].provider@ == name);
            }
        }
        if configured.contains(name) || exists|i: int|
            0 <= i < front.len() && (#[trigger] front[i]).provider@ == name {
            assert(rest.contains(name));
        }
        if exists|i: int| 0 <= i < front.len() && (#[trigger] front[i]).provider@ == name {
            let i = choose|i: int| 0 <= i < front.len() && (#[trigger] front[i]).provider@ == name;
            assert(states[i].provider@ == name);
        }
    }
}

/// A provider is told by name, with its state.
pub proof fn providers_are_told_by_name(v: ProviderView)
    ensures
        v.object().at("provider"@) == JsonModel::Str(v.provider@),
        v.object().at("enabled"@) == JsonModel::Bool(v.enabled),
        v.object().at("disabled_reason"@) == match v.disabled_reason {
            Some(t) => JsonModel::Str(t@),
            None => JsonModel::Null,
        },
        v.object().at("disabled_by"@) == match v.disabled_by {
            Some(t) => JsonModel::Str(t@),
            None => JsonModel::Null,
        },
        v.object().at("disabled_at"@) == match v.disabled_at {
            Some(t) => JsonModel::Str(t@),
            None => JsonModel::Null,
        },
{
    broadcast use {
        crate::ordered::entries_are_found,
        crate::ordered::nothing_is_found_in_nothing,
    };

    reveal_strlit("provider");
    reveal_strlit("enabled");
    reveal_strlit("disabled_reason");
    reveal_strlit("disabled_by");
    reveal_strlit("disabled_at");
    assert("provider"@.len() == 8);
    assert("enabled"@.len() == 7);
    assert("disabled_reason"@.len() == 15);
    assert("disabled_by"@.len() == 11 && "disabled_by"@[9] == 'b');
    assert("disabled_at"@.len() == 11 && "disabled_at"@[9] == 'a');
}

/// What is recorded of a new model is what it is; of a change of state, the state and the
/// reason.
pub proof fn models_are_recorded(m: NewModel, enabled: bool, reason: Option<Seq<char>>)
    ensures
        exists|o: JsonModel|
            new_model_json(m) == #[trigger] text_of_json(o) && o.at("provider"@) == JsonModel::Str(m.provider@)
                && o.at("name"@) == JsonModel::Str(m.name@) && o.at("alias"@) == text_or_null(
                opt_text(m.alias),
            ),
        exists|o: JsonModel|
            set_json(enabled, reason) == #[trigger] text_of_json(o) && o.at("enabled"@) == JsonModel::Bool(
                enabled,
            ) && o.at("reason"@) == text_or_null(reason),
{
    broadcast use {
        crate::ordered::entries_are_found,
        crate::ordered::nothing_is_found_in_nothing,
    };

    reveal_strlit("provider");
    reveal_strlit("name");
    reveal_strlit("alias");
    reveal_strlit("enabled");
    reveal_strlit("reason");
    assert("provider"@.len() == 8);
    assert("name"@.len() == 4);
    assert("alias"@.len() == 5);
    assert("enabled"@.len() == 7);
    assert("reason"@.len() == 6);
    let o = with_entry(Seq::empty(), "provider"@, JsonModel::Str(m.provider@));
    let o = with_entry(o, "name"@, JsonModel::Str(m.name@));
    let o = JsonModel::Obj(with_entry(o, "alias"@, text_or_null(opt_text(m.alias))));
    assert(new_model_json(m) == text_of_json(o));
    let p = with_entry(Seq::empty(), "enabled"@, JsonModel::Bool(enabled));
    let p = JsonModel::Obj(with_entry(p, "reason"@, text_or_null(reason)));
    assert(set_json(enabled, reason) == text_of_json(p));
}

/// A saved chain is shown in its order, and as cleared where it is empty.
pub proof fn saved_chains_are_shown(primary: Seq<char>, one: Seq<char>, two: Seq<char>)
    ensures
        contains_text(failovers_fragment(primary, Seq::empty()), "<em>cleared</em>"@),
        contains_text(
            failovers_fragment(primary, seq![one, two]),
            escaped(one) + " \u{2192} "@ + escaped(two),
        ),
        contains_text(failovers_fragment(primary, seq![one]), escaped(primary)),
{
    let head = "<div class=\"alert\" style=\"background:#d4edda;border:1px solid #c3e6cb;color:#155724;margin-top:0.5rem\">\u{2713} Failover chain for <strong>"@;
    let mid = "</strong> saved: "@;
    let end = "</div>"@;
    let none = failovers_fragment(primary, Seq::empty());
    let at = (head + escaped(primary) + mid).len() as int;
    assert(none.subrange(at, at + "<em>cleared</em>"@.len()) =~= "<em>cleared</em>"@);
    let pair = seq![one, two].map_values(escape_each());
    assert(pair.drop_last().len() == 1 && pair.drop_last()[0] == escaped(one));
    assert(joined(pair.drop_last(), " \u{2192} "@) == escaped(one));
    assert(pair.last() == escaped(two));
    let both = escaped(one) + " \u{2192} "@ + escaped(two);
    assert(joined(pair, " \u{2192} "@) == both);
    let two_shown = failovers_fragment(primary, seq![one, two]);
    assert(two_shown.subrange(at, at + both.len()) =~= both);
    let p = escaped(primary);
    let shown = failovers_fragment(primary, seq![one]);
    let from = head.len() as int;
    assert(shown.subrange(from, from + p.len()) =~= p);
}

} // verus!
