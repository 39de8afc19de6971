//! Model aliases that are managed at run time.
//!
//! An alias is looked up first among those managed here, then among those of
//! enabled registered models, then in the configuration.

use crate::api::admin::audit::{change, change_of};
use crate::api::admin::auth::AdminClaims;
use crate::api::admin::dashboard::{or_dash, text_or_dash};
use crate::codec::{percent_text, url_encode};
use crate::json::{text_of_json, Json, JsonModel};
use crate::ordered::{
    ascending, lemma_lookup_is_entry, lemma_lookup_with_entry, lookup, with_entry, OrderedMap,
    Ranked,
};
use crate::records::NewAuditLogEntry;
use crate::sums::{lemma_added_in_turn, lemma_nothing_added};
use crate::text::{
    ascii_alphanumeric, chars_of, copy_text, escaped, fill, filled, he, holds_text,
    is_ascii_alphanumeric, lemma_first_named, opt_text, pairs, same, starts_with, texts, trim,
    trimmed, value_named,
};
use crate::text_map::TextMap;
use vstd::prelude::*;

verus! {

/// How far a chain of aliases is followed.
pub const MAX_ALIAS_DEPTH: usize = 10;

/// A registered model.
#[derive(Debug, Clone, PartialEq, Eq)]
pub struct Model {
    pub id: i64,
    pub provider: String,
    pub name: String,
    pub alias: Option<String>,
    pub enabled: bool,
    pub created_at: String,
    pub disabled_reason: Option<String>,
    pub disabled_by: Option<String>,
    pub disabled_at: Option<String>,
}

/// An alias that is managed here.
#[derive(Debug, Clone, PartialEq, Eq)]
pub struct ModelAlias {
    pub alias: String,
    pub target: String,
    pub created_by: Option<String>,
    pub updated_at: String,
}

/// An alias to be stored.
#[derive(Debug, Clone, PartialEq, Eq)]
pub struct NewModelAlias {
    pub alias: String,
    pub target: String,
    pub created_by: Option<String>,
}

// ---------------------------------------------------------------------------
// The map of aliases
// ---------------------------------------------------------------------------

pub type AliasEntries = Seq<(Seq<char>, Seq<char>)>;

/// A model by its provider and its name.
pub open spec fn qualified(provider: Seq<char>, name: Seq<char>) -> Seq<char> {
    provider + "/"@ + name
}

pub fn qualified_name(provider: &str, name: &str) -> (r: String)
    ensures
        r@ == qualified(provider@, name@),
{
    provider.to_owned().concat("/").concat(name)
}

/// The aliases of the enabled models; of two models with one alias the later
/// has it.
pub open spec fn model_aliases(models: Seq<Model>) -> AliasEntries
    decreases models.len(),
{
    if models.len() == 0 {
        Seq::empty()
    } else {
        let rest = model_aliases(models.drop_last());
        let m = models.last();
        match m.alias {
            Some(alias) => if m.enabled {
                with_entry(rest, alias@, qualified(m.provider@, m.name@))
            } else {
                rest
            },
            None => rest,
        }
    }
}

/// The aliases that hold: those of the models, and over them those that are
/// managed.
pub open spec fn effective_aliases(models: Seq<Model>, rows: Seq<ModelAlias>) -> AliasEntries
    decreases rows.len(),
{
    if rows.len() == 0 {
        model_aliases(models)
    } else {
        with_entry(
            effective_aliases(models, rows.drop_last()),
            rows.last().alias@,
            rows.last().target@,
        )
    }
}

/// Builds the map of aliases.
pub fn build_db_alias_map(models: &Vec<Model>, rows: &Vec<ModelAlias>) -> (r: TextMap)
    ensures
        r@ == effective_aliases(models@, rows@),
{
    let mut map = TextMap::new();
    let mut i: usize = 0;
    assert(models@.take(0) =~= Seq::empty());
    while i < models.len()
        invariant
            i <= models@.len(),
            map@ == model_aliases(models@.take(i as int)),
        decreases models@.len() - i,
    {
        assert(models@.take(i + 1).drop_last() =~= models@.take(i as int));
        let m = &models[i];
        if let Some(alias) = &m.alias {
            if m.enabled {
                map = map.insert(alias.clone(), qualified_name(m.provider.as_str(), m.name.as_str()));
            }
        }
        i += 1;
    }
    assert(models@.take(models@.len() as int) =~= models@);
    let mut j: usize = 0;
    assert(rows@.take(0) =~= Seq::empty());
    while j < rows.len()
        invariant
            j <= rows@.len(),
            map@ == effective_aliases(models@, rows@.take(j as int)),
        decreases rows@.len() - j,
    {
        assert(rows@.take(j + 1).drop_last() =~= rows@.take(j as int));
        map = map.insert(rows[j].alias.clone(), rows[j].target.clone());
        j += 1;
    }
    assert(rows@.take(rows@.len() as int) =~= rows@);
    map
}

/// The entries of `over` laid over those of `base`, but for one key.
pub open spec fn overlaid(base: AliasEntries, over: AliasEntries, except: Seq<char>) -> AliasEntries
    decreases over.len(),
{
    if over.len() == 0 {
        base
    } else {
        let rest = overlaid(base, over.drop_last(), except);
        if over.last().0 == except {
            rest
        } else {
            with_entry(rest, over.last().0, over.last().1)
        }
    }
}

fn overlay(base: TextMap, over: &TextMap, except: &str) -> (r: TextMap)
    ensures
        r@ == overlaid(base@, over@, except@),
{
    let ghost start = base@;
    let mut map = base;
    let mut i: usize = 0;
    assert(over@.take(0) =~= Seq::empty());
    while i < over.len()
        invariant
            i <= over@.len(),
            map@ == overlaid(start, over@.take(i as int), except@),
        decreases over@.len() - i,
    {
        assert(over@.take(i + 1).drop_last() =~= over@.take(i as int));
        if !same(over.key(i).as_str(), except) {
            map = map.insert(over.key(i).clone(), over.value(i).clone());
        }
        i += 1;
    }
    assert(over@.take(over@.len() as int) =~= over@);
    map
}

/// Whether following `current` comes to `alias`, or does not end within some
/// steps.
pub open spec fn leads_back(map: AliasEntries, alias: Seq<char>, current: Seq<char>, steps: nat) -> bool
    decreases steps,
{
    if steps == 0 {
        true
    } else if current == alias {
        true
    } else {
        match lookup(map, current) {
            Some(next) => leads_back(map, alias, next, (steps - 1) as nat),
            None => false,
        }
    }
}

/// Whether an alias would make a cycle, or a chain too long to follow.
pub fn would_cycle(map: &TextMap, alias: &str, target: &str) -> (r: bool)
    ensures
        r == leads_back(map@, alias@, target@, MAX_ALIAS_DEPTH as nat),
{
    let mut current: String = target.to_owned();
    let mut left: usize = MAX_ALIAS_DEPTH;
    while left > 0
        invariant
            left <= MAX_ALIAS_DEPTH,
            leads_back(map@, alias@, current@, left as nat) == leads_back(
                map@,
                alias@,
                target@,
                MAX_ALIAS_DEPTH as nat,
            ),
        decreases left,
    {
        if same(current.as_str(), alias) {
            return true;
        }
        match map.get(current.as_str()) {
            Some(next) => {
                current = next.clone();
            },
            None => {
                return false;
            },
        }
        left -= 1;
    }
    true
}

// ---------------------------------------------------------------------------
// What can be an alias
// ---------------------------------------------------------------------------

/// The models of a provider's part of a catalog, each as `provider/name`.
pub open spec fn listed_models(models: Seq<JsonModel>) -> Seq<Seq<char>>
    decreases models.len(),
{
    if models.len() == 0 {
        Seq::empty()
    } else {
        let rest = listed_models(models.drop_last());
        match (models.last().at("provider"@).text(), models.last().at("name"@).text()) {
            (Some(provider), Some(name)) => rest.push(qualified(provider, name)),
            _ => rest,
        }
    }
}

pub open spec fn models_of_provider(data: JsonModel) -> Seq<Seq<char>> {
    match data.at("models"@).items() {
        Some(models) => listed_models(models),
        None => Seq::empty(),
    }
}

pub open spec fn catalog_models(entries: Seq<(Seq<char>, JsonModel)>) -> Seq<Seq<char>>
    decreases entries.len(),
{
    if entries.len() == 0 {
        Seq::empty()
    } else {
        catalog_models(entries.drop_last()) + models_of_provider(entries.last().1)
    }
}

/// The models that a catalog offers; nothing where it says of none.
pub open spec fn catalog_ids(catalog: JsonModel) -> Option<Seq<Seq<char>>> {
    match catalog {
        JsonModel::Obj(entries) => if catalog_models(entries).len() == 0 {
            None
        } else {
            Some(catalog_models(entries))
        },
        _ => None,
    }
}

fn member_text(j: &Json, key: &str) -> (r: Option<String>)
    ensures
        opt_text(r) == j.model().at(key@).text(),
{
    match j.get(key) {
        Some(v) => match v.as_str() {
            Some(t) => Some(t.to_owned()),
            None => None,
        },
        None => None,
    }
}

fn list_provider(data: &Json) -> (r: Vec<String>)
    ensures
        texts(r@) == models_of_provider(data.model()),
{
    let mut out: Vec<String> = Vec::new();
    assert(texts(out@) =~= Seq::empty());
    let models = match data.get("models") {
        Some(v) => match v.as_array() {
            Some(models) => models,
            None => {
                return out;
            },
        },
        None => {
            return out;
        },
    };
    let ghost all = crate::json::list_models(models@);
    let mut i: usize = 0;
    assert(all.take(0) =~= Seq::empty());
    while i < models.len()
        invariant
            i <= models@.len(),
            all == crate::json::list_models(models@),
            data.model().at("models"@).items() == Some(all),
            texts(out@) == listed_models(all.take(i as int)),
        decreases models@.len() - i,
    {
        assert(all.take(i + 1).drop_last() =~= all.take(i as int));
        assert(all.take(i + 1).last() == models@[i as int].model());
        let provider = member_text(&models[i], "provider");
        let name = member_text(&models[i], "name");
        if let (Some(provider), Some(name)) = (provider, name) {
            let ghost before = out@;
            let id = qualified_name(provider.as_str(), name.as_str());
            out.push(id);
            assert(texts(out@) =~= texts(before).push(id@));
        }
        i += 1;
    }
    assert(all.take(all.len() as int) =~= all);
    out
}

/// Lists the models that a catalog offers.
pub fn available_model_ids(catalog: &Json) -> (r: Option<Vec<String>>)
    ensures
        match r {
            Some(ids) => catalog_ids(catalog.model()) == Some(texts(ids@)),
            None => catalog_ids(catalog.model()) is None,
        },
{
    let entries = match catalog.as_object() {
        Some(entries) => entries,
        None => {
            return None;
        },
    };
    let ghost all = crate::json::entry_models(entries@);
    let mut out: Vec<String> = Vec::new();
    let mut i: usize = 0;
    assert(all.take(0) =~= Seq::empty());
    assert(texts(out@) =~= Seq::empty());
    while i < entries.len()
        invariant
            i <= entries@.len(),
            all == crate::json::entry_models(entries@),
            catalog.model() == JsonModel::Obj(all),
            texts(out@) == catalog_models(all.take(i as int)),
        decreases entries@.len() - i,
    {
        assert(all.take(i + 1).drop_last() =~= all.take(i as int));
        assert(all.take(i + 1).last().1 == entries@[i as int].1.model());
        let mut more = list_provider(&entries[i].1);
        let ghost before = out@;
        let ghost added = more@;
        out.append(&mut more);
        assert(texts(out@) =~= texts(before) + texts(added));
        i += 1;
    }
    assert(all.take(all.len() as int) =~= all);
    assert(texts(out@).len() == out@.len());
    if out.len() == 0 {
        None
    } else {
        Some(out)
    }
}

pub const BLANK_ALIAS: &'static str = "alias and target are required";

pub const RESERVED_ALIAS: &'static str =
    "aliases may not start with ':' \u{2014} that prefix is reserved for routing shortcuts";

/// The aliases that a new one is held against: those that are managed or belong
/// to models, over those of the configuration. What the alias itself meant
/// before does not count.
pub open spec fn other_aliases(db: AliasEntries, config: AliasEntries, alias: Seq<char>) -> AliasEntries {
    overlaid(config, db, alias)
}

/// Why an alias cannot point where it should.
pub open spec fn alias_refusal(
    alias: Seq<char>,
    target: Seq<char>,
    db: AliasEntries,
    config: AliasEntries,
) -> Option<Seq<char>> {
    if alias.len() == 0 || target.len() == 0 {
        Some(BLANK_ALIAS@)
    } else if alias[0] == ':' {
        Some(RESERVED_ALIAS@)
    } else if alias == target {
        Some("alias '"@ + alias + "' cannot point at itself"@)
    } else if leads_back(
        other_aliases(db, config, alias),
        alias,
        target,
        MAX_ALIAS_DEPTH as nat,
    ) {
        Some("alias '"@ + alias + "' -> '"@ + target + "' would create an alias cycle"@)
    } else {
        None
    }
}

/// Checks an alias against the others. Gives back alias and target without the
/// white space around them.
pub fn check_alias(alias: &str, target: &str, db: &TextMap, config: &TextMap) -> (r: Result<
    (String, String),
    String,
>)
    ensures
        match alias_refusal(trimmed(alias@), trimmed(target@), db@, config@) {
            None => r matches Ok((a, t)) && a@ == trimmed(alias@) && t@ == trimmed(target@),
            Some(message) => r matches Err(m) && m@ == message,
        },
{
    let alias = trim(alias);
    let target = trim(target);
    if alias.is_empty() || target.is_empty() {
        return Err(BLANK_ALIAS.to_owned());
    }
    proof {
        reveal_strlit(":");
        assert(alias@.take(1) =~= seq![alias@[0]]);
        assert(":"@ =~= seq![':']);
        assert(seq![alias@[0]][0] == alias@[0] && seq![':'][0] == ':');
    }
    if starts_with(alias, ":") {
        return Err(RESERVED_ALIAS.to_owned());
    }
    if same(alias, target) {
        return Err("alias '".to_owned().concat(alias).concat("' cannot point at itself"));
    }
    let map = overlay(config.clone(), db, alias);
    if would_cycle(&map, alias, target) {
        return Err(
            "alias '".to_owned().concat(alias).concat("' -> '").concat(target).concat(
                "' would create an alias cycle",
            ),
        );
    }
    Ok((alias.to_owned(), target.to_owned()))
}

/// Whether a catalog rules a target out: it is there, and does not offer it.
pub open spec fn ruled_out(target: Seq<char>, catalog: JsonModel) -> bool {
    catalog_ids(catalog) matches Some(ids) && !ids.contains(target)
}

/// Checks the target of an alias against the catalog. Where there is no catalog,
/// nothing is ruled out.
pub fn check_target(target: &str, catalog: &Json) -> (r: Result<(), String>)
    ensures
        r is Ok <==> !ruled_out(target@, catalog.model()),
        r matches Err(m) ==> m@ == "model '"@ + target@
            + "' not found in provider catalogs \u{2014} validation can be bypassed when catalog is unavailable"@,
{
    match available_model_ids(catalog) {
        Some(ids) => if holds_text(&ids, target) {
            Ok(())
        } else {
            Err(
                "model '".to_owned().concat(target).concat(
                    "' not found in provider catalogs \u{2014} validation can be bypassed when catalog is unavailable",
                ),
            )
        },
        None => Ok(()),
    }
}

// ---------------------------------------------------------------------------
// What is out of rotation
// ---------------------------------------------------------------------------

/// A provider that an operator has turned off or on.
#[derive(Debug, Clone, PartialEq, Eq)]
pub struct ProviderState {
    pub provider: String,
    pub enabled: bool,
    pub disabled_reason: Option<String>,
    pub disabled_by: Option<String>,
    pub disabled_at: Option<String>,
}

/// Why something is out of rotation.
#[derive(Debug, Clone, PartialEq, Eq)]
pub struct DisableInfo {
    pub reason: Option<String>,
    pub by: Option<String>,
    pub at: Option<String>,
}

pub struct DisableModel {
    pub reason: Option<Seq<char>>,
    pub by: Option<Seq<char>>,
    pub at: Option<Seq<char>>,
}

impl View for DisableInfo {
    type V = DisableModel;

    open spec fn view(&self) -> DisableModel {
        DisableModel { reason: opt_text(self.reason), by: opt_text(self.by), at: opt_text(self.at) }
    }
}

pub open spec fn info_of(reason: Option<String>, by: Option<String>, at: Option<String>) -> DisableModel {
    DisableModel { reason: opt_text(reason), by: opt_text(by), at: opt_text(at) }
}

fn info(reason: &Option<String>, by: &Option<String>, at: &Option<String>) -> (r: DisableInfo)
    ensures
        r@ == info_of(*reason, *by, *at),
{
    DisableInfo { reason: copy_text(reason), by: copy_text(by), at: copy_text(at) }
}

/// The models that are off, by `provider/name`.
pub open spec fn models_off(models: Seq<Model>) -> Seq<(Seq<char>, DisableModel)>
    decreases models.len(),
{
    if models.len() == 0 {
        Seq::empty()
    } else {
        let rest = models_off(models.drop_last());
        let m = models.last();
        if m.enabled {
            rest
        } else {
            with_entry(
                rest,
                qualified(m.provider@, m.name@),
                info_of(m.disabled_reason, m.disabled_by, m.disabled_at),
            )
        }
    }
}

/// The providers that are off, by name.
pub open spec fn providers_off(states: Seq<ProviderState>) -> Seq<(Seq<char>, DisableModel)>
    decreases states.len(),
{
    if states.len() == 0 {
        Seq::empty()
    } else {
        let rest = providers_off(states.drop_last());
        let p = states.last();
        if p.enabled {
            rest
        } else {
            with_entry(
                rest,
                p.provider@,
                info_of(p.disabled_reason, p.disabled_by, p.disabled_at),
            )
        }
    }
}

pub open spec fn off_entry() -> spec_fn((Seq<char>, DisableInfo)) -> (Seq<char>, DisableModel) {
    |e: (Seq<char>, DisableInfo)| (e.0, e.1@)
}

/// What is out of rotation.
pub struct Availability {
    pub models: OrderedMap<String, DisableInfo>,
    pub providers: OrderedMap<String, DisableInfo>,
}

fn list_models_off(models: &Vec<Model>) -> (r: OrderedMap<String, DisableInfo>)
    ensures
        r.wf(),
        r@.map_values(off_entry()) == models_off(models@),
{
    let mut out: OrderedMap<String, DisableInfo> = OrderedMap::new();
    let mut i: usize = 0;
    assert(models@.take(0) =~= Seq::empty());
    assert(out@.map_values(off_entry()) =~= Seq::empty());
    while i < models.len()
        invariant
            i <= models@.len(),
            out.wf(),
            out@.map_values(off_entry()) == models_off(models@.take(i as int)),
        decreases models@.len() - i,
    {
        assert(models@.take(i + 1).drop_last() =~= models@.take(i as int));
        let m = &models[i];
        if !m.enabled {
            let value = info(&m.disabled_reason, &m.disabled_by, &m.disabled_at);
            let key = qualified_name(m.provider.as_str(), m.name.as_str());
            proof {
                crate::ordered::lemma_with_entry_map(out@, key@, value, off_entry());
            }
            out.insert(key, value);
        }
        i += 1;
    }
    assert(models@.take(models@.len() as int) =~= models@);
    out
}


fn list_providers_off(states: &Vec<ProviderState>) -> (r: OrderedMap<String, DisableInfo>)
    ensures
        r.wf(),
        r@.map_values(off_entry()) == providers_off(states@),
{
    let mut out: OrderedMap<String, DisableInfo> = OrderedMap::new();
    let mut i: usize = 0;
    assert(states@.take(0) =~= Seq::empty());
    assert(out@.map_values(off_entry()) =~= Seq::empty());
    while i < states.len()
        invariant
            i <= states@.len(),
            out.wf(),
            out@.map_values(off_entry()) == providers_off(states@.take(i as int)),
        decreases states@.len() - i,
    {
        assert(states@.take(i + 1).drop_last() =~= states@.take(i as int));
        let p = &states[i];
        if !p.enabled {
            let value = info(&p.disabled_reason, &p.disabled_by, &p.disabled_at);
            let key = p.provider.clone();
            proof {
                crate::ordered::lemma_with_entry_map(out@, key@, value, off_entry());
            }
            out.insert(key, value);
        }
        i += 1;
    }
    assert(states@.take(states@.len() as int) =~= states@);
    out
}

/// Lists what operators have taken out of rotation.
pub fn build_availability_map(models: &Vec<Model>, states: &Vec<ProviderState>) -> (r: Availability)
    ensures
        r.models.wf(),
        r.providers.wf(),
        r.models@.map_values(off_entry()) == models_off(models@),
        r.providers@.map_values(off_entry()) == providers_off(states@),
{
    Availability { models: list_models_off(models), providers: list_providers_off(states) }
}

// ---------------------------------------------------------------------------
// Writes
// ---------------------------------------------------------------------------

#[derive(Debug, Clone, PartialEq, Eq)]
pub struct UpsertAliasRequest {
    pub target: String,
}

#[derive(Debug, Clone, PartialEq, Eq)]
pub struct AliasForm {
    pub alias: String,
    pub target: String,
}

/// The alias to store.
pub fn new_alias(actor: &AdminClaims, alias: &str, target: &str) -> (r: NewModelAlias)
    ensures
        r.alias@ == alias@,
        r.target@ == target@,
        opt_text(r.created_by) == Some(actor.name@),
{
    NewModelAlias {
        alias: alias.to_owned(),
        target: target.to_owned(),
        created_by: Some(actor.name.clone()),
    }
}

/// `{"target": ..}`, as it is written to the audit log.
pub open spec fn target_json(target: Seq<char>) -> Seq<char> {
    text_of_json(JsonModel::Obj(with_entry(Seq::empty(), "target"@, JsonModel::Str(target))))
}

fn target_text(target: &str) -> (r: String)
    ensures
        r@ == target_json(target@),
{
    Json::object().with("target", Json::Str(target.to_owned())).to_text()
}

pub open spec fn before_json(before: Option<ModelAlias>) -> Option<Seq<char>> {
    match before {
        Some(b) => Some(target_json(b.target@)),
        None => None,
    }
}

fn before_text(before: &Option<ModelAlias>) -> (r: Option<String>)
    ensures
        opt_text(r) == before_json(*before),
{
    match before {
        Some(b) => Some(target_text(b.target.as_str())),
        None => None,
    }
}

/// The audit line of an alias that was set.
pub fn alias_set(actor: &AdminClaims, alias: &str, target: &str, before: &Option<ModelAlias>) -> (r:
    NewAuditLogEntry)
    ensures
        r@ == change_of(
            *actor,
            if *before is Some {
                "alias.update"@
            } else {
                "alias.create"@
            },
            "alias:"@ + alias@,
            before_json(*before),
            Some(target_json(target@)),
        ),
{
    let action = if before.is_some() {
        "alias.update"
    } else {
        "alias.create"
    };
    change(
        actor,
        action,
        "alias:".to_owned().concat(alias),
        before_text(before),
        Some(target_text(target)),
    )
}

/// The audit line of an alias that was deleted.
pub fn alias_deleted(actor: &AdminClaims, alias: &str, before: &Option<ModelAlias>) -> (r:
    NewAuditLogEntry)
    ensures
        r@ == change_of(*actor, "alias.delete"@, "alias:"@ + alias@, before_json(*before), None),
{
    change(
        actor,
        "alias.delete",
        "alias:".to_owned().concat(alias),
        before_text(before),
        None,
    )
}

/// The answer to the request to delete an alias.
pub fn delete_answer(alias: &str, removed: bool) -> (r: Result<Json, crate::api::error::ApiError>)
    ensures
        removed ==> (r matches Ok(j) && j.wf() && j.model() == JsonModel::Obj(
            with_entry(
                with_entry(Seq::empty(), "ok"@, JsonModel::Bool(true)),
                "alias"@,
                JsonModel::Str(alias@),
            ),
        )),
        !removed ==> (r matches Err(crate::api::error::ApiError::InvalidRequest(m)) && m@
            == "no such alias: "@ + alias@),
{
    if removed {
        Ok(Json::object().with("ok", Json::Bool(true)).with("alias", Json::Str(alias.to_owned())))
    } else {
        Err(
            crate::api::error::ApiError::InvalidRequest(
                "no such alias: ".to_owned().concat(alias),
            ),
        )
    }
}

// ---------------------------------------------------------------------------
// Fragments
// ---------------------------------------------------------------------------

/// What is shown where an alias cannot be accepted.
pub fn refusal_html(message: &str) -> (r: String)
    ensures
        r@ == "<div class=\"alert alert-danger\">"@ + escaped(message@) + "</div>"@,
{
    "<div class=\"alert alert-danger\">".to_owned().concat(he(message).as_str()).concat("</div>")
}

pub const SAVED_ALIAS: &'static str =
    "<div class=\"alert\" style=\"background:#d4edda;border:1px solid #c3e6cb;color:#155724\">\u{2713} Alias <strong>{alias}</strong> \u{2192} <code>{target}</code> saved and live.</div><div hx-get=\"/admin/aliases/rows\" hx-target=\"#aliases-tbody\" hx-swap=\"innerHTML\" hx-trigger=\"load\"></div>";

pub fn saved_html(alias: &str, target: &str) -> (r: String)
    ensures
        r@ == filled(
            SAVED_ALIAS@,
            seq![("alias"@, escaped(alias@)), ("target"@, escaped(target@))],
        ),
{
    let (a, t) = (he(alias), he(target));
    let values = vec![("alias", a.as_str()), ("target", t.as_str())];
    let r = fill(SAVED_ALIAS, &values);
    assert(pairs(values@) =~= seq![("alias"@, a@), ("target"@, t@)]);
    r
}

/// A text with a hyphen for each character that cannot stand in an id.
pub open spec fn id_of(s: Seq<char>) -> Seq<char> {
    s.map_values(id_char())
}

pub open spec fn id_char() -> spec_fn(char) -> char {
    |c: char|
        if ascii_alphanumeric(c) {
            c
        } else {
            '-'
        }
}

/// An alias, which may hold `/` and other characters, as part of an id.
pub fn sanitize_id(alias: &str) -> (r: String)
    ensures
        r@ == id_of(alias@),
{
    let cs = chars_of(alias);
    let mut out: String = String::new();
    let mut i: usize = 0;
    while i < cs.len()
        invariant
            i <= cs@.len(),
            cs@ == alias@,
            out@ =~= id_of(alias@.take(i as int)),
        decreases cs@.len() - i,
    {
        if is_ascii_alphanumeric(cs[i]) {
            out.push(cs[i]);
        } else {
            out.push('-');
        }
        i += 1;
    }
    assert(alias@.take(i as int) =~= alias@);
    out
}

pub const NO_ALIASES: &'static str =
    "<tr><td colspan=\"5\" style=\"color:#999;font-style:italic;\">No runtime aliases defined.</td></tr>";

pub const ALIAS_ROW: &'static str =
    "<tr id=\"alias-row-{id}\"><td><code>{alias}</code></td><td><code>{target}</code></td><td>{by}</td><td>{updated}</td><td><button class=\"btn btn-secondary\" style=\"font-size:0.8rem;padding:0.25rem 0.5rem\" onclick='editAlias(\"{alias}\", \"{target}\")'>Edit</button><button class=\"btn btn-danger\" style=\"font-size:0.8rem;padding:0.25rem 0.5rem\" hx-post=\"/admin/aliases/{url}/delete\" hx-target=\"#alias-row-{id}\" hx-swap=\"outerHTML\" hx-confirm=\"Delete this alias?\">Delete</button></td></tr>";

/// The table row of an alias.
pub open spec fn alias_row(a: ModelAlias) -> Seq<char> {
    filled(
        ALIAS_ROW@,
        seq![
            ("id"@, id_of(a.alias@)),
            ("alias"@, escaped(a.alias@)),
            ("target"@, escaped(a.target@)),
            ("by"@, escaped(or_dash(opt_text(a.created_by)))),
            ("updated"@, escaped(a.updated_at@)),
            ("url"@, percent_text(vstd::utf8::encode_utf8(a.alias@))),
        ],
    )
}

fn alias_row_html(a: &ModelAlias) -> (r: String)
    ensures
        r@ == alias_row(*a),
{
    let id = sanitize_id(a.alias.as_str());
    let alias = he(a.alias.as_str());
    let target = he(a.target.as_str());
    let by = he(text_or_dash(&a.created_by));
    let updated = he(a.updated_at.as_str());
    let url = url_encode(a.alias.as_str());
    let values = vec![
        ("id", id.as_str()),
        ("alias", alias.as_str()),
        ("target", target.as_str()),
        ("by", by.as_str()),
        ("updated", updated.as_str()),
        ("url", url.as_str()),
    ];
    let r = fill(ALIAS_ROW, &values);
    assert(pairs(values@) =~= seq![
        ("id"@, id@),
        ("alias"@, alias@),
        ("target"@, target@),
        ("by"@, by@),
        ("updated"@, updated@),
        ("url"@, url@),
    ]);
    r
}

pub open spec fn alias_rows(rows: Seq<ModelAlias>) -> Seq<char>
    decreases rows.len(),
{
    if rows.len() == 0 {
        ""@
    } else {
        alias_rows(rows.drop_last()) + alias_row(rows.last())
    }
}

/// The body of the table of aliases.
pub fn render_alias_rows(rows: &Vec<ModelAlias>) -> (r: String)
    ensures
        r@ == if rows@.len() == 0 {
            NO_ALIASES@
        } else {
            alias_rows(rows@)
        },
{
    if rows.len() == 0 {
        return NO_ALIASES.to_owned();
    }
    let mut out: String = "".to_owned();
    let mut i: usize = 0;
    assert(rows@.take(0) =~= Seq::empty());
    while i < rows.len()
        invariant
            i <= rows@.len(),
            out@ == alias_rows(rows@.take(i as int)),
        decreases rows@.len() - i,
    {
        assert(rows@.take(i + 1).drop_last() =~= rows@.take(i as int));
        let row = alias_row_html(&rows[i]);
        out.append(row.as_str());
        i += 1;
    }
    assert(rows@.take(rows@.len() as int) =~= rows@);
    out
}

// ---------------------------------------------------------------------------
// Laws
// ---------------------------------------------------------------------------

/// Whether following a name ends, within some steps, at one that is no alias.
pub open spec fn settles(map: AliasEntries, name: Seq<char>, steps: nat) -> bool
    decreases steps,
{
    match lookup(map, name) {
        None => true,
        Some(next) => steps > 0 && settles(map, next, (steps - 1) as nat),
    }
}

proof fn lemma_settles(map: AliasEntries, alias: Seq<char>, target: Seq<char>, current: Seq<char>, steps: nat)
    requires
        steps > 0,
        !leads_back(map, alias, current, steps),
    ensures
        settles(with_entry(map, alias, target), current, (steps - 1) as nat),
    decreases steps,
{
    lemma_lookup_with_entry(map, alias, target, current);
    if let Some(next) = lookup(map, current) {
        if steps == 1 {
            assert(leads_back(map, alias, next, 0));
        } else {
            lemma_settles(map, alias, target, next, (steps - 1) as nat);
        }
    }
}

/// An alias that is accepted can be resolved: following it ends at a model
/// within as many steps as are ever followed.
pub proof fn accepted_aliases_resolve(
    alias: Seq<char>,
    target: Seq<char>,
    db: AliasEntries,
    config: AliasEntries,
)
    requires
        alias_refusal(alias, target, db, config) is None,
    ensures
        settles(
            with_entry(other_aliases(db, config, alias), alias, target),
            alias,
            MAX_ALIAS_DEPTH as nat,
        ),
{
    let others = other_aliases(db, config, alias);
    lemma_lookup_with_entry(others, alias, target, alias);
    lemma_settles(others, alias, target, target, MAX_ALIAS_DEPTH as nat);
}

/// Whether the row at `k` is the last one for an alias.
pub open spec fn is_last_row_of(rows: Seq<ModelAlias>, alias: Seq<char>, k: int) -> bool {
    &&& rows[k].alias@ == alias
    &&& forall|j: int| k < j < rows.len() ==> (#[trigger] rows[j]).alias@ != alias
}

/// A managed alias goes before that of a model, and of the models only those
/// that are enabled have one.
pub proof fn managed_aliases_go_first(models: Seq<Model>, rows: Seq<ModelAlias>, alias: Seq<char>)
    ensures
        forall|k: int|
            0 <= k < rows.len() && is_last_row_of(rows, alias, k) ==> lookup(
                effective_aliases(models, rows),
                alias,
            ) == Some((#[trigger] rows[k]).target@),
        (forall|i: int| 0 <= i < rows.len() ==> (#[trigger] rows[i]).alias@ != alias) ==> lookup(
            effective_aliases(models, rows),
            alias,
        ) == lookup(model_aliases(models), alias),
        (forall|i: int|
            0 <= i < models.len() ==> !(#[trigger] models[i]).enabled || opt_text(models[i].alias)
                != Some(alias)) ==> lookup(model_aliases(models), alias) is None,
    decreases rows.len() + models.len(),
{
    if models.len() > 0 {
        let front = models.drop_last();
        let last = models.last();
        managed_aliases_go_first(front, rows, alias);
        if forall|i: int|
            0 <= i < models.len() ==> !(#[trigger] models[i]).enabled || opt_text(models[i].alias)
                != Some(alias) {
            assert(models[models.len() - 1] == last);
            assert forall|i: int| 0 <= i < front.len() implies !(#[trigger] front[i]).enabled
                || opt_text(front[i].alias) != Some(alias) by {
                assert(front[i] == models[i]);
            }
            if let Some(a) = last.alias {
                lemma_lookup_with_entry(
                    model_aliases(front),
                    a@,
                    qualified(last.provider@, last.name@),
                    alias,
                );
            }
        }
    }
    if rows.len() > 0 {
        let front = rows.drop_last();
        let last = rows.last();
        managed_aliases_go_first(models, front, alias);
        lemma_lookup_with_entry(effective_aliases(models, front), last.alias@, last.target@, alias);
        assert(rows[rows.len() - 1] == last);
        assert forall|k: int| 0 <= k < rows.len() && is_last_row_of(rows, alias, k) implies lookup(
            effective_aliases(models, rows),
            alias,
        ) == Some((#[trigger] rows[k]).target@) by {
            if k < rows.len() - 1 {
                assert(front[k] == rows[k]);
                assert(is_last_row_of(front, alias, k)) by {
                    assert forall|j: int| k < j < front.len() implies (#[trigger] front[j]).alias@
                        != alias by {
                        assert(front[j] == rows[j]);
                    }
                }
            }
        }
        if forall|i: int| 0 <= i < rows.len() ==> (#[trigger] rows[i]).alias@ != alias {
            assert forall|i: int| 0 <= i < front.len() implies (#[trigger] front[i]).alias@ != alias by {
                assert(front[i] == rows[i]);
            }
        }
    }
}

/// A model is known by its own alias while it is enabled, the later model where two have
/// the same.
pub proof fn models_are_known_by_their_alias(models: Seq<Model>, i: int, alias: Seq<char>)
    ensures
        0 <= i < models.len() && models[i].enabled && opt_text(models[i].alias) == Some(alias) && (
        forall|j: int|
            i < j < models.len() ==> !(#[trigger] models[j]).enabled || opt_text(models[j].alias)
                != Some(alias)) ==> lookup(model_aliases(models), alias) == Some(
            models[i].provider@ + "/"@ + models[i].name@,
        ),
        (forall|j: int|
            0 <= j < models.len() ==> !(#[trigger] models[j]).enabled || opt_text(models[j].alias)
                != Some(alias)) ==> lookup(model_aliases(models), alias) is None,
    decreases models.len(),
{
    broadcast use {
        crate::ordered::entries_are_found,
        crate::ordered::nothing_is_found_in_nothing,
    };

    if models.len() > 0 {
        let front = models.drop_last();
        models_are_known_by_their_alias(front, i, alias);
        assert(forall|j: int| 0 <= j < front.len() ==> #[trigger] front[j] == models[j]);
        assert(models[models.len() - 1] == models.last());
    }
}

/// Aliases laid over others replace those of the same name, all but the excepted one.
pub proof fn overlays_replace(base: AliasEntries, over: AliasEntries, except: Seq<char>, name: Seq<char>)
    requires
        ascending(over),
    ensures
        name != except && lookup(over, name) is Some ==> lookup(overlaid(base, over, except), name)
            == lookup(over, name),
        name == except || lookup(over, name) is None ==> lookup(overlaid(base, over, except), name)
            == lookup(base, name),
    decreases over.len(),
{
    broadcast use {
        crate::ordered::entries_are_found,
        crate::ordered::nothing_is_found_in_nothing,
    };

    if over.len() > 0 {
        let front = over.drop_last();
        assert(forall|j: int| 0 <= j < front.len() ==> #[trigger] front[j] == over[j]);
        overlays_replace(base, front, except, name);
        lemma_lookup_is_entry(over, name);
        lemma_lookup_is_entry(front, name);
        let n = over.len() - 1;
        assert(over[n] == over.last());
        if over.last().0 == name {
            if lookup(front, name) is Some {
                let i = choose|i: int|
                    0 <= i < front.len() && #[trigger] front[i] == (name, lookup(front, name)->0);
                assert(over[i].0 == over[n].0);
                <Seq<char> as Ranked>::lemma_irreflexive(name);
            }
            let k = choose|k: int|
                0 <= k < over.len() && #[trigger] over[k] == (name, lookup(over, name)->0);
            if k < n {
                assert(front[k] == over[k]);
            }
            assert(lookup(over, name) == Some(over.last().1));
        } else {
            match lookup(over, name) {
                Some(v) => {
                    let k = choose|k: int| 0 <= k < over.len() && #[trigger] over[k] == (name, v);
                    assert(front[k] == over[k]);
                    let i = choose|i: int|
                        0 <= i < front.len() && #[trigger] front[i] == (name, lookup(front, name)->0);
                    assert(over[i] == front[i]);
                    <Seq<char> as Ranked>::lemma_irreflexive(name);
                    if i < k {
                        assert(<Seq<char> as Ranked>::before(over[i].0, over[k].0));
                    } else if k < i {
                        assert(<Seq<char> as Ranked>::before(over[k].0, over[i].0));
                    }
                },
                None => {
                    if lookup(front, name) is Some {
                        let i = choose|i: int|
                            0 <= i < front.len() && #[trigger] front[i] == (
                                name,
                                lookup(front, name)->0,
                            );
                        assert(over[i] == front[i]);
                    }
                },
            }
        }
    }
}

/// A chain of aliases leads back where one of its names is the alias; it does not where it
/// comes to a name that stands for itself first.
pub proof fn chains_lead_back_or_end(map: AliasEntries, alias: Seq<char>, name: Seq<char>, steps: nat)
    requires
        steps > 0,
    ensures
        name == alias ==> leads_back(map, alias, name, steps),
        name != alias && lookup(map, name) is None ==> !leads_back(map, alias, name, steps),
        name != alias ==> (lookup(map, name) matches Some(next) ==> leads_back(map, alias, name, steps)
            == leads_back(map, alias, next, (steps - 1) as nat)),
{
}

/// A catalog lists its models in their order, each by its provider and its own name; what
/// names no model is passed over.
pub proof fn catalogs_list_models_in_order(s: Seq<JsonModel>, t: Seq<JsonModel>, x: JsonModel)
    ensures
        listed_models(seq![x]) == (match (x.at("provider"@).text(), x.at("name"@).text()) {
            (Some(p), Some(n)) => seq![p + "/"@ + n],
            _ => Seq::<Seq<char>>::empty(),
        }),
        listed_models(s + t) == listed_models(s) + listed_models(t),
    decreases t.len(),
{
    assert(seq![x].drop_last() =~= Seq::<JsonModel>::empty());
    assert(listed_models(seq![x].drop_last()).len() == 0);
    assert(listed_models(seq![x]) =~= (match (x.at("provider"@).text(), x.at("name"@).text()) {
            (Some(p), Some(n)) => seq![p + "/"@ + n],
            _ => Seq::<Seq<char>>::empty(),
        }));
    if t.len() == 0 {
        assert(s + t =~= s);
        assert(listed_models(s) + listed_models(t) =~= listed_models(s));
    } else {
        catalogs_list_models_in_order(s, t.drop_last(), x);
        assert((s + t).drop_last() =~= s + t.drop_last());
        assert(listed_models(s + t) =~= listed_models(s) + listed_models(t));
    }
}

/// A model that an operator took out of rotation is named with the reason they gave, who
/// they are and when; one that is in rotation is not named.
pub proof fn what_is_off_is_explained(models: Seq<Model>, i: int, provider: Seq<char>, name: Seq<char>)
    ensures
        0 <= i < models.len() && !models[i].enabled && (forall|j: int|
            i < j < models.len() ==> (#[trigger] models[j]).enabled || qualified(
                models[j].provider@,
                models[j].name@,
            ) != qualified(models[i].provider@, models[i].name@)) ==> (lookup(
            models_off(models),
            models[i].provider@ + "/"@ + models[i].name@,
        ) matches Some(d) && d.reason == opt_text(models[i].disabled_reason) && d.by == opt_text(
            models[i].disabled_by,
        ) && d.at == opt_text(models[i].disabled_at)),
        (forall|j: int|
            0 <= j < models.len() ==> (#[trigger] models[j]).enabled || qualified(
                models[j].provider@,
                models[j].name@,
            ) != qualified(provider, name)) ==> lookup(models_off(models), qualified(provider, name)) is None,
    decreases models.len(),
{
    broadcast use {
        crate::ordered::entries_are_found,
        crate::ordered::nothing_is_found_in_nothing,
    };

    if models.len() > 0 {
        let front = models.drop_last();
        what_is_off_is_explained(front, i, provider, name);
        assert(forall|j: int| 0 <= j < front.len() ==> #[trigger] front[j] == models[j]);
        assert(models[models.len() - 1] == models.last());
    }
}

/// A provider that an operator took out of rotation is named with the reason they gave,
/// who they are and when; one that is in rotation is not named.
pub proof fn providers_that_are_off_are_explained(states: Seq<ProviderState>, i: int, provider: Seq<char>)
    ensures
        0 <= i < states.len() && !states[i].enabled && (forall|j: int|
            i < j < states.len() ==> (#[trigger] states[j]).enabled || states[j].provider@
                != states[i].provider@) ==> (lookup(providers_off(states), states[i].provider@) matches Some(
            d,
        ) && d.reason == opt_text(states[i].disabled_reason) && d.by == opt_text(states[i].disabled_by)
            && d.at == opt_text(states[i].disabled_at)),
        (forall|j: int|
            0 <= j < states.len() ==> (#[trigger] states[j]).enabled || states[j].provider@ != provider)
            ==> lookup(providers_off(states), provider) is None,
    decreases states.len(),
{
    broadcast use {
        crate::ordered::entries_are_found,
        crate::ordered::nothing_is_found_in_nothing,
    };

    if states.len() > 0 {
        let front = states.drop_last();
        providers_that_are_off_are_explained(front, i, provider);
        assert(forall|j: int| 0 <= j < front.len() ==> #[trigger] front[j] == states[j]);
        assert(states[states.len() - 1] == states.last());
    }
}

/// An alias is refused where it or its target is blank, where it begins with a colon, where it
/// points at itself, and where it would close a circle; and only then.
pub proof fn aliases_are_refused_for_a_reason(alias: Seq<char>, target: Seq<char>, db: AliasEntries, config: AliasEntries)
    ensures
        alias.len() == 0 || target.len() == 0 ==> alias_refusal(alias, target, db, config) is Some,
        alias.len() > 0 && alias[0] == ':' ==> alias_refusal(alias, target, db, config) is Some,
        alias == target ==> alias_refusal(alias, target, db, config) is Some,
        alias.len() > 0 && target.len() > 0 && alias[0] != ':' && alias != target ==> (alias_refusal(
            alias,
            target,
            db,
            config,
        ) is None <==> !leads_back(overlaid(config, db, alias), alias, target, 10)),
{
}

/// A target is ruled out by a catalog that lists models, but not this one; a catalog that
/// lists nothing rules nothing out.
pub proof fn catalogs_rule_out_what_they_lack(target: Seq<char>, entries: Seq<(Seq<char>, JsonModel)>)
    ensures
        catalog_models(entries).len() == 0 ==> !ruled_out(target, JsonModel::Obj(entries)),
        catalog_models(entries).len() > 0 ==> (ruled_out(target, JsonModel::Obj(entries)) <==> !catalog_models(
            entries,
        ).contains(target)),
        !ruled_out(target, JsonModel::Null),
        qualified(target, target) == target + "/"@ + target,
{
}

/// Aliases are shown one row after the other, in their order.
pub proof fn aliases_are_shown_in_order(s: Seq<ModelAlias>, t: Seq<ModelAlias>, x: ModelAlias)
    ensures
        alias_rows(seq![x]) == alias_row(x),
        alias_rows(s + t) == alias_rows(s) + alias_rows(t),
    decreases t.len(),
{
    reveal_strlit("");
    assert(""@.len() == 0);
    assert(seq![x].drop_last() =~= Seq::<ModelAlias>::empty());
    assert(alias_rows(seq![x].drop_last()).len() == 0);
    assert(alias_rows(seq![x]) =~= alias_row(x));
    if t.len() == 0 {
        assert(s + t =~= s);
        assert(alias_rows(s) + alias_rows(t) =~= alias_rows(s));
    } else {
        aliases_are_shown_in_order(s, t.drop_last(), x);
        assert((s + t).drop_last() =~= s + t.drop_last());
        assert(alias_rows(s + t) =~= alias_rows(s) + alias_rows(t));
    }
}

/// The row of an alias shows the alias and its target, who set it and when, each in its place.
pub proof fn alias_rows_show_their_alias(a: ModelAlias)
    ensures
        exists|values: Seq<(Seq<char>, Seq<char>)>|
            alias_row(a) == #[trigger] filled(ALIAS_ROW@, values)
                && value_named(values, "id"@) == id_of(a.alias@)
                && value_named(values, "alias"@) == escaped(a.alias@)
                && value_named(values, "target"@) == escaped(a.target@)
                && value_named(values, "by"@) == escaped(or_dash(opt_text(a.created_by)))
                && value_named(values, "updated"@) == escaped(a.updated_at@)
                && value_named(values, "url"@) == percent_text(vstd::utf8::encode_utf8(a.alias@)),
{
    reveal_strlit("id");
    reveal_strlit("alias");
    reveal_strlit("target");
    reveal_strlit("by");
    reveal_strlit("updated");
    reveal_strlit("url");
    assert("id"@.len() == 2 && "id"@[0] == 'i');
    assert("alias"@.len() == 5);
    assert("target"@.len() == 6);
    assert("by"@.len() == 2 && "by"@[0] == 'b');
    assert("updated"@.len() == 7);
    assert("url"@.len() == 3);
    let values = seq![
        ("id"@, id_of(a.alias@)),
        ("alias"@, escaped(a.alias@)),
        ("target"@, escaped(a.target@)),
        ("by"@, escaped(or_dash(opt_text(a.created_by)))),
        ("updated"@, escaped(a.updated_at@)),
        ("url"@, percent_text(vstd::utf8::encode_utf8(a.alias@))),
    ];
    lemma_first_named(values, "id"@, 0);
    lemma_first_named(values, "alias"@, 1);
    lemma_first_named(values, "target"@, 2);
    lemma_first_named(values, "by"@, 3);
    lemma_first_named(values, "updated"@, 4);
    lemma_first_named(values, "url"@, 5);
    assert(alias_row(a) == filled(ALIAS_ROW@, values));
}

/// What is recorded of an alias is the target it had and the one it has.
pub proof fn targets_are_recorded(t: Seq<char>, before: ModelAlias)
    ensures
        exists|o: JsonModel|
            target_json(t) == #[trigger] text_of_json(o) && o.at("target"@) == JsonModel::Str(t),
        before_json(None) is None,
        before_json(Some(before)) == Some(target_json(before.target@)),
{
    broadcast use {
        crate::ordered::entries_are_found,
        crate::ordered::nothing_is_found_in_nothing,
    };

    reveal_strlit("target");
    assert("target"@.len() == 6);
    let o = JsonModel::Obj(with_entry(Seq::empty(), "target"@, JsonModel::Str(t)));
    assert(target_json(t) == text_of_json(o));
}

/// Why something is out of rotation is shown part by part.
pub proof fn explanations_show_their_parts(d: DisableInfo)
    ensures
        d@.reason == opt_text(d.reason),
        d@.by == opt_text(d.by),
        d@.at == opt_text(d.at),
{
}

/// The rows of a page are told apart by their alias, letters and digits kept.
pub proof fn ids_keep_letters_and_digits(s: Seq<char>, i: int)
    requires
        0 <= i < s.len(),
    ensures
        id_of(s).len() == s.len(),
        ascii_alphanumeric(s[i]) ==> id_of(s)[i] == s[i],
        !ascii_alphanumeric(s[i]) ==> id_of(s)[i] == '-',
{
}

/// The models of a catalog are those of its providers, one after the other, in their order.
pub proof fn catalogs_list_providers_in_order(
    s: Seq<(Seq<char>, JsonModel)>,
    t: Seq<(Seq<char>, JsonModel)>,
    data: JsonModel,
    items: Seq<JsonModel>,
)
    ensures
        catalog_models(s + t) == catalog_models(s) + catalog_models(t),
        s.len() == 1 ==> catalog_models(s) == models_of_provider(s[0].1),
        data.at("models"@) == JsonModel::Arr(items) ==> models_of_provider(data) == listed_models(items),
        !(data.at("models"@) is Arr) ==> models_of_provider(data).len() == 0,
    decreases t.len(),
{
    if s.len() == 1 {
        assert(s.drop_last().len() == 0);
        assert(catalog_models(s.drop_last()).len() == 0);
        lemma_nothing_added(catalog_models(s.drop_last()), models_of_provider(s[0].1));
    }
    if t.len() == 0 {
        assert(s + t =~= s);
        lemma_nothing_added(catalog_models(t), catalog_models(s));
    } else {
        let front = t.drop_last();
        catalogs_list_providers_in_order(s, front, data, items);
        assert((s + t).drop_last() =~= s + front);
        assert((s + t).last() == t.last());
        lemma_added_in_turn(
            catalog_models(s),
            catalog_models(front),
            models_of_provider(t.last().1),
        );
    }
}

} // verus!
