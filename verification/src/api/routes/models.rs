//! The list of models: the providers that can be reached, every registered
//! model, and the aliases that callers route with. What an operator has disabled
//! does not advertise itself.

use crate::api::admin::experiments::Resolution;
use crate::json::{json_text_or_null, list_models, text_or_null, Json, JsonModel};
use crate::ordered::{ascending, lemma_with_entry_ascends, lookup, with_entry, OrderedMap};
use crate::sums::{lemma_picked_selects, picked, selects};
use crate::text::{holds_text, opt_text, same, texts};
use vstd::prelude::*;

verus! {

/// A model that was registered, and whether it and its provider are in rotation.
#[derive(Debug, Clone, PartialEq, Eq)]
pub struct RegisteredModel {
    pub provider: String,
    pub name: String,
    pub alias: Option<String>,
    pub available: bool,
}

/// An alias with its target, what it resolves to, and whether that is in
/// rotation.
#[derive(Debug, Clone, PartialEq, Eq)]
pub struct RoutedAlias {
    pub alias: String,
    pub target: String,
    pub resolution: Resolution,
    pub available: bool,
}

/// A list of entries, each an id with its object.
pub type Listing = Seq<(Seq<char>, JsonModel)>;

pub open spec fn model_object(id: Seq<char>, owner: Seq<char>) -> Seq<(Seq<char>, JsonModel)> {
    let o = with_entry(Seq::empty(), "id"@, JsonModel::Str(id));
    let o = with_entry(o, "object"@, JsonModel::Str("model"@));
    with_entry(o, "owned_by"@, JsonModel::Str(owner))
}

/// The providers that are not disabled.
pub open spec fn provider_listing(providers: Seq<Seq<char>>, disabled: Seq<Seq<char>>) -> Listing
    decreases providers.len(),
{
    if providers.len() == 0 {
        Seq::empty()
    } else {
        let rest = provider_listing(providers.drop_last(), disabled);
        let p = providers.last();
        if disabled.contains(p) {
            rest
        } else {
            rest.push((p, JsonModel::Obj(model_object(p, p))))
        }
    }
}

pub open spec fn registered_id(m: RegisteredModel) -> Seq<char> {
    m.provider@ + "/"@ + m.name@
}

/// `base` with the registered models that are in rotation.
pub open spec fn registered_listing(base: Listing, models: Seq<RegisteredModel>) -> Listing
    decreases models.len(),
{
    if models.len() == 0 {
        base
    } else {
        let rest = registered_listing(base, models.drop_last());
        let m = models.last();
        if m.available {
            rest.push(
                (
                    registered_id(m),
                    JsonModel::Obj(
                        with_entry(
                            model_object(registered_id(m), m.provider@),
                            "alias"@,
                            text_or_null(opt_text(m.alias)),
                        ),
                    ),
                ),
            )
        } else {
            rest
        }
    }
}

pub open spec fn lists_id(listing: Listing, id: Seq<char>) -> bool {
    exists|i: int| 0 <= i < listing.len() && (#[trigger] listing[i]).0 == id
}

/// Whether an alias is a name that callers can route with: it resolves without
/// falling through to the default model, to something in rotation.
pub open spec fn routable(a: RoutedAlias) -> bool {
    !a.resolution.substituted && a.available
}

/// The place of each alias, by ascending alias.
pub open spec fn alias_places(aliases: Seq<RoutedAlias>) -> Seq<(Seq<char>, usize)>
    decreases aliases.len(),
{
    if aliases.len() == 0 {
        Seq::empty()
    } else {
        with_entry(
            alias_places(aliases.drop_last()),
            aliases.last().alias@,
            (aliases.len() - 1) as usize,
        )
    }
}

/// `base` with the aliases at the given places: those that are routable and not
/// yet listed.
pub open spec fn alias_listing(
    base: Listing,
    aliases: Seq<RoutedAlias>,
    places: Seq<(Seq<char>, usize)>,
) -> Listing
    decreases places.len(),
{
    if places.len() == 0 {
        base
    } else {
        let rest = alias_listing(base, aliases, places.drop_last());
        let a = aliases[places.last().1 as int];
        if routable(a) && !lists_id(rest, a.alias@) {
            rest.push(
                (
                    a.alias@,
                    JsonModel::Obj(
                        with_entry(
                            model_object(a.alias@, a.resolution.provider@),
                            "alias_for"@,
                            JsonModel::Str(a.target@),
                        ),
                    ),
                ),
            )
        } else {
            rest
        }
    }
}

/// Everything that is listed.
pub open spec fn full_listing(
    providers: Seq<Seq<char>>,
    disabled: Seq<Seq<char>>,
    models: Seq<RegisteredModel>,
    aliases: Seq<RoutedAlias>,
) -> Listing {
    alias_listing(
        registered_listing(provider_listing(providers, disabled), models),
        aliases,
        alias_places(aliases),
    )
}

/// The body of the answer.
pub open spec fn listing_body(listing: Listing) -> JsonModel {
    let b = with_entry(Seq::empty(), "object"@, JsonModel::Str("list"@));
    JsonModel::Obj(
        with_entry(
            b,
            "data"@,
            JsonModel::Arr(listing.map_values(|e: (Seq<char>, JsonModel)| e.1)),
        ),
    )
}

pub open spec fn entry_of(e: (String, Json)) -> (Seq<char>, JsonModel) {
    (e.0@, e.1.model())
}

pub open spec fn listed(v: Seq<(String, Json)>) -> Listing {
    v.map_values(|e: (String, Json)| entry_of(e))
}

pub open spec fn all_wf(v: Seq<(String, Json)>) -> bool {
    forall|i: int| 0 <= i < v.len() ==> (#[trigger] v[i]).1.wf()
}

fn holds_id(v: &Vec<(String, Json)>, id: &str) -> (r: bool)
    ensures
        r == lists_id(listed(v@), id@),
{
    let mut i: usize = 0;
    while i < v.len()
        invariant
            i <= v@.len(),
            forall|j: int| 0 <= j < i ==> (#[trigger] listed(v@)[j]).0 != id@,
        decreases v@.len() - i,
    {
        assert(listed(v@)[i as int].0 == v@[i as int].0@);
        if same(v[i].0.as_str(), id) {
            return true;
        }
        i += 1;
    }
    false
}

fn model_json(id: &str, owner: &str) -> (r: Json)
    ensures
        r.model() == JsonModel::Obj(model_object(id@, owner@)),
        r.wf(),
{
    Json::object().with("id", Json::Str(id.to_owned())).with(
        "object",
        Json::Str("model".to_owned()),
    ).with("owned_by", Json::Str(owner.to_owned()))
}

fn push_entry(list: &mut Vec<(String, Json)>, id: String, object: Json)
    requires
        all_wf(old(list)@),
        object.wf(),
    ensures
        listed(final(list)@) == listed(old(list)@).push((id@, object.model())),
        all_wf(final(list)@),
{
    list.push((id, object));
    assert(listed(list@) =~= listed(old(list)@).push((id@, object.model())));
}

/// Lists the models.
pub fn list_models_body(
    providers: &Vec<String>,
    disabled: &Vec<String>,
    models: &Vec<RegisteredModel>,
    aliases: &Vec<RoutedAlias>,
) -> (r: Json)
    ensures
        r.model() == listing_body(
            full_listing(texts(providers@), texts(disabled@), models@, aliases@),
        ),
        r.wf(),
{
    let mut list: Vec<(String, Json)> = Vec::new();
    let ghost ps = texts(providers@);
    let ghost ds = texts(disabled@);
    assert(listed(list@) =~= Seq::empty());
    let mut i: usize = 0;
    while i < providers.len()
        invariant
            i <= providers@.len(),
            ps == texts(providers@),
            ds == texts(disabled@),
            all_wf(list@),
            listed(list@) == provider_listing(ps.take(i as int), ds),
        decreases providers@.len() - i,
    {
        assert(ps.take(i + 1).drop_last() =~= ps.take(i as int));
        assert(ps.take(i + 1).last() == providers@[i as int]@);
        let p = providers[i].as_str();
        if !holds_text(disabled, p) {
            push_entry(&mut list, p.to_owned(), model_json(p, p));
        }
        i += 1;
    }
    assert(ps.take(i as int) =~= ps);
    let ghost base = listed(list@);
    assert(models@.take(0) =~= Seq::empty());
    i = 0;
    while i < models.len()
        invariant
            i <= models@.len(),
            all_wf(list@),
            listed(list@) == registered_listing(base, models@.take(i as int)),
        decreases models@.len() - i,
    {
        assert(models@.take(i + 1).drop_last() =~= models@.take(i as int));
        let m = &models[i];
        if m.available {
            let mut id = m.provider.clone();
            id.append("/");
            id.append(m.name.as_str());
            let object = model_json(id.as_str(), m.provider.as_str()).with(
                "alias",
                json_text_or_null(&m.alias),
            );
            push_entry(&mut list, id, object);
        }
        i += 1;
    }
    assert(models@.take(i as int) =~= models@);
    let ghost base2 = listed(list@);
    let mut sorted: OrderedMap<String, usize> = OrderedMap::new();
    i = 0;
    while i < aliases.len()
        invariant
            i <= aliases@.len(),
            sorted.wf(),
            sorted@ == alias_places(aliases@.take(i as int)),
            forall|k: int| 0 <= k < sorted@.len() ==> (#[trigger] sorted@[k]).1 < i,
        decreases aliases@.len() - i,
    {
        assert(aliases@.take(i + 1).drop_last() =~= aliases@.take(i as int));
        let ghost before = sorted@;
        proof {
            crate::ordered::lemma_with_entry_members(before, aliases@[i as int].alias@, i);
        }
        sorted.insert(aliases[i].alias.clone(), i);
        assert forall|k: int| 0 <= k < sorted@.len() implies (#[trigger] sorted@[k]).1 < i + 1 by {
            if sorted@[k] != (aliases@[i as int].alias@, i) {
                let j = choose|j: int| 0 <= j < before.len() && before[j] == sorted@[k];
                assert(before[j].1 < i);
            }
        }
        i += 1;
    }
    assert(aliases@.take(i as int) =~= aliases@);
    let ghost places = sorted@;
    assert(places.take(0) =~= Seq::empty());
    let mut k: usize = 0;
    while k < sorted.len()
        invariant
            k <= sorted@.len(),
            sorted@ == places,
            forall|j: int| 0 <= j < places.len() ==> (#[trigger] places[j]).1 < aliases@.len(),
            all_wf(list@),
            listed(list@) == alias_listing(base2, aliases@, places.take(k as int)),
        decreases sorted@.len() - k,
    {
        assert(places.take(k + 1).drop_last() =~= places.take(k as int));
        assert(places.take(k + 1).last() == places[k as int]);
        let a = &aliases[*sorted.value(k)];
        if !a.resolution.substituted && a.available && !holds_id(&list, a.alias.as_str()) {
            let object = model_json(a.alias.as_str(), a.resolution.provider.as_str()).with(
                "alias_for",
                Json::Str(a.target.clone()),
            );
            push_entry(&mut list, a.alias.clone(), object);
        }
        k += 1;
    }
    assert(places.take(k as int) =~= places);
    let ghost full = listed(list@);
    let ghost data = full.map_values(|e: (Seq<char>, JsonModel)| e.1);
    let mut out: Vec<Json> = Vec::new();
    let mut n: usize = 0;
    while n < list.len()
        invariant
            n <= list@.len(),
            full == listed(list@),
            all_wf(list@),
            data == full.map_values(|e: (Seq<char>, JsonModel)| e.1),
            list_models(out@) == data.take(n as int),
            forall|j: int| 0 <= j < n ==> (#[trigger] data[j]).wf(),
        decreases list@.len() - n,
    {
        let ghost before = list_models(out@);
        let item = list[n].1.copied();
        out.push(item);
        assert(list@[n as int].1.wf());
        assert(data[n as int] == item.model());
        assert(list_models(out@) =~= before.push(item.model()));
        assert(list_models(out@) =~= data.take(n + 1));
        n += 1;
    }
    let items = Json::Arr(out);
    proof {
        Json::lemma_arr(out);
        assert(list_models(out@) =~= data);
    }
    Json::object().with("object", Json::Str("list".to_owned())).with("data", items)
}

// ---------------------------------------------------------------------------
// Laws
// ---------------------------------------------------------------------------

proof fn lemma_provider_listing(
    providers: Seq<Seq<char>>,
    disabled: Seq<Seq<char>>,
    i: int,
)
    requires
        0 <= i < provider_listing(providers, disabled).len(),
    ensures
        !disabled.contains(provider_listing(providers, disabled)[i].0),
    decreases providers.len(),
{
    if providers.len() > 0 {
        let rest = provider_listing(providers.drop_last(), disabled);
        if i < rest.len() {
            lemma_provider_listing(providers.drop_last(), disabled, i);
        }
    }
}

/// A disabled provider is not listed as one.
pub proof fn disabled_providers_are_not_listed(
    providers: Seq<Seq<char>>,
    disabled: Seq<Seq<char>>,
    name: Seq<char>,
)
    requires
        disabled.contains(name),
    ensures
        !lists_id(provider_listing(providers, disabled), name),
{
    if lists_id(provider_listing(providers, disabled), name) {
        let l = provider_listing(providers, disabled);
        let i = choose|i: int| 0 <= i < l.len() && (#[trigger] l[i]).0 == name;
        lemma_provider_listing(providers, disabled, i);
    }
}

/// A listed model tells its id and its owner by name, and the list holds the entries in their
/// order.
pub proof fn listed_models_tell_id_and_owner(listing: Listing, id: Seq<char>, owner: Seq<char>, i: int)
    ensures
        JsonModel::Obj(model_object(id, owner)).at("id"@) == JsonModel::Str(id),
        JsonModel::Obj(model_object(id, owner)).at("object"@) == JsonModel::Str("model"@),
        JsonModel::Obj(model_object(id, owner)).at("owned_by"@) == JsonModel::Str(owner),
        listing_body(listing).at("object"@) == JsonModel::Str("list"@),
        listing_body(listing).at("data"@).items() matches Some(all) && all.len() == listing.len(),
        0 <= i < listing.len() ==> listing_body(listing).at("data"@).item(i) == listing[i].1,
{
    broadcast use {
        crate::ordered::entries_are_found,
        crate::ordered::nothing_is_found_in_nothing,
    };

    reveal_strlit("id");
    reveal_strlit("object");
    reveal_strlit("owned_by");
    reveal_strlit("data");
    assert("id"@.len() == 2);
    assert("object"@.len() == 6);
    assert("owned_by"@.len() == 8);
    assert("data"@.len() == 4);
}

proof fn lemma_providers_are_picked(providers: Seq<Seq<char>>, disabled: Seq<Seq<char>>)
    ensures
        provider_listing(providers, disabled) == picked(
            providers,
            |p: Seq<char>| !disabled.contains(p),
            |p: Seq<char>| (p, JsonModel::Obj(model_object(p, p))),
        ),
    decreases providers.len(),
{
    if providers.len() > 0 {
        lemma_providers_are_picked(providers.drop_last(), disabled);
    }
}

/// Providers are listed under their own names, in their order, all but the disabled ones.
pub proof fn enabled_providers_are_listed_in_order(
    providers: Seq<Seq<char>>,
    disabled: Seq<Seq<char>>,
)
    ensures
        selects(
            provider_listing(providers, disabled),
            providers,
            |p: Seq<char>| !disabled.contains(p),
            |p: Seq<char>| (p, JsonModel::Obj(model_object(p, p))),
        ),
{
    let keep = |p: Seq<char>| !disabled.contains(p);
    let entry = |p: Seq<char>| (p, JsonModel::Obj(model_object(p, p)));
    lemma_providers_are_picked(providers, disabled);
    lemma_picked_selects(providers, keep, entry, keep, entry);
}

/// What stands in the list for a registered model.
pub open spec fn registered_entry() -> spec_fn(RegisteredModel) -> (Seq<char>, JsonModel) {
    |m: RegisteredModel|
        (
            registered_id(m),
            JsonModel::Obj(
                with_entry(
                    model_object(registered_id(m), m.provider@),
                    "alias"@,
                    text_or_null(opt_text(m.alias)),
                ),
            ),
        )
}

proof fn lemma_registered_are_picked(base: Listing, models: Seq<RegisteredModel>)
    ensures
        registered_listing(base, models) == base + picked(
            models,
            |m: RegisteredModel| m.available,
            registered_entry(),
        ),
    decreases models.len(),
{
    if models.len() == 0 {
        assert(base + Seq::<(Seq<char>, JsonModel)>::empty() =~= base);
    } else {
        lemma_registered_are_picked(base, models.drop_last());
    }
}

/// Registered models are listed behind what was there, those available, in their order,
/// each under its provider and name, with its alias.
pub proof fn available_models_are_listed_in_order(
    base: Listing,
    models: Seq<RegisteredModel>,
    m: RegisteredModel,
)
    ensures
        registered_listing(base, models).take(base.len() as int) == base,
        selects(
            registered_listing(base, models).skip(base.len() as int),
            models,
            |m: RegisteredModel| m.available,
            registered_entry(),
        ),
        registered_entry()(m).0 == m.provider@ + "/"@ + m.name@,
        registered_entry()(m).1.at("id"@) == JsonModel::Str(m.provider@ + "/"@ + m.name@),
        registered_entry()(m).1.at("owned_by"@) == JsonModel::Str(m.provider@),
        m.alias matches Some(a) ==> registered_entry()(m).1.at("alias"@) == JsonModel::Str(a@),
{
    broadcast use {
        crate::ordered::entries_are_found,
        crate::ordered::nothing_is_found_in_nothing,
    };

    reveal_strlit("id");
    reveal_strlit("object");
    reveal_strlit("owned_by");
    reveal_strlit("alias");
    assert("id"@.len() == 2);
    assert("object"@.len() == 6);
    assert("owned_by"@.len() == 8);
    assert("alias"@.len() == 5);
    let keep = |m: RegisteredModel| m.available;
    let tail = picked(models, keep, registered_entry());
    lemma_registered_are_picked(base, models);
    lemma_picked_selects(models, keep, registered_entry(), keep, registered_entry());
    assert((base + tail).take(base.len() as int) =~= base);
    assert((base + tail).skip(base.len() as int) =~= tail);
}

/// Aliases are listed behind everything else, by name: each names the model it stands
/// for and the provider it leads to; only those that lead somewhere, and none whose name
/// is taken.
pub proof fn aliases_are_listed_behind(
    base: Listing,
    aliases: Seq<RoutedAlias>,
    places: Seq<(Seq<char>, usize)>,
)
    ensures
        ({
            let all = alias_listing(base, aliases, places);
            &&& base.len() <= all.len()
            &&& all.take(base.len() as int) == base
            &&& forall|k: int, j: int|
                base.len() <= k < all.len() && 0 <= j < k ==> (#[trigger] all[k]).0 != (
                #[trigger] all[j]).0
            &&& forall|k: int|
                base.len() <= k < all.len() ==> exists|p: int|
                    0 <= p < places.len() && is_alias_entry(
                        #[trigger] all[k],
                        aliases[(#[trigger] places[p]).1 as int],
                    )
            &&& forall|p: int|
                0 <= p < places.len() && !aliases[(#[trigger] places[p]).1 as int].resolution.substituted
                    && aliases[places[p].1 as int].available ==> lists_id(
                    all,
                    aliases[places[p].1 as int].alias@,
                )
        }),
    decreases places.len(),
{
    broadcast use {
        crate::ordered::entries_are_found,
        crate::ordered::nothing_is_found_in_nothing,
    };

    reveal_strlit("id");
    reveal_strlit("object");
    reveal_strlit("owned_by");
    reveal_strlit("alias_for");
    assert("id"@.len() == 2);
    assert("object"@.len() == 6);
    assert("owned_by"@.len() == 8);
    assert("alias_for"@.len() == 9);
    if places.len() == 0 {
        assert(base.take(base.len() as int) =~= base);
    } else {
        let front = places.drop_last();
        let n = places.len() - 1;
        aliases_are_listed_behind(base, aliases, front);
        let rest = alias_listing(base, aliases, front);
        let all = alias_listing(base, aliases, places);
        let a = aliases[places.last().1 as int];
        assert(places[n] == places.last());
        assert(all.take(base.len() as int) =~= rest.take(base.len() as int));
        assert forall|k: int| base.len() <= k < all.len() implies exists|p: int|
            0 <= p < places.len() && is_alias_entry(
                #[trigger] all[k],
                aliases[(#[trigger] places[p]).1 as int],
            ) by {
            if k < rest.len() {
                assert(rest[k] == all[k]);
                let p = choose|p: int|
                    0 <= p < front.len() && is_alias_entry(
                        rest[k],
                        aliases[(#[trigger] front[p]).1 as int],
                    );
                assert(places[p] == front[p]);
            } else {
                assert(is_alias_entry(all[k], aliases[places[n].1 as int]));
            }
        }
        assert forall|k: int, j: int| base.len() <= k < all.len() && 0 <= j < k implies (
        #[trigger] all[k]).0 != (#[trigger] all[j]).0 by {
            assert(rest[j] == all[j]);
            if k < rest.len() {
                assert(rest[k] == all[k]);
            }
        }
        assert forall|p: int|
            0 <= p < places.len() && !aliases[(#[trigger] places[p]).1 as int].resolution.substituted
                && aliases[places[p].1 as int].available implies lists_id(
            all,
            aliases[places[p].1 as int].alias@,
        ) by {
            let id = aliases[places[p].1 as int].alias@;
            if p < n {
                assert(front[p] == places[p]);
                assert(lists_id(rest, id));
            }
            if lists_id(rest, id) {
                let i = choose|i: int| 0 <= i < rest.len() && (#[trigger] rest[i]).0 == id;
                assert(all[i] == rest[i]);
            } else {
                assert(all[rest.len() as int].0 == id);
            }
        }
    }
}

/// Whether an entry of the list stands for an alias that leads somewhere.
pub open spec fn is_alias_entry(e: (Seq<char>, JsonModel), a: RoutedAlias) -> bool {
    &&& !a.resolution.substituted && a.available
    &&& e.0 == a.alias@
    &&& e.1.at("id"@) == JsonModel::Str(a.alias@)
    &&& e.1.at("owned_by"@) == JsonModel::Str(a.resolution.provider@)
    &&& e.1.at("alias_for"@) == JsonModel::Str(a.target@)
}

/// Of two aliases of one name the later one counts, and aliases are walked by name.
pub proof fn later_aliases_count(aliases: Seq<RoutedAlias>, i: int)
    requires
        0 <= i < aliases.len() <= usize::MAX,
        forall|j: int| i < j < aliases.len() ==> (#[trigger] aliases[j]).alias@ != aliases[i].alias@,
    ensures
        lookup(alias_places(aliases), aliases[i].alias@) == Some(i as usize),
        ascending(alias_places(aliases)),
    decreases aliases.len(),
{
    broadcast use {
        crate::ordered::entries_are_found,
        crate::ordered::nothing_is_found_in_nothing,
    };

    let front = aliases.drop_last();
    lemma_places_ascend(front);
    lemma_with_entry_ascends(
        alias_places(front),
        aliases.last().alias@,
        (aliases.len() - 1) as usize,
    );
    assert(aliases[aliases.len() - 1] == aliases.last());
    if i < aliases.len() - 1 {
        assert forall|j: int| i < j < front.len() implies (#[trigger] front[j]).alias@
            != front[i].alias@ by {
            assert(front[j] == aliases[j]);
        }
        later_aliases_count(front, i);
    }
}

proof fn lemma_places_ascend(aliases: Seq<RoutedAlias>)
    ensures
        ascending(alias_places(aliases)),
    decreases aliases.len(),
{
    if aliases.len() > 0 {
        lemma_places_ascend(aliases.drop_last());
        lemma_with_entry_ascends(
            alias_places(aliases.drop_last()),
            aliases.last().alias@,
            (aliases.len() - 1) as usize,
        );
    }
}

} // verus!
