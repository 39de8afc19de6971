//! A map from texts to texts.

use crate::json::{entry_models, Json, JsonModel};
use crate::ordered::{
    ascending, is_place, lemma_lookup_map, lemma_with_entry_ascends, lemma_with_entry_at, lookup,
    with_entry,
};
use crate::text::{is_before, precedes, precedes_is_total, same};
use vstd::prelude::*;

verus! {

/// Texts by ascending key, so that two maps with the same entries are written
/// byte for byte alike.
#[derive(Debug, PartialEq, Eq)]
pub struct TextMap {
    entries: Vec<(String, String)>,
}

pub open spec fn pair_texts(v: Seq<(String, String)>) -> Seq<(Seq<char>, Seq<char>)> {
    v.map_values(|e: (String, String)| (e.0@, e.1@))
}

impl View for TextMap {
    type V = Seq<(Seq<char>, Seq<char>)>;

    closed spec fn view(&self) -> Seq<(Seq<char>, Seq<char>)> {
        pair_texts(self.entries@)
    }
}

/// The JSON object of a list of entries.
pub open spec fn map_object(entries: Seq<(Seq<char>, Seq<char>)>) -> JsonModel {
    JsonModel::Obj(entries.map_values(|e: (Seq<char>, Seq<char>)| (e.0, JsonModel::Str(e.1))))
}

/// The JSON text of a list of entries.
pub open spec fn map_text(entries: Seq<(Seq<char>, Seq<char>)>) -> Seq<char> {
    crate::json::text_of_json(map_object(entries))
}

impl Clone for TextMap {
    fn clone(&self) -> (r: TextMap)
        ensures
            r@ == self@,
    {
        proof {
            use_type_invariant(self);
        }
        let mut entries: Vec<(String, String)> = Vec::new();
        let mut i: usize = 0;
        while i < self.entries.len()
            invariant
                i <= self.entries.len(),
                pair_texts(entries@) == self@.take(i as int),
            decreases self.entries.len() - i,
        {
            let ghost before = pair_texts(entries@);
            entries.push((self.entries[i].0.clone(), self.entries[i].1.clone()));
            assert(pair_texts(entries@) =~= before.push(self@[i as int]));
            assert(self@.take(i + 1) =~= self@.take(i as int).push(self@[i as int]));
            i += 1;
        }
        assert(self@.take(i as int) =~= self@);
        TextMap { entries }
    }
}

impl TextMap {
    #[verifier::type_invariant]
    spec fn ordered(self) -> bool {
        ascending(pair_texts(self.entries@))
    }

    pub fn new() -> (r: TextMap)
        ensures
            r@ == Seq::<(Seq<char>, Seq<char>)>::empty(),
    {
        let entries: Vec<(String, String)> = Vec::new();
        assert(pair_texts(entries@) =~= Seq::empty());
        TextMap { entries }
    }

    pub fn is_empty(&self) -> (r: bool)
        ensures
            r == (self@.len() == 0),
    {
        self.entries.len() == 0
    }

    pub fn len(&self) -> (r: usize)
        ensures
            r == self@.len(),
    {
        self.entries.len()
    }

    /// The value of a key.
    pub fn get(&self, key: &str) -> (r: Option<&String>)
        ensures
            match r {
                Some(v) => lookup(self@, key@) == Some(v@),
                None => lookup(self@, key@) is None,
            },
    {
        let ghost all = self@;
        let mut i: usize = 0;
        assert(all.skip(0) =~= all);
        while i < self.entries.len()
            invariant
                i <= self.entries.len(),
                all == pair_texts(self.entries@),
                all == self@,
                lookup(all.skip(i as int), key@) == lookup(all, key@),
            decreases self.entries.len() - i,
        {
            if same(self.entries[i].0.as_str(), key) {
                return Some(&self.entries[i].1);
            }
            assert(all.skip(i as int).drop_first() =~= all.skip(i + 1));
            i += 1;
        }
        None
    }

    /// The key of the `i`th entry.
    pub fn key(&self, i: usize) -> (r: &String)
        requires
            i < self@.len(),
        ensures
            r@ == self@[i as int].0,
    {
        &self.entries[i].0
    }

    /// The value of the `i`th entry.
    pub fn value(&self, i: usize) -> (r: &String)
        requires
            i < self@.len(),
        ensures
            r@ == self@[i as int].1,
    {
        &self.entries[i].1
    }

    /// Sets the value of a key.
    pub fn insert(self, key: String, value: String) -> (r: TextMap)
        ensures
            r@ == with_entry(self@, key@, value@),
    {
        proof {
            use_type_invariant(&self);
        }
        let ghost all = self@;
        let mut entries = self.entries;
        let ghost start = entries;
        let mut i: usize = 0;
        while i < entries.len() && is_before(entries[i].0.as_str(), key.as_str())
            invariant
                i <= entries.len(),
                entries == start,
                all == pair_texts(entries@),
                forall|j: int| 0 <= j < i ==> precedes(#[trigger] all[j].0, key@),
            decreases entries.len() - i,
        {
            assert(all[i as int].0 == entries@[i as int].0@);
            i += 1;
        }
        let ghost k = key@;
        let ghost v = value@;
        proof {
            if i < entries.len() {
                assert(all[i as int].0 == entries@[i as int].0@);
                precedes_is_total(all[i as int].0, k);
            }
            assert(is_place(all, k, i as int));
            lemma_with_entry_at(all, k, v, i as int);
            lemma_with_entry_ascends(all, k, v);
        }
        if i < entries.len() && same(entries[i].0.as_str(), key.as_str()) {
            entries.set(i, (key, value));
            assert(pair_texts(entries@) =~= all.update(i as int, (k, v)));
        } else {
            entries.insert(i, (key, value));
            assert(pair_texts(entries@) =~= all.insert(i as int, (k, v)));
        }
        TextMap { entries }
    }

    /// The JSON text of the map.
    pub fn to_json_text(&self) -> (r: String)
        ensures
            r@ == map_text(self@),
            self@.len() == 0 ==> r@ == "{}"@,
    {
        proof {
            use_type_invariant(self);
        }
        let mut out: Vec<(String, Json)> = Vec::new();
        let ghost want = map_object(self@)->Obj_0;
        let mut i: usize = 0;
        while i < self.entries.len()
            invariant
                i <= self.entries.len(),
                want == map_object(self@)->Obj_0,
                entry_models(out@) == want.take(i as int),
            decreases self.entries.len() - i,
        {
            let ghost before = entry_models(out@);
            out.push((self.entries[i].0.clone(), Json::Str(self.entries[i].1.clone())));
            assert(entry_models(out@) =~= before.push(entry_models(out@).last()));
            assert(entry_models(out@) =~= want.take(i + 1));
            i += 1;
        }
        let j = Json::Obj(out);
        proof {
            Json::lemma_obj(out);
            assert(entry_models(out@) =~= want);
            assert forall|a: int, b: int| 0 <= a < b < want.len() implies precedes(
                #[trigger] want[a].0,
                #[trigger] want[b].0,
            ) by {
                assert(self@[a].0 == want[a].0 && self@[b].0 == want[b].0);
            }
            assert forall|k: int| 0 <= k < want.len() implies (#[trigger] want[k]).1.wf() by {}
            assert(j.wf());
            if self@.len() == 0 {
                assert(want =~= Seq::empty());
            }
        }
        j.to_text()
    }
}

/// A map reads as an object in which every key has its text.
pub proof fn maps_read_by_key(entries: Seq<(Seq<char>, Seq<char>)>, key: Seq<char>)
    ensures
        map_object(entries).field(key) == match lookup(entries, key) {
            Some(v) => Some(JsonModel::Str(v)),
            None => None,
        },
{
    let f = |e: (Seq<char>, Seq<char>)| (e.0, JsonModel::Str(e.1));
    lemma_lookup_map(entries, key, f);
}

} // verus!
