//! JSON values as the library reads and writes them.
//!
//! `Json` is the executable form, `JsonModel` what contracts speak of. Text is
//! parsed and written by `serde_json`; everything that is decided on a value is
//! decided here.

use crate::ordered::{
    ascending, is_place, lemma_lookup_is_entry, lemma_with_entry_ascends, lemma_with_entry_at, lookup,
    with_entry,
};
use crate::text::{is_before, opt_text, precedes, precedes_is_total, same, texts};
use vstd::prelude::*;

verus! {

/// A parsed JSON document of `serde_json`.
#[verifier::external_type_specification]
#[verifier::external_body]
pub struct ExValue(serde_json::Value);

/// The mathematical content of a JSON value. A number that is not whole is kept
/// as the bits of its IEEE 754 double. The members of an object come in the
/// order of their keys.
pub enum JsonModel {
    Null,
    Bool(bool),
    Int(int),
    Float(u64),
    Str(Seq<char>),
    Arr(Seq<JsonModel>),
    Obj(Seq<(Seq<char>, JsonModel)>),
}

/// A JSON value.
#[derive(Debug, PartialEq, Eq)]
pub enum Json {
    Null,
    Bool(bool),
    /// A whole number from zero up.
    PosInt(u64),
    /// A whole number below zero.
    NegInt(i64),
    /// Any other number, as the bits of its IEEE 754 double.
    Float(u64),
    Str(String),
    Arr(Vec<Json>),
    /// An object: its members, in ascending order of their keys.
    Obj(Vec<(String, Json)>),
}

/// Whether the bits are those of a finite double: its exponent field is not all
/// ones.
pub open spec fn finite_bits(bits: u64) -> bool {
    (bits as int / 0x10_0000_0000_0000) % 2048 != 2047
}

impl JsonModel {
    /// What a JSON document can hold: finite numbers, and objects in which no
    /// key occurs twice.
    pub open spec fn wf(self) -> bool
        decreases self,
    {
        match self {
            JsonModel::Float(bits) => finite_bits(bits),
            JsonModel::Arr(items) => forall|i: int| 0 <= i < items.len() ==> (#[trigger] items[i]).wf(),
            JsonModel::Obj(entries) => {
                &&& ascending(entries)
                &&& forall|i: int| 0 <= i < entries.len() ==> (#[trigger] entries[i]).1.wf()
            },
            _ => true,
        }
    }

    /// The member `key` of an object.
    pub open spec fn field(self, key: Seq<char>) -> Option<JsonModel> {
        match self {
            JsonModel::Obj(entries) => lookup(entries, key),
            _ => None,
        }
    }

    /// The member `key` of an object, `Null` where there is none.
    pub open spec fn at(self, key: Seq<char>) -> JsonModel {
        match self.field(key) {
            Some(v) => v,
            None => JsonModel::Null,
        }
    }

    /// The item at `i` of an array, `Null` where there is none.
    pub open spec fn item(self, i: int) -> JsonModel {
        match self {
            JsonModel::Arr(items) => if 0 <= i < items.len() {
                items[i]
            } else {
                JsonModel::Null
            },
            _ => JsonModel::Null,
        }
    }

    pub open spec fn text(self) -> Option<Seq<char>> {
        match self {
            JsonModel::Str(s) => Some(s),
            _ => None,
        }
    }

    pub open spec fn boolean(self) -> Option<bool> {
        match self {
            JsonModel::Bool(b) => Some(b),
            _ => None,
        }
    }

    pub open spec fn signed(self) -> Option<i64> {
        match self {
            JsonModel::Int(n) => if i64::MIN <= n <= i64::MAX {
                Some(n as i64)
            } else {
                None
            },
            _ => None,
        }
    }

    pub open spec fn unsigned(self) -> Option<u64> {
        match self {
            JsonModel::Int(n) => if 0 <= n <= u64::MAX {
                Some(n as u64)
            } else {
                None
            },
            _ => None,
        }
    }

    pub open spec fn items(self) -> Option<Seq<JsonModel>> {
        match self {
            JsonModel::Arr(items) => Some(items),
            _ => None,
        }
    }
}

/// The content of an optional value.
pub open spec fn models(v: Option<Json>) -> Option<JsonModel> {
    match v {
        Some(j) => Some(j.model()),
        None => None,
    }
}

/// The contents of a list of values.
pub open spec fn list_models(v: Seq<Json>) -> Seq<JsonModel> {
    Seq::new(v.len(), |i: int| v[i].model())
}

/// The contents of a list of members.
pub open spec fn entry_models(v: Seq<(String, Json)>) -> Seq<(Seq<char>, JsonModel)> {
    Seq::new(v.len(), |i: int| (v[i].0@, v[i].1.model()))
}

impl Json {
    pub open spec fn model(&self) -> JsonModel
        decreases self,
    {
        match self {
            Json::Null => JsonModel::Null,
            Json::Bool(b) => JsonModel::Bool(*b),
            Json::PosInt(n) => JsonModel::Int(*n as int),
            Json::NegInt(n) => JsonModel::Int(*n as int),
            Json::Float(b) => JsonModel::Float(*b),
            Json::Str(s) => JsonModel::Str(s@),
            Json::Arr(v) => JsonModel::Arr(
                Seq::new(
                    v@.len(),
                    |i: int|
                        if 0 <= i < v@.len() {
                            v@[i].model()
                        } else {
                            JsonModel::Null
                        },
                ),
            ),
            Json::Obj(v) => JsonModel::Obj(
                Seq::new(
                    v@.len(),
                    |i: int|
                        if 0 <= i < v@.len() {
                            (v@[i].0@, v@[i].1.model())
                        } else {
                            (Seq::empty(), JsonModel::Null)
                        },
                ),
            ),
        }
    }

    pub open spec fn wf(&self) -> bool {
        self.model().wf()
    }

    /// The content of an array, item by item.
    pub proof fn lemma_arr(v: Vec<Json>)
        ensures
            Json::Arr(v).model() == JsonModel::Arr(list_models(v@)),
    {
        assert(Json::Arr(v).model()->Arr_0 =~= list_models(v@));
    }

    /// An array of documents is one.
    pub proof fn lemma_array_wf(v: Vec<Json>)
        requires
            forall|k: int| 0 <= k < v@.len() ==> (#[trigger] v@[k]).wf(),
        ensures
            Json::Arr(v).wf(),
            Json::Arr(v).model() == JsonModel::Arr(list_models(v@)),
    {
        Json::lemma_arr(v);
        assert forall|k: int| 0 <= k < list_models(v@).len() implies (
        #[trigger] list_models(v@)[k]).wf() by {
            assert(v@[k].wf());
        }
    }

    /// The content of an object, member by member.
    pub proof fn lemma_obj(v: Vec<(String, Json)>)
        ensures
            Json::Obj(v).model() == JsonModel::Obj(entry_models(v@)),
    {
        assert(Json::Obj(v).model()->Obj_0 =~= entry_models(v@));
    }

    /// The member `key` of an object.
    pub fn get(&self, key: &str) -> (r: Option<&Json>)
        ensures
            match r {
                Some(v) => self.model().field(key@) == Some(v.model()),
                None => self.model().field(key@) is None,
            },
    {
        match self {
            Json::Obj(entries) => {
                proof {
                    Json::lemma_obj(*entries);
                }
                let ghost all = entry_models(entries@);
                let mut i: usize = 0;
                assert(all.skip(0) =~= all);
                while i < entries.len()
                    invariant
                        i <= entries.len(),
                        all == entry_models(entries@),
                        lookup(all.skip(i as int), key@) == lookup(all, key@),
                        self.model() == JsonModel::Obj(all),
                    decreases entries.len() - i,
                {
                    if same(entries[i].0.as_str(), key) {
                        return Some(&entries[i].1);
                    }
                    assert(all.skip(i as int).drop_first() =~= all.skip(i + 1));
                    i += 1;
                }
                None
            },
            _ => None,
        }
    }

    /// The item at `i` of an array.
    pub fn get_item(&self, i: usize) -> (r: Option<&Json>)
        ensures
            match r {
                Some(v) => self.model().item(i as int) == v.model(),
                None => self.model().item(i as int) == JsonModel::Null,
            },
    {
        match self {
            Json::Arr(v) => {
                proof {
                    Json::lemma_arr(*v);
                }
                if i < v.len() {
                    Some(&v[i])
                } else {
                    None
                }
            },
            _ => None,
        }
    }

    /// The characters of a string.
    pub fn as_str(&self) -> (r: Option<&str>)
        ensures
            match r {
                Some(s) => self.model().text() == Some(s@),
                None => self.model().text() is None,
            },
    {
        match self {
            Json::Str(s) => Some(s.as_str()),
            _ => None,
        }
    }

    pub fn as_bool(&self) -> (r: Option<bool>)
        ensures
            r == self.model().boolean(),
    {
        match self {
            Json::Bool(b) => Some(*b),
            _ => None,
        }
    }

    pub fn as_i64(&self) -> (r: Option<i64>)
        ensures
            r == self.model().signed(),
    {
        match self {
            Json::PosInt(n) => if *n <= 0x7fff_ffff_ffff_ffff {
                Some(*n as i64)
            } else {
                None
            },
            Json::NegInt(n) => Some(*n),
            _ => None,
        }
    }

    pub fn as_u64(&self) -> (r: Option<u64>)
        ensures
            r == self.model().unsigned(),
    {
        match self {
            Json::PosInt(n) => Some(*n),
            Json::NegInt(n) => if *n >= 0 {
                Some(*n as u64)
            } else {
                None
            },
            _ => None,
        }
    }

    pub fn as_array(&self) -> (r: Option<&Vec<Json>>)
        ensures
            match r {
                Some(v) => self.model() == JsonModel::Arr(list_models(v@)),
                None => !(self.model() is Arr),
            },
    {
        match self {
            Json::Arr(v) => {
                proof {
                    Json::lemma_arr(*v);
                }
                Some(v)
            },
            _ => None,
        }
    }

    /// The members of an object, in the order of their keys.
    pub fn as_object(&self) -> (r: Option<&Vec<(String, Json)>>)
        ensures
            match r {
                Some(v) => self.model() == JsonModel::Obj(entry_models(v@)),
                None => !(self.model() is Obj),
            },
    {
        match self {
            Json::Obj(v) => {
                proof {
                    Json::lemma_obj(*v);
                }
                Some(v)
            },
            _ => None,
        }
    }

    pub fn is_null(&self) -> (r: bool)
        ensures
            r == (self.model() is Null),
    {
        matches!(self, Json::Null)
    }

    pub fn is_object(&self) -> (r: bool)
        ensures
            r == (self.model() is Obj),
    {
        matches!(self, Json::Obj(_))
    }

    /// The member of a well-formed object is well formed.
    pub proof fn lemma_field_wf(m: JsonModel, key: Seq<char>)
        requires
            m.wf(),
        ensures
            m.field(key) matches Some(v) ==> v.wf(),
            m.at(key).wf(),
    {
        if let JsonModel::Obj(entries) = m {
            lemma_lookup_is_entry(entries, key);
            if let Some(v) = lookup(entries, key) {
                let i = choose|i: int| 0 <= i < entries.len() && #[trigger] entries[i] == (key, v);
                assert(entries[i].1.wf());
            }
        }
    }

    /// An empty object.
    pub fn object() -> (r: Json)
        ensures
            r.model() == JsonModel::Obj(Seq::empty()),
            r.wf(),
    {
        let v: Vec<(String, Json)> = Vec::new();
        proof {
            Json::lemma_obj(v);
            assert(entry_models(v@) =~= Seq::empty());
        }
        Json::Obj(v)
    }

    /// An object with one more member, or another value for a member it has.
    /// A value that is no object is handed back as it is.
    pub fn with(self, key: &str, value: Json) -> (r: Json)
        requires
            self.model() matches JsonModel::Obj(entries) ==> ascending(entries),
        ensures
            self.model() matches JsonModel::Obj(entries) ==> r.model() == JsonModel::Obj(
                with_entry(entries, key@, value.model()),
            ) && ascending(r.model()->Obj_0),
            !(self.model() is Obj) ==> r == self,
            self.wf() && value.wf() ==> r.wf(),
    {
        match self {
            Json::Obj(v) => {
                let mut v = v;
                let ghost all = entry_models(v@);
                proof {
                    Json::lemma_obj(v);
                }
                let ghost start = v;
                let mut i: usize = 0;
                while i < v.len() && is_before(v[i].0.as_str(), key)
                    invariant
                        i <= v.len(),
                        v == start,
                        all == entry_models(v@),
                        forall|j: int|
                            0 <= j < i ==> precedes(#[trigger] all[j].0, key@),
                    decreases v.len() - i,
                {
                    assert(all[i as int].0 == v@[i as int].0@);
                    i += 1;
                }
                let ghost added = with_entry(all, key@, value.model());
                proof {
                    if i < v.len() {
                        assert(all[i as int].0 == v@[i as int].0@);
                        precedes_is_total(all[i as int].0, key@);
                    }
                    assert(is_place(all, key@, i as int));
                    lemma_with_entry_at(all, key@, value.model(), i as int);
                    lemma_with_entry_ascends(all, key@, value.model());
                }
                let ghost fresh = value.model();
                if i < v.len() && same(v[i].0.as_str(), key) {
                    let entry = (key.to_owned(), value);
                    v.set(i, entry);
                    proof {
                        assert(entry_models(v@) =~= all.update(i as int, (key@, fresh)));
                    }
                } else {
                    v.insert(i, (key.to_owned(), value));
                    proof {
                        assert(entry_models(v@) =~= all.insert(i as int, (key@, fresh)));
                    }
                }
                proof {
                    Json::lemma_obj(v);
                    assert(entry_models(v@) == added);
                    if self.wf() && value.wf() {
                        assert forall|k: int| 0 <= k < added.len() implies (#[trigger] added[k]).1.wf() by {
                            assert(self.model()->Obj_0 == all);
                            if k < i {
                                assert(added[k] == all[k]);
                            } else if k > i {
                                assert(added[k] == all[k] || added[k] == all[k - 1]);
                            }
                        }
                    }
                }
                Json::Obj(v)
            },
            _ => self,
        }
    }

    /// What `value[key] = v` makes of a value: an object with that member, from
    /// an object or from null.
    pub fn assign(self, key: &str, value: Json) -> (r: Json)
        requires
            self.wf(),
            self.model() is Obj || self.model() is Null,
        ensures
            r.model() == assigned(self.model(), key@, value.model()),
            value.wf() ==> r.wf(),
    {
        match self {
            Json::Null => Json::object().with(key, value),
            _ => self.with(key, value),
        }
    }

    /// An object without one of its members; any other value as it is.
    pub fn without(self, key: &str) -> (r: Json)
        ensures
            r.model() == removed(self.model(), key@),
            self.wf() ==> r.wf(),
    {
        match self {
            Json::Obj(v) => {
                let ghost all = entry_models(v@);
                proof {
                    Json::lemma_obj(v);
                }
                let mut out: Vec<(String, Json)> = Vec::new();
                let mut i: usize = 0;
                assert(entry_models(out@) =~= Seq::empty());
                while i < v.len()
                    invariant
                        i <= v@.len(),
                        all == entry_models(v@),
                        entry_models(out@) == without_key(all.take(i as int), key@),
                    decreases v@.len() - i,
                {
                    assert(all.take(i + 1).drop_last() =~= all.take(i as int));
                    assert(all.take(i + 1).last() == all[i as int]);
                    if !same(v[i].0.as_str(), key) {
                        let ghost before = entry_models(out@);
                        let item = (v[i].0.clone(), v[i].1.copied());
                        out.push(item);
                        assert(entry_models(out@) =~= before.push(all[i as int]));
                    }
                    i += 1;
                }
                assert(all.take(i as int) =~= all);
                proof {
                    Json::lemma_obj(out);
                    if self.wf() {
                        lemma_without_key(all, key@);
                        let kept = without_key(all, key@);
                        assert forall|k: int| 0 <= k < kept.len() implies (#[trigger] kept[k]).1.wf() by {
                            let j = choose|j: int| 0 <= j < all.len() && all[j] == kept[k];
                            assert(all[j].1.wf());
                        }
                    }
                }
                Json::Obj(out)
            },
            _ => self,
        }
    }

    /// A value with the same content.
    pub fn copied(&self) -> (r: Json)
        ensures
            r.model() == self.model(),
        decreases self,
    {
        match self {
            Json::Null => Json::Null,
            Json::Bool(b) => Json::Bool(*b),
            Json::PosInt(n) => Json::PosInt(*n),
            Json::NegInt(n) => Json::NegInt(*n),
            Json::Float(b) => Json::Float(*b),
            Json::Str(s) => Json::Str(s.clone()),
            Json::Arr(v) => {
                let mut out: Vec<Json> = Vec::new();
                let mut i: usize = 0;
                while i < v.len()
                    invariant
                        i <= v.len(),
                        *self == Json::Arr(*v),
                        list_models(out@) == list_models(v@).take(i as int),
                    decreases v.len() - i,
                {
                    let ghost before = list_models(out@);
                    assert(decreases_to!(*self => self->Arr_0));
                    assert(decreases_to!(*v => v[i as int]));
                    let item = v[i].copied();
                    out.push(item);
                    assert(list_models(out@) =~= before.push(item.model()));
                    assert(list_models(out@) =~= list_models(v@).take(i + 1));
                    i += 1;
                }
                proof {
                    Json::lemma_arr(out);
                    Json::lemma_arr(*v);
                    assert(list_models(out@) =~= list_models(v@));
                }
                Json::Arr(out)
            },
            Json::Obj(v) => {
                let mut out: Vec<(String, Json)> = Vec::new();
                let mut i: usize = 0;
                while i < v.len()
                    invariant
                        i <= v.len(),
                        *self == Json::Obj(*v),
                        entry_models(out@) == entry_models(v@).take(i as int),
                    decreases v.len() - i,
                {
                    let ghost before = entry_models(out@);
                    assert(decreases_to!(*self => self->Obj_0));
                    assert(decreases_to!(*v => v[i as int]));
                    let item = (v[i].0.clone(), v[i].1.copied());
                    out.push(item);
                    assert(entry_models(out@) =~= before.push((item.0@, item.1.model())));
                    assert(entry_models(out@) =~= entry_models(v@).take(i + 1));
                    i += 1;
                }
                proof {
                    Json::lemma_obj(out);
                    Json::lemma_obj(*v);
                    assert(entry_models(out@) =~= entry_models(v@));
                }
                Json::Obj(out)
            },
        }
    }
}

/// What `value[key] = v` makes of a value.
pub open spec fn assigned(m: JsonModel, key: Seq<char>, value: JsonModel) -> JsonModel {
    match m {
        JsonModel::Obj(entries) => JsonModel::Obj(with_entry(entries, key, value)),
        _ => JsonModel::Obj(with_entry(Seq::empty(), key, value)),
    }
}

/// Members without the one of a key.
pub open spec fn without_key(entries: Seq<(Seq<char>, JsonModel)>, key: Seq<char>) -> Seq<
    (Seq<char>, JsonModel),
>
    decreases entries.len(),
{
    if entries.len() == 0 {
        Seq::empty()
    } else if entries.last().0 == key {
        without_key(entries.drop_last(), key)
    } else {
        without_key(entries.drop_last(), key).push(entries.last())
    }
}

pub open spec fn removed(m: JsonModel, key: Seq<char>) -> JsonModel {
    match m {
        JsonModel::Obj(entries) => JsonModel::Obj(without_key(entries, key)),
        _ => m,
    }
}

/// Taking a member out keeps the others, in their order.
pub proof fn lemma_without_key(entries: Seq<(Seq<char>, JsonModel)>, key: Seq<char>)
    requires
        ascending(entries),
    ensures
        ascending(without_key(entries, key)),
        forall|k: int|
            0 <= k < without_key(entries, key).len() ==> entries.contains(
                #[trigger] without_key(entries, key)[k],
            ),
        lookup(without_key(entries, key), key) is None,
    decreases entries.len(),
{
    if entries.len() > 0 {
        let front = entries.drop_last();
        assert forall|i: int, j: int| 0 <= i < j < front.len() implies precedes(
            #[trigger] front[i].0,
            #[trigger] front[j].0,
        ) by {
            assert(front[i] == entries[i] && front[j] == entries[j]);
        }
        lemma_without_key(front, key);
        let rest = without_key(front, key);
        let all = without_key(entries, key);
        assert forall|k: int| 0 <= k < all.len() implies entries.contains(#[trigger] all[k]) by {
            if k < rest.len() {
                assert(all[k] == rest[k]);
                let j = choose|j: int| 0 <= j < front.len() && front[j] == rest[k];
                assert(entries[j] == all[k]);
            } else {
                assert(all[k] == entries[entries.len() - 1]);
            }
        }
        assert forall|i: int, j: int| 0 <= i < j < all.len() implies precedes(
            #[trigger] all[i].0,
            #[trigger] all[j].0,
        ) by {
            if j < rest.len() {
                assert(all[i] == rest[i] && all[j] == rest[j]);
            } else {
                assert(all[i] == rest[i]);
                assert(front.contains(rest[i]));
                let a = choose|a: int| 0 <= a < front.len() && front[a] == rest[i];
                assert(entries[a] == all[i]);
                assert(precedes(entries[a].0, entries[entries.len() - 1].0));
            }
        }
        lemma_lookup_is_entry(all, key);
        lemma_lookup_is_entry(rest, key);
    }
}

/// A text as JSON, null where there is none.
pub open spec fn text_or_null(s: Option<Seq<char>>) -> JsonModel {
    match s {
        Some(t) => JsonModel::Str(t),
        None => JsonModel::Null,
    }
}

/// A text as JSON, null where there is none.
pub fn json_text_or_null(s: &Option<String>) -> (r: Json)
    ensures
        r.model() == text_or_null(opt_text(*s)),
        r.wf(),
{
    match s {
        Some(t) => Json::Str(t.clone()),
        None => Json::Null,
    }
}

pub open spec fn str_model() -> spec_fn(Seq<char>) -> JsonModel {
    |t: Seq<char>| JsonModel::Str(t)
}

/// Some texts as an array.
pub open spec fn text_array(v: Seq<Seq<char>>) -> JsonModel {
    JsonModel::Arr(v.map_values(str_model()))
}

pub fn json_texts(v: &Vec<String>) -> (r: Json)
    ensures
        r.model() == text_array(texts(v@)),
        r.wf(),
{
    let mut out: Vec<Json> = Vec::new();
    let mut i: usize = 0;
    while i < v.len()
        invariant
            i <= v@.len(),
            list_models(out@) == texts(v@).take(i as int).map_values(str_model()),
            out@.len() == i,
            forall|k: int| 0 <= k < out@.len() ==> (#[trigger] out@[k]) is Str,
        decreases v@.len() - i,
    {
        let ghost before = out@;
        out.push(Json::Str(v[i].clone()));
        proof {
            let done = texts(v@).take(i as int);
            assert(texts(v@).take(i + 1) =~= done.push(v@[i as int]@));
            assert(list_models(out@) =~= list_models(before).push(JsonModel::Str(v@[i as int]@)));
            assert(done.push(v@[i as int]@).map_values(str_model()) =~= done.map_values(
                str_model(),
            ).push(JsonModel::Str(v@[i as int]@)));
        }
        i += 1;
    }
    proof {
        assert(texts(v@).take(v@.len() as int) =~= texts(v@));
    }
    proof {
        Json::lemma_arr(out);
        assert forall|k: int| 0 <= k < list_models(out@).len() implies (
        #[trigger] list_models(out@)[k]).wf() by {
            assert(out@[k] is Str);
        }
    }
    Json::Arr(out)
}

/// A real number, or nothing where it is none.
pub open spec fn real_or_null(bits: u64) -> JsonModel {
    if finite_bits(bits) {
        JsonModel::Float(bits)
    } else {
        JsonModel::Null
    }
}

pub fn json_real(bits: u64) -> (r: Json)
    ensures
        r.model() == real_or_null(bits),
        r.wf(),
{
    if (bits / 0x10_0000_0000_0000) % 2048 != 2047 {
        Json::Float(bits)
    } else {
        Json::Null
    }
}

/// A whole number as JSON.
pub fn json_int(n: i64) -> (r: Json)
    ensures
        r.model() == JsonModel::Int(n as int),
        r.wf(),
{
    if n < 0 {
        Json::NegInt(n)
    } else {
        Json::PosInt(n as u64)
    }
}

// ---------------------------------------------------------------------------
// Between `serde_json` and the library
// ---------------------------------------------------------------------------

/// What a `serde_json::Value` holds.
pub uninterp spec fn value_model(v: serde_json::Value) -> JsonModel;

/// What `serde_json::from_str` reads from a text: the document, or `None` where
/// it refuses the text.
pub uninterp spec fn json_of_text(text: Seq<char>) -> Option<JsonModel>;

/// What `serde_json::Value`'s `Display` writes for a document, without white
/// space.
pub uninterp spec fn text_of_json(m: JsonModel) -> Seq<char>;

/// `serde_json::from_str::<Value>`: the result depends on the text alone.
#[verifier::external_body]
fn parse_value(text: &str) -> (r: Option<serde_json::Value>)
    ensures
        match r {
            Some(v) => json_of_text(text@) == Some(value_model(v)),
            None => json_of_text(text@) is None,
        },
{
    serde_json::from_str::<serde_json::Value>(text).ok()
}

/// What `serde_json::from_slice` reads from some bytes: the document, or its
/// words on why it refuses them.
pub uninterp spec fn json_of_bytes(bytes: Seq<u8>) -> Result<JsonModel, Seq<char>>;

/// `serde_json::from_slice::<Value>`: the result, and the words of an error,
/// depend on the bytes alone.
#[verifier::external_body]
fn parse_value_bytes(bytes: &[u8]) -> (r: Result<serde_json::Value, String>)
    ensures
        match r {
            Ok(v) => json_of_bytes(bytes@) == Ok::<JsonModel, Seq<char>>(value_model(v)),
            Err(e) => json_of_bytes(bytes@) == Err::<JsonModel, Seq<char>>(e@),
        },
{
    serde_json::from_slice::<serde_json::Value>(bytes).map_err(|e| e.to_string())
}

/// The scalar variants of `serde_json::Value`, with what they hold: a `Number`
/// is whole from zero up (`as_u64`), whole and negative (`as_i64`), or a finite
/// double. `None` for the two containers.
#[verifier::external_body]
fn value_leaf(v: &serde_json::Value) -> (r: Option<Json>)
    ensures
        match r {
            Some(j) => j.model() == value_model(*v) && j.wf() && !(j is Arr) && !(j is Obj),
            None => value_model(*v) is Arr || value_model(*v) is Obj,
        },
{
    Some(match v {
        serde_json::Value::Null => Json::Null,
        serde_json::Value::Bool(b) => Json::Bool(*b),
        serde_json::Value::Number(n) => match (n.as_u64(), n.as_i64(), n.as_f64()) {
            (Some(u), _, _) => Json::PosInt(u),
            (None, Some(i), _) => Json::NegInt(i),
            (None, None, f) => Json::Float(f?.to_bits()),
        },
        serde_json::Value::String(s) => Json::Str(s.clone()),
        _ => return None,
    })
}

/// The items of `serde_json::Value::Array`, in order.
#[verifier::external_body]
fn value_items(v: &serde_json::Value) -> (r: Option<Vec<&serde_json::Value>>)
    ensures
        match r {
            Some(xs) => value_model(*v) == JsonModel::Arr(
                Seq::new(xs@.len(), |i: int| value_model(*xs@[i])),
            ),
            None => !(value_model(*v) is Arr),
        },
{
    v.as_array().map(|a| a.iter().collect())
}

/// The members of `serde_json::Value::Object`. Its `Map` is a `BTreeMap`, which
/// gives them out in ascending order of their keys.
#[verifier::external_body]
fn value_entries(v: &serde_json::Value) -> (r: Option<Vec<(&String, &serde_json::Value)>>)
    ensures
        match r {
            Some(xs) => value_model(*v) == JsonModel::Obj(
                Seq::new(xs@.len(), |i: int| (xs@[i].0@, value_model(*xs@[i].1))),
            ) && ascending(value_model(*v)->Obj_0),
            None => !(value_model(*v) is Obj),
        },
{
    v.as_object().map(|m| m.iter().collect())
}

/// `serde_json::Value::from` on a scalar. A double goes through its big-endian
/// bytes (`bytes::Buf::get_f64`); one that is not finite would come out as
/// null.
#[verifier::external_body]
fn leaf_value(j: &Json) -> (r: serde_json::Value)
    requires
        !(j is Arr),
        !(j is Obj),
    ensures
        j.wf() ==> value_model(r) == j.model(),
{
    match j {
        Json::Bool(b) => serde_json::Value::from(*b),
        Json::PosInt(n) => serde_json::Value::from(*n),
        Json::NegInt(n) => serde_json::Value::from(*n),
        Json::Float(bits) => {
            serde_json::Value::from(bytes::Buf::get_f64(&mut &bits.to_be_bytes()[..]))
        },
        Json::Str(s) => serde_json::Value::from(s.as_str()),
        _ => serde_json::Value::Null,
    }
}

/// `serde_json::Value::Array` of the given items.
#[verifier::external_body]
fn array_value(items: Vec<serde_json::Value>) -> (r: serde_json::Value)
    ensures
        value_model(r) == JsonModel::Arr(Seq::new(items@.len(), |i: int| value_model(items@[i]))),
{
    serde_json::Value::Array(items)
}

/// `serde_json::Value::Object` of the given members: the map keeps them by
/// ascending key.
#[verifier::external_body]
fn object_value(entries: Vec<(String, serde_json::Value)>) -> (r: serde_json::Value)
    ensures
        ({
            let m = Seq::new(entries@.len(), |i: int| (entries@[i].0@, value_model(entries@[i].1)));
            ascending(m) ==> value_model(r) == JsonModel::Obj(m)
        }),
{
    serde_json::Value::Object(entries.into_iter().collect())
}

/// `serde_json::Value::to_string`: the text depends on the document alone. The
/// empty object is a pair of braces.
#[verifier::external_body]
fn value_text(v: &serde_json::Value) -> (r: String)
    ensures
        r@ == text_of_json(value_model(*v)),
        value_model(*v) == JsonModel::Obj(Seq::empty()) ==> r@ == "{}"@,
{
    v.to_string()
}

impl Json {
    /// The library's form of a parsed document.
    pub fn from_value(v: &serde_json::Value) -> (r: Json)
        ensures
            r.model() == value_model(*v),
            r.wf(),
        decreases value_model(*v),
    {
        if let Some(leaf) = value_leaf(v) {
            return leaf;
        }
        if let Some(items) = value_items(v) {
            let ghost want = value_model(*v)->Arr_0;
            let mut out: Vec<Json> = Vec::new();
            let mut i: usize = 0;
            while i < items.len()
                invariant
                    i <= items.len(),
                    value_model(*v) == JsonModel::Arr(want),
                    want == Seq::new(items@.len(), |k: int| value_model(*items@[k])),
                    list_models(out@) == want.take(i as int),
                    forall|k: int| 0 <= k < i ==> (#[trigger] want[k]).wf(),
                decreases items.len() - i,
            {
                assert(value_model(*items@[i as int]) == want[i as int]);
                assert(decreases_to!(value_model(*v) => value_model(*v)->Arr_0));
                assert(decreases_to!(want => want[i as int]));
                let ghost before = list_models(out@);
                let item = Json::from_value(items[i]);
                out.push(item);
                assert(list_models(out@) =~= before.push(item.model()));
                assert(list_models(out@) =~= want.take(i + 1));
                i += 1;
            }
            proof {
                Json::lemma_arr(out);
                assert(list_models(out@) =~= want);
            }
            return Json::Arr(out);
        }
        if let Some(entries) = value_entries(v) {
            let ghost want = value_model(*v)->Obj_0;
            let mut out: Vec<(String, Json)> = Vec::new();
            let mut i: usize = 0;
            while i < entries.len()
                invariant
                    i <= entries.len(),
                    value_model(*v) == JsonModel::Obj(want),
                    want == Seq::new(entries@.len(), |k: int| (entries@[k].0@, value_model(*entries@[k].1))),
                    entry_models(out@) == want.take(i as int),
                    forall|k: int| 0 <= k < i ==> (#[trigger] want[k]).1.wf(),
                decreases entries.len() - i,
            {
                assert(value_model(*entries@[i as int].1) == want[i as int].1);
                let (key, value) = entries[i];
                assert(decreases_to!(value_model(*v) => value_model(*v)->Obj_0));
                assert(decreases_to!(want => want[i as int]));
                let ghost before = entry_models(out@);
                let item = Json::from_value(value);
                out.push((key.clone(), item));
                assert(entry_models(out@) =~= before.push((key@, item.model())));
                assert(entry_models(out@) =~= want.take(i + 1));
                i += 1;
            }
            proof {
                Json::lemma_obj(out);
                assert(entry_models(out@) =~= want);
            }
            return Json::Obj(out);
        }
        Json::Null
    }

    /// The document with the content of this value.
    pub fn to_value(&self) -> (r: serde_json::Value)
        ensures
            self.wf() ==> value_model(r) == self.model(),
        decreases self,
    {
        match self {
            Json::Arr(v) => {
                let mut out: Vec<serde_json::Value> = Vec::new();
                let mut i: usize = 0;
                while i < v.len()
                    invariant
                        i <= v.len(),
                        *self == Json::Arr(*v),
                        out@.len() == i,
                        forall|k: int|
                            0 <= k < i && v@[k].wf() ==> value_model(#[trigger] out@[k]) == v@[k].model(),
                    decreases v.len() - i,
                {
                    assert(decreases_to!(*self => self->Arr_0));
                    assert(decreases_to!(*v => v[i as int]));
                    out.push(v[i].to_value());
                    i += 1;
                }
                proof {
                    Json::lemma_arr(*v);
                    if self.wf() {
                        assert forall|k: int| 0 <= k < v@.len() implies value_model(#[trigger] out@[k])
                            == v@[k].model() by {
                            assert(self.model()->Arr_0[k] == v@[k].model());
                            assert(self.model()->Arr_0[k].wf());
                        }
                        assert(Seq::new(out@.len(), |k: int| value_model(out@[k])) =~= list_models(v@));
                    }
                }
                array_value(out)
            },
            Json::Obj(v) => {
                let mut out: Vec<(String, serde_json::Value)> = Vec::new();
                let mut i: usize = 0;
                while i < v.len()
                    invariant
                        i <= v.len(),
                        *self == Json::Obj(*v),
                        out@.len() == i,
                        forall|k: int|
                            0 <= k < i ==> (#[trigger] out@[k]).0@ == v@[k].0@ && (v@[k].1.wf()
                                ==> value_model(out@[k].1) == v@[k].1.model()),
                    decreases v.len() - i,
                {
                    assert(decreases_to!(*self => self->Obj_0));
                    assert(decreases_to!(*v => v[i as int]));
                    out.push((v[i].0.clone(), v[i].1.to_value()));
                    i += 1;
                }
                proof {
                    Json::lemma_obj(*v);
                    if self.wf() {
                        assert forall|k: int| 0 <= k < v@.len() implies value_model(
                            (#[trigger] out@[k]).1,
                        ) == v@[k].1.model() by {
                            assert(self.model()->Obj_0[k].1 == v@[k].1.model());
                            assert(self.model()->Obj_0[k].1.wf());
                        }
                        assert(Seq::new(out@.len(), |k: int| (out@[k].0@, value_model(out@[k].1)))
                            =~= entry_models(v@));
                    }
                }
                object_value(out)
            },
            _ => leaf_value(self),
        }
    }

    /// Reads a JSON document.
    pub fn parse(text: &str) -> (r: Option<Json>)
        ensures
            match r {
                Some(j) => json_of_text(text@) == Some(j.model()) && j.wf(),
                None => json_of_text(text@) is None,
            },
    {
        match parse_value(text) {
            Some(v) => Some(Json::from_value(&v)),
            None => None,
        }
    }

    /// Reads a JSON document from bytes, or says what is wrong with them.
    pub fn parse_bytes(bytes: &[u8]) -> (r: Result<Json, String>)
        ensures
            match r {
                Ok(j) => json_of_bytes(bytes@) == Ok::<JsonModel, Seq<char>>(j.model()) && j.wf(),
                Err(e) => json_of_bytes(bytes@) == Err::<JsonModel, Seq<char>>(e@),
            },
    {
        match parse_value_bytes(bytes) {
            Ok(v) => Ok(Json::from_value(&v)),
            Err(e) => Err(e),
        }
    }

    /// Writes the document, without white space.
    pub fn to_text(&self) -> (r: String)
        ensures
            self.wf() ==> r@ == text_of_json(self.model()),
            self.model() == JsonModel::Obj(Seq::empty()) ==> r@ == "{}"@,
    {
        let v = self.to_value();
        value_text(&v)
    }
}

/// A member that was set reads back as what it was set to, and every other member as
/// before.
pub proof fn set_members_read_back(m: JsonModel, key: Seq<char>, value: JsonModel, other: Seq<char>)
    requires
        m is Obj || m is Null,
    ensures
        assigned(m, key, value).field(key) == Some(value),
        other != key ==> assigned(m, key, value).field(other) == m.field(other),
{
    broadcast use {
        crate::ordered::entries_are_found,
        crate::ordered::nothing_is_found_in_nothing,
    };

}

/// A member that was taken out is gone, and every other member reads as before.
pub proof fn removed_members_are_gone(m: JsonModel, key: Seq<char>, other: Seq<char>)
    ensures
        removed(m, key).field(key) is None,
        other != key ==> removed(m, key).field(other) == m.field(other),
{
    if let JsonModel::Obj(entries) = m {
        lemma_lookup_without(entries, key, key);
        lemma_lookup_without(entries, key, other);
    }
}

proof fn lemma_lookup_without(
    entries: Seq<(Seq<char>, JsonModel)>,
    key: Seq<char>,
    other: Seq<char>,
)
    ensures
        lookup(without_key(entries, key), other) == if other == key {
            None
        } else {
            lookup(entries, other)
        },
    decreases entries.len(),
{
    if entries.len() > 0 {
        let front = entries.drop_last();
        let last = entries.last();
        lemma_lookup_without(front, key, other);
        lemma_lookup_push(front, last, other);
        lemma_lookup_push(without_key(front, key), last, other);
        assert(front.push(last) =~= entries);
    }
}

proof fn lemma_lookup_push(
    entries: Seq<(Seq<char>, JsonModel)>,
    e: (Seq<char>, JsonModel),
    key: Seq<char>,
)
    ensures
        lookup(entries.push(e), key) == match lookup(entries, key) {
            Some(v) => Some(v),
            None => if e.0 == key {
                Some(e.1)
            } else {
                None
            },
        },
    decreases entries.len(),
{
    let all = entries.push(e);
    if entries.len() > 0 {
        lemma_lookup_push(entries.drop_first(), e, key);
        assert(all.drop_first() =~= entries.drop_first().push(e));
        assert(all[0] == entries[0]);
    } else {
        assert(all.drop_first() =~= Seq::empty());
        assert(lookup(all.drop_first(), key) is None);
    }
}

/// A real number is told as it is where it is finite and as nothing otherwise; a text is told
/// as it is where there is one.
pub proof fn values_are_told_as_they_are(bits: u64, t: Seq<char>)
    ensures
        finite_bits(bits) ==> real_or_null(bits) == JsonModel::Float(bits),
        !finite_bits(bits) ==> real_or_null(bits) == JsonModel::Null,
        text_or_null(Some(t)) == JsonModel::Str(t),
        text_or_null(None) == JsonModel::Null,
{
}

/// A list is told in its order, and texts as texts; a value is read as what it is and as
/// nothing else.
pub proof fn lists_are_told_in_order(v: Seq<Seq<char>>, list: Seq<Json>, entries: Seq<(String, Json)>, m: JsonModel, i: int)
    ensures
        text_array(v).items() matches Some(all) && all.len() == v.len(),
        0 <= i < v.len() ==> text_array(v).item(i) == JsonModel::Str(v[i]),
        list_models(list).len() == list.len(),
        0 <= i < list.len() ==> list_models(list)[i] == list[i].model(),
        entry_models(entries).len() == entries.len(),
        0 <= i < entries.len() ==> entry_models(entries)[i] == (entries[i].0@, entries[i].1.model()),
        m.text() matches Some(t) ==> m == JsonModel::Str(t),
        m.boolean() matches Some(b) ==> m == JsonModel::Bool(b),
        m.signed() matches Some(n) ==> m == JsonModel::Int(n as int),
        m.unsigned() matches Some(n) ==> m == JsonModel::Int(n as int),
        m is Str ==> m.text() is Some,
        m is Bool ==> m.boolean() is Some,
        m matches JsonModel::Int(n) ==> (i64::MIN <= n <= i64::MAX ==> m.signed() is Some),
        m matches JsonModel::Int(n) ==> (0 <= n <= u64::MAX ==> m.unsigned() is Some),
        m is Arr ==> m.items() is Some,
{
}

} // verus!
