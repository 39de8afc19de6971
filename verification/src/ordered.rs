//! Maps that are walked in the order of their keys, kept as sorted lists.

use crate::text::{is_before, precedes, precedes_is_irreflexive, precedes_is_total, precedes_is_transitive};
use vstd::prelude::*;

verus! {

/// A mathematical key with a strict total order.
pub trait Ranked: Sized {
    spec fn before(a: Self, b: Self) -> bool;

    proof fn lemma_irreflexive(a: Self)
        ensures
            !Self::before(a, a),
    ;

    proof fn lemma_transitive(a: Self, b: Self, c: Self)
        requires
            Self::before(a, b),
            Self::before(b, c),
        ensures
            Self::before(a, c),
    ;

    proof fn lemma_total(a: Self, b: Self)
        ensures
            a == b || Self::before(a, b) || Self::before(b, a),
    ;
}

/// Texts are ordered by code point.
impl Ranked for Seq<char> {
    open spec fn before(a: Seq<char>, b: Seq<char>) -> bool {
        precedes(a, b)
    }

    proof fn lemma_irreflexive(a: Seq<char>) {
        precedes_is_irreflexive(a);
    }

    proof fn lemma_transitive(a: Seq<char>, b: Seq<char>, c: Seq<char>) {
        precedes_is_transitive(a, b, c);
    }

    proof fn lemma_total(a: Seq<char>, b: Seq<char>) {
        precedes_is_total(a, b);
    }
}

/// A number with a text: by the number first.
impl Ranked for (i64, Seq<char>) {
    open spec fn before(a: (i64, Seq<char>), b: (i64, Seq<char>)) -> bool {
        a.0 < b.0 || (a.0 == b.0 && precedes(a.1, b.1))
    }

    proof fn lemma_irreflexive(a: (i64, Seq<char>)) {
        precedes_is_irreflexive(a.1);
    }

    proof fn lemma_transitive(a: (i64, Seq<char>), b: (i64, Seq<char>), c: (i64, Seq<char>)) {
        if a.0 == b.0 && b.0 == c.0 {
            precedes_is_transitive(a.1, b.1, c.1);
        }
    }

    proof fn lemma_total(a: (i64, Seq<char>), b: (i64, Seq<char>)) {
        precedes_is_total(a.1, b.1);
    }
}

/// Whether the keys ascend strictly, so that none occurs twice.
pub open spec fn ascending<K: Ranked, T>(s: Seq<(K, T)>) -> bool {
    forall|i: int, j: int| 0 <= i < j < s.len() ==> K::before(#[trigger] s[i].0, #[trigger] s[j].0)
}

/// The value of `key`.
pub open spec fn lookup<K: Ranked, T>(s: Seq<(K, T)>, key: K) -> Option<T>
    decreases s.len(),
{
    if s.len() == 0 {
        None
    } else if s[0].0 == key {
        Some(s[0].1)
    } else {
        lookup(s.drop_first(), key)
    }
}

/// `s` with `value` as the value of `key`: in place of the one it has, or where
/// its order puts it.
pub open spec fn with_entry<K: Ranked, T>(s: Seq<(K, T)>, key: K, value: T) -> Seq<(K, T)>
    decreases s.len(),
{
    if s.len() == 0 {
        seq![(key, value)]
    } else if s[0].0 == key {
        seq![(key, value)] + s.drop_first()
    } else if K::before(key, s[0].0) {
        seq![(key, value)] + s
    } else {
        seq![s[0]] + with_entry(s.drop_first(), key, value)
    }
}

/// Where `key` stands, or would stand, among ascending entries.
pub open spec fn is_place<K: Ranked, T>(s: Seq<(K, T)>, key: K, i: int) -> bool {
    &&& 0 <= i <= s.len()
    &&& forall|j: int| 0 <= j < i ==> K::before(#[trigger] s[j].0, key)
    &&& i < s.len() ==> s[i].0 == key || K::before(key, s[i].0)
}

/// Adding an entry is a replacement or an insertion at its place.
pub proof fn lemma_with_entry_at<K: Ranked, T>(s: Seq<(K, T)>, key: K, value: T, i: int)
    requires
        is_place(s, key, i),
    ensures
        with_entry(s, key, value) == if i < s.len() && s[i].0 == key {
            s.update(i, (key, value))
        } else {
            s.insert(i, (key, value))
        },
    decreases i,
{
    if i == 0 {
        if s.len() > 0 {
            K::lemma_irreflexive(key);
        }
        if s.len() > 0 && s[0].0 == key {
            assert(with_entry(s, key, value) =~= s.update(0, (key, value)));
        } else {
            assert(with_entry(s, key, value) =~= s.insert(0, (key, value)));
        }
    } else {
        assert(K::before(s[0].0, key));
        K::lemma_irreflexive(key);
        if K::before(key, s[0].0) {
            K::lemma_transitive(key, s[0].0, key);
        }
        let rest = s.drop_first();
        assert forall|j: int| 0 <= j < i - 1 implies K::before(#[trigger] rest[j].0, key) by {
            assert(rest[j] == s[j + 1]);
        }
        lemma_with_entry_at(rest, key, value, i - 1);
        if i < s.len() && s[i].0 == key {
            assert(with_entry(s, key, value) =~= s.update(i, (key, value)));
        } else {
            assert(with_entry(s, key, value) =~= s.insert(i, (key, value)));
        }
    }
}

proof fn lemma_place_exists<K: Ranked, T>(s: Seq<(K, T)>, key: K)
    requires
        ascending(s),
    ensures
        exists|i: int| is_place(s, key, i),
    decreases s.len(),
{
    if s.len() == 0 {
        assert(is_place(s, key, 0));
    } else {
        let front = s.drop_last();
        lemma_place_exists(front, key);
        let i = choose|i: int| is_place(front, key, i);
        if i < front.len() {
            assert(front[i] == s[i]);
            assert forall|j: int| 0 <= j < i implies K::before(#[trigger] s[j].0, key) by {
                assert(front[j] == s[j]);
            }
            assert(is_place(s, key, i));
        } else {
            assert forall|j: int| 0 <= j < i implies K::before(#[trigger] s[j].0, key) by {
                assert(front[j] == s[j]);
            }
            K::lemma_total(s.last().0, key);
            if K::before(s.last().0, key) {
                assert(is_place(s, key, s.len() as int));
            } else {
                assert(is_place(s, key, i));
            }
        }
    }
}

/// Adding an entry keeps the order.
pub proof fn lemma_with_entry_ascends<K: Ranked, T>(s: Seq<(K, T)>, key: K, value: T)
    requires
        ascending(s),
    ensures
        ascending(with_entry(s, key, value)),
{
    lemma_place_exists(s, key);
    let i = choose|i: int| is_place(s, key, i);
    lemma_with_entry_at(s, key, value, i);
    let t = with_entry(s, key, value);
    if i < s.len() && s[i].0 == key {
        assert forall|a: int, b: int| 0 <= a < b < t.len() implies K::before(
            #[trigger] t[a].0,
            #[trigger] t[b].0,
        ) by {
            assert(t[a].0 == s[a].0 && t[b].0 == s[b].0);
        }
    } else {
        assert forall|a: int, b: int| 0 <= a < b < t.len() implies K::before(
            #[trigger] t[a].0,
            #[trigger] t[b].0,
        ) by {
            if a < i && b > i {
                assert(t[a] == s[a] && t[b] == s[b - 1]);
            } else if a < i && b < i {
                assert(t[a] == s[a] && t[b] == s[b]);
            } else if a > i {
                assert(t[a] == s[a - 1] && t[b] == s[b - 1]);
            } else if a == i {
                assert(t[b] == s[b - 1]);
                if b - 1 > i {
                    assert(K::before(s[i].0, s[b - 1].0));
                    K::lemma_transitive(key, s[i].0, s[b - 1].0);
                }
            }
        }
    }
}

/// An added entry is found under its key, and nothing else changes.
pub proof fn lemma_lookup_with_entry<K: Ranked, T>(
    s: Seq<(K, T)>,
    key: K,
    value: T,
    other: K,
)
    ensures
        lookup(with_entry(s, key, value), other) == if other == key {
            Some(value)
        } else {
            lookup(s, other)
        },
    decreases s.len(),
{
    let t = with_entry(s, key, value);
    if s.len() == 0 {
        assert(t.drop_first() =~= Seq::<(K, T)>::empty());
        assert(lookup(t.drop_first(), other) is None);
    } else if s[0].0 == key {
        assert(t.drop_first() =~= s.drop_first());
    } else if K::before(key, s[0].0) {
        assert(t.drop_first() =~= s);
    } else {
        assert(t.drop_first() =~= with_entry(s.drop_first(), key, value));
        lemma_lookup_with_entry(s.drop_first(), key, value, other);
    }
}

/// A value that is found stands among the entries.
pub proof fn lemma_lookup_is_entry<K: Ranked, T>(s: Seq<(K, T)>, key: K)
    ensures
        match lookup(s, key) {
            Some(v) => exists|i: int| 0 <= i < s.len() && #[trigger] s[i] == (key, v),
            None => forall|i: int| 0 <= i < s.len() ==> (#[trigger] s[i]).0 != key,
        },
    decreases s.len(),
{
    if s.len() > 0 && s[0].0 != key {
        let rest = s.drop_first();
        lemma_lookup_is_entry(rest, key);
        match lookup(rest, key) {
            Some(v) => {
                let i = choose|i: int| 0 <= i < rest.len() && #[trigger] rest[i] == (key, v);
                assert(s[i + 1] == (key, v));
            },
            None => {
                assert forall|i: int| 0 <= i < s.len() implies (#[trigger] s[i]).0 != key by {
                    if i > 0 {
                        assert(rest[i - 1] == s[i]);
                    }
                }
            },
        }
    } else if s.len() > 0 {
        assert(s[0] == (key, s[0].1));
    }
}

/// Adding an entry adds nothing else.
pub proof fn lemma_with_entry_members<K: Ranked, T>(s: Seq<(K, T)>, key: K, value: T)
    ensures
        with_entry(s, key, value).len() <= s.len() + 1,
        forall|i: int|
            0 <= i < with_entry(s, key, value).len() ==> #[trigger] with_entry(s, key, value)[i] == (
                key,
                value,
            ) || s.contains(with_entry(s, key, value)[i]),
    decreases s.len(),
{
    let t = with_entry(s, key, value);
    if s.len() > 0 {
        let rest = s.drop_first();
        if s[0].0 == key || K::before(key, s[0].0) {
            assert forall|i: int| 0 <= i < t.len() implies #[trigger] t[i] == (key, value)
                || s.contains(t[i]) by {
                if i > 0 {
                    if s[0].0 == key {
                        assert(t[i] == s[i]);
                    } else {
                        assert(t[i] == s[i - 1]);
                    }
                }
            }
        } else {
            lemma_with_entry_members(rest, key, value);
            let u = with_entry(rest, key, value);
            assert forall|i: int| 0 <= i < t.len() implies #[trigger] t[i] == (key, value)
                || s.contains(t[i]) by {
                if i == 0 {
                    assert(t[0] == s[0]);
                } else {
                    assert(t[i] == u[i - 1]);
                    if u[i - 1] != (key, value) {
                        let j = choose|j: int| 0 <= j < rest.len() && rest[j] == u[i - 1];
                        assert(s[j + 1] == t[i]);
                    }
                }
            }
        }
    }
}

/// Renaming the values and adding an entry can be done in either order.
pub proof fn lemma_with_entry_map<K: Ranked, T, U>(
    s: Seq<(K, T)>,
    key: K,
    value: T,
    f: spec_fn((K, T)) -> (K, U),
)
    requires
        forall|e: (K, T)| (#[trigger] f(e)).0 == e.0,
    ensures
        with_entry(s, key, value).map_values(f) == with_entry(s.map_values(f), key, f((key, value)).1),
    decreases s.len(),
{
    let m = s.map_values(f);
    let t = with_entry(s, key, value).map_values(f);
    let u = with_entry(m, key, f((key, value)).1);
    assert(f((key, value)) == (key, f((key, value)).1));
    if s.len() == 0 {
        assert(t =~= u);
    } else {
        assert(m[0] == f(s[0]));
        assert(m.drop_first() =~= s.drop_first().map_values(f));
        if !(s[0].0 == key) && !K::before(key, s[0].0) {
            lemma_with_entry_map(s.drop_first(), key, value, f);
            let w = with_entry(s.drop_first(), key, value).map_values(f);
            assert(t =~= seq![m[0]] + w);
        } else {
            assert(t =~= u);
        }
    }
}

/// Looking up after renaming the values is renaming what is found.
pub proof fn lemma_lookup_map<K: Ranked, T, U>(
    s: Seq<(K, T)>,
    key: K,
    f: spec_fn((K, T)) -> (K, U),
)
    requires
        forall|e: (K, T)| (#[trigger] f(e)).0 == e.0,
    ensures
        lookup(s.map_values(f), key) == match lookup(s, key) {
            Some(v) => Some(f((key, v)).1),
            None => None,
        },
    decreases s.len(),
{
    if s.len() > 0 {
        let m = s.map_values(f);
        assert(m[0] == f(s[0]));
        if s[0].0 == key {
            assert(s[0] == (key, s[0].1));
        }
        assert(m.drop_first() =~= s.drop_first().map_values(f));
        lemma_lookup_map(s.drop_first(), key, f);
    }
}

// ---------------------------------------------------------------------------
// The map
// ---------------------------------------------------------------------------

/// An executable key: what it stands for, and the comparison of two of them.
pub trait OrderedKey: Sized {
    type Rank: Ranked;

    spec fn rank(&self) -> Self::Rank;

    fn is_before(&self, other: &Self) -> (r: bool)
        ensures
            r == Self::Rank::before(self.rank(), other.rank()),
    ;
}

impl OrderedKey for String {
    type Rank = Seq<char>;

    open spec fn rank(&self) -> Seq<char> {
        self@
    }

    fn is_before(&self, other: &String) -> (r: bool) {
        is_before(self.as_str(), other.as_str())
    }
}

impl OrderedKey for (i64, String) {
    type Rank = (i64, Seq<char>);

    open spec fn rank(&self) -> (i64, Seq<char>) {
        (self.0, self.1@)
    }

    fn is_before(&self, other: &(i64, String)) -> (r: bool) {
        let later = is_before(self.1.as_str(), other.1.as_str());
        let r = self.0 < other.0 || (self.0 == other.0 && later);
        assert(self.rank() == (self.0, self.1@));
        assert(other.rank() == (other.0, other.1@));
        assert(r == <(i64, Seq<char>)>::before((self.0, self.1@), (other.0, other.1@)));
        r
    }
}

/// The entries of a list, each key by what it stands for.
pub open spec fn ranked<K: OrderedKey, V>(v: Seq<(K, V)>) -> Seq<(K::Rank, V)> {
    v.map_values(|e: (K, V)| (e.0.rank(), e.1))
}

/// A map from keys to values that is walked by ascending key.
#[derive(Debug, PartialEq, Eq)]
pub struct OrderedMap<K, V> {
    entries: Vec<(K, V)>,
}

impl<K: OrderedKey, V> View for OrderedMap<K, V> {
    type V = Seq<(K::Rank, V)>;

    closed spec fn view(&self) -> Seq<(K::Rank, V)> {
        ranked(self.entries@)
    }
}

impl<K: OrderedKey, V> OrderedMap<K, V> {
    /// Keys ascend.
    pub open spec fn wf(&self) -> bool {
        ascending(self@)
    }

    pub fn new() -> (r: OrderedMap<K, V>)
        ensures
            r@ == Seq::<(K::Rank, V)>::empty(),
            r.wf(),
    {
        let entries: Vec<(K, V)> = Vec::new();
        assert(ranked(entries@) =~= Seq::empty());
        OrderedMap { entries }
    }

    pub fn len(&self) -> (r: usize)
        ensures
            r == self@.len(),
    {
        self.entries.len()
    }

    /// The key of the `i`th entry.
    pub fn key(&self, i: usize) -> (r: &K)
        requires
            i < self@.len(),
        ensures
            r.rank() == self@[i as int].0,
    {
        &self.entries[i].0
    }

    /// The value of the `i`th entry.
    pub fn value(&self, i: usize) -> (r: &V)
        requires
            i < self@.len(),
        ensures
            *r == self@[i as int].1,
    {
        &self.entries[i].1
    }

    /// The place of `key`: the index of its entry, or of the first entry behind
    /// it.
    fn place(&self, key: &K) -> (i: usize)
        requires
            self.wf(),
        ensures
            is_place(self@, key.rank(), i as int),
    {
        let mut lo: usize = 0;
        let mut hi: usize = self.entries.len();
        let ghost all = self@;
        while lo < hi
            invariant
                lo <= hi <= self.entries.len(),
                all == ranked(self.entries@),
                ascending(all),
                forall|j: int| 0 <= j < lo ==> K::Rank::before(#[trigger] all[j].0, key.rank()),
                hi < all.len() ==> !K::Rank::before(all[hi as int].0, key.rank()),
            decreases hi - lo,
        {
            let mid: usize = lo + (hi - lo) / 2;
            assert(all[mid as int].0 == self.entries@[mid as int].0.rank());
            if self.entries[mid].0.is_before(key) {
                assert forall|j: int| 0 <= j < mid + 1 implies K::Rank::before(
                    #[trigger] all[j].0,
                    key.rank(),
                ) by {
                    if j < mid {
                        K::Rank::lemma_transitive(all[j].0, all[mid as int].0, key.rank());
                    }
                }
                lo = mid + 1;
            } else {
                hi = mid;
            }
        }
        proof {
            if lo < all.len() {
                K::Rank::lemma_total(all[lo as int].0, key.rank());
            }
        }
        lo
    }

    /// The value of `key`.
    pub fn get(&self, key: &K) -> (r: Option<&V>)
        requires
            self.wf(),
        ensures
            match r {
                Some(v) => lookup(self@, key.rank()) == Some(*v),
                None => lookup(self@, key.rank()) is None,
            },
    {
        let i: usize = self.place(key);
        let ghost all = self@;
        proof {
            lemma_lookup_at_place(all, key.rank(), i as int);
        }
        if i < self.entries.len() {
            assert(all[i as int] == (self.entries@[i as int].0.rank(), self.entries@[i as int].1));
            if !key.is_before(&self.entries[i].0) {
                proof {
                    K::Rank::lemma_irreflexive(key.rank());
                }
                return Some(&self.entries[i].1);
            }
            proof {
                K::Rank::lemma_irreflexive(key.rank());
            }
        }
        None
    }

    /// Sets the value of `key`.
    pub fn insert(&mut self, key: K, value: V)
        requires
            old(self).wf(),
        ensures
            final(self)@ == with_entry(old(self)@, key.rank(), value),
            final(self).wf(),
    {
        let i: usize = self.place(&key);
        let ghost all = self@;
        let ghost k = key.rank();
        proof {
            lemma_with_entry_at(all, k, value, i as int);
            lemma_with_entry_ascends(all, k, value);
            K::Rank::lemma_irreflexive(k);
            if i < all.len() {
                assert(all[i as int] == (self.entries@[i as int].0.rank(), self.entries@[i as int].1));
            }
        }
        if i < self.entries.len() && !key.is_before(&self.entries[i].0) {
            self.entries.set(i, (key, value));
            assert(ranked(self.entries@) =~= all.update(i as int, (k, value)));
        } else {
            self.entries.insert(i, (key, value));
            assert(ranked(self.entries@) =~= all.insert(i as int, (k, value)));
        }
    }
}

/// The value of a key stands at its place.
pub proof fn lemma_lookup_at_place<K: Ranked, T>(s: Seq<(K, T)>, key: K, i: int)
    requires
        ascending(s),
        is_place(s, key, i),
    ensures
        lookup(s, key) == if i < s.len() && s[i].0 == key {
            Some(s[i].1)
        } else {
            None
        },
{
    lemma_lookup_is_entry(s, key);
    K::lemma_irreflexive(key);
    match lookup(s, key) {
        Some(v) => {
            let j = choose|j: int| 0 <= j < s.len() && #[trigger] s[j] == (key, v);
            if j < i {
                assert(K::before(s[j].0, key));
            } else if j > i {
                assert(K::before(s[i].0, s[j].0));
                if K::before(key, s[i].0) {
                    K::lemma_transitive(key, s[i].0, key);
                }
            }
        },
        None => {
            if i < s.len() {
                assert(s[i].0 != key);
            }
        },
    }
}

/// The distinct labels of a list, in ascending order.
pub open spec fn sorted_labels(labels: Seq<Seq<char>>) -> Seq<(Seq<char>, ())>
    decreases labels.len(),
{
    if labels.len() == 0 {
        Seq::empty()
    } else {
        with_entry(sorted_labels(labels.drop_last()), labels.last(), ())
    }
}

/// They are in order, and none is left out or added.
pub proof fn lemma_sorted_labels(labels: Seq<Seq<char>>, l: Seq<char>)
    ensures
        ascending(sorted_labels(labels)),
        lookup(sorted_labels(labels), l) is Some <==> labels.contains(l),
    decreases labels.len(),
{
    if labels.len() > 0 {
        let front = labels.drop_last();
        lemma_sorted_labels(front, l);
        lemma_with_entry_ascends(sorted_labels(front), labels.last(), ());
        lemma_lookup_with_entry(sorted_labels(front), labels.last(), (), l);
        if labels.contains(l) && l != labels.last() {
            let i = choose|i: int| 0 <= i < labels.len() && labels[i] == l;
            assert(front[i] == l);
        }
        if front.contains(l) {
            let i = choose|i: int| 0 <= i < front.len() && front[i] == l;
            assert(labels[i] == l);
        }
        if l == labels.last() {
            assert(labels[labels.len() - 1] == l);
        }
    }
}

/// Among no entries nothing is found: for use wherever entries are looked up.
pub broadcast proof fn nothing_is_found_in_nothing<K: Ranked, T>(key: K)
    ensures
        #[trigger] lookup(Seq::<(K, T)>::empty(), key) is None,
{
}

/// An added entry is found under its key, and nothing else changes: for use
/// wherever entries are looked up.
pub broadcast proof fn entries_are_found<K: Ranked, T>(s: Seq<(K, T)>, key: K, value: T, other: K)
    ensures
        #[trigger] lookup(with_entry(s, key, value), other) == if other == key {
            Some(value)
        } else {
            lookup(s, other)
        },
{
    lemma_lookup_with_entry(s, key, value, other);
}

} // verus!
