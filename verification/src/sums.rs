//! Sums and selections over lists.

use vstd::prelude::*;

verus! {

/// The sum of `f` over `s`.
pub open spec fn total<A>(s: Seq<A>, f: spec_fn(A) -> int) -> int
    decreases s.len(),
{
    if s.len() == 0 {
        0
    } else {
        total(s.drop_last(), f) + f(s.last())
    }
}

/// `f` of those items of `s` that `keep` holds of, in order.
pub open spec fn picked<A, B>(s: Seq<A>, keep: spec_fn(A) -> bool, f: spec_fn(A) -> B) -> Seq<B>
    decreases s.len(),
{
    if s.len() == 0 {
        Seq::empty()
    } else if keep(s.last()) {
        picked(s.drop_last(), keep, f).push(f(s.last()))
    } else {
        picked(s.drop_last(), keep, f)
    }
}

/// `n` where the condition holds, otherwise nothing.
pub open spec fn counted(condition: bool, n: int) -> int {
    if condition {
        n
    } else {
        0
    }
}

pub proof fn lemma_total_step<A>(s: Seq<A>, f: spec_fn(A) -> int, i: int)
    requires
        0 <= i < s.len(),
    ensures
        total(s.take(i + 1), f) == total(s.take(i), f) + f(s[i]),
{
    assert(s.take(i + 1).drop_last() =~= s.take(i));
}

pub proof fn lemma_picked_step<A, B>(
    s: Seq<A>,
    keep: spec_fn(A) -> bool,
    f: spec_fn(A) -> B,
    i: int,
)
    requires
        0 <= i < s.len(),
    ensures
        picked(s.take(i + 1), keep, f) == if keep(s[i]) {
            picked(s.take(i), keep, f).push(f(s[i]))
        } else {
            picked(s.take(i), keep, f)
        },
{
    assert(s.take(i + 1).drop_last() =~= s.take(i));
}

/// A sum of parts of non-negative terms, over part of a list, lies between zero
/// and the whole sum.
pub proof fn lemma_total_within<A>(s: Seq<A>, f: spec_fn(A) -> int, g: spec_fn(A) -> int, i: int)
    requires
        0 <= i <= s.len(),
        forall|k: int| 0 <= k < s.len() ==> 0 <= f(#[trigger] s[k]) <= g(s[k]),
    ensures
        0 <= total(s.take(i), f) <= total(s, g),
    decreases s.len(),
{
    if s.len() > 0 {
        let front = s.drop_last();
        assert forall|k: int| 0 <= k < front.len() implies 0 <= f(#[trigger] front[k]) <= g(front[k]) by {
            assert(front[k] == s[k]);
        }
        assert(0 <= f(s[s.len() - 1]) <= g(s[s.len() - 1]));
        if i < s.len() {
            lemma_total_within(front, f, g, i);
            assert(front.take(i) =~= s.take(i));
        } else {
            lemma_total_within(front, f, g, i - 1);
            assert(front.take(i - 1) =~= front);
            assert(s.take(i) =~= s);
        }
    }
}

/// A sum of sums, term by term.
pub proof fn lemma_total_plus<A>(
    s: Seq<A>,
    f: spec_fn(A) -> int,
    g: spec_fn(A) -> int,
    h: spec_fn(A) -> int,
)
    requires
        forall|i: int| 0 <= i < s.len() ==> h(#[trigger] s[i]) == f(s[i]) + g(s[i]),
    ensures
        total(s, h) == total(s, f) + total(s, g),
    decreases s.len(),
{
    if s.len() > 0 {
        let front = s.drop_last();
        assert forall|i: int| 0 <= i < front.len() implies h(#[trigger] front[i]) == f(front[i]) + g(
            front[i],
        ) by {
            assert(front[i] == s[i]);
        }
        lemma_total_plus(front, f, g, h);
        assert(h(s[s.len() - 1]) == f(s[s.len() - 1]) + g(s[s.len() - 1]));
    }
}

/// Nothing adds up to nothing.
pub proof fn lemma_total_zero<A>(s: Seq<A>, f: spec_fn(A) -> int)
    requires
        forall|i: int| 0 <= i < s.len() ==> f(#[trigger] s[i]) == 0,
    ensures
        total(s, f) == 0,
    decreases s.len(),
{
    if s.len() > 0 {
        let front = s.drop_last();
        assert forall|i: int| 0 <= i < front.len() implies f(#[trigger] front[i]) == 0 by {
            assert(front[i] == s[i]);
        }
        lemma_total_zero(front, f);
        assert(f(s[s.len() - 1]) == 0);
    }
}

/// What one item counts for under each label.
pub open spec fn share(label: Seq<char>, n: int) -> spec_fn(Seq<char>) -> int {
    |l: Seq<char>| counted(label == l, n)
}

/// What one of several distinct labels counts for is counted once.
pub proof fn lemma_total_one_label(labels: Seq<Seq<char>>, label: Seq<char>, n: int)
    requires
        labels.no_duplicates(),
    ensures
        total(labels, share(label, n)) == counted(labels.contains(label), n),
    decreases labels.len(),
{
    if labels.len() > 0 {
        let front = labels.drop_last();
        assert(front.no_duplicates()) by {
            assert forall|i: int, j: int| 0 <= i < front.len() && 0 <= j < front.len() && i != j implies front[i]
                != front[j] by {
                assert(labels[i] != labels[j]);
            }
        }
        lemma_total_one_label(front, label, n);
        if labels.last() == label {
            assert(!front.contains(label)) by {
                if front.contains(label) {
                    let i = choose|i: int| 0 <= i < front.len() && front[i] == label;
                    assert(labels[i] == labels[labels.len() - 1]);
                }
            }
            assert(labels.contains(label)) by {
                assert(labels[labels.len() - 1] == label);
            }
        } else {
            if labels.contains(label) {
                let i = choose|i: int| 0 <= i < labels.len() && labels[i] == label;
                assert(front[i] == label);
            }
            if front.contains(label) {
                let i = choose|i: int| 0 <= i < front.len() && front[i] == label;
                assert(labels[i] == label);
            }
        }
    }
}

/// The sum of `f` over the items under one label.
pub open spec fn labelled_total<A>(
    s: Seq<A>,
    label_of: spec_fn(A) -> Seq<char>,
    f: spec_fn(A) -> int,
    label: Seq<char>,
) -> int
    decreases s.len(),
{
    if s.len() == 0 {
        0
    } else {
        labelled_total(s.drop_last(), label_of, f, label) + counted(
            label_of(s.last()) == label,
            f(s.last()),
        )
    }
}

pub proof fn lemma_labelled_step<A>(
    s: Seq<A>,
    label_of: spec_fn(A) -> Seq<char>,
    f: spec_fn(A) -> int,
    label: Seq<char>,
    i: int,
)
    requires
        0 <= i < s.len(),
    ensures
        labelled_total(s.take(i + 1), label_of, f, label) == labelled_total(
            s.take(i),
            label_of,
            f,
            label,
        ) + counted(label_of(s[i]) == label, f(s[i])),
{
    assert(s.take(i + 1).drop_last() =~= s.take(i));
}

/// The share of one label, over part of a list of non-negative terms, lies
/// between zero and the whole sum.
pub proof fn lemma_labelled_within<A>(
    s: Seq<A>,
    label_of: spec_fn(A) -> Seq<char>,
    f: spec_fn(A) -> int,
    label: Seq<char>,
    i: int,
)
    requires
        0 <= i <= s.len(),
        forall|k: int| 0 <= k < s.len() ==> 0 <= f(#[trigger] s[k]),
    ensures
        0 <= labelled_total(s.take(i), label_of, f, label) <= total(s, f),
    decreases s.len(),
{
    if s.len() > 0 {
        let front = s.drop_last();
        assert forall|k: int| 0 <= k < front.len() implies 0 <= f(#[trigger] front[k]) by {
            assert(front[k] == s[k]);
        }
        assert(0 <= f(s[s.len() - 1]));
        if i < s.len() {
            lemma_labelled_within(front, label_of, f, label, i);
            assert(front.take(i) =~= s.take(i));
        } else {
            lemma_labelled_within(front, label_of, f, label, i - 1);
            assert(front.take(i - 1) =~= front);
            assert(s.take(i) =~= s);
        }
    }
}

/// The share of one label, over part of a list of 64-bit terms, is bounded by the
/// number of terms.
pub proof fn lemma_labelled_bounded<A>(
    s: Seq<A>,
    label_of: spec_fn(A) -> Seq<char>,
    f: spec_fn(A) -> int,
    label: Seq<char>,
    i: int,
)
    requires
        0 <= i <= s.len(),
        forall|k: int| 0 <= k < s.len() ==> i64::MIN <= f(#[trigger] s[k]) <= i64::MAX,
    ensures
        -0x8000_0000_0000_0000 * i <= labelled_total(s.take(i), label_of, f, label)
            <= 0x8000_0000_0000_0000 * i,
    decreases i,
{
    if i > 0 {
        lemma_labelled_bounded(s, label_of, f, label, i - 1);
        lemma_labelled_step(s, label_of, f, label, i - 1);
        assert(i64::MIN <= f(s[i - 1]) <= i64::MAX);
    }
}

/// The sum of part of a list of 64-bit terms is bounded by the number of terms.
pub proof fn lemma_total_bounded<A>(s: Seq<A>, f: spec_fn(A) -> int, i: int)
    requires
        0 <= i <= s.len(),
        forall|k: int| 0 <= k < s.len() ==> i64::MIN <= f(#[trigger] s[k]) <= i64::MAX,
    ensures
        -0x8000_0000_0000_0000 * i <= total(s.take(i), f) <= 0x8000_0000_0000_0000 * i,
    decreases i,
{
    if i > 0 {
        lemma_total_bounded(s, f, i - 1);
        lemma_total_step(s, f, i - 1);
        assert(i64::MIN <= f(s[i - 1]) <= i64::MAX);
    }
}

/// A share of sums, term by term.
pub proof fn lemma_labelled_plus<A>(
    s: Seq<A>,
    label_of: spec_fn(A) -> Seq<char>,
    f: spec_fn(A) -> int,
    g: spec_fn(A) -> int,
    h: spec_fn(A) -> int,
    label: Seq<char>,
)
    requires
        forall|i: int| 0 <= i < s.len() ==> h(#[trigger] s[i]) == f(s[i]) + g(s[i]),
    ensures
        labelled_total(s, label_of, h, label) == labelled_total(s, label_of, f, label)
            + labelled_total(s, label_of, g, label),
    decreases s.len(),
{
    if s.len() > 0 {
        let front = s.drop_last();
        assert forall|i: int| 0 <= i < front.len() implies h(#[trigger] front[i]) == f(front[i]) + g(
            front[i],
        ) by {
            assert(front[i] == s[i]);
        }
        lemma_labelled_plus(front, label_of, f, g, h, label);
        assert(h(s[s.len() - 1]) == f(s[s.len() - 1]) + g(s[s.len() - 1]));
    }
}

/// A label that nothing carries has no share.
pub proof fn lemma_labelled_absent<A>(
    s: Seq<A>,
    label_of: spec_fn(A) -> Seq<char>,
    f: spec_fn(A) -> int,
    label: Seq<char>,
)
    requires
        forall|i: int| 0 <= i < s.len() ==> label_of(#[trigger] s[i]) != label,
    ensures
        labelled_total(s, label_of, f, label) == 0,
    decreases s.len(),
{
    if s.len() > 0 {
        let front = s.drop_last();
        assert forall|i: int| 0 <= i < front.len() implies label_of(#[trigger] front[i]) != label by {
            assert(front[i] == s[i]);
        }
        lemma_labelled_absent(front, label_of, f, label);
        assert(label_of(s[s.len() - 1]) != label);
    }
}

/// Equal terms make equal sums, whatever they are terms of.
pub proof fn lemma_total_alike<A, B>(
    s: Seq<A>,
    f: spec_fn(A) -> int,
    t: Seq<B>,
    g: spec_fn(B) -> int,
)
    requires
        s.len() == t.len(),
        forall|i: int| 0 <= i < s.len() ==> f(#[trigger] s[i]) == g(t[i]),
    ensures
        total(s, f) == total(t, g),
    decreases s.len(),
{
    if s.len() > 0 {
        let a = s.drop_last();
        let b = t.drop_last();
        assert forall|i: int| 0 <= i < a.len() implies f(#[trigger] a[i]) == g(b[i]) by {
            assert(a[i] == s[i] && b[i] == t[i]);
        }
        lemma_total_alike(a, f, b, g);
        assert(f(s[s.len() - 1]) == g(t[t.len() - 1]));
    }
}

/// The column of sums per label.
pub open spec fn column<A>(
    s: Seq<A>,
    label_of: spec_fn(A) -> Seq<char>,
    f: spec_fn(A) -> int,
) -> spec_fn(Seq<char>) -> int {
    |label: Seq<char>| labelled_total(s, label_of, f, label)
}

/// Sorting items under distinct labels loses none of them and counts none
/// twice: the sums per label add up to the whole.
pub proof fn lemma_partition<A>(
    s: Seq<A>,
    labels: Seq<Seq<char>>,
    label_of: spec_fn(A) -> Seq<char>,
    f: spec_fn(A) -> int,
)
    requires
        labels.no_duplicates(),
        forall|i: int| 0 <= i < s.len() ==> labels.contains(label_of(#[trigger] s[i])),
    ensures
        total(labels, column(s, label_of, f)) == total(s, f),
    decreases s.len(),
{
    let whole = column(s, label_of, f);
    if s.len() == 0 {
        lemma_total_zero(labels, whole);
    } else {
        let front = s.drop_last();
        let last = s.last();
        assert forall|i: int| 0 <= i < front.len() implies labels.contains(
            label_of(#[trigger] front[i]),
        ) by {
            assert(front[i] == s[i]);
        }
        lemma_partition(front, labels, label_of, f);
        lemma_total_plus(
            labels,
            column(front, label_of, f),
            share(label_of(last), f(last)),
            whole,
        );
        lemma_total_one_label(labels, label_of(last), f(last));
        assert(labels.contains(label_of(s[s.len() - 1])));
    }
}

/// A selection is no longer than the list it is made from.
pub proof fn lemma_picked_len<A, B>(s: Seq<A>, keep: spec_fn(A) -> bool, f: spec_fn(A) -> B)
    ensures
        picked(s, keep, f).len() <= s.len(),
    decreases s.len(),
{
    if s.len() > 0 {
        lemma_picked_len(s.drop_last(), keep, f);
    }
}

/// Whether `r` holds `f` of exactly those items of `s` that `keep` holds of, in the
/// order of `s`: there are places in `s`, one after the other, none of them left out,
/// and the term at each is that of its item.
pub open spec fn selects<A, B>(
    r: Seq<B>,
    s: Seq<A>,
    keep: spec_fn(A) -> bool,
    f: spec_fn(A) -> B,
) -> bool {
    exists|places: Seq<int>| #[trigger] selects_at(r, s, keep, f, places)
}

pub open spec fn selects_at<A, B>(
    r: Seq<B>,
    s: Seq<A>,
    keep: spec_fn(A) -> bool,
    f: spec_fn(A) -> B,
    places: Seq<int>,
) -> bool {
    &&& r.len() == places.len()
    &&& forall|k: int|
        0 <= k < places.len() ==> 0 <= #[trigger] places[k] < s.len() && keep(s[places[k]]) && r[k]
            == f(s[places[k]])
    &&& forall|j: int, k: int|
        0 <= j < k < places.len() ==> #[trigger] places[j] < #[trigger] places[k]
    &&& forall|i: int| 0 <= i < s.len() && keep(s[i]) ==> #[trigger] places.contains(i)
}

/// A selection is one, under any other words for what is kept and for its terms.
pub proof fn lemma_picked_selects<A, B>(
    s: Seq<A>,
    keep: spec_fn(A) -> bool,
    f: spec_fn(A) -> B,
    keep_too: spec_fn(A) -> bool,
    f_too: spec_fn(A) -> B,
)
    requires
        forall|i: int|
            0 <= i < s.len() ==> keep(#[trigger] s[i]) == keep_too(s[i]) && (keep(s[i]) ==> f(s[i])
                == f_too(s[i])),
    ensures
        selects(picked(s, keep, f), s, keep_too, f_too),
{
    let places = lemma_picked_places(s, keep, f);
    assert(selects_at(picked(s, keep, f), s, keep_too, f_too, places));
}

proof fn lemma_picked_places<A, B>(s: Seq<A>, keep: spec_fn(A) -> bool, f: spec_fn(A) -> B) -> (r:
    Seq<int>)
    ensures
        selects_at(picked(s, keep, f), s, keep, f, r),
    decreases s.len(),
{
    if s.len() == 0 {
        Seq::empty()
    } else {
        let front = s.drop_last();
        let rest = lemma_picked_places(front, keep, f);
        let n = s.len() - 1;
        assert(forall|i: int| 0 <= i < n ==> #[trigger] front[i] == s[i]);
        let r = if keep(s.last()) {
            rest.push(n)
        } else {
            rest
        };
        assert forall|i: int| 0 <= i < s.len() && keep(s[i]) implies #[trigger] r.contains(i) by {
            if i < n {
                assert(keep(front[i]));
                assert(rest.contains(i));
                let k = choose|k: int| 0 <= k < rest.len() && rest[k] == i;
                assert(r[k] == i);
            } else {
                assert(r[rest.len() as int] == i);
            }
        }
        assert(selects_at(picked(s, keep, f), s, keep, f, r));
        r
    }
}

/// The sum under one label is a sum over all items, of which those under other
/// labels count for nothing.
pub proof fn lemma_labelled_is_total<A>(
    s: Seq<A>,
    label_of: spec_fn(A) -> Seq<char>,
    f: spec_fn(A) -> int,
    label: Seq<char>,
    g: spec_fn(A) -> int,
)
    requires
        forall|i: int|
            0 <= i < s.len() ==> g(#[trigger] s[i]) == (if label_of(s[i]) == label {
                f(s[i])
            } else {
                0
            }),
    ensures
        labelled_total(s, label_of, f, label) == total(s, g),
    decreases s.len(),
{
    if s.len() > 0 {
        let front = s.drop_last();
        assert forall|i: int| 0 <= i < front.len() implies g(#[trigger] front[i]) == (if label_of(
            front[i],
        ) == label {
            f(front[i])
        } else {
            0
        }) by {
            assert(front[i] == s[i]);
        }
        lemma_labelled_is_total(front, label_of, f, label, g);
        assert(s[s.len() - 1] == s.last());
    }
}

/// Nothing adds up to zero, one item to its own term, and the sum over two lists, one
/// behind the other, is the sum of their sums.
pub proof fn sums_add_up<A>(s: Seq<A>, t: Seq<A>, f: spec_fn(A) -> int, x: A)
    ensures
        total(Seq::<A>::empty(), f) == 0,
        total(seq![x], f) == f(x),
        total(s + t, f) == total(s, f) + total(t, f),
    decreases t.len(),
{
    assert(seq![x].drop_last() =~= Seq::<A>::empty());
    assert(total(seq![x].drop_last(), f) == 0);
    if t.len() == 0 {
        assert(s + t =~= s);
    } else {
        sums_add_up(s, t.drop_last(), f, x);
        assert((s + t).drop_last() =~= s + t.drop_last());
    }
}

/// A list without items adds nothing to another.
pub proof fn lemma_nothing_added<A>(e: Seq<A>, s: Seq<A>)
    requires
        e.len() == 0,
    ensures
        e + s == s,
        s + e == s,
{
    assert(e + s =~= s);
    assert(s + e =~= s);
}

/// Lists are put together one by one or all at once.
pub proof fn lemma_added_in_turn<A>(a: Seq<A>, b: Seq<A>, c: Seq<A>)
    ensures
        (a + b) + c == a + (b + c),
{
    assert((a + b) + c =~= a + (b + c));
}

} // verus!
