//! Orders of names, and sorting by them.
use vstd::prelude::*;
use vstd::relations::{sorted_by, total_ordering};

use crate::text::{ascii_lower, chars_of, join3, to_ascii_lower, views};

verus! {

/// Whether `a` comes before `b`, or equals it, byte by byte.
pub open spec fn bytes_le(a: Seq<u8>, b: Seq<u8>) -> bool
    decreases a.len(),
{
    if a.len() == 0 {
        true
    } else if b.len() == 0 {
        false
    } else if a[0] != b[0] {
        a[0] < b[0]
    } else {
        bytes_le(a.drop_first(), b.drop_first())
    }
}

/// The order of names as a relation.
pub open spec fn name_order() -> spec_fn(Seq<u8>, Seq<u8>) -> bool {
    |a: Seq<u8>, b: Seq<u8>| bytes_le(a, b)
}

proof fn lemma_bytes_le_reflexive(a: Seq<u8>)
    ensures
        bytes_le(a, a),
    decreases a.len(),
{
    if a.len() > 0 {
        lemma_bytes_le_reflexive(a.drop_first());
    }
}

proof fn lemma_bytes_le_total(a: Seq<u8>, b: Seq<u8>)
    ensures
        bytes_le(a, b) || bytes_le(b, a),
    decreases a.len(),
{
    if a.len() > 0 && b.len() > 0 && a[0] == b[0] {
        lemma_bytes_le_total(a.drop_first(), b.drop_first());
    }
}

proof fn lemma_bytes_le_antisymmetric(a: Seq<u8>, b: Seq<u8>)
    requires
        bytes_le(a, b),
        bytes_le(b, a),
    ensures
        a == b,
    decreases a.len(),
{
    if a.len() > 0 && b.len() > 0 {
        lemma_bytes_le_antisymmetric(a.drop_first(), b.drop_first());
        assert(a =~= seq![a[0]] + a.drop_first());
        assert(b =~= seq![b[0]] + b.drop_first());
    } else {
        assert(a =~= b);
    }
}

proof fn lemma_bytes_le_transitive(a: Seq<u8>, b: Seq<u8>, c: Seq<u8>)
    requires
        bytes_le(a, b),
        bytes_le(b, c),
    ensures
        bytes_le(a, c),
    decreases a.len(),
{
    if a.len() > 0 && b.len() > 0 && c.len() > 0 && a[0] == b[0] && b[0] == c[0] {
        lemma_bytes_le_transitive(a.drop_first(), b.drop_first(), c.drop_first());
    }
}

/// Names are totally ordered.
pub proof fn lemma_name_order_is_total()
    ensures
        total_ordering(name_order()),
{
    let r = name_order();
    assert forall|a: Seq<u8>| #[trigger] r(a, a) by {
        lemma_bytes_le_reflexive(a);
    }
    assert forall|a: Seq<u8>, b: Seq<u8>| #[trigger] r(a, b) && #[trigger] r(b, a) implies a
        == b by {
        lemma_bytes_le_antisymmetric(a, b);
    }
    assert forall|a: Seq<u8>, b: Seq<u8>, c: Seq<u8>| #[trigger]
        r(a, b) && #[trigger] r(b, c) implies r(a, c) by {
        lemma_bytes_le_transitive(a, b, c);
    }
    assert forall|a: Seq<u8>, b: Seq<u8>| #[trigger] r(a, b) || #[trigger] r(b, a) by {
        lemma_bytes_le_total(a, b);
    }
}

/// The names as sequences.
pub open spec fn name_views(v: Seq<Vec<u8>>) -> Seq<Seq<u8>> {
    Seq::new(v.len(), |i: int| v[i]@)
}

/// Whether `a` comes before `b`, or equals it.
pub fn name_le(a: &Vec<u8>, b: &Vec<u8>) -> (r: bool)
    ensures
        r == bytes_le(a@, b@),
{
    let mut i: usize = 0;
    assert(a@.subrange(0, a@.len() as int) =~= a@);
    assert(b@.subrange(0, b@.len() as int) =~= b@);
    while i < a.len()
        invariant
            i <= a@.len(),
            i <= b@.len(),
            bytes_le(a@, b@) == bytes_le(
                a@.subrange(i as int, a@.len() as int),
                b@.subrange(i as int, b@.len() as int),
            ),
        decreases a@.len() - i,
    {
        if i >= b.len() {
            return false;
        }
        if a[i] != b[i] {
            return a[i] < b[i];
        }
        assert(a@.subrange(i as int, a@.len() as int).drop_first() =~= a@.subrange(
            i + 1,
            a@.len() as int,
        ));
        assert(b@.subrange(i as int, b@.len() as int).drop_first() =~= b@.subrange(
            i + 1,
            b@.len() as int,
        ));
        i = i + 1;
    }
    true
}

fn merge(a: &Vec<Vec<u8>>, b: &Vec<Vec<u8>>) -> (r: Vec<Vec<u8>>)
    requires
        sorted_by(name_views(a@), name_order()),
        sorted_by(name_views(b@), name_order()),
    ensures
        sorted_by(name_views(r@), name_order()),
        name_views(r@).to_multiset() == name_views(a@).to_multiset().add(
            name_views(b@).to_multiset(),
        ),
{
    broadcast use vstd::seq_lib::group_to_multiset_ensures;
    broadcast use vstd::multiset::group_multiset_axioms;

    let ghost x = name_views(a@);
    let ghost y = name_views(b@);
    let ghost leq = name_order();
    proof {
        lemma_name_order_is_total();
    }
    let mut r: Vec<Vec<u8>> = Vec::new();
    let mut i: usize = 0;
    let mut j: usize = 0;
    assert(name_views(r@) =~= Seq::<Seq<u8>>::empty());
    assert(x.subrange(0, 0) =~= Seq::<Seq<u8>>::empty());
    assert(y.subrange(0, 0) =~= Seq::<Seq<u8>>::empty());
    assert(name_views(r@).to_multiset() =~= x.subrange(0, 0).to_multiset().add(
        y.subrange(0, 0).to_multiset(),
    ));
    while i < a.len() || j < b.len()
        invariant
            i <= a@.len(),
            j <= b@.len(),
            x == name_views(a@),
            y == name_views(b@),
            leq == name_order(),
            total_ordering(leq),
            sorted_by(x, leq),
            sorted_by(y, leq),
            sorted_by(name_views(r@), leq),
            forall|k: int, l: int|
                0 <= k < r@.len() && i <= l < x.len() ==> #[trigger] leq(
                    name_views(r@)[k],
                    x[l],
                ),
            forall|k: int, l: int|
                0 <= k < r@.len() && j <= l < y.len() ==> #[trigger] leq(
                    name_views(r@)[k],
                    y[l],
                ),
            name_views(r@).to_multiset() == x.subrange(0, i as int).to_multiset().add(
                y.subrange(0, j as int).to_multiset(),
            ),
        decreases a@.len() - i + b@.len() - j,
    {
        let take_first = if i >= a.len() {
            false
        } else if j >= b.len() {
            true
        } else {
            name_le(&a[i], &b[j])
        };
        let ghost before = name_views(r@);
        if take_first {
            let name = a[i].clone();
            assert(name@ == x[i as int]);
            r.push(name);
            proof {
                broadcast use vstd::seq_lib::group_to_multiset_ensures;
                broadcast use vstd::multiset::group_multiset_axioms;

                assert(name_views(r@) =~= before.push(x[i as int]));
                assert(x.subrange(0, i + 1) =~= x.subrange(0, i as int).push(x[i as int]));
                assert(name_views(r@).to_multiset() =~= x.subrange(0, i + 1).to_multiset().add(
                    y.subrange(0, j as int).to_multiset(),
                ));
                assert forall|l: int| j <= l < y.len() implies #[trigger] leq(x[i as int], y[l]) by {
                    if l > j {
                        assert(leq(x[i as int], y[j as int]));
                        assert(leq(y[j as int], y[l]));
                    }
                }
            }
            i = i + 1;
        } else {
            let name = b[j].clone();
            assert(name@ == y[j as int]);
            r.push(name);
            proof {
                broadcast use vstd::seq_lib::group_to_multiset_ensures;
                broadcast use vstd::multiset::group_multiset_axioms;

                assert(name_views(r@) =~= before.push(y[j as int]));
                assert(y.subrange(0, j + 1) =~= y.subrange(0, j as int).push(y[j as int]));
                assert(name_views(r@).to_multiset() =~= x.subrange(0, i as int).to_multiset().add(
                    y.subrange(0, j + 1).to_multiset(),
                ));
                assert forall|l: int| i <= l < x.len() implies #[trigger] leq(y[j as int], x[l]) by {
                    assert(leq(y[j as int], x[i as int]) || leq(x[i as int], y[j as int]));
                    if l > i {
                        assert(leq(x[i as int], x[l]));
                    }
                }
            }
            j = j + 1;
        }
    }
    assert(x.subrange(0, x.len() as int) =~= x);
    assert(y.subrange(0, y.len() as int) =~= y);
    r
}

fn sort_range(names: &Vec<Vec<u8>>, from: usize, to: usize) -> (r: Vec<Vec<u8>>)
    requires
        from <= to <= names@.len(),
    ensures
        sorted_by(name_views(r@), name_order()),
        name_views(r@).to_multiset() == name_views(names@).subrange(
            from as int,
            to as int,
        ).to_multiset(),
    decreases to - from,
{
    let ghost all = name_views(names@);
    if to - from == 0 {
        let r: Vec<Vec<u8>> = Vec::new();
        assert(name_views(r@) =~= all.subrange(from as int, to as int));
        r
    } else if to - from == 1 {
        let mut r: Vec<Vec<u8>> = Vec::new();
        let name = names[from].clone();
        r.push(name);
        assert(name_views(r@) =~= all.subrange(from as int, to as int));
        r
    } else {
        let middle: usize = from + (to - from) / 2;
        let left = sort_range(names, from, middle);
        let right = sort_range(names, middle, to);
        proof {
            let a = all.subrange(from as int, middle as int);
            let b = all.subrange(middle as int, to as int);
            assert(all.subrange(from as int, to as int) =~= a + b);
            vstd::seq_lib::lemma_multiset_commutative(a, b);
        }
        merge(&left, &right)
    }
}

/// The names in their order.
pub open spec fn sorted_names(names: Seq<Seq<u8>>) -> Seq<Seq<u8>> {
    names.sort_by(name_order())
}

/// Puts names into their order.
pub fn sort_names(names: &Vec<Vec<u8>>) -> (r: Vec<Vec<u8>>)
    ensures
        name_views(r@) == sorted_names(name_views(names@)),
        r@.len() == names@.len(),
{
    let r = sort_range(names, 0, names.len());
    proof {
        broadcast use vstd::seq_lib::group_to_multiset_ensures;

        let all = name_views(names@);
        assert(all.subrange(0, all.len() as int) =~= all);
        lemma_name_order_is_total();
        all.lemma_sort_by_ensures(name_order());
        vstd::seq_lib::lemma_sorted_unique(
            name_views(r@),
            all.sort_by(name_order()),
            name_order(),
        );
        assert(name_views(r@).to_multiset().len() == all.to_multiset().len());
        assert(name_views(r@).len() == all.len());
    }
    r
}

/// Whether text `a` comes before text `b`, or equals it, by code points.
pub open spec fn text_le(a: Seq<char>, b: Seq<char>) -> bool
    decreases a.len(),
{
    if a.len() == 0 {
        true
    } else if b.len() == 0 {
        false
    } else if a[0] != b[0] {
        a[0] < b[0]
    } else {
        text_le(a.drop_first(), b.drop_first())
    }
}

/// Whether text `a` comes before text `b`, or equals it.
pub fn text_precedes(a: &str, b: &str) -> (r: bool)
    ensures
        r == text_le(a@, b@),
{
    let x = chars_of(a);
    let y = chars_of(b);
    let mut i: usize = 0;
    assert(x@.subrange(0, x@.len() as int) =~= x@);
    assert(y@.subrange(0, y@.len() as int) =~= y@);
    while i < x.len()
        invariant
            x@ == a@,
            y@ == b@,
            i <= x@.len(),
            i <= y@.len(),
            text_le(x@, y@) == text_le(
                x@.subrange(i as int, x@.len() as int),
                y@.subrange(i as int, y@.len() as int),
            ),
        decreases x@.len() - i,
    {
        if i >= y.len() {
            return false;
        }
        if x[i] != y[i] {
            return x[i] < y[i];
        }
        assert(x@.subrange(i as int, x@.len() as int).drop_first() =~= x@.subrange(
            i + 1,
            x@.len() as int,
        ));
        assert(y@.subrange(i as int, y@.len() as int).drop_first() =~= y@.subrange(
            i + 1,
            y@.len() as int,
        ));
        i = i + 1;
    }
    true
}

/// What a text is sorted by: itself, or itself in lower case.
pub open spec fn sort_key(s: Seq<char>, fold: bool) -> Seq<char> {
    if fold {
        ascii_lower(s)
    } else {
        s
    }
}

/// `sorted` with `s` behind the last text that does not come after it.
pub open spec fn inserted(sorted: Seq<Seq<char>>, s: Seq<char>, fold: bool) -> Seq<Seq<char>>
    decreases sorted.len(),
{
    if sorted.len() == 0 || text_le(sort_key(sorted.last(), fold), sort_key(s, fold)) {
        sorted.push(s)
    } else {
        inserted(sorted.drop_last(), s, fold).push(sorted.last())
    }
}

/// The texts in order; equal ones keep the order in which they came.
pub open spec fn sorted_texts(texts: Seq<Seq<char>>, fold: bool) -> Seq<Seq<char>>
    decreases texts.len(),
{
    if texts.len() == 0 {
        texts
    } else {
        inserted(sorted_texts(texts.drop_last(), fold), texts.last(), fold)
    }
}

proof fn lemma_inserted_at(sorted: Seq<Seq<char>>, s: Seq<char>, fold: bool, at: int)
    requires
        0 <= at <= sorted.len(),
        at > 0 ==> text_le(sort_key(sorted[at - 1], fold), sort_key(s, fold)),
        forall|k: int|
            at <= k < sorted.len() ==> !text_le(
                sort_key(#[trigger] sorted[k], fold),
                sort_key(s, fold),
            ),
    ensures
        inserted(sorted, s, fold) == sorted.insert(at, s),
    decreases sorted.len(),
{
    if at == sorted.len() {
        assert(sorted.insert(at, s) =~= sorted.push(s));
    } else {
        let head = sorted.drop_last();
        assert(!text_le(sort_key(sorted[sorted.len() - 1], fold), sort_key(s, fold)));
        lemma_inserted_at(head, s, fold, at);
        assert(sorted.insert(at, s) =~= head.insert(at, s).push(sorted.last()));
    }
}

fn key_precedes(a: &str, b: &str, fold: bool) -> (r: bool)
    ensures
        r == text_le(sort_key(a@, fold), sort_key(b@, fold)),
{
    if fold {
        text_precedes(to_ascii_lower(a).as_str(), to_ascii_lower(b).as_str())
    } else {
        text_precedes(a, b)
    }
}

/// Puts texts into their order; with `fold` the case of ASCII letters does not count.
pub fn sort_texts(texts: Vec<String>, fold: bool) -> (r: Vec<String>)
    ensures
        views(r@) == sorted_texts(views(texts@), fold),
{
    let ghost all = views(texts@);
    let mut sorted: Vec<String> = Vec::new();
    let mut i: usize = 0;
    assert(views(sorted@) =~= all.subrange(0, 0));
    while i < texts.len()
        invariant
            i <= texts@.len(),
            all == views(texts@),
            views(sorted@) == sorted_texts(all.subrange(0, i as int), fold),
        decreases texts@.len() - i,
    {
        let text = texts[i].clone();
        let ghost before = views(sorted@);
        assert(text@ == all[i as int]);
        let mut at: usize = sorted.len();
        while at > 0 && !key_precedes(sorted[at - 1].as_str(), text.as_str(), fold)
            invariant
                at <= sorted@.len(),
                before == views(sorted@),
                forall|k: int|
                    at <= k < sorted@.len() ==> !text_le(
                        sort_key(#[trigger] before[k], fold),
                        sort_key(text@, fold),
                    ),
            decreases at,
        {
            assert(before[at - 1] == sorted@[at - 1]@);
            at = at - 1;
        }
        proof {
            if at > 0 {
                assert(before[at - 1] == sorted@[at - 1]@);
            }
            lemma_inserted_at(before, text@, fold, at as int);
            let now = all.subrange(0, i + 1);
            assert(now.drop_last() =~= all.subrange(0, i as int));
        }
        sorted.insert(at, text);
        assert(views(sorted@) =~= before.insert(at as int, text@));
        i = i + 1;
    }
    assert(all.subrange(0, i as int) =~= all);
    sorted
}

/// Sorting keeps every text.
pub proof fn lemma_sorting_keeps_texts(texts: Seq<Seq<char>>, fold: bool)
    ensures
        sorted_texts(texts, fold).to_multiset() == texts.to_multiset(),
    decreases texts.len(),
{
    broadcast use vstd::seq_lib::group_to_multiset_ensures;
    broadcast use vstd::multiset::group_multiset_axioms;

    if texts.len() > 0 {
        lemma_sorting_keeps_texts(texts.drop_last(), fold);
        lemma_inserting_keeps_texts(
            sorted_texts(texts.drop_last(), fold),
            texts.last(),
            fold,
        );
        assert(texts.drop_last().push(texts.last()) =~= texts);
    }
}

/// Sorting keeps the number of texts.
pub proof fn lemma_sorting_keeps_length(texts: Seq<Seq<char>>, fold: bool)
    ensures
        sorted_texts(texts, fold).len() == texts.len(),
{
    broadcast use vstd::seq_lib::group_to_multiset_ensures;

    lemma_sorting_keeps_texts(texts, fold);
    assert(sorted_texts(texts, fold).to_multiset().len() == texts.to_multiset().len());
}

proof fn lemma_inserting_keeps_texts(sorted: Seq<Seq<char>>, s: Seq<char>, fold: bool)
    ensures
        inserted(sorted, s, fold).to_multiset() == sorted.to_multiset().insert(s),
    decreases sorted.len(),
{
    broadcast use vstd::seq_lib::group_to_multiset_ensures;
    broadcast use vstd::multiset::group_multiset_axioms;

    if !(sorted.len() == 0 || text_le(sort_key(sorted.last(), fold), sort_key(s, fold))) {
        lemma_inserting_keeps_texts(sorted.drop_last(), s, fold);
        assert(sorted.drop_last().push(sorted.last()) =~= sorted);
        assert(inserted(sorted, s, fold).to_multiset() =~= sorted.to_multiset().insert(s));
    }
}

proof fn lemma_text_le_total(a: Seq<char>, b: Seq<char>)
    ensures
        text_le(a, b) || text_le(b, a),
    decreases a.len(),
{
    if a.len() > 0 && b.len() > 0 && a[0] == b[0] {
        lemma_text_le_total(a.drop_first(), b.drop_first());
    }
}

proof fn lemma_text_le_transitive(a: Seq<char>, b: Seq<char>, c: Seq<char>)
    requires
        text_le(a, b),
        text_le(b, c),
    ensures
        text_le(a, c),
    decreases a.len(),
{
    if a.len() > 0 && b.len() > 0 && c.len() > 0 && a[0] == b[0] && b[0] == c[0] {
        lemma_text_le_transitive(a.drop_first(), b.drop_first(), c.drop_first());
    }
}

/// Whether the texts are in order.
pub open spec fn in_order(texts: Seq<Seq<char>>, fold: bool) -> bool {
    forall|i: int, j: int|
        #![trigger texts[i], texts[j]]
        0 <= i < j < texts.len() ==> text_le(sort_key(texts[i], fold), sort_key(texts[j], fold))
}

proof fn lemma_inserted_in_order(sorted: Seq<Seq<char>>, s: Seq<char>, fold: bool)
    requires
        in_order(sorted, fold),
    ensures
        in_order(inserted(sorted, s, fold), fold),
        forall|k: int|
            #![trigger inserted(sorted, s, fold)[k]]
            0 <= k < inserted(sorted, s, fold).len() ==> inserted(sorted, s, fold)[k] == s
                || sorted.contains(inserted(sorted, s, fold)[k]),
    decreases sorted.len(),
{
    let r = inserted(sorted, s, fold);
    if sorted.len() == 0 || text_le(sort_key(sorted.last(), fold), sort_key(s, fold)) {
        assert forall|i: int, j: int|
            #![trigger r[i], r[j]]
            0 <= i < j < r.len() implies text_le(sort_key(r[i], fold), sort_key(r[j], fold)) by {
            if j == sorted.len() && i < sorted.len() - 1 {
                assert(text_le(sort_key(sorted[i], fold), sort_key(sorted[sorted.len() - 1], fold)));
                lemma_text_le_transitive(
                    sort_key(sorted[i], fold),
                    sort_key(sorted.last(), fold),
                    sort_key(s, fold),
                );
            }
        }
        assert forall|k: int| #![trigger r[k]] 0 <= k < r.len() implies r[k] == s
            || sorted.contains(r[k]) by {
            if k < sorted.len() {
                assert(sorted[k] == r[k]);
            }
        }
    } else {
        let head = sorted.drop_last();
        let inner = inserted(head, s, fold);
        assert(in_order(head, fold)) by {
            assert forall|i: int, j: int|
                #![trigger head[i], head[j]]
                0 <= i < j < head.len() implies text_le(
                sort_key(head[i], fold),
                sort_key(head[j], fold),
            ) by {
                assert(head[i] == sorted[i] && head[j] == sorted[j]);
            }
        }
        lemma_inserted_in_order(head, s, fold);
        lemma_text_le_total(sort_key(sorted.last(), fold), sort_key(s, fold));
        assert forall|i: int, j: int|
            #![trigger r[i], r[j]]
            0 <= i < j < r.len() implies text_le(sort_key(r[i], fold), sort_key(r[j], fold)) by {
            assert(r[i] == inner[i]);
            if j == inner.len() {
                if inner[i] != s {
                    assert(head.contains(inner[i]));
                    let k = choose|k: int| 0 <= k < head.len() && head[k] == inner[i];
                    assert(sorted[k] == inner[i]);
                    assert(text_le(
                        sort_key(sorted[k], fold),
                        sort_key(sorted[sorted.len() - 1], fold),
                    ));
                }
            } else {
                assert(r[j] == inner[j]);
            }
        }
        assert forall|k: int| #![trigger r[k]] 0 <= k < r.len() implies r[k] == s
            || sorted.contains(r[k]) by {
            if k < inner.len() {
                assert(r[k] == inner[k]);
                if inner[k] != s {
                    assert(head.contains(inner[k]));
                    let m = choose|m: int| 0 <= m < head.len() && head[m] == inner[k];
                    assert(sorted[m] == r[k]);
                }
            } else {
                assert(sorted[sorted.len() - 1] == r[k]);
            }
        }
    }
}

/// Sorted texts are in order.
pub proof fn lemma_sorted_texts_in_order(texts: Seq<Seq<char>>, fold: bool)
    ensures
        in_order(sorted_texts(texts, fold), fold),
    decreases texts.len(),
{
    if texts.len() > 0 {
        lemma_sorted_texts_in_order(texts.drop_last(), fold);
        lemma_inserted_in_order(sorted_texts(texts.drop_last(), fold), texts.last(), fold);
    }
}

/// The texts with `separator` between them.
pub open spec fn joined(texts: Seq<Seq<char>>, separator: Seq<char>) -> Seq<char>
    decreases texts.len(),
{
    if texts.len() == 0 {
        Seq::empty()
    } else if texts.len() == 1 {
        texts[0]
    } else {
        joined(texts.drop_last(), separator) + separator + texts.last()
    }
}

/// The texts with `separator` between them.
#[must_use]
pub fn join_texts(texts: &Vec<String>, separator: &str) -> (r: String)
    ensures
        r@ == joined(views(texts@), separator@),
{
    let ghost all = views(texts@);
    let mut r = String::new();
    let mut i: usize = 0;
    assert(all.subrange(0, 0) =~= Seq::<Seq<char>>::empty());
    while i < texts.len()
        invariant
            i <= texts@.len(),
            all == views(texts@),
            r@ == joined(all.subrange(0, i as int), separator@),
        decreases texts@.len() - i,
    {
        let ghost now = all.subrange(0, i + 1);
        assert(now.drop_last() =~= all.subrange(0, i as int));
        assert(now.last() == texts@[i as int]@);
        if i == 0 {
            r = texts[i].clone();
        } else {
            r = join3(r.as_str(), separator, texts[i].as_str());
        }
        i = i + 1;
    }
    assert(all.subrange(0, i as int) =~= all);
    r
}

} // verus!
