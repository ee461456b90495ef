//! What the orders of names and texts mean.
use vstd::prelude::*;

use crate::order::{
    bytes_le, joined, lemma_sorted_texts_in_order, lemma_sorting_keeps_texts, name_order,
    sorted_names, sorted_texts, text_le,
};
use crate::text::ascii_lower;

verus! {

/// Whether two byte strings agree up to `t`, and the first goes on with a smaller byte, or
/// ends there.
pub open spec fn less_at(a: Seq<u8>, b: Seq<u8>, t: int) -> bool {
    &&& 0 <= t <= a.len()
    &&& t <= b.len()
    &&& forall|i: int| 0 <= i < t ==> a[i] == b[i]
    &&& t == a.len() || (t < b.len() && a[t] < b[t])
}

/// Names are ordered by the first byte in which they differ, and a name comes before its
/// continuations.
pub proof fn lemma_names_are_ordered_by_bytes(a: Seq<u8>, b: Seq<u8>)
    ensures
        bytes_le(a, b) <==> exists|t: int| #[trigger] less_at(a, b, t),
    decreases a.len(),
{
    if a.len() == 0 {
        assert(less_at(a, b, 0));
    } else if b.len() == 0 {
        assert forall|t: int| !#[trigger] less_at(a, b, t) by {}
    } else if a[0] != b[0] {
        if a[0] < b[0] {
            assert(less_at(a, b, 0));
        } else {
            assert forall|t: int| !#[trigger] less_at(a, b, t) by {}
        }
    } else {
        let x = a.drop_first();
        let y = b.drop_first();
        lemma_names_are_ordered_by_bytes(x, y);
        if exists|t: int| #[trigger] less_at(x, y, t) {
            let t = choose|t: int| #[trigger] less_at(x, y, t);
            assert forall|i: int| 0 <= i < t + 1 implies a[i] == b[i] by {
                if i > 0 {
                    assert(x[i - 1] == y[i - 1]);
                }
            }
            assert(less_at(a, b, t + 1));
        }
        if exists|t: int| #[trigger] less_at(a, b, t) {
            let t = choose|t: int| #[trigger] less_at(a, b, t);
            assert forall|i: int| 0 <= i < t - 1 implies x[i] == y[i] by {
                assert(a[i + 1] == b[i + 1]);
            }
            assert(less_at(x, y, t - 1));
        }
    }
}

/// Whether two texts agree up to `t`, and the first goes on with a smaller character, or
/// ends there.
pub open spec fn text_less_at(a: Seq<char>, b: Seq<char>, t: int) -> bool {
    &&& 0 <= t <= a.len()
    &&& t <= b.len()
    &&& forall|i: int| 0 <= i < t ==> a[i] == b[i]
    &&& t == a.len() || (t < b.len() && a[t] < b[t])
}

/// Texts are ordered by the first character in which they differ.
pub proof fn lemma_texts_are_ordered_by_characters(a: Seq<char>, b: Seq<char>)
    ensures
        text_le(a, b) <==> exists|t: int| #[trigger] text_less_at(a, b, t),
    decreases a.len(),
{
    if a.len() == 0 {
        assert(text_less_at(a, b, 0));
    } else if b.len() == 0 {
        assert forall|t: int| !#[trigger] text_less_at(a, b, t) by {}
    } else if a[0] != b[0] {
        if a[0] < b[0] {
            assert(text_less_at(a, b, 0));
        } else {
            assert forall|t: int| !#[trigger] text_less_at(a, b, t) by {}
        }
    } else {
        let x = a.drop_first();
        let y = b.drop_first();
        lemma_texts_are_ordered_by_characters(x, y);
        if exists|t: int| #[trigger] text_less_at(x, y, t) {
            let t = choose|t: int| #[trigger] text_less_at(x, y, t);
            assert forall|i: int| 0 <= i < t + 1 implies a[i] == b[i] by {
                if i > 0 {
                    assert(x[i - 1] == y[i - 1]);
                }
            }
            assert(text_less_at(a, b, t + 1));
        }
        if exists|t: int| #[trigger] text_less_at(a, b, t) {
            let t = choose|t: int| #[trigger] text_less_at(a, b, t);
            assert forall|i: int| 0 <= i < t - 1 implies x[i] == y[i] by {
                assert(a[i + 1] == b[i + 1]);
            }
            assert(text_less_at(x, y, t - 1));
        }
    }
}

/// Sorting keeps every name as often as it was there, and puts them in order.
pub proof fn lemma_names_are_sorted(names: Seq<Seq<u8>>)
    ensures
        sorted_names(names).to_multiset() == names.to_multiset(),
        forall|i: int, j: int|
            0 <= i < j < sorted_names(names).len() ==> bytes_le(
                #[trigger] sorted_names(names)[i],
                #[trigger] sorted_names(names)[j],
            ),
{
    crate::order::lemma_name_order_is_total();
    names.lemma_sort_by_ensures(name_order());
    let le = name_order();
    let sorted = sorted_names(names);
    assert forall|i: int, j: int| 0 <= i < j < sorted.len() implies bytes_le(
        #[trigger] sorted[i],
        #[trigger] sorted[j],
    ) by {
        assert(le(sorted[i], sorted[j]));
    }
}

/// Sorting keeps every text as often as it was there, and puts them in order: by their
/// characters, or by their characters in lower case.
pub proof fn lemma_texts_are_sorted(texts: Seq<Seq<char>>, fold: bool, i: int, j: int)
    ensures
        sorted_texts(texts, fold).to_multiset() == texts.to_multiset(),
        0 <= i < j < sorted_texts(texts, fold).len() ==> {
            let a = sorted_texts(texts, fold)[i];
            let b = sorted_texts(texts, fold)[j];
            if fold {
                text_le(ascii_lower(a), ascii_lower(b))
            } else {
                text_le(a, b)
            }
        },
{
    lemma_sorting_keeps_texts(texts, fold);
    lemma_sorted_texts_in_order(texts, fold);
}

/// Texts are joined in their order, with the separator between any two.
pub proof fn lemma_joined_texts(texts: Seq<Seq<char>>, more: Seq<char>, separator: Seq<char>)
    ensures
        joined(Seq::empty(), separator) == Seq::<char>::empty(),
        joined(seq![more], separator) == more,
        texts.len() > 0 ==> joined(texts.push(more), separator) == joined(texts, separator)
            + separator + more,
{
    assert(texts.push(more).drop_last() =~= texts);
}

} // verus!
