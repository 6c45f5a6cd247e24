//! Sorting.

use vstd::prelude::*;

use crate::spec::text::Text;

verus! {

/// An order: whether the first of two values stands before the second, or
/// beside it.
pub type Order<M> = spec_fn(M, M) -> bool;

/// A sorted list with one more value, behind those that it is not before.
pub open spec fn insert_sorted<M>(list: Seq<M>, x: M, order: Order<M>) -> Seq<M>
    decreases list.len(),
{
    if list.len() == 0 || order(list.last(), x) {
        list.push(x)
    } else {
        insert_sorted(list.drop_last(), x, order).push(list.last())
    }
}

/// The values of a list in order; those that stand beside each other keep
/// theirs.
pub open spec fn sorted<M>(list: Seq<M>, order: Order<M>) -> Seq<M>
    decreases list.len(),
{
    if list.len() == 0 {
        list
    } else {
        insert_sorted(sorted(list.drop_last(), order), list.last(), order)
    }
}

/// Whether no value of a list stands before an earlier one.
pub open spec fn is_sorted<M>(list: Seq<M>, order: Order<M>) -> bool {
    forall|i: int, j: int| 0 <= i < j < list.len() ==> order(#[trigger] list[i], #[trigger] list[j])
}

/// Whether any two values can be compared, and comparing goes on over a third.
pub open spec fn is_order<M>(order: Order<M>) -> bool {
    &&& forall|a: M, b: M| #[trigger] order(a, b) || order(b, a)
    &&& forall|a: M, b: M, c: M| #[trigger] order(a, b) && #[trigger] order(b, c) ==> order(a, c)
}

// ---------------------------------------------------------------------------
// Texts
// ---------------------------------------------------------------------------

/// Whether the text `a` from index `i` on stands before `b` from there on, or
/// is the same.
pub open spec fn text_not_after_from(a: Text, b: Text, i: int) -> bool
    decreases a.len() - i,
{
    if i >= a.len() {
        true
    } else if i >= b.len() {
        false
    } else if a[i] == b[i] {
        text_not_after_from(a, b, i + 1)
    } else {
        a[i] < b[i]
    }
}

/// Whether `a` stands before `b` in the order of their characters, or is `b`.
pub open spec fn text_not_after(a: Text, b: Text) -> bool {
    text_not_after_from(a, b, 0)
}

/// Whether the texts of `a` from `i` on stand before those of `b` from there
/// on, or are the same.
pub open spec fn texts_not_after_from(a: Seq<Text>, b: Seq<Text>, i: int) -> bool
    decreases a.len() - i,
{
    if i >= a.len() {
        true
    } else if i >= b.len() {
        false
    } else if a[i] == b[i] {
        texts_not_after_from(a, b, i + 1)
    } else {
        text_not_after(a[i], b[i])
    }
}

/// Whether the list `a` stands before `b` in the order of their texts, or is
/// `b`.
pub open spec fn texts_not_after(a: Seq<Text>, b: Seq<Text>) -> bool {
    texts_not_after_from(a, b, 0)
}

// ---------------------------------------------------------------------------
// Facts
// ---------------------------------------------------------------------------

/// A list with a value put in behind the last one that it is not before.
pub proof fn lemma_insert<M>(list: Seq<M>, x: M, order: Order<M>, j: int)
    requires
        0 <= j <= list.len(),
        j == 0 || order(list[j - 1], x),
        forall|k: int| j <= k < list.len() ==> !order(#[trigger] list[k], x),
    ensures
        insert_sorted(list, x, order) == list.insert(j, x),
    decreases list.len(),
{
    if j == list.len() {
        assert(list.insert(j, x) =~= list.push(x));
    } else {
        assert(!order(list[list.len() - 1], x));
        lemma_insert(list.drop_last(), x, order, j);
        assert(list.insert(j, x) =~= list.drop_last().insert(j, x).push(list.last()));
    }
}

/// Where a value goes in a list: behind the last one that it is not before.
pub open spec fn insertion_point<M>(list: Seq<M>, x: M, order: Order<M>) -> int
    decreases list.len(),
{
    if list.len() == 0 || order(list.last(), x) {
        list.len() as int
    } else {
        insertion_point(list.drop_last(), x, order)
    }
}

/// What stands around the place where a value goes.
pub proof fn lemma_insertion_point<M>(list: Seq<M>, x: M, order: Order<M>)
    ensures
        0 <= insertion_point(list, x, order) <= list.len(),
        insertion_point(list, x, order) > 0 ==> order(
            list[insertion_point(list, x, order) - 1],
            x,
        ),
        forall|k: int|
            insertion_point(list, x, order) <= k < list.len() ==> !order(#[trigger] list[k], x),
    decreases list.len(),
{
    if list.len() > 0 && !order(list.last(), x) {
        lemma_insertion_point(list.drop_last(), x, order);
        assert forall|k: int|
            insertion_point(list, x, order) <= k < list.len() implies !order(
            #[trigger] list[k],
            x,
        ) by {
            if k < list.len() - 1 {
                assert(list.drop_last()[k] == list[k]);
            }
        }
    }
}

/// A value that is put into a list is there once more than before.
pub proof fn lemma_insert_multiset<M>(list: Seq<M>, x: M, order: Order<M>)
    ensures
        insert_sorted(list, x, order).to_multiset() == list.to_multiset().insert(x),
        insert_sorted(list, x, order).len() == list.len() + 1,
    decreases list.len(),
{
    broadcast use vstd::seq_lib::group_to_multiset_ensures;

    if list.len() > 0 && !order(list.last(), x) {
        let shorter = list.drop_last();
        lemma_insert_multiset(shorter, x, order);
        assert(list =~= shorter.push(list.last()));
        assert(list.to_multiset().insert(x) =~= shorter.to_multiset().insert(x).insert(
            list.last(),
        ));
    }
}

/// A value that is put into a sorted list leaves it sorted.
pub proof fn lemma_insert_sorted<M>(list: Seq<M>, x: M, order: Order<M>)
    requires
        is_order(order),
        is_sorted(list, order),
    ensures
        is_sorted(insert_sorted(list, x, order), order),
{
    let p = insertion_point(list, x, order);
    lemma_insertion_point(list, x, order);
    lemma_insert(list, x, order, p);
    let r = list.insert(p, x);
    assert forall|i: int, j: int| 0 <= i < j < r.len() implies order(
        #[trigger] r[i],
        #[trigger] r[j],
    ) by {
        if j == p {
            if i < p - 1 {
                assert(order(list[i], list[p - 1]));
            }
        } else if i == p {
            assert(!order(list[j - 1], x));
        } else {
            let a = if i < p {
                i
            } else {
                i - 1
            };
            let b = if j < p {
                j
            } else {
                j - 1
            };
            assert(order(list[a], list[b]));
        }
    }
}

/// Sorting a list puts its values, each as often as before, in order.
pub proof fn law_sorted<M>(list: Seq<M>, order: Order<M>)
    requires
        is_order(order),
    ensures
        is_sorted(sorted(list, order), order),
        sorted(list, order).to_multiset() == list.to_multiset(),
        sorted(list, order).len() == list.len(),
    decreases list.len(),
{
    broadcast use vstd::seq_lib::group_to_multiset_ensures;

    if list.len() > 0 {
        law_sorted(list.drop_last(), order);
        lemma_insert_sorted(sorted(list.drop_last(), order), list.last(), order);
        lemma_insert_multiset(sorted(list.drop_last(), order), list.last(), order);
        assert(list =~= list.drop_last().push(list.last()));
    }
}

/// The order of texts is one: any two can be compared, and comparing goes on
/// over a third.
pub proof fn lemma_text_order(a: Text, b: Text, c: Text, i: int)
    requires
        0 <= i,
    ensures
        text_not_after_from(a, b, i) || text_not_after_from(b, a, i),
        text_not_after_from(a, b, i) && text_not_after_from(b, c, i) ==> text_not_after_from(
            a,
            c,
            i,
        ),
        text_not_after_from(a, b, i) && text_not_after_from(b, a, i) && i <= a.len() && i
            <= b.len() ==> a.skip(i) == b.skip(i),
    decreases a.len() + b.len() + c.len() - i,
{
    if i < a.len() || i < b.len() || i < c.len() {
        lemma_text_order(a, b, c, i + 1);
        if i < a.len() && i < b.len() && a[i] == b[i] && a.skip(i + 1) == b.skip(i + 1) {
            assert(a.skip(i) =~= seq![a[i]] + a.skip(i + 1));
            assert(b.skip(i) =~= seq![b[i]] + b.skip(i + 1));
        }
    }
    if i >= a.len() && i >= b.len() && i <= a.len() && i <= b.len() {
        assert(a.skip(i) =~= b.skip(i));
    }
}

/// The order of texts is antisymmetric.
pub proof fn lemma_text_antisymmetric(a: Text, b: Text)
    requires
        text_not_after(a, b),
        text_not_after(b, a),
    ensures
        a == b,
{
    lemma_text_order(a, b, a, 0);
    assert(a.skip(0) =~= a);
    assert(b.skip(0) =~= b);
}

/// The order of lists of texts is one: any two can be compared, and comparing
/// goes on over a third.
pub proof fn lemma_texts_order(a: Seq<Text>, b: Seq<Text>, c: Seq<Text>, i: int)
    requires
        0 <= i,
    ensures
        texts_not_after_from(a, b, i) || texts_not_after_from(b, a, i),
        texts_not_after_from(a, b, i) && texts_not_after_from(b, c, i) ==> texts_not_after_from(
            a,
            c,
            i,
        ),
    decreases a.len() + b.len() + c.len() - i,
{
    if i < a.len() || i < b.len() || i < c.len() {
        lemma_texts_order(a, b, c, i + 1);
        if i < a.len() && i < b.len() {
            lemma_text_order(a[i], b[i], b[i], 0);
            if i < c.len() {
                lemma_text_order(a[i], b[i], c[i], 0);
                if a[i] == c[i] && text_not_after(a[i], b[i]) && text_not_after(b[i], c[i]) {
                    lemma_text_antisymmetric(a[i], b[i]);
                }
            }
        }
    }
}

} // verus!
