//! Sorting.

use vstd::prelude::*;

use crate::spec::order as sr;
use crate::text::chars;

verus! {

/// A value that can be sorted.
pub trait Ordered: Sized {
    /// What the value is compared by.
    type Model;

    spec fn order_model(&self) -> Self::Model;

    spec fn order() -> sr::Order<Self::Model>;

    /// Whether the value stands before another, or beside it.
    fn is_not_after(&self, other: &Self) -> (r: bool)
        ensures
            r == (Self::order())(self.order_model(), other.order_model()),
    ;
}

/// What the values of a list are compared by.
pub open spec fn order_models<T: Ordered>(list: Seq<T>) -> Seq<T::Model> {
    Seq::new(list.len(), |i: int| list[i].order_model())
}

/// Puts a value into a sorted list, behind those that it is not before.
fn insert_sorted<T: Ordered>(list: &mut Vec<T>, x: T)
    ensures
        order_models(final(list)@) == sr::insert_sorted(
            order_models(old(list)@),
            x.order_model(),
            T::order(),
        ),
{
    let ghost before = order_models(list@);
    let mut j: usize = list.len();
    while j > 0 && !list[j - 1].is_not_after(&x)
        invariant
            j <= list@.len(),
            before == order_models(list@),
            forall|k: int|
                j <= k < before.len() ==> !(T::order())(#[trigger] before[k], x.order_model()),
        decreases j,
    {
        j = j - 1;
        assert(before[j as int] == list@[j as int].order_model());
    }
    proof {
        if j > 0 {
            assert(before[j - 1] == list@[j - 1].order_model());
        }
        sr::lemma_insert(before, x.order_model(), T::order(), j as int);
    }
    let ghost wanted = before.insert(j as int, x.order_model());
    list.insert(j, x);
    assert(order_models(list@) =~= wanted);
}

/// The values of a list in order; those that stand beside each other keep
/// theirs.
pub fn sorted<T: Ordered>(list: Vec<T>) -> (r: Vec<T>)
    ensures
        order_models(r@) == sr::sorted(order_models(list@), T::order()),
{
    let ghost all = order_models(list@);
    let ghost source = list@;
    let mut left = list;
    // The values come off the end, so they pile up in reverse.
    let mut turned: Vec<T> = Vec::new();
    while left.len() > 0
        invariant
            left@.len() + turned@.len() == source.len(),
            left@ =~= source.take(left@.len() as int),
            forall|i: int|
                0 <= i < turned@.len() ==> #[trigger] turned@[i] == source[source.len() - 1 - i],
        decreases left@.len(),
    {
        let last = left.pop();
        turned.push(last.unwrap());
    }
    let mut out: Vec<T> = Vec::new();
    assert(order_models(out@) =~= sr::sorted(all.take(0), T::order()));
    while turned.len() > 0
        invariant
            turned@.len() <= source.len(),
            all == order_models(source),
            forall|i: int|
                0 <= i < turned@.len() ==> #[trigger] turned@[i] == source[source.len() - 1 - i],
            order_models(out@) == sr::sorted(
                all.take(source.len() - turned@.len()),
                T::order(),
            ),
        decreases turned@.len(),
    {
        let ghost n = source.len() - turned@.len();
        assert(turned@.last() == source[n]);
        assert(all.take(n + 1).drop_last() =~= all.take(n));
        assert(all.take(n + 1).last() == source[n].order_model());
        let next = turned.pop();
        insert_sorted(&mut out, next.unwrap());
    }
    assert(all.take(source.len() as int) =~= all);
    out
}

/// Whether `a` stands before `b` in the order of their characters, or is `b`.
pub fn text_not_after(a: &str, b: &str) -> (r: bool)
    ensures
        r == sr::text_not_after(a@, b@),
{
    let left = chars(a);
    let right = chars(b);
    let mut i: usize = 0;
    while i < left.len()
        invariant
            i <= left@.len(),
            left@ == a@,
            right@ == b@,
            sr::text_not_after(a@, b@) == sr::text_not_after_from(a@, b@, i as int),
        decreases left@.len() - i,
    {
        if i >= right.len() {
            return false;
        }
        if left[i] != right[i] {
            return left[i] < right[i];
        }
        i = i + 1;
    }
    true
}

/// Whether the list `a` stands before `b` in the order of their texts, or is
/// `b`.
pub fn texts_not_after(a: &Vec<String>, b: &Vec<String>) -> (r: bool)
    ensures
        r == sr::texts_not_after(a.deep_view(), b.deep_view()),
{
    let mut i: usize = 0;
    while i < a.len()
        invariant
            i <= a@.len(),
            sr::texts_not_after(a.deep_view(), b.deep_view()) == sr::texts_not_after_from(
                a.deep_view(),
                b.deep_view(),
                i as int,
            ),
        decreases a@.len() - i,
    {
        assert(b.deep_view().len() == b@.len());
        if i >= b.len() {
            return false;
        }
        assert(a.deep_view()[i as int] == a@[i as int]@);
        assert(b.deep_view()[i as int] == b@[i as int]@);
        if a[i] != b[i] {
            return text_not_after(a[i].as_str(), b[i].as_str());
        }
        i = i + 1;
    }
    true
}

} // verus!
