//! Lists of values that have a mathematical model.

use vstd::prelude::*;

verus! {

/// Puts a value at the end of a list.
pub fn put<T: DeepView>(v: &mut Vec<T>, x: T)
    ensures
        final(v).deep_view() == old(v).deep_view().push(x.deep_view()),
        final(v)@ == old(v)@.push(x),
{
    let ghost before = v.deep_view();
    v.push(x);
    assert(v.deep_view() =~= before.push(x.deep_view()));
}

/// Puts the values of another list at the end of a list.
pub fn put_all<T: DeepView>(v: &mut Vec<T>, more: Vec<T>)
    ensures
        final(v).deep_view() == old(v).deep_view() + more.deep_view(),
        final(v)@ == old(v)@ + more@,
{
    let ghost before = v.deep_view();
    let ghost added = more.deep_view();
    let mut more = more;
    v.append(&mut more);
    assert(v.deep_view() =~= before + added);
}

/// Takes the last value off a list.
pub fn take_last<T: DeepView>(v: &mut Vec<T>) -> (r: Option<T>)
    ensures
        old(v)@.len() == 0 ==> r is None && final(v)@ == old(v)@ && final(v).deep_view() == old(
            v,
        ).deep_view(),
        old(v)@.len() > 0 ==> {
            &&& r == Some(old(v)@.last())
            &&& final(v)@ == old(v)@.drop_last()
            &&& final(v).deep_view() == old(v).deep_view().drop_last()
        },
{
    let ghost before = v.deep_view();
    let r = v.pop();
    assert(before.len() > 0 ==> v.deep_view() =~= before.drop_last());
    r
}

/// A list without values.
pub fn empty<T: DeepView>() -> (r: Vec<T>)
    ensures
        r.deep_view() == Seq::<T::V>::empty(),
        r@ == Seq::<T>::empty(),
{
    let r: Vec<T> = Vec::new();
    assert(r.deep_view() =~= Seq::<T::V>::empty());
    r
}

} // verus!
