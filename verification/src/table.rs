//! Tables of keys and values.

use vstd::prelude::*;

use crate::list::put;
use crate::spec::table as sb;
use crate::text::eq_texts;

verus! {

/// A value that can be the key of a table.
pub trait Key: DeepView + Sized {
    /// Whether two keys are the same.
    fn is_key(&self, other: &Self) -> (r: bool)
        ensures
            r == (self.deep_view() == other.deep_view()),
    ;
}

impl Key for String {
    fn is_key(&self, other: &Self) -> (r: bool) {
        *self == *other
    }
}

impl Key for Vec<String> {
    fn is_key(&self, other: &Self) -> (r: bool) {
        eq_texts(self, other)
    }
}

impl Key for (Vec<String>, String) {
    fn is_key(&self, other: &Self) -> (r: bool) {
        eq_texts(&self.0, &other.0) && self.1 == other.1
    }
}

/// A table of keys and values.
#[derive(Debug, PartialEq, Eq)]
pub struct Table<K, V> {
    pub entries: Vec<(K, V)>,
}

impl<K: DeepView, V: DeepView> DeepView for Table<K, V> {
    type V = sb::Entries<K::V, V::V>;

    open spec fn deep_view(&self) -> sb::Entries<K::V, V::V> {
        self.entries.deep_view()
    }
}

impl<K: Key, V: DeepView> Table<K, V> {
    /// A table without entries.
    pub fn new() -> (r: Self)
        ensures
            r.deep_view() == Seq::<(K::V, V::V)>::empty(),
    {
        let r: Self = Table { entries: Vec::new() };
        assert(r.deep_view() =~= Seq::<(K::V, V::V)>::empty());
        r
    }

    /// The value of `key`.
    pub fn find(&self, key: &K) -> (r: Option<&V>)
        ensures
            r.deep_view() == sb::find(self.deep_view(), key.deep_view()),
    {
        let ghost all = self.deep_view();
        let mut i: usize = self.entries.len();
        assert(all.take(i as int) =~= all);
        while i > 0
            invariant
                i <= self.entries@.len(),
                all == self.deep_view(),
                sb::find(all, key.deep_view()) == sb::find(all.take(i as int), key.deep_view()),
            decreases i,
        {
            i = i - 1;
            assert(all.take(i + 1).drop_last() =~= all.take(i as int));
            assert(all.take(i + 1).last() == self.entries@[i as int].deep_view());
            if self.entries[i].0.is_key(key) {
                return Some(&self.entries[i].1);
            }
        }
        None
    }

    /// Whether `key` has a value.
    pub fn contains_key(&self, key: &K) -> (r: bool)
        ensures
            r == (sb::find(self.deep_view(), key.deep_view()) is Some),
    {
        self.find(key).is_some()
    }

    /// Takes out the entry of `key`.
    pub fn remove(&mut self, key: &K)
        ensures
            final(self).deep_view() == sb::remove(old(self).deep_view(), key.deep_view()),
    {
        let ghost all = self.deep_view();
        let mut left: Vec<(K, V)> = Vec::new();
        let mut kept: Vec<(K, V)> = Vec::new();
        core::mem::swap(&mut left, &mut self.entries);
        let ghost source = left@;
        assert(left.deep_view() =~= all);
        // The entries come off the end, so they pile up in reverse.
        let mut turned: Vec<(K, V)> = Vec::new();
        while left.len() > 0
            invariant
                left@.len() + turned@.len() == source.len(),
                left@ =~= source.take(left@.len() as int),
                forall|i: int|
                    0 <= i < turned@.len() ==> #[trigger] turned@[i] == source[source.len() - 1 - i],
            decreases left@.len(),
        {
            let ghost before = left@;
            match left.pop() {
                Some(entry) => {
                    turned.push(entry);
                },
                None => {
                },
            }
        }
        assert(kept.deep_view() =~= sb::remove(all.take(0), key.deep_view()));
        while turned.len() > 0
            invariant
                turned@.len() <= source.len(),
                all.len() == source.len(),
                forall|i: int| 0 <= i < all.len() ==> #[trigger] all[i] == source[i].deep_view(),
                forall|i: int|
                    0 <= i < turned@.len() ==> #[trigger] turned@[i] == source[source.len() - 1 - i],
                kept.deep_view() == sb::remove(
                    all.take(source.len() - turned@.len()),
                    key.deep_view(),
                ),
            decreases turned@.len(),
        {
            let ghost n = source.len() - turned@.len();
            assert(turned@.last() == source[n]);
            assert(all.take(n + 1).drop_last() =~= all.take(n));
            assert(all.take(n + 1).last() == source[n].deep_view());
            match turned.pop() {
                Some(entry) => {
                    if !entry.0.is_key(key) {
                        put(&mut kept, entry);
                    }
                },
                None => {
                },
            }
        }
        assert(all.take(source.len() as int) =~= all);
        self.entries = kept;
    }

    /// Gives `key` the value `value`.
    pub fn insert(&mut self, key: K, value: V)
        ensures
            final(self).deep_view() == sb::insert(
                old(self).deep_view(),
                key.deep_view(),
                value.deep_view(),
            ),
    {
        self.remove(&key);
        put(&mut self.entries, (key, value));
    }
}

impl Table<String, String> {
    /// The value of the name `name`.
    pub fn get(&self, name: &str) -> (r: Option<&String>)
        ensures
            r.deep_view() == sb::find(self.deep_view(), name@),
    {
        self.find(&name.to_owned())
    }
}

impl Clone for Table<String, String> {
    fn clone(&self) -> (r: Self)
        ensures
            r.deep_view() == self.deep_view(),
    {
        let mut entries: Vec<(String, String)> = Vec::new();
        let mut i: usize = 0;
        while i < self.entries.len()
            invariant
                i <= self.entries@.len(),
                entries.deep_view() =~= self.deep_view().take(i as int),
            decreases self.entries@.len() - i,
        {
            put(&mut entries, (self.entries[i].0.clone(), self.entries[i].1.clone()));
            i = i + 1;
        }
        assert(self.deep_view().take(i as int) =~= self.deep_view());
        Table { entries }
    }
}

} // verus!
