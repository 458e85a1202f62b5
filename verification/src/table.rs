//! A finite map kept as an association list, standing for a keyed section of a
//! contract's storage.
use crate::types::{Address, ModuleKind};
use vstd::prelude::*;

verus! {

/// What a [`Table`] can be keyed by: values that are equal when their views are.
pub trait Key: Sized + View {
    fn same(&self, other: &Self) -> (r: bool)
        ensures
            r == (self@ == other@),
    ;
}

impl Key for u64 {
    fn same(&self, other: &Self) -> bool {
        *self == *other
    }
}

impl Key for u32 {
    fn same(&self, other: &Self) -> bool {
        *self == *other
    }
}

impl Key for Address {
    fn same(&self, other: &Self) -> bool {
        *self == *other
    }
}

impl Key for ModuleKind {
    fn same(&self, other: &Self) -> bool {
        *self == *other
    }
}

impl Key for String {
    fn same(&self, other: &Self) -> bool {
        *self == *other
    }
}

impl<A: Key, B: Key> Key for (A, B) {
    fn same(&self, other: &Self) -> bool {
        self.0.same(&other.0) && self.1.same(&other.1)
    }
}

/// The map that a list of entries stands for: a later entry hides an earlier
/// one with the same key.
pub open spec fn entries_map<K: Key, V>(entries: Seq<(K, V)>) -> Map<K::V, V>
    decreases entries.len(),
{
    if entries.len() == 0 {
        Map::empty()
    } else {
        entries_map(entries.drop_last()).insert(entries.last().0@, entries.last().1)
    }
}

proof fn lemma_absent_from_map<K: Key, V>(entries: Seq<(K, V)>, k: K::V)
    requires
        forall|i: int| 0 <= i < entries.len() ==> #[trigger] entries[i].0@ != k,
    ensures
        !entries_map(entries).contains_key(k),
    decreases entries.len(),
{
    if entries.len() > 0 {
        let front = entries.drop_last();
        assert forall|i: int| 0 <= i < front.len() implies #[trigger] front[i].0@ != k by {
            assert(entries[i].0@ != k);
        }
        lemma_absent_from_map(front, k);
        assert(entries[entries.len() - 1].0@ != k);
    }
}

/// Dropping trailing entries with other keys does not change what a key maps to.
proof fn lemma_last_entry<K: Key, V>(entries: Seq<(K, V)>, i: int)
    requires
        0 <= i < entries.len(),
        forall|j: int| i < j < entries.len() ==> #[trigger] entries[j].0@ != entries[i].0@,
    ensures
        entries_map(entries).contains_key(entries[i].0@),
        entries_map(entries)[entries[i].0@] == entries[i].1,
    decreases entries.len(),
{
    if i < entries.len() - 1 {
        let front = entries.drop_last();
        assert(front[i] == entries[i]);
        assert forall|j: int| i < j < front.len() implies #[trigger] front[j].0@ != front[i].0@ by {
            assert(entries[j].0@ != entries[i].0@);
        }
        lemma_last_entry(front, i);
        assert(entries[entries.len() - 1].0@ != entries[i].0@);
    }
}

/// Removing the first entry with a key changes nothing for the other keys, and
/// for that key only where it was the last such entry.
proof fn lemma_remove_entry<K: Key, V>(entries: Seq<(K, V)>, i: int)
    requires
        0 <= i < entries.len(),
        forall|j: int| 0 <= j < i ==> #[trigger] entries[j].0@ != entries[i].0@,
    ensures
        ({
            let k = entries[i].0@;
            let before = entries_map(entries);
            let after = entries_map(entries.remove(i));
            &&& before.contains_key(k)
            &&& after.remove(k) == before.remove(k)
            &&& after.contains_key(k) ==> after[k] == before[k]
            &&& !after.contains_key(k) ==> before[k] == entries[i].1
        }),
    decreases entries.len(),
{
    let rest = entries.remove(i);
    let k = entries[i].0@;
    let front = entries.drop_last();
    let before = entries_map(entries);
    let after = entries_map(rest);
    if i == entries.len() - 1 {
        assert(rest =~= front);
        assert forall|j: int| 0 <= j < front.len() implies #[trigger] front[j].0@ != k by {
            assert(entries[j].0@ != entries[i].0@);
        }
        lemma_absent_from_map(front, k);
        assert(after.remove(k) =~= before.remove(k));
    } else {
        assert(front[i] == entries[i]);
        assert forall|j: int| 0 <= j < i implies #[trigger] front[j].0@ != front[i].0@ by {
            assert(entries[j].0@ != entries[i].0@);
        }
        lemma_remove_entry(front, i);
        assert(rest.drop_last() =~= front.remove(i));
        assert(rest.last() == entries.last());
        let a = entries_map(front.remove(i));
        let b = entries_map(front);
        let last = entries.last();
        if last.0@ == k {
            assert(after.remove(k) =~= a.remove(k));
            assert(before.remove(k) =~= b.remove(k));
        } else {
            assert(after.remove(k) =~= a.remove(k).insert(last.0@, last.1));
            assert(before.remove(k) =~= b.remove(k).insert(last.0@, last.1));
        }
    }
}

/// A finite map from keys to values.
#[verifier::reject_recursive_types(K)]
pub struct Table<K: Key, V> {
    entries: Vec<(K, V)>,
}

impl<K: Key, V> View for Table<K, V> {
    type V = Map<K::V, V>;

    closed spec fn view(&self) -> Map<K::V, V> {
        entries_map(self.entries@)
    }
}

impl<K: Key, V> Table<K, V> {
    /// The empty table.
    pub fn new() -> (r: Self)
        ensures
            r@ == Map::<K::V, V>::empty(),
    {
        Table { entries: Vec::new() }
    }

    /// The value stored under a key.
    pub fn get(&self, k: &K) -> (r: Option<&V>)
        ensures
            match r {
                Some(v) => self@.contains_key(k@) && *v == self@[k@],
                None => !self@.contains_key(k@),
            },
    {
        let mut i: usize = self.entries.len();
        while i > 0
            invariant
                i <= self.entries@.len(),
                forall|j: int| i <= j < self.entries@.len() ==> #[trigger] self.entries@[j].0@ != k@,
            decreases i,
        {
            i = i - 1;
            if self.entries[i].0.same(k) {
                proof {
                    lemma_last_entry(self.entries@, i as int);
                }
                return Some(&self.entries[i].1);
            }
        }
        proof {
            lemma_absent_from_map(self.entries@, k@);
        }
        None
    }

    /// Whether a key is present.
    pub fn has(&self, k: &K) -> (r: bool)
        ensures
            r == self@.contains_key(k@),
    {
        self.get(k).is_some()
    }

    /// Removes a key and hands its value over.
    pub fn take(&mut self, k: &K) -> (r: Option<V>)
        ensures
            final(self)@ == old(self)@.remove(k@),
            match r {
                Some(v) => old(self)@.contains_key(k@) && v == old(self)@[k@],
                None => !old(self)@.contains_key(k@),
            },
    {
        let ghost before = self@;
        let mut taken: Option<V> = None;
        let mut i: usize = 0;
        while i < self.entries.len()
            invariant
                i <= self.entries@.len(),
                forall|j: int| 0 <= j < i ==> #[trigger] self.entries@[j].0@ != k@,
                self@.remove(k@) == before.remove(k@),
                self@.contains_key(k@) ==> before.contains_key(k@) && self@[k@] == before[k@],
                !self@.contains_key(k@) ==> match taken {
                    Some(v) => before.contains_key(k@) && v == before[k@],
                    None => !before.contains_key(k@),
                },
            decreases self.entries@.len() - i,
        {
            if self.entries[i].0.same(k) {
                proof {
                    lemma_remove_entry(self.entries@, i as int);
                }
                let entry = self.entries.remove(i);
                taken = Some(entry.1);
            } else {
                i = i + 1;
            }
        }
        proof {
            lemma_absent_from_map(self.entries@, k@);
            assert(self@ =~= before.remove(k@));
        }
        taken
    }

    /// Removes a key if it is present.
    pub fn remove(&mut self, k: &K)
        ensures
            final(self)@ == old(self)@.remove(k@),
    {
        let _ = self.take(k);
    }

    /// Stores a value under a key, in place of any earlier one.
    pub fn set(&mut self, k: K, v: V)
        ensures
            final(self)@ == old(self)@.insert(k@, v),
    {
        let ghost before = self@;
        let _ = self.take(&k);
        proof {
            let s = self.entries@.push((k, v));
            assert(s.drop_last() =~= self.entries@);
            assert(entries_map(s) =~= before.insert(k@, v));
        }
        self.entries.push((k, v));
    }
}

} // verus!
