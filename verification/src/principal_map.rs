use crate::principal::Principal;
use vstd::prelude::*;

verus! {

/// A table keyed by actor identifier. No key occurs twice, and the entries
/// stand in the order in which their keys were first inserted.
#[derive(Clone, Debug, PartialEq, Eq)]
pub struct PrincipalMap<V> {
    entries: Vec<(Principal, V)>,
}

impl<V> PrincipalMap<V> {
    /// The keys, in order of first insertion.
    pub closed spec fn keys(&self) -> Seq<Seq<u8>> {
        Seq::new(self.entries@.len(), |i: int| self.entries@[i].0@)
    }

    /// The values, each at the position of its key.
    pub closed spec fn values(&self) -> Seq<V> {
        Seq::new(self.entries@.len(), |i: int| self.entries@[i].1)
    }

    /// Validity: one value for each key, and no key twice.
    pub open spec fn wf(&self) -> bool {
        &&& self.keys().len() == self.values().len()
        &&& self.keys().no_duplicates()
    }

    pub open spec fn contains_key(&self, key: Seq<u8>) -> bool {
        self.keys().contains(key)
    }

    /// Where `key` stands, for a key of the table.
    pub open spec fn position_of(&self, key: Seq<u8>) -> int {
        self.keys().index_of(key)
    }

    /// The value stored under `key`, if there is one.
    pub open spec fn lookup(&self, key: Seq<u8>) -> Option<V> {
        if self.contains_key(key) {
            Some(self.values()[self.position_of(key)])
        } else {
            None
        }
    }

    /// In a valid table a key stands at one position only.
    pub proof fn lemma_position_unique(&self, key: Seq<u8>, i: int)
        requires
            self.wf(),
            0 <= i < self.keys().len(),
            self.keys()[i] == key,
        ensures
            self.contains_key(key),
            self.position_of(key) == i,
    {
        let j = self.keys().index_of(key);
        assert(self.keys().contains(key));
        assert(0 <= j < self.keys().len() && self.keys()[j] == key);
    }

    /// Whether the table is valid.
    pub fn is_valid(&self) -> (r: bool)
        ensures
            r == self.wf(),
    {
        assert(self.keys().len() == self.values().len());
        let mut i: usize = 0;
        while i < self.entries.len()
            invariant
                i <= self.entries@.len(),
                forall|a: int, b: int| 0 <= a < b < i ==> self.keys()[a] != self.keys()[b],
            decreases self.entries@.len() - i,
        {
            let mut j: usize = 0;
            while j < i
                invariant
                    j <= i < self.entries@.len(),
                    forall|a: int| 0 <= a < j ==> self.keys()[a] != self.keys()[i as int],
                decreases i - j,
            {
                if self.entries[j].0.same(&self.entries[i].0) {
                    assert(self.keys()[j as int] == self.keys()[i as int]);
                    return false;
                }
                j += 1;
            }
            i += 1;
        }
        true
    }

    /// The empty table.
    pub fn new() -> (r: Self)
        ensures
            r.wf(),
            r.keys() == Seq::<Seq<u8>>::empty(),
            r.values() == Seq::<V>::empty(),
    {
        let r = PrincipalMap { entries: Vec::new() };
        assert(r.keys() =~= Seq::<Seq<u8>>::empty());
        assert(r.values() =~= Seq::<V>::empty());
        r
    }

    /// The number of entries.
    pub fn len(&self) -> (r: usize)
        ensures
            r == self.keys().len(),
            r == self.values().len(),
    {
        self.entries.len()
    }

    /// The key at position `i`.
    pub fn key_at(&self, i: usize) -> (r: &Principal)
        requires
            i < self.keys().len(),
        ensures
            r@ == self.keys()[i as int],
    {
        &self.entries[i].0
    }

    /// The value at position `i`.
    pub fn value_at(&self, i: usize) -> (r: &V)
        requires
            i < self.keys().len(),
        ensures
            *r == self.values()[i as int],
    {
        &self.entries[i].1
    }

    /// The position of `key`, or `None` where the table does not hold it.
    pub fn position(&self, key: &Principal) -> (r: Option<usize>)
        requires
            self.wf(),
        ensures
            r is Some <==> self.contains_key(key@),
            r matches Some(i) ==> i < self.keys().len() && i == self.position_of(key@)
                && self.keys()[i as int] == key@,
    {
        let mut i: usize = 0;
        while i < self.entries.len()
            invariant
                i <= self.entries@.len(),
                self.wf(),
                forall|j: int| 0 <= j < i ==> self.keys()[j] != key@,
            decreases self.entries@.len() - i,
        {
            if self.entries[i].0.same(key) {
                proof {
                    self.lemma_position_unique(key@, i as int);
                }
                return Some(i);
            }
            i += 1;
        }
        None
    }

    /// The value stored under `key`.
    pub fn get(&self, key: &Principal) -> (r: Option<&V>)
        requires
            self.wf(),
        ensures
            match r {
                Some(v) => self.lookup(key@) == Some(*v),
                None => self.lookup(key@) is None,
            },
    {
        match self.position(key) {
            Some(i) => Some(&self.entries[i].1),
            None => None,
        }
    }

    /// Stores `value` under `key`: in place of the value that `key` had, or
    /// as a new last entry.
    pub fn insert(&mut self, key: Principal, value: V)
        requires
            old(self).wf(),
        ensures
            final(self).wf(),
            old(self).contains_key(key@) ==> final(self).keys() == old(self).keys()
                && final(self).values() == old(self).values().update(
                old(self).position_of(key@),
                value,
            ),
            !old(self).contains_key(key@) ==> final(self).keys() == old(self).keys().push(key@)
                && final(self).values() == old(self).values().push(value),
    {
        match self.position(&key) {
            Some(i) => {
                self.entries.set(i, (key, value));
                assert(final(self).keys() =~= old(self).keys());
                assert(final(self).values() =~= old(self).values().update(i as int, value));
            },
            None => {
                self.entries.push((key, value));
                assert(final(self).keys() =~= old(self).keys().push(key@));
                assert(final(self).values() =~= old(self).values().push(value));
            },
        }
    }

    /// Puts `value` in place of the value at position `i`.
    pub fn set_at(&mut self, i: usize, value: V)
        requires
            old(self).wf(),
            i < old(self).keys().len(),
        ensures
            final(self).wf(),
            final(self).keys() == old(self).keys(),
            final(self).values() == old(self).values().update(i as int, value),
    {
        let key = self.entries[i].0.duplicate();
        self.entries.set(i, (key, value));
        assert(final(self).keys() =~= old(self).keys());
        assert(final(self).values() =~= old(self).values().update(i as int, value));
    }

    /// Takes the entry of `key` out, keeping the others in their order.
    pub fn remove(&mut self, key: &Principal) -> (r: Option<V>)
        requires
            old(self).wf(),
        ensures
            final(self).wf(),
            r == old(self).lookup(key@),
            !old(self).contains_key(key@) ==> final(self).keys() == old(self).keys()
                && final(self).values() == old(self).values(),
            old(self).contains_key(key@) ==> final(self).keys() == old(self).keys().remove(
                old(self).position_of(key@),
            ) && final(self).values() == old(self).values().remove(old(self).position_of(key@)),
    {
        match self.position(key) {
            Some(i) => {
                let (_, value) = self.entries.remove(i);
                assert(final(self).keys() =~= old(self).keys().remove(i as int));
                assert(final(self).values() =~= old(self).values().remove(i as int));
                Some(value)
            },
            None => None,
        }
    }
}

impl PrincipalMap<usize> {
    /// A copy of the table.
    pub fn duplicate(&self) -> (r: Self)
        requires
            self.wf(),
        ensures
            r.wf(),
            r.keys() == self.keys(),
            r.values() == self.values(),
    {
        let mut entries: Vec<(Principal, usize)> = Vec::new();
        let mut i: usize = 0;
        while i < self.entries.len()
            invariant
                i <= self.entries@.len(),
                entries@.len() == i,
                forall|k: int|
                    0 <= k < i ==> entries@[k].0@ == self.entries@[k].0@ && entries@[k].1
                        == self.entries@[k].1,
            decreases self.entries@.len() - i,
        {
            entries.push((self.entries[i].0.duplicate(), self.entries[i].1));
            i += 1;
        }
        let r = PrincipalMap { entries };
        assert(r.keys() =~= self.keys());
        assert(r.values() =~= self.values());
        r
    }
}

impl PrincipalMap<String> {
    /// The texts of the values, each at the position of its key.
    pub open spec fn texts(&self) -> Seq<Seq<char>> {
        self.values().map_values(|s: String| s@)
    }

    /// A copy of the table.
    pub fn duplicate(&self) -> (r: Self)
        requires
            self.wf(),
        ensures
            r.wf(),
            r.keys() == self.keys(),
            r.texts() == self.texts(),
    {
        let mut entries: Vec<(Principal, String)> = Vec::new();
        let mut i: usize = 0;
        while i < self.entries.len()
            invariant
                i <= self.entries@.len(),
                entries@.len() == i,
                forall|k: int|
                    0 <= k < i ==> entries@[k].0@ == self.entries@[k].0@ && entries@[k].1@
                        == self.entries@[k].1@,
            decreases self.entries@.len() - i,
        {
            entries.push((self.entries[i].0.duplicate(), self.entries[i].1.clone()));
            i += 1;
        }
        let r = PrincipalMap { entries };
        assert(r.keys() =~= self.keys());
        assert(r.texts() =~= self.texts());
        r
    }
}

} // verus!
