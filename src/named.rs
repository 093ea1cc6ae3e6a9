//! A map from metric titles to handles that keeps insertion order.

use vstd::prelude::*;

verus! {

/// Metric handles indexed by title, in insertion order. `insert_new` admits only titles not yet
/// held, so no title is held twice.
pub struct NamedMap<V> {
    entries: Vec<(String, V)>,
}

impl<V> NamedMap<V> {
    /// The titles held, in insertion order.
    pub closed spec fn keys(&self) -> Seq<Seq<char>> {
        self.entries@.map_values(|e: (String, V)| e.0@)
    }

    /// The handles held, in the order of `keys`.
    pub closed spec fn handles(&self) -> Seq<V> {
        self.entries@.map_values(|e: (String, V)| e.1)
    }

    pub open spec fn contains(&self, title: Seq<char>) -> bool {
        self.keys().contains(title)
    }

    /// An empty map with room for `capacity` entries.
    pub fn with_capacity(capacity: usize) -> (r: Self)
        ensures
            r.keys() == Seq::<Seq<char>>::empty(),
            r.handles() == Seq::<V>::empty(),
            r.keys().no_duplicates(),
    {
        let r = NamedMap { entries: Vec::with_capacity(capacity) };
        assert(r.keys() =~= Seq::<Seq<char>>::empty());
        assert(r.handles() =~= Seq::<V>::empty());
        r
    }

    pub fn len(&self) -> (r: usize)
        ensures
            r == self.keys().len(),
    {
        self.entries.len()
    }

    pub fn is_empty(&self) -> (r: bool)
        ensures
            r == (self.keys().len() == 0),
    {
        self.entries.len() == 0
    }

    /// The position of `title`, if it is held.
    fn position(&self, title: &str) -> (r: Option<usize>)
        ensures
            match r {
                Some(i) => {
                    &&& i < self.keys().len()
                    &&& self.keys()[i as int] == title@
                    &&& forall|j: int| 0 <= j < i ==> self.keys()[j] != title@
                },
                None => !self.contains(title@),
            },
    {
        let wanted = String::from_str(title);
        let mut i: usize = 0;
        while i < self.entries.len()
            invariant
                i <= self.entries@.len(),
                wanted@ == title@,
                forall|j: int| 0 <= j < i ==> self.keys()[j] != title@,
            decreases self.entries@.len() - i,
        {
            if self.entries[i].0 == wanted {
                return Some(i);
            }
            i = i + 1;
        }
        None
    }

    pub fn contains_key(&self, title: &str) -> (r: bool)
        ensures
            r == self.contains(title@),
    {
        self.position(title).is_some()
    }

    /// The handle registered under `title`: the one at the first (and, since titles are not
    /// repeated, the only) position holding `title`.
    pub fn get(&self, title: &str) -> (r: Option<&V>)
        ensures
            match r {
                Some(v) => exists|i: int|
                    {
                        &&& 0 <= i < self.keys().len()
                        &&& self.keys()[i] == title@
                        &&& self.handles()[i] == *v
                        &&& forall|j: int| 0 <= j < i ==> self.keys()[j] != title@
                    },
                None => !self.contains(title@),
            },
    {
        match self.position(title) {
            Some(i) => Some(&self.entries[i].1),
            None => None,
        }
    }

    /// Adds a handle under a title that is not yet held.
    pub fn insert_new(&mut self, title: String, handle: V)
        requires
            !old(self).contains(title@),
        ensures
            final(self).keys() == old(self).keys().push(title@),
            final(self).handles() == old(self).handles().push(handle),
            old(self).keys().no_duplicates() ==> final(self).keys().no_duplicates(),
    {
        let ghost t = title@;
        self.entries.push((title, handle));
        assert(self.keys() =~= old(self).keys().push(t));
        assert(self.handles() =~= old(self).handles().push(handle));
    }
}

} // verus!
