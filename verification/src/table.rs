//! A table from names to values that keeps its names in the order in which
//! they were first entered.

use vstd::prelude::*;

use crate::text;

verus! {

/// A table from names to values. No name occurs twice.
pub struct AliasTable<V> {
    entries: Vec<(String, V)>,
}

/// The names of a list of entries, in order.
pub open spec fn names_of<V>(entries: Seq<(String, V)>) -> Seq<Seq<char>> {
    entries.map_values(|e: (String, V)| e.0@)
}

impl<V> AliasTable<V> {
    /// The entries, in order.
    pub closed spec fn contents(&self) -> Seq<(String, V)> {
        self.entries@
    }

    /// The names, in order.
    pub open spec fn keys(&self) -> Seq<Seq<char>> {
        names_of(self.contents())
    }

    /// Whether no name occurs twice. Every table that a program holds has this.
    pub open spec fn wf(&self) -> bool {
        self.keys().no_duplicates()
    }

    #[verifier::type_invariant]
    spec fn inv(self) -> bool {
        self.wf()
    }

    /// The value entered under `key`, if any.
    pub open spec fn lookup(&self, key: Seq<char>) -> Option<V> {
        if self.keys().contains(key) {
            Some(self.contents()[self.keys().index_of(key)].1)
        } else {
            None
        }
    }

    /// The value at a position.
    pub open spec fn value_at(&self, i: int) -> V {
        self.contents()[i].1
    }

    /// A table without entries.
    pub fn new() -> (r: Self)
        ensures
            r.contents() == Seq::<(String, V)>::empty(),
            r.keys() == Seq::<Seq<char>>::empty(),
    {
        AliasTable { entries: Vec::new() }
    }

    /// The number of entries.
    pub fn len(&self) -> (r: usize)
        ensures
            r == self.contents().len(),
            r == self.keys().len(),
    {
        self.entries.len()
    }

    /// Whether there is no entry.
    pub fn is_empty(&self) -> (r: bool)
        ensures
            r == (self.contents().len() == 0),
    {
        self.entries.len() == 0
    }

    /// The name at a position.
    pub fn key_at(&self, i: usize) -> (r: &String)
        requires
            i < self.contents().len(),
        ensures
            r@ == self.keys()[i as int],
            *r == self.contents()[i as int].0,
    {
        &self.entries[i].0
    }

    /// The value at a position.
    pub fn at(&self, i: usize) -> (r: &V)
        requires
            i < self.contents().len(),
        ensures
            *r == self.value_at(i as int),
    {
        &self.entries[i].1
    }

    /// Every table has each name once.
    pub fn distinct(&self)
        ensures
            self.wf(),
    {
        proof {
            use_type_invariant(self);
        }
    }

    /// The position of a name, if it is there.
    fn position(&self, key: &str) -> (r: Option<usize>)
        ensures
            match r {
                Some(i) => i < self.contents().len() && self.keys()[i as int] == key@,
                None => !self.keys().contains(key@),
            },
    {
        let mut i: usize = 0;
        while i < self.entries.len()
            invariant
                i <= self.entries.len(),
                forall|j: int| 0 <= j < i ==> #[trigger] self.keys()[j] != key@,
            decreases self.entries.len() - i,
        {
            if text::same_text(&self.entries[i].0, key) {
                return Some(i);
            }
            assert(self.keys()[i as int] == self.entries[i as int].0@);
            i += 1;
        }
        None
    }

    /// The value entered under a name, if any.
    pub fn get(&self, key: &str) -> (r: Option<&V>)
        ensures
            match r {
                Some(v) => self.lookup(key@) == Some(*v),
                None => self.lookup(key@) is None,
            },
    {
        proof {
            use_type_invariant(self);
        }
        match self.position(key) {
            Some(i) => {
                assert(self.keys().contains(key@)) by {
                    assert(self.keys()[i as int] == key@);
                }
                assert(self.keys().index_of(key@) == i);
                Some(&self.entries[i].1)
            },
            None => None,
        }
    }

    /// Whether something is entered under a name.
    pub fn contains_key(&self, key: &str) -> (r: bool)
        ensures
            r == self.keys().contains(key@),
    {
        match self.position(key) {
            Some(i) => {
                assert(self.keys()[i as int] == key@);
                true
            },
            None => false,
        }
    }

    /// The names, in order.
    pub fn names(&self) -> (r: Vec<String>)
        ensures
            r.deep_view() == self.keys(),
    {
        let mut out: Vec<String> = Vec::new();
        let mut i: usize = 0;
        while i < self.entries.len()
            invariant
                i <= self.entries.len(),
                out.deep_view() == self.keys().take(i as int),
            decreases self.entries.len() - i,
        {
            let ghost before = out.deep_view();
            let name = self.entries[i].0.clone();
            out.push(name);
            assert(out.deep_view() =~= before.push(self.keys()[i as int]));
            assert(self.keys().take(i + 1) =~= self.keys().take(i as int).push(
                self.keys()[i as int],
            ));
            i += 1;
        }
        assert(self.keys().take(self.keys().len() as int) =~= self.keys());
        out
    }

    /// Enters a value under a name, in place of the one that was there.
    pub fn insert(&mut self, key: String, value: V)
        ensures
            final(self).lookup(key@) == Some(value),
            forall|k: Seq<char>| k != key@ ==> #[trigger] final(self).lookup(k) == old(self).lookup(k),
            final(self).keys() == if old(self).keys().contains(key@) {
                old(self).keys()
            } else {
                old(self).keys().push(key@)
            },
            final(self).wf(),
    {
        proof {
            use_type_invariant(&*self);
        }
        let ghost before = *self;
        let found = self.position(&key);
        let mut entries: Vec<(String, V)> = Vec::new();
        std::mem::swap(&mut entries, &mut self.entries);
        let ghost k0 = key@;
        let at: usize = match found {
            Some(i) => {
                assert(before.keys()[i as int] == k0);
                entries.set(i, (key, value));
                assert(names_of(entries@) =~= before.keys());
                i
            },
            None => {
                let i: usize = entries.len();
                entries.push((key, value));
                assert(names_of(entries@) =~= before.keys().push(k0));
                i
            },
        };
        self.entries = entries;
        proof {
            let after = *self;
            assert(after.keys()[at as int] == k0);
            assert(after.keys().contains(k0));
            assert(after.keys().index_of(k0) == at);
            assert forall|k: Seq<char>| k != k0 implies #[trigger] after.lookup(k) == before.lookup(k) by {
                if before.keys().contains(k) {
                    let i = before.keys().index_of(k);
                    assert(after.keys()[i] == k);
                    assert(after.keys().contains(k));
                    assert(after.keys().index_of(k) == i);
                } else if after.keys().contains(k) {
                    let i = after.keys().index_of(k);
                    assert(after.keys()[i] == k);
                    assert(before.keys()[i] == k);
                }
            }
        }
    }
}

impl<V> Default for AliasTable<V> {
    fn default() -> (r: Self)
        ensures
            r.contents() == Seq::<(String, V)>::empty(),
            r.keys() == Seq::<Seq<char>>::empty(),
    {
        AliasTable::new()
    }
}

} // verus!
