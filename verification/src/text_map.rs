//! A small map from text to text.

use crate::assoc;
use crate::text;
use vstd::prelude::*;

verus! {

/// Keys and their values, each key at most once.
pub struct TextMap {
    entries: Vec<(String, String)>,
}

/// Keys and values in the order in which a map keeps them.
pub type Entries = Seq<(Seq<char>, Seq<char>)>;

impl View for TextMap {
    type V = Map<Seq<char>, Seq<char>>;

    open spec fn view(&self) -> Map<Seq<char>, Seq<char>> {
        assoc::map_of(self.entries())
    }
}

impl TextMap {
    /// The entries in the order in which the map keeps them.
    pub closed spec fn entries(&self) -> Entries {
        Seq::new(self.entries.len() as nat, |i: int| (self.entries[i].0@, self.entries[i].1@))
    }

    #[verifier::type_invariant]
    spec fn well_formed(self) -> bool {
        assoc::distinct_keys(self.entries())
    }

    /// A map without entries.
    pub fn new() -> (r: TextMap)
        ensures
            r.entries() == Entries::empty(),
            r@ == Map::<Seq<char>, Seq<char>>::empty(),
    {
        let r = TextMap { entries: Vec::new() };
        assert(r.entries() =~= Entries::empty());
        assert(r@ =~= Map::<Seq<char>, Seq<char>>::empty());
        r
    }

    /// How many entries the map has.
    pub fn len(&self) -> (r: usize)
        ensures
            r == self.entries().len(),
            assoc::distinct_keys(self.entries()),
    {
        proof {
            use_type_invariant(self);
        }
        self.entries.len()
    }

    /// The key and the value of entry `i`.
    pub fn entry(&self, i: usize) -> (r: (&str, &str))
        requires
            i < self.entries().len(),
        ensures
            (r.0@, r.1@) == self.entries()[i as int],
    {
        let e = &self.entries[i];
        (e.0.as_str(), e.1.as_str())
    }

    /// Where the entry for `key` is, or the number of entries.
    fn position(&self, key: &str) -> (r: usize)
        ensures
            r <= self.entries().len(),
            forall|j: int| 0 <= j < r ==> self.entries()[j].0 != key@,
            r < self.entries().len() ==> self.entries()[r as int].0 == key@,
    {
        let n = self.entries.len();
        let mut i: usize = 0;
        while i < n
            invariant
                n == self.entries.len(),
                i <= n,
                forall|j: int| 0 <= j < i ==> self.entries()[j].0 != key@,
            decreases n - i,
        {
            if text::equal(self.entries[i].0.as_str(), key) {
                return i;
            }
            i = i + 1;
        }
        n
    }

    /// The value for `key`.
    pub fn get(&self, key: &str) -> (r: Option<&str>)
        ensures
            match r {
                Some(v) => self@.contains_key(key@) && v@ == self@[key@],
                None => !self@.contains_key(key@),
            },
    {
        proof {
            use_type_invariant(self);
        }
        let i = self.position(key);
        if i < self.entries.len() {
            proof {
                assoc::lemma_map_of(self.entries(), i as int);
            }
            Some(self.entries[i].1.as_str())
        } else {
            None
        }
    }

    /// Makes `value` the value for `key`.
    pub fn insert(&mut self, key: &str, value: &str)
        ensures
            final(self)@ == old(self)@.insert(key@, value@),
    {
        proof {
            use_type_invariant(&*self);
        }
        let i = self.position(key);
        let ghost before = self.entries();
        let pair = (key.to_string(), value.to_string());
        let mut entries: Vec<(String, String)> = Vec::new();
        std::mem::swap(&mut entries, &mut self.entries);
        if i < entries.len() {
            entries.set(i, pair);
            proof {
                assoc::lemma_map_of_update(before, i as int, value@);
                assert(TextMap { entries }.entries() =~= before.update(
                    i as int,
                    (before[i as int].0, value@),
                ));
            }
        } else {
            entries.push(pair);
            proof {
                assoc::lemma_map_of_push(before, key@, value@);
                assert(TextMap { entries }.entries() =~= before.push((key@, value@)));
            }
        }
        self.entries = entries;
    }

    /// Takes the entry for `key` out, if there is one.
    pub fn remove(&mut self, key: &str)
        ensures
            final(self)@ == old(self)@.remove(key@),
    {
        proof {
            use_type_invariant(&*self);
        }
        let i = self.position(key);
        let ghost before = self.entries();
        let mut entries: Vec<(String, String)> = Vec::new();
        std::mem::swap(&mut entries, &mut self.entries);
        if i < entries.len() {
            entries.remove(i);
            proof {
                assoc::lemma_map_of_remove(before, i as int);
                assert(TextMap { entries }.entries() =~= before.remove(i as int));
            }
        } else {
            proof {
                assert(TextMap { entries }.entries() =~= before);
                assert(assoc::map_of(before).remove(key@) =~= assoc::map_of(before));
            }
        }
        self.entries = entries;
    }
}

} // verus!
