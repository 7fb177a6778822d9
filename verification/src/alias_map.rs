//! A small insertion-ordered map from aliases to values.
//!
//! Aliases are unique. The contents are spoken of as two sequences of equal
//! length, the aliases and their values, in the order of insertion.

use vstd::prelude::*;
use vstd::utf8::encode_utf8;
use vstd::utf8::encode_utf8_decode_utf8;
use crate::bytes::same_bytes;

verus! {

/// Whether two texts are the same.
pub fn same_text(a: &str, b: &str) -> (same: bool)
    ensures
        same == (a@ == b@),
{
    proof {
        encode_utf8_decode_utf8(a@);
        encode_utf8_decode_utf8(b@);
    }
    same_bytes(a.as_bytes(), b.as_bytes())
}

pub struct AliasMap<V> {
    entries: Vec<(String, V)>,
}

impl<V> AliasMap<V> {
    /// No alias occurs twice. This holds of every map.
    #[verifier::type_invariant]
    pub closed spec fn unique(&self) -> bool {
        forall|i: int, j: int|
            0 <= i < j < self.entries@.len() ==> (#[trigger] self.entries@[i]).0@
                != (#[trigger] self.entries@[j]).0@
    }

    /// The aliases, in the order of insertion.
    pub closed spec fn aliases(&self) -> Seq<Seq<char>> {
        Seq::new(self.entries@.len(), |i: int| self.entries@[i].0@)
    }

    /// The values, each at the position of its alias.
    pub closed spec fn values(&self) -> Seq<V> {
        Seq::new(self.entries@.len(), |i: int| self.entries@[i].1)
    }

    /// Whether `alias` is taken.
    pub open spec fn contains(&self, alias: Seq<char>) -> bool {
        exists|i: int| 0 <= i < self.aliases().len() && #[trigger] self.aliases()[i] == alias
    }

    /// The position of `alias`, where it is taken.
    pub open spec fn position(&self, alias: Seq<char>) -> int {
        choose|i: int| 0 <= i < self.aliases().len() && #[trigger] self.aliases()[i] == alias
    }

    /// The value stored under `alias`, where it is taken.
    pub open spec fn value_of(&self, alias: Seq<char>) -> V {
        self.values()[self.position(alias)]
    }

    /// The two sequences have one length and no alias occurs twice.
    pub proof fn lemma_shape(&self)
        requires
            self.unique(),
        ensures
            self.aliases().len() == self.values().len(),
            forall|i: int, j: int|
                0 <= i < self.aliases().len() && 0 <= j < self.aliases().len()
                    && #[trigger] self.aliases()[i] == #[trigger] self.aliases()[j] ==> i == j,
            forall|i: int|
                0 <= i < self.aliases().len() ==> self.contains(#[trigger] self.aliases()[i])
                    && self.position(self.aliases()[i]) == i,
    {
        assert forall|i: int, j: int|
            0 <= i < self.aliases().len() && 0 <= j < self.aliases().len()
                && #[trigger] self.aliases()[i] == #[trigger] self.aliases()[j] implies i == j by {
            if i < j {
                assert(self.entries@[i].0@ != self.entries@[j].0@);
            } else if j < i {
                assert(self.entries@[j].0@ != self.entries@[i].0@);
            }
        }
    }

    /// An empty map.
    pub fn new() -> (map: Self)
        ensures
            map.aliases() == Seq::<Seq<char>>::empty(),
            map.values() == Seq::<V>::empty(),
    {
        let map = AliasMap { entries: Vec::new() };
        assert(map.aliases() =~= Seq::<Seq<char>>::empty());
        assert(map.values() =~= Seq::<V>::empty());
        map
    }

    /// How many aliases are taken.
    pub fn len(&self) -> (n: usize)
        ensures
            n == self.aliases().len(),
            n == self.values().len(),
    {
        self.entries.len()
    }

    /// The alias at a position.
    pub fn alias_at(&self, at: usize) -> (alias: &String)
        requires
            at < self.aliases().len(),
        ensures
            alias@ == self.aliases()[at as int],
    {
        &self.entries[at].0
    }

    /// The value at a position.
    pub fn value_at(&self, at: usize) -> (value: &V)
        requires
            at < self.values().len(),
        ensures
            *value == self.values()[at as int],
    {
        &self.entries[at].1
    }

    /// The position of `alias`, or nothing where it is free.
    pub fn find(&self, alias: &str) -> (found: Option<usize>)
        ensures
            match found {
                Some(at) => self.contains(alias@) && at == self.position(alias@) && at
                    < self.aliases().len() && self.aliases()[at as int] == alias@,
                None => !self.contains(alias@),
            },
    {
        proof {
            use_type_invariant(self);
            self.lemma_shape();
        }
        let mut i: usize = 0;
        while i < self.entries.len()
            invariant
                i <= self.entries@.len(),
                forall|j: int| 0 <= j < i ==> self.aliases()[j] != alias@,
            decreases self.entries.len() - i,
        {
            if same_text(self.entries[i].0.as_str(), alias) {
                proof {
                    use_type_invariant(self);
                    self.lemma_shape();
                    assert(self.aliases()[i as int] == alias@);
                }
                return Some(i);
            }
            i += 1;
        }
        None
    }

    /// The value stored under `alias`, or nothing where it is free.
    pub fn get(&self, alias: &str) -> (found: Option<&V>)
        ensures
            match found {
                Some(value) => self.contains(alias@) && *value == self.value_of(alias@),
                None => !self.contains(alias@),
            },
    {
        match self.find(alias) {
            Some(at) => Some(&self.entries[at].1),
            None => None,
        }
    }

    /// Stores `value` under `alias` at the end, where the alias is free;
    /// leaves the map as it is, and says so, where it is taken.
    pub fn add(&mut self, alias: String, value: V) -> (added: bool)
        ensures
            added == !old(self).contains(alias@),
            added ==> final(self).aliases() == old(self).aliases().push(alias@) && final(self).values() == old(self).values().push(value),
            !added ==> final(self).aliases() == old(self).aliases() && final(self).values() == old(self).values(),
    {
        proof {
            use_type_invariant(&*self);
        }
        if self.find(alias.as_str()).is_some() {
            return false;
        }
        let ghost before = self.entries@;
        let ghost name = alias@;
        let mut entries: Vec<(String, V)> = Vec::new();
        std::mem::swap(&mut entries, &mut self.entries);
        entries.push((alias, value));
        proof {
            assert forall|i: int, j: int| 0 <= i < j < entries@.len() implies (
            #[trigger] entries@[i]).0@ != (#[trigger] entries@[j]).0@ by {
                if j == before.len() {
                    assert(old(self).aliases()[i] == before[i].0@);
                } else {
                    assert(before[i].0@ != before[j].0@);
                }
            }
        }
        self.entries = entries;
        proof {
            assert(self.aliases() =~= old(self).aliases().push(name));
            assert(self.values() =~= old(self).values().push(value));
        }
        true
    }

    /// Puts `value` in the place of what `alias` holds; leaves the map as it
    /// is, and says so, where the alias is free.
    pub fn replace(&mut self, alias: &str, value: V) -> (replaced: bool)
        ensures
            replaced == old(self).contains(alias@),
            final(self).aliases() == old(self).aliases(),
            replaced ==> final(self).values() == old(self).values().update(
                old(self).position(alias@),
                value,
            ),
            !replaced ==> final(self).values() == old(self).values(),
    {
        proof {
            use_type_invariant(&*self);
        }
        match self.find(alias) {
            None => false,
            Some(at) => {
                let ghost before = self.entries@;
                let mut entries: Vec<(String, V)> = Vec::new();
                std::mem::swap(&mut entries, &mut self.entries);
                let name = entries[at].0.clone();
                entries[at] = (name, value);
                proof {
                    assert forall|i: int, j: int| 0 <= i < j < entries@.len() implies (
                    #[trigger] entries@[i]).0@ != (#[trigger] entries@[j]).0@ by {
                        assert(before[i].0@ != before[j].0@);
                    }
                }
                self.entries = entries;
                proof {
                    assert(self.aliases() =~= old(self).aliases());
                    assert(self.values() =~= old(self).values().update(at as int, value));
                }
                true
            },
        }
    }

    /// Takes out `alias` and what it holds; the entries after it move up.
    pub fn remove(&mut self, alias: &str) -> (removed: Option<V>)
        ensures
            match removed {
                Some(value) => old(self).contains(alias@) && value == old(self).value_of(alias@)
                    && final(self).aliases() == old(self).aliases().remove(
                    old(self).position(alias@),
                ) && final(self).values() == old(self).values().remove(old(self).position(alias@))
                    && !final(self).contains(alias@),
                None => !old(self).contains(alias@) && final(self).aliases() == old(self).aliases()
                    && final(self).values() == old(self).values(),
            },
    {
        proof {
            use_type_invariant(&*self);
            self.lemma_shape();
        }
        match self.find(alias) {
            None => None,
            Some(at) => {
                let ghost before = self.entries@;
                let mut entries: Vec<(String, V)> = Vec::new();
                std::mem::swap(&mut entries, &mut self.entries);
                let entry = entries.remove(at);
                proof {
                    assert(entries@ == before.remove(at as int));
                    assert forall|i: int, j: int| 0 <= i < j < entries@.len() implies (
                    #[trigger] entries@[i]).0@ != (#[trigger] entries@[j]).0@ by {
                        let a = if i < at { i } else { i + 1 };
                        let b = if j < at { j } else { j + 1 };
                        assert(before[a].0@ != before[b].0@);
                    }
                }
                self.entries = entries;
                proof {
                    assert(self.aliases() =~= old(self).aliases().remove(at as int));
                    assert(self.values() =~= old(self).values().remove(at as int));
                    if self.contains(alias@) {
                        let w = self.position(alias@);
                        let a = if w < at { w } else { w + 1 };
                        assert(old(self).aliases()[a] == alias@);
                        assert(old(self).aliases()[at as int] == alias@);
                    }
                }
                Some(entry.1)
            },
        }
    }
}

} // verus!
