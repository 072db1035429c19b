//! A small map from names to values.

use crate::text;
use vstd::prelude::*;
use vstd::string::*;

verus! {

/// A map from names to values, in which no name occurs twice.
pub struct Registry<V> {
    entries: Vec<(String, V)>,
}

impl<V> Registry<V> {
    /// Whether the entry at `i` has this name.
    spec fn named(self, i: int, name: Seq<char>) -> bool {
        0 <= i < self.entries@.len() && self.entries@[i].0@ == name
    }

    /// Whether no name occurs twice.
    pub closed spec fn wf(self) -> bool {
        forall|i: int, j: int|
            0 <= i < j < self.entries@.len() ==> (#[trigger] self.entries@[i]).0@ != (
            #[trigger] self.entries@[j]).0@
    }
}

impl<V> View for Registry<V> {
    type V = Map<Seq<char>, V>;

    closed spec fn view(&self) -> Map<Seq<char>, V> {
        Map::new(
            |name: Seq<char>| exists|i: int| self.named(i, name),
            |name: Seq<char>| self.entries@[choose|i: int| self.named(i, name)].1,
        )
    }
}

impl<V: Copy> Registry<V> {
    proof fn lemma_entry(self, i: int)
        requires
            self.wf(),
            0 <= i < self.entries@.len(),
        ensures
            self@.dom().contains(self.entries@[i].0@),
            self@[self.entries@[i].0@] == self.entries@[i].1,
    {
        let name = self.entries@[i].0@;
        assert(self.named(i, name));
        let j = choose|j: int| self.named(j, name);
        assert(self.named(j, name));
        assert(i == j);
    }

    proof fn lemma_no_entry(self, name: Seq<char>)
        requires
            forall|i: int| 0 <= i < self.entries@.len() ==> (#[trigger] self.entries@[i]).0@ != name,
        ensures
            !self@.dom().contains(name),
    {
        if self@.dom().contains(name) {
            let i = choose|i: int| self.named(i, name);
            assert(self.named(i, name));
        }
    }

    proof fn lemma_has_entry(self, name: Seq<char>) -> (i: int)
        requires
            self.wf(),
            self@.dom().contains(name),
        ensures
            0 <= i < self.entries@.len(),
            self.entries@[i].0@ == name,
            self@[name] == self.entries@[i].1,
    {
        let i = choose|i: int| self.named(i, name);
        assert(self.named(i, name));
        i
    }

    /// An empty map.
    pub fn new() -> (out: Self)
        ensures
            out.wf(),
            out@ == Map::<Seq<char>, V>::empty(),
    {
        let out = Registry { entries: Vec::new() };
        proof {
            assert forall|name: Seq<char>| !out@.dom().contains(name) by {
                out.lemma_no_entry(name);
            }
            assert(out@ =~= Map::<Seq<char>, V>::empty());
        }
        out
    }

    fn find(&self, name: &String) -> (at: Option<usize>)
        ensures
            match at {
                Some(i) => i < self.entries@.len() && self.entries@[i as int].0@ == name@,
                None => forall|i: int|
                    0 <= i < self.entries@.len() ==> (#[trigger] self.entries@[i]).0@ != name@,
            },
    {
        let mut i: usize = 0;
        while i < self.entries.len()
            invariant
                i <= self.entries@.len(),
                forall|j: int| 0 <= j < i ==> (#[trigger] self.entries@[j]).0@ != name@,
            decreases self.entries@.len() - i,
        {
            if self.entries[i].0 == *name {
                return Some(i);
            }
            i += 1;
        }
        None
    }

    /// Whether the map has no entry.
    pub fn is_empty(&self) -> (out: bool)
        requires
            self.wf(),
        ensures
            out == (self@ == Map::<Seq<char>, V>::empty()),
    {
        let out = self.entries.len() == 0;
        proof {
            if out {
                assert forall|name: Seq<char>| !self@.dom().contains(name) by {
                    self.lemma_no_entry(name);
                }
                assert(self@ =~= Map::<Seq<char>, V>::empty());
            } else {
                self.lemma_entry(0);
            }
        }
        out
    }

    /// The value under a name.
    pub fn get(&self, name: &String) -> (out: Option<V>)
        requires
            self.wf(),
        ensures
            out == (if self@.dom().contains(name@) {
                Some(self@[name@])
            } else {
                None
            }),
    {
        match self.find(name) {
            Some(i) => {
                proof {
                    self.lemma_entry(i as int);
                }
                Some(self.entries[i].1)
            },
            None => {
                proof {
                    self.lemma_no_entry(name@);
                }
                None
            },
        }
    }

    /// Puts a value under a name, in place of an earlier one, which is given
    /// back.
    pub fn insert(&mut self, name: String, value: V) -> (out: Option<V>)
        requires
            old(self).wf(),
        ensures
            final(self).wf(),
            final(self)@ == old(self)@.insert(name@, value),
            out == (if old(self)@.dom().contains(name@) {
                Some(old(self)@[name@])
            } else {
                None
            }),
    {
        let earlier = self.get(&name);
        let ghost before = *self;
        let ghost key = name@;
        let place = self.find(&name);
        let ghost at = match place {
            Some(i) => i as int,
            None => before.entries@.len() as int,
        };
        match place {
            Some(i) => {
                self.entries.set(i, (name, value));
            },
            None => {
                self.entries.push((name, value));
            },
        }
        proof {
            let after = *self;
            assert(after.wf());
            assert forall|k: Seq<char>| after@.dom().contains(k) == before@.insert(
                key,
                value,
            ).dom().contains(k) by {
                if after@.dom().contains(k) && k != key {
                    let i = after.lemma_has_entry(k);
                    assert(before.entries@[i].0@ == k);
                    before.lemma_entry(i);
                }
                if before@.dom().contains(k) && k != key {
                    let i = before.lemma_has_entry(k);
                    assert(after.entries@[i].0@ == k);
                    after.lemma_entry(i);
                }
                if k == key {
                    assert(after.entries@[at].0@ == key);
                    after.lemma_entry(at);
                }
            }
            assert forall|k: Seq<char>| after@.dom().contains(k) implies #[trigger] after@[k]
                == before@.insert(key, value)[k] by {
                let i = after.lemma_has_entry(k);
                if k != key {
                    assert(before.entries@[i].0@ == k);
                    before.lemma_entry(i);
                }
            }
            assert(after@ =~= before@.insert(key, value));
        }
        earlier
    }

    /// Takes a name out of the map, and gives its value back.
    pub fn remove(&mut self, name: &String) -> (out: Option<V>)
        requires
            old(self).wf(),
        ensures
            final(self).wf(),
            final(self)@ == old(self)@.remove(name@),
            out == (if old(self)@.dom().contains(name@) {
                Some(old(self)@[name@])
            } else {
                None
            }),
    {
        let earlier = self.get(name);
        let ghost before = *self;
        match self.find(name) {
            Some(at) => {
                let _ = self.entries.remove(at);
                proof {
                    let after = *self;
                    let p = at as int;
                    assert forall|i: int| 0 <= i < after.entries@.len() implies (
                    #[trigger] after.entries@[i]) == before.entries@[if i < p {
                        i
                    } else {
                        i + 1
                    }] by {}
                    assert(after.wf());
                    assert forall|k: Seq<char>| after@.dom().contains(k) == before@.remove(
                        name@,
                    ).dom().contains(k) by {
                        if after@.dom().contains(k) {
                            let i = after.lemma_has_entry(k);
                            let j = if i < p {
                                i
                            } else {
                                i + 1
                            };
                            assert(before.entries@[j].0@ == k);
                            before.lemma_entry(j);
                        }
                        if before@.dom().contains(k) && k != name@ {
                            let j = before.lemma_has_entry(k);
                            let i = if j < p {
                                j
                            } else {
                                j - 1
                            };
                            assert(after.entries@[i].0@ == k);
                            after.lemma_entry(i);
                        }
                    }
                    assert forall|k: Seq<char>|
                        after@.dom().contains(k) implies #[trigger] after@[k] == before@[k] by {
                        let i = after.lemma_has_entry(k);
                        let j = if i < p {
                            i
                        } else {
                            i + 1
                        };
                        assert(before.entries@[j].0@ == k);
                        before.lemma_entry(j);
                    }
                    assert(after@ =~= before@.remove(name@));
                }
            },
            None => {
                proof {
                    self.lemma_no_entry(name@);
                    assert(self@ =~= self@.remove(name@));
                }
            },
        }
        earlier
    }

    /// Lists the names, each once.
    pub fn names(&self) -> (out: Vec<String>)
        requires
            self.wf(),
        ensures
            text::texts(out@).no_duplicates(),
            forall|name: Seq<char>| #[trigger]
                self@.dom().contains(name) <==> text::texts(out@).contains(name),
    {
        let mut out: Vec<String> = Vec::new();
        let mut i: usize = 0;
        while i < self.entries.len()
            invariant
                i <= self.entries@.len(),
                out@.len() == i,
                forall|j: int| 0 <= j < i ==> (#[trigger] out@[j])@ == self.entries@[j].0@,
            decreases self.entries@.len() - i,
        {
            out.push(self.entries[i].0.clone());
            i += 1;
        }
        proof {
            let names = text::texts(out@);
            assert forall|name: Seq<char>| #[trigger]
                self@.dom().contains(name) <==> names.contains(name) by {
                if self@.dom().contains(name) {
                    let at = self.lemma_has_entry(name);
                    assert(names[at] == name);
                }
                if names.contains(name) {
                    let at = choose|at: int| 0 <= at < names.len() && names[at] == name;
                    self.lemma_entry(at);
                }
            }
            assert forall|a: int, b: int|
                0 <= a < names.len() && 0 <= b < names.len() && a != b implies names[a]
                != names[b] by {
                if a < b {
                    assert(self.entries@[a].0@ != self.entries@[b].0@);
                } else {
                    assert(self.entries@[b].0@ != self.entries@[a].0@);
                }
            }
        }
        out
    }

    /// Takes every name out of the map.
    pub fn clear(&mut self)
        ensures
            final(self).wf(),
            final(self)@ == Map::<Seq<char>, V>::empty(),
    {
        *self = Registry::new();
    }
}

} // verus!
