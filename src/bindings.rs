use vstd::prelude::*;
use crate::expr::{Expr, Term};

verus! {

/// A map from variable name to the expression bound to it.
///
/// Entries are kept in a vector with unique names; `model` is the map they
/// stand for.
pub struct Bindings {
    entries: Vec<(String, Expr)>,
    model: Ghost<Map<Seq<char>, Term>>,
}

impl View for Bindings {
    type V = Map<Seq<char>, Term>;

    closed spec fn view(&self) -> Map<Seq<char>, Term> {
        self.model@
    }
}

impl Bindings {
    /// Names are unique, and the entries are exactly the pairs of the map.
    pub closed spec fn wf(&self) -> bool {
        &&& forall|i: int, j: int|
            0 <= i < j < self.entries.len() ==> self.entries[i].0@ != self.entries[j].0@
        &&& forall|i: int|
            0 <= i < self.entries.len() ==> {
                &&& #[trigger] self.model@.contains_key(self.entries[i].0@)
                &&& self.model@[self.entries[i].0@] == self.entries[i].1@
            }
        &&& forall|k: Seq<char>|
            #[trigger] self.model@.contains_key(k) ==> exists|i: int|
                0 <= i < self.entries.len() && self.entries[i].0@ == k
    }

    /// The empty binding set.
    pub fn new() -> (r: Bindings)
        ensures
            r.wf(),
            r@ == Map::<Seq<char>, Term>::empty(),
    {
        Bindings { entries: Vec::new(), model: Ghost(Map::empty()) }
    }

    /// Position of the entry named `name`, if any.
    fn find(&self, name: &String) -> (r: Option<usize>)
        requires
            self.wf(),
        ensures
            match r {
                Some(i) => i < self.entries.len() && self.entries[i as int].0@ == name@,
                None => !self@.contains_key(name@),
            },
    {
        let mut i: usize = 0;
        while i < self.entries.len()
            invariant
                self.wf(),
                i <= self.entries.len(),
                forall|j: int| 0 <= j < i ==> self.entries[j].0@ != name@,
            decreases self.entries.len() - i,
        {
            if self.entries[i].0.eq(name) {
                return Some(i);
            }
            i = i + 1;
        }
        None
    }

    /// The expression bound to `name`, if there is one.
    pub fn get(&self, name: &String) -> (r: Option<&Expr>)
        requires
            self.wf(),
        ensures
            match r {
                Some(e) => self@.contains_key(name@) && e@ == self@[name@],
                None => !self@.contains_key(name@),
            },
    {
        match self.find(name) {
            Some(i) => {
                assert(self@.contains_key(self.entries[i as int].0@));
                Some(&self.entries[i].1)
            },
            None => None,
        }
    }

    /// Binds `name` to `value`, replacing an earlier binding of `name`.
    pub fn insert(&mut self, name: String, value: Expr)
        requires
            old(self).wf(),
        ensures
            final(self).wf(),
            final(self)@ == old(self)@.insert(name@, value@),
    {
        let ghost key = name@;
        let ghost v = value@;
        let ghost old_entries = self.entries@;
        let ghost old_model = self.model@;
        let ghost pos: int;
        match self.find(&name) {
            Some(i) => {
                self.entries.set(i, (name, value));
                proof {
                    pos = i as int;
                }
            },
            None => {
                self.entries.push((name, value));
                proof {
                    pos = old_entries.len() as int;
                }
            },
        }
        self.model = Ghost(old_model.insert(key, v));
        proof {
            assert(self.entries[pos].0@ == key);
            assert forall|i: int| 0 <= i < self.entries.len() && i != pos implies self.entries[i]
                == old_entries[i] && self.entries[i].0@ != key by {
                if i < pos {
                    assert(old_entries[i].0@ != old_entries[pos].0@ || pos == old_entries.len());
                }
                if i > pos {
                    assert(old_entries[pos].0@ != old_entries[i].0@);
                }
                if pos == old_entries.len() {
                    assert(old_model.contains_key(old_entries[i].0@));
                }
            }
            assert forall|k: Seq<char>| #[trigger] self.model@.contains_key(k) implies exists|i: int|
                0 <= i < self.entries.len() && self.entries[i].0@ == k by {
                if k != key {
                    let j = choose|j: int| 0 <= j < old_entries.len() && old_entries[j].0@ == k;
                    assert(self.entries[j].0@ == k);
                }
            }
            assert forall|i: int| 0 <= i < self.entries.len() implies {
                &&& #[trigger] self.model@.contains_key(self.entries[i].0@)
                &&& self.model@[self.entries[i].0@] == self.entries[i].1@
            } by {
                if i != pos {
                    assert(old_model.contains_key(old_entries[i].0@));
                }
            }
        }
    }
}

} // verus!
