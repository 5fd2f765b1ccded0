//! The symbol table: the names that are visible at a point of a compile pass,
//! each bound to its storage location.

use vstd::prelude::*;
use crate::unit::Location;

verus! {

/// One name with the storage location that it is bound to.
#[derive(Debug, PartialEq, Eq)]
pub struct Binding {
    pub name: String,
    pub location: Location,
}

/// A mapping from names to storage locations.  Binding a name again replaces
/// its entry.
#[derive(Debug, PartialEq, Eq)]
pub struct SymbolTable {
    entries: Vec<Binding>,
}

/// The mapping that a sequence of bindings stands for: a later binding of a
/// name overrides an earlier one.
pub open spec fn bindings(pairs: Seq<(Seq<char>, Location)>) -> Map<Seq<char>, Location>
    decreases pairs.len(),
{
    if pairs.len() == 0 {
        Map::empty()
    } else {
        bindings(pairs.drop_last()).insert(pairs.last().0, pairs.last().1)
    }
}

/// Replacing the latest binding of a name gives the mapping with that name
/// bound anew.
proof fn lemma_rebind(pairs: Seq<(Seq<char>, Location)>, i: int, location: Location)
    requires
        0 <= i < pairs.len(),
        forall|k: int| i < k < pairs.len() ==> pairs[k].0 != pairs[i].0,
    ensures
        bindings(pairs.update(i, (pairs[i].0, location))) =~= bindings(pairs).insert(
            pairs[i].0,
            location,
        ),
    decreases pairs.len(),
{
    let updated = pairs.update(i, (pairs[i].0, location));
    if i == pairs.len() - 1 {
        assert(updated.drop_last() =~= pairs.drop_last());
    } else {
        assert(updated.drop_last() =~= pairs.drop_last().update(i, (pairs[i].0, location)));
        lemma_rebind(pairs.drop_last(), i, location);
    }
}

impl SymbolTable {
    /// The bindings as pairs of a name and its location, oldest first.
    pub closed spec fn pairs(&self) -> Seq<(Seq<char>, Location)> {
        self.entries@.map_values(|binding: Binding| (binding.name@, binding.location))
    }

    /// The number of entries.
    pub closed spec fn spec_len(&self) -> nat {
        self.entries@.len()
    }

    /// A table without entries.
    pub fn new() -> (table: SymbolTable)
        ensures
            table@ == Map::<Seq<char>, Location>::empty(),
            table.spec_len() == 0,
    {
        let table = SymbolTable { entries: Vec::new() };
        table
    }

    /// The number of entries.
    pub fn len(&self) -> (n: usize)
        ensures
            n == self.spec_len(),
    {
        self.entries.len()
    }

    /// The index of the entry that binds `name`, if there is one.
    fn find(&self, name: &String) -> (found: Option<usize>)
        ensures
            match found {
                Some(i) => {
                    &&& i < self.pairs().len()
                    &&& self.pairs()[i as int].0 == name@
                    &&& forall|k: int| i < k < self.pairs().len() ==> self.pairs()[k].0 != name@
                    &&& self@.contains_key(name@)
                    &&& self@[name@] == self.pairs()[i as int].1
                },
                None => !self@.contains_key(name@),
            },
    {
        let mut upto: usize = self.entries.len();
        assert(self.pairs().take(upto as int) =~= self.pairs());
        while upto > 0
            invariant
                upto <= self.entries.len(),
                forall|k: int| upto <= k < self.pairs().len() ==> self.pairs()[k].0 != name@,
                self@.contains_key(name@) == bindings(self.pairs().take(upto as int)).contains_key(
                    name@,
                ),
                self@.contains_key(name@) ==> self@[name@] == bindings(
                    self.pairs().take(upto as int),
                )[name@],
            decreases upto,
        {
            let ghost prefix = self.pairs().take(upto as int);
            assert(prefix.drop_last() =~= self.pairs().take(upto - 1));
            if self.entries[upto - 1].name == *name {
                return Some(upto - 1);
            }
            upto = upto - 1;
        }
        None
    }

    /// The location that `name` is bound to, if it is bound.
    pub fn get(&self, name: &String) -> (found: Option<Location>)
        ensures
            found == (if self@.contains_key(name@) {
                Some(self@[name@])
            } else {
                None
            }),
    {
        match self.find(name) {
            Some(i) => Some(self.entries[i].location),
            None => None,
        }
    }

    /// Binds `name` to `location`.  An entry of that name is replaced; no
    /// second one is made.
    pub fn insert(&mut self, name: String, location: Location)
        ensures
            final(self)@ == old(self)@.insert(name@, location),
            final(self).spec_len() == old(self).spec_len() + (if old(self)@.contains_key(name@) {
                0nat
            } else {
                1nat
            }),
    {
        match self.find(&name) {
            Some(i) => {
                self.entries[i].location = location;
                proof {
                    lemma_rebind(old(self).pairs(), i as int, location);
                    assert(self.pairs() =~= old(self).pairs().update(
                        i as int,
                        (old(self).pairs()[i as int].0, location),
                    ));
                }
            },
            None => {
                self.entries.push(Binding { name, location });
                proof {
                    assert(self.pairs().drop_last() =~= old(self).pairs());
                }
            },
        }
    }
}

impl View for SymbolTable {
    type V = Map<Seq<char>, Location>;

    closed spec fn view(&self) -> Map<Seq<char>, Location> {
        bindings(self.pairs())
    }
}

impl Clone for SymbolTable {
    /// A table with the same bindings.
    fn clone(&self) -> (copy: SymbolTable)
        ensures
            copy@ == self@,
            copy.spec_len() == self.spec_len(),
    {
        let mut entries: Vec<Binding> = Vec::new();
        let mut i: usize = 0;
        while i < self.entries.len()
            invariant
                i <= self.entries.len(),
                entries.len() == i,
                forall|k: int|
                    0 <= k < i ==> entries[k].name@ == self.entries[k].name@ && entries[k].location
                        == self.entries[k].location,
            decreases self.entries.len() - i,
        {
            entries.push(
                Binding { name: self.entries[i].name.clone(), location: self.entries[i].location },
            );
            i = i + 1;
        }
        let copy = SymbolTable { entries };
        assert(copy.pairs() =~= self.pairs());
        copy
    }
}

} // verus!
