//! The name binding frame: flat tables from source names to identifiers.
//! A name is bound once; binding it again overwrites the identifier in
//! place.

use vstd::prelude::*;

verus! {

pub struct Binding {
    pub name: String,
    pub id: u64,
}

/// A table of bindings, in the order in which the names were first bound.
pub struct NameTable {
    pub entries: Vec<Binding>,
}

/// A table as a mathematical value: names and identifiers, in order.
pub type Names = Seq<(Seq<char>, u64)>;

/// The position of the first binding of `name`.
pub open spec fn position(table: Names, name: Seq<char>) -> Option<int>
    decreases table.len(),
{
    if table.len() == 0 {
        None
    } else {
        match position(table.drop_last(), name) {
            Some(i) => Some(i),
            None => if table.last().0 == name {
                Some(table.len() - 1)
            } else {
                None
            },
        }
    }
}

/// The identifier that `name` is bound to.
pub open spec fn lookup(table: Names, name: Seq<char>) -> Option<u64> {
    match position(table, name) {
        Some(i) => Some(table[i].1),
        None => None,
    }
}

/// The table after `name` is bound to `id`: an earlier binding of the name
/// is overwritten, a new name is appended.
pub open spec fn bind(table: Names, name: Seq<char>, id: u64) -> Names {
    match position(table, name) {
        Some(i) => table.update(i, (name, id)),
        None => table.push((name, id)),
    }
}

/// The identifiers that are bound, in the order of the table.
pub open spec fn bound_ids(table: Names) -> Seq<u64> {
    Seq::new(table.len(), |i: int| table[i].1)
}

/// No name is bound twice.
pub open spec fn distinct_names(table: Names) -> bool {
    forall|i: int, j: int|
        0 <= i < j < table.len() ==> (#[trigger] table[i]).0 != (#[trigger] table[j]).0
}

pub proof fn lemma_position(table: Names, name: Seq<char>)
    ensures
        match position(table, name) {
            Some(i) => 0 <= i < table.len() && table[i].0 == name && forall|j: int|
                0 <= j < i ==> (#[trigger] table[j]).0 != name,
            None => forall|j: int| 0 <= j < table.len() ==> (#[trigger] table[j]).0 != name,
        },
    decreases table.len(),
{
    if table.len() > 0 {
        let rest = table.drop_last();
        lemma_position(rest, name);
        match position(rest, name) {
            Some(i) => {
                assert(rest[i] == table[i]);
                assert forall|j: int| 0 <= j < i implies (#[trigger] table[j]).0 != name by {
                    assert(rest[j] == table[j]);
                }
            },
            None => {
                assert forall|j: int| 0 <= j < table.len() - 1 implies (#[trigger] table[j]).0
                    != name by {
                    assert(rest[j] == table[j]);
                }
            },
        }
    }
}

/// The first binding of a name within a prefix is its first binding overall.
pub proof fn lemma_position_prefix(table: Names, name: Seq<char>, n: int)
    requires
        0 <= n <= table.len(),
        position(table.take(n), name) is Some,
    ensures
        position(table, name) == position(table.take(n), name),
    decreases table.len() - n,
{
    if n < table.len() {
        assert(table.take(n + 1).drop_last() =~= table.take(n));
        lemma_position_prefix(table, name, n + 1);
    } else {
        assert(table.take(n) =~= table);
    }
}

/// Binding keeps the names apart; afterwards the name is bound to the new
/// identifier and every other name to what it was bound to.
pub proof fn lemma_bind(table: Names, name: Seq<char>, id: u64, other: Seq<char>)
    requires
        distinct_names(table),
    ensures
        distinct_names(bind(table, name, id)),
        lookup(bind(table, name, id), other) == if other == name {
            Some(id)
        } else {
            lookup(table, other)
        },
{
    let after = bind(table, name, id);
    lemma_position(table, name);
    lemma_position(table, other);
    lemma_position(after, other);
    match position(table, name) {
        Some(i) => {
            assert forall|a: int, b: int| 0 <= a < b < after.len() implies (
            #[trigger] after[a]).0 != (#[trigger] after[b]).0 by {
                assert(table[a].0 != table[b].0);
            }
            assert(after[i].0 == name);
            match position(table, other) {
                Some(k) => {
                    assert(after[k].0 == other);
                    match position(after, other) {
                        Some(m) => {
                            if m < k {
                                assert(table[m].0 == after[m].0);
                            }
                            if k < m {
                            }
                        },
                        None => {},
                    }
                },
                None => {
                    match position(after, other) {
                        Some(m) => {
                            assert(table[m].0 == after[m].0);
                        },
                        None => {},
                    }
                },
            }
        },
        None => {
            let n = table.len() as int;
            assert(after[n].0 == name);
            assert forall|a: int, b: int| 0 <= a < b < after.len() implies (
            #[trigger] after[a]).0 != (#[trigger] after[b]).0 by {
                if b < n {
                    assert(table[a].0 != table[b].0);
                } else {
                    assert(after[a] == table[a]);
                }
            }
            match position(table, other) {
                Some(k) => {
                    assert(after[k] == table[k]);
                    match position(after, other) {
                        Some(m) => {
                            if m < k {
                                assert(after[m] == table[m]);
                            }
                        },
                        None => {},
                    }
                },
                None => {
                    match position(after, other) {
                        Some(m) => {
                            if m < n {
                                assert(after[m] == table[m]);
                            }
                        },
                        None => {},
                    }
                },
            }
        },
    }
}

impl View for NameTable {
    type V = Names;

    open spec fn view(&self) -> Names {
        Seq::new(self.entries@.len(), |i: int| (self.entries@[i].name@, self.entries@[i].id))
    }
}

impl NameTable {
    pub fn new() -> (table: NameTable)
        ensures
            table@ == Seq::<(Seq<char>, u64)>::empty(),
            distinct_names(table@),
    {
        let table = NameTable { entries: Vec::new() };
        assert(table@ =~= Seq::<(Seq<char>, u64)>::empty());
        table
    }

    /// The index of the first binding of `name`.
    fn find(&self, name: &String) -> (r: Option<usize>)
        ensures
            match r {
                Some(i) => position(self@, name@) == Some(i as int) && i < self.entries@.len(),
                None => position(self@, name@) is None,
            },
    {
        let mut i: usize = 0;
        while i < self.entries.len()
            invariant
                0 <= i <= self.entries@.len(),
                position(self@.take(i as int), name@) is None,
            decreases self.entries@.len() - i,
        {
            assert(self@.take(i + 1).drop_last() =~= self@.take(i as int));
            if self.entries[i].name == *name {
                proof {
                    lemma_position_prefix(self@, name@, i + 1);
                }
                return Some(i);
            }
            i += 1;
        }
        assert(self@.take(i as int) =~= self@);
        None
    }

    /// The identifier that `name` is bound to.
    pub fn get(&self, name: &String) -> (r: Option<u64>)
        ensures
            r == lookup(self@, name@),
    {
        match self.find(name) {
            Some(i) => Some(self.entries[i].id),
            None => None,
        }
    }

    /// Binds `name` to `id`, over an earlier binding of the name if there is
    /// one.
    pub fn insert(&mut self, name: String, id: u64)
        ensures
            final(self)@ == bind(old(self)@, name@, id),
            distinct_names(old(self)@) ==> distinct_names(final(self)@),
    {
        proof {
            if distinct_names(self@) {
                lemma_bind(self@, name@, id, name@);
            }
        }
        match self.find(&name) {
            Some(i) => {
                self.entries.set(i, Binding { name, id });
                assert(self@ =~= bind(old(self)@, name@, id));
            },
            None => {
                self.entries.push(Binding { name, id });
                assert(self@ =~= bind(old(self)@, name@, id));
            },
        }
    }

    /// The identifiers that are bound, in the order of the table.
    pub fn ids(&self) -> (r: Vec<u64>)
        ensures
            r@ == bound_ids(self@),
    {
        let mut r: Vec<u64> = Vec::new();
        let mut i: usize = 0;
        while i < self.entries.len()
            invariant
                0 <= i <= self.entries@.len(),
                r@ == bound_ids(self@).take(i as int),
            decreases self.entries@.len() - i,
        {
            r.push(self.entries[i].id);
            assert(r@ =~= bound_ids(self@).take(i + 1));
            i += 1;
        }
        assert(r@ =~= bound_ids(self@));
        r
    }
}

} // verus!
