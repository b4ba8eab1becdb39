//! A table of distinct names, each with the id of its row: the first name has
//! id 1, and ids are never reused. Users and items are both kept this way.

use vstd::prelude::*;
use vstd::string::*;

verus! {

/// No name occurs twice.
pub open spec fn distinct(names: Seq<Seq<char>>) -> bool {
    forall|i: int, j: int| 0 <= i < j < names.len() ==> #[trigger] names[i] != #[trigger] names[j]
}

/// The id of a name: one more than its index, where the name is present.
pub open spec fn id_of(names: Seq<Seq<char>>, name: Seq<char>) -> Option<i64> {
    if names.contains(name) {
        Some((names.index_of(name) + 1) as i64)
    } else {
        None
    }
}

/// Whether an id names a row of a table with `n` rows.
pub open spec fn is_id(n: nat, id: i64) -> bool {
    1 <= id <= n
}

/// Among distinct names, the name at index `i` has id `i + 1`.
pub proof fn lemma_id_at(names: Seq<Seq<char>>, i: int)
    requires
        distinct(names),
        0 <= i < names.len(),
        names.len() <= i64::MAX,
    ensures
        names.contains(names[i]),
        id_of(names, names[i]) == Some((i + 1) as i64),
{
    assert(names.contains(names[i]));
    let j = names.index_of(names[i]);
    assert(0 <= j < names.len() && names[j] == names[i]);
    if j < i {
        assert(names[j] != names[i]);
    } else if i < j {
        assert(names[i] != names[j]);
    }
}

/// Appending an absent name gives it the next id and leaves the other ids alone.
pub proof fn lemma_id_after_push(names: Seq<Seq<char>>, name: Seq<char>, other: Seq<char>)
    requires
        distinct(names),
        !names.contains(name),
        names.len() < i64::MAX,
    ensures
        distinct(names.push(name)),
        id_of(names.push(name), name) == Some((names.len() + 1) as i64),
        other != name ==> id_of(names.push(name), other) == id_of(names, other),
{
    let after = names.push(name);
    assert forall|i: int, j: int| 0 <= i < j < after.len() implies #[trigger] after[i]
        != #[trigger] after[j] by {
        if j == names.len() {
            assert(after[i] == names[i]);
            assert(names.contains(names[i]));
        } else {
            assert(after[i] == names[i] && after[j] == names[j]);
        }
    }
    assert(after[names.len() as int] == name);
    lemma_id_at(after, names.len() as int);
    if other != name {
        if names.contains(other) {
            let i = names.index_of(other);
            assert(after[i] == other);
            lemma_id_at(after, i);
            lemma_id_at(names, i);
        } else if after.contains(other) {
            let i = after.index_of(other);
            assert(after[i] == other);
            assert(names[i] == other);
        }
    }
}

/// A table of distinct names.
pub struct NameTable {
    names: Vec<String>,
}

impl View for NameTable {
    type V = Seq<Seq<char>>;

    closed spec fn view(&self) -> Seq<Seq<char>> {
        Seq::new(self.names@.len(), |i: int| self.names@[i]@)
    }
}

impl NameTable {
    /// The names are distinct and their ids fit the id type.
    pub closed spec fn wf(&self) -> bool {
        distinct(self@) && self@.len() <= i64::MAX
    }

    /// What well-formedness says of the view.
    pub proof fn lemma_wf(&self)
        ensures
            self.wf() == (distinct(self@) && self@.len() <= i64::MAX),
    {
    }

    /// An empty table.
    pub fn new() -> (r: NameTable)
        ensures
            r.wf(),
            r@ == Seq::<Seq<char>>::empty(),
    {
        let r = NameTable { names: Vec::new() };
        assert(r@ =~= Seq::<Seq<char>>::empty());
        r
    }

    /// The number of rows, which is also the largest id in use.
    pub fn count(&self) -> (n: i64)
        requires
            self.wf(),
        ensures
            n == self@.len(),
    {
        self.names.len() as i64
    }

    /// Whether the table has room for one more row.
    pub fn has_room(&self) -> (r: bool)
        requires
            self.wf(),
        ensures
            r == (self@.len() < i64::MAX),
    {
        (self.names.len() as u64) < (i64::MAX as u64)
    }

    /// The id of a name, if the table has it.
    pub fn find(&self, name: &str) -> (r: Option<i64>)
        requires
            self.wf(),
        ensures
            r == id_of(self@, name@),
            r is Some ==> is_id(self@.len(), r->0) && self@[r->0 - 1] == name@,
            r is None ==> !self@.contains(name@),
    {
        let wanted = name.to_owned();
        let mut i: usize = 0;
        while i < self.names.len()
            invariant
                self.wf(),
                wanted@ == name@,
                i <= self.names@.len(),
                forall|j: int| 0 <= j < i ==> self@[j] != name@,
            decreases self.names@.len() - i,
        {
            if self.names[i] == wanted {
                proof {
                    assert(self@[i as int] == name@);
                    lemma_id_at(self@, i as int);
                }
                return Some((i + 1) as i64);
            }
            i += 1;
        }
        None
    }

    /// The name under an id.
    pub fn name(&self, id: i64) -> (r: &String)
        requires
            self.wf(),
            is_id(self@.len(), id),
        ensures
            r@ == self@[id - 1],
    {
        let n: usize = self.names.len();
        assert(id - 1 < n);
        let index: usize = (id - 1) as usize;
        &self.names[index]
    }

    /// The names, by ascending id.
    pub fn names(&self) -> (r: Vec<String>)
        ensures
            r.deep_view() == self@,
    {
        let mut r: Vec<String> = Vec::new();
        let mut i: usize = 0;
        while i < self.names.len()
            invariant
                i <= self.names@.len(),
                r@.len() == i,
                forall|j: int| 0 <= j < i ==> (#[trigger] r@[j])@ == self.names@[j]@,
            decreases self.names@.len() - i,
        {
            r.push(self.names[i].clone());
            i += 1;
        }
        assert(r.deep_view() =~= self@);
        r
    }

    /// Adds an absent name as the last row and returns its id.
    pub fn add(&mut self, name: &str) -> (id: i64)
        requires
            old(self).wf(),
            !old(self)@.contains(name@),
            old(self)@.len() < i64::MAX,
        ensures
            final(self).wf(),
            final(self)@ == old(self)@.push(name@),
            id == old(self)@.len() + 1,
            id_of(final(self)@, name@) == Some(id),
    {
        proof {
            lemma_id_after_push(self@, name@, name@);
        }
        self.names.push(name.to_owned());
        assert(self@ =~= old(self)@.push(name@));
        self.names.len() as i64
    }
}

} // verus!
