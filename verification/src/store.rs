//! The mapping store: what a store answers to an insert and to a lookup, and
//! a store that keeps its mappings in memory.

use vstd::prelude::*;
use crate::code::ShortCode;
use crate::failure::{text_view, Failure};
use crate::validate::TargetUrl;

verus! {

/// The mappings of a store as a table from code to target. A table has one
/// target per code: that codes are unique is part of the model.
pub type Table = Map<Seq<char>, Seq<char>>;

/// One stored pair: a code and the target it stands for.
pub struct Mapping {
    pub code: ShortCode,
    pub target: TargetUrl,
}

/// What a lookup of `id` answers on a store that holds `table`.
pub open spec fn lookup_answer(table: Table, id: Seq<char>) -> Result<Seq<char>, Failure> {
    if table.dom().contains(id) {
        Ok(table[id])
    } else {
        Err(Failure::NotFound)
    }
}

/// What an insert of `target` under `code` answers on a store that holds
/// `table`: a taken code is a conflict, never an overwrite.
pub open spec fn insert_answer(table: Table, code: Seq<char>) -> Result<(), Failure> {
    if table.dom().contains(code) {
        Err(Failure::Conflict)
    } else {
        Ok(())
    }
}

/// The table that a store holds after an insert of `target` under `code`.
pub open spec fn insert_effect(table: Table, code: Seq<char>, target: Seq<char>) -> Table {
    if table.dom().contains(code) {
        table
    } else {
        table.insert(code, target)
    }
}

/// The table that a list of mappings spells out, read front to back.
spec fn table_of(entries: Seq<Mapping>) -> Table
    decreases entries.len(),
{
    if entries.len() == 0 {
        Map::empty()
    } else {
        table_of(entries.drop_last()).insert(entries.last().code@, entries.last().target@)
    }
}

/// Whether no code occurs twice in the list.
spec fn codes_distinct(entries: Seq<Mapping>) -> bool {
    forall|i: int, j: int|
        0 <= i < j < entries.len() ==> (#[trigger] entries[i]).code@ != (#[trigger] entries[j]).code@
}

proof fn lemma_table_domain(entries: Seq<Mapping>, id: Seq<char>)
    ensures
        table_of(entries).dom().contains(id) <==> exists|i: int|
            0 <= i < entries.len() && (#[trigger] entries[i]).code@ == id,
    decreases entries.len(),
{
    if entries.len() > 0 {
        let front = entries.drop_last();
        lemma_table_domain(front, id);
        if table_of(entries).dom().contains(id) {
            if entries.last().code@ == id {
                assert(entries[entries.len() - 1].code@ == id);
            } else {
                let i = choose|i: int| 0 <= i < front.len() && (#[trigger] front[i]).code@ == id;
                assert(entries[i].code@ == id);
            }
        }
        if exists|i: int| 0 <= i < entries.len() && (#[trigger] entries[i]).code@ == id {
            let i = choose|i: int| 0 <= i < entries.len() && (#[trigger] entries[i]).code@ == id;
            if i < front.len() {
                assert(front[i].code@ == id);
            }
        }
    }
}

proof fn lemma_table_entry(entries: Seq<Mapping>, i: int)
    requires
        codes_distinct(entries),
        0 <= i < entries.len(),
    ensures
        table_of(entries).dom().contains(entries[i].code@),
        table_of(entries)[entries[i].code@] == entries[i].target@,
    decreases entries.len(),
{
    let front = entries.drop_last();
    if i < front.len() {
        assert(codes_distinct(front)) by {
            assert forall|a: int, b: int| 0 <= a < b < front.len() implies (#[trigger] front[a]).code@
                != (#[trigger] front[b]).code@ by {
                assert(front[a] == entries[a] && front[b] == entries[b]);
            }
        }
        lemma_table_entry(front, i);
        assert(front[i] == entries[i]);
        assert(entries[i].code@ != entries[entries.len() - 1].code@);
    }
}

proof fn lemma_table_size(entries: Seq<Mapping>)
    requires
        codes_distinct(entries),
    ensures
        table_of(entries).dom().finite(),
        table_of(entries).dom().len() == entries.len(),
    decreases entries.len(),
{
    if entries.len() > 0 {
        let front = entries.drop_last();
        assert(codes_distinct(front)) by {
            assert forall|a: int, b: int| 0 <= a < b < front.len() implies (#[trigger] front[a]).code@
                != (#[trigger] front[b]).code@ by {
                assert(front[a] == entries[a] && front[b] == entries[b]);
            }
        }
        lemma_table_size(front);
        lemma_table_domain(front, entries.last().code@);
        if table_of(front).dom().contains(entries.last().code@) {
            let i = choose|i: int| 0 <= i < front.len() && (#[trigger] front[i]).code@ == entries.last().code@;
            assert(front[i] == entries[i]);
            assert(entries[i].code@ != entries[entries.len() - 1].code@);
        }
    }
}

/// A store that keeps its mappings in memory.
pub struct MemoryStore {
    entries: Vec<Mapping>,
}

impl View for MemoryStore {
    type V = Table;

    closed spec fn view(&self) -> Table {
        table_of(self.entries@)
    }
}

impl MemoryStore {
    #[verifier::type_invariant]
    spec fn well_formed(&self) -> bool {
        codes_distinct(self.entries@)
    }

    /// A store without mappings.
    pub fn new() -> (store: MemoryStore)
        ensures
            store@ == Map::<Seq<char>, Seq<char>>::empty(),
    {
        MemoryStore { entries: Vec::new() }
    }

    /// The number of mappings held.
    pub fn len(&self) -> (n: usize)
        ensures
            self@.dom().finite(),
            n == self@.dom().len(),
    {
        proof {
            use_type_invariant(self);
            lemma_table_size(self.entries@);
        }
        self.entries.len()
    }

    /// The target stored under `id`, or `NotFound` where the store holds no
    /// mapping under it. The store is left as it is.
    pub fn lookup(&self, id: &str) -> (r: Result<String, Failure>)
        ensures
            text_view(r) == lookup_answer(self@, id@),
    {
        let wanted = id.to_owned();
        let mut i: usize = 0;
        proof {
            use_type_invariant(self);
        }
        while i < self.entries.len()
            invariant
                i <= self.entries.len(),
                wanted@ == id@,
                codes_distinct(self.entries@),
                forall|j: int| 0 <= j < i ==> (#[trigger] self.entries@[j]).code@ != id@,
            decreases self.entries.len() - i,
        {
            if self.entries[i].code.reads(&wanted) {
                proof {
                    lemma_table_entry(self.entries@, i as int);
                }
                return Ok(self.entries[i].target.as_str().to_owned());
            }
            i += 1;
        }
        proof {
            lemma_table_domain(self.entries@, id@);
        }
        Err(Failure::NotFound)
    }

    /// Stores `target` under `code`, unless a mapping under `code` exists:
    /// that is a `Conflict`, and the store is left as it is. A stored mapping
    /// is never replaced.
    pub fn insert(&mut self, code: &ShortCode, target: &TargetUrl) -> (r: Result<(), Failure>)
        ensures
            r == insert_answer(old(self)@, code@),
            final(self)@ == insert_effect(old(self)@, code@, target@),
    {
        let mut i: usize = 0;
        proof {
            use_type_invariant(&*self);
        }
        while i < self.entries.len()
            invariant
                i <= self.entries.len(),
                *self == *old(self),
                codes_distinct(self.entries@),
                forall|j: int| 0 <= j < i ==> (#[trigger] self.entries@[j]).code@ != code@,
            decreases self.entries.len() - i,
        {
            if self.entries[i].code.same_as(code) {
                proof {
                    lemma_table_entry(self.entries@, i as int);
                }
                return Err(Failure::Conflict);
            }
            i += 1;
        }
        proof {
            lemma_table_domain(self.entries@, code@);
        }
        let mut entries: Vec<Mapping> = Vec::new();
        std::mem::swap(&mut self.entries, &mut entries);
        let ghost before = entries@;
        entries.push(Mapping { code: code.duplicate(), target: target.duplicate() });
        proof {
            assert(entries@.drop_last() =~= before);
            assert forall|a: int, b: int| 0 <= a < b < entries@.len() implies (#[trigger] entries@[a]).code@
                != (#[trigger] entries@[b]).code@ by {
                assert(before[a] == entries@[a]);
                if b < before.len() {
                    assert(before[b] == entries@[b]);
                }
            }
        }
        std::mem::swap(&mut self.entries, &mut entries);
        Ok(())
    }
}

} // verus!
