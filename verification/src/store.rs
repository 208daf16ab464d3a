//! The status store: one record per task id, ids unique.
//!
//! The store owns every record's state. Inserting a duplicate id is rejected
//! and leaves the existing record untouched; every write moves exactly one
//! record one allowed step forward and leaves all others unchanged.

use vstd::prelude::*;

use crate::record::{Task, TaskStatus};

verus! {

/// Some record in `s` carries the id `id`.
pub open spec fn contains_id(s: Seq<Task>, id: Seq<char>) -> bool {
    exists|i: int| 0 <= i < s.len() && s[i].id@ == id
}

/// No two records share an id.
pub open spec fn ids_distinct(s: Seq<Task>) -> bool {
    forall|i: int, j: int| 0 <= i < j < s.len() ==> s[i].id@ != s[j].id@
}

/// 1 for a `Processing` record, 0 otherwise.
pub open spec fn processing_weight(t: Task) -> nat {
    if t.status == TaskStatus::Processing {
        1nat
    } else {
        0nat
    }
}

/// How many records of `s` are currently `Processing`.
pub open spec fn count_processing(s: Seq<Task>) -> nat
    decreases s.len(),
{
    if s.len() == 0 {
        0
    } else {
        count_processing(s.drop_last()) + processing_weight(s.last())
    }
}

/// How many records of `s` carry the id `id`.
pub open spec fn count_with_id(s: Seq<Task>, id: Seq<char>) -> nat
    decreases s.len(),
{
    if s.len() == 0 {
        0
    } else {
        count_with_id(s.drop_last(), id) + (if s.last().id@ == id {
            1nat
        } else {
            0nat
        })
    }
}

/// Appending a record adds its weight to the `Processing` count.
pub proof fn lemma_count_processing_push(s: Seq<Task>, t: Task)
    ensures
        count_processing(s.push(t)) == count_processing(s) + processing_weight(t),
{
    assert(s.push(t).drop_last() =~= s);
}

/// Replacing the record at `i` adjusts the `Processing` count by the
/// difference of the two records' weights.
pub proof fn lemma_count_processing_update(s: Seq<Task>, i: int, t: Task)
    requires
        0 <= i < s.len(),
    ensures
        count_processing(s.update(i, t)) + processing_weight(s[i]) == count_processing(s)
            + processing_weight(t),
    decreases s.len(),
{
    let u = s.update(i, t);
    if i == s.len() - 1 {
        assert(u.drop_last() =~= s.drop_last());
        assert(u.last() == t);
    } else {
        assert(u.drop_last() =~= s.drop_last().update(i, t));
        assert(u.last() == s.last());
        lemma_count_processing_update(s.drop_last(), i, t);
    }
}

/// A `Processing` record witnesses that the `Processing` count is positive.
pub proof fn lemma_count_processing_at_least_one(s: Seq<Task>, k: int)
    requires
        0 <= k < s.len(),
        s[k].status == TaskStatus::Processing,
    ensures
        count_processing(s) >= 1,
    decreases s.len(),
{
    if k < s.len() - 1 {
        lemma_count_processing_at_least_one(s.drop_last(), k);
    }
}

/// In a store with distinct ids, an id that occurs at all occurs in exactly
/// one record.
pub proof fn lemma_unique_id_count(s: Seq<Task>, id: Seq<char>)
    requires
        ids_distinct(s),
    ensures
        contains_id(s, id) ==> count_with_id(s, id) == 1,
        !contains_id(s, id) ==> count_with_id(s, id) == 0,
    decreases s.len(),
{
    if s.len() > 0 {
        assert(forall|i: int, j: int|
            0 <= i < j < s.drop_last().len() ==> s.drop_last()[i].id@ != s.drop_last()[j].id@);
        lemma_unique_id_count(s.drop_last(), id);
        if s.last().id@ == id {
            assert(forall|i: int| 0 <= i < s.len() - 1 ==> s[i].id@ != id);
            assert(!contains_id(s.drop_last(), id));
        } else {
            if contains_id(s, id) {
                let w = choose|i: int| 0 <= i < s.len() && s[i].id@ == id;
                assert(s.drop_last()[w] == s[w]);
                assert(contains_id(s.drop_last(), id));
            }
        }
    }
}

/// The status store: a sequence of records with pairwise-distinct ids, each
/// internally well formed.
pub struct TaskStore {
    pub records: Vec<Task>,
}

impl View for TaskStore {
    type V = Seq<Task>;

    open spec fn view(&self) -> Seq<Task> {
        self.records@
    }
}

impl TaskStore {
    /// Ids are unique and every record is well formed.
    pub open spec fn wf(self) -> bool {
        &&& ids_distinct(self@)
        &&& forall|i: int| 0 <= i < self@.len() ==> (#[trigger] self@[i]).wf()
    }

    /// An empty store.
    pub fn new() -> (s: TaskStore)
        ensures
            s@ =~= Seq::<Task>::empty(),
            s.wf(),
    {
        TaskStore { records: Vec::new() }
    }

    /// The index of the record carrying `id`, if any.
    pub fn find_index(&self, id: &String) -> (r: Option<usize>)
        ensures
            match r {
                Some(i) => i < self@.len() && self@[i as int].id@ == id@,
                None => !contains_id(self@, id@),
            },
    {
        let mut i: usize = 0;
        while i < self.records.len()
            invariant
                i <= self@.len(),
                forall|j: int| 0 <= j < i ==> self@[j].id@ != id@,
            decreases self@.len() - i,
        {
            if self.records[i].id == *id {
                return Some(i);
            }
            i = i + 1;
        }
        None
    }

    /// The record carrying `id`, if any.
    pub fn get(&self, id: &String) -> (r: Option<&Task>)
        ensures
            match r {
                Some(t) => contains_id(self@, id@) && exists|i: int|
                    0 <= i < self@.len() && self@[i] == *t && self@[i].id@ == id@,
                None => !contains_id(self@, id@),
            },
    {
        match self.find_index(id) {
            Some(i) => Some(&self.records[i]),
            None => None,
        }
    }

    /// Insert a fresh record; a duplicate id is rejected and the store, the
    /// existing record included, is left exactly as it was.
    pub fn insert(&mut self, t: Task) -> (inserted: bool)
        requires
            old(self).wf(),
            t.wf(),
        ensures
            final(self).wf(),
            inserted == !contains_id(old(self)@, t.id@),
            inserted ==> final(self)@ =~= old(self)@.push(t),
            !inserted ==> *final(self) == *old(self),
    {
        match self.find_index(&t.id) {
            Some(_) => false,
            None => {
                let ghost prev = self@;
                self.records.push(t);
                proof {
                    assert(forall|i: int| 0 <= i < prev.len() ==> self@[i] == prev[i]);
                }
                true
            },
        }
    }
}

} // verus!
