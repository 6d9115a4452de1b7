//! Laws of the store as a whole: what holds across entire runs of
//! operations, proved from the operations' contracts alone.

use vstd::prelude::*;
use crate::movie::MovieView;
use crate::store::{contains_id, index_of_id, record_of, unique_ids, lemma_unique_index,
    lemma_push_fresh_keeps_unique, lemma_update_same_id_keeps_unique, lemma_remove_keeps_unique,
    lemma_remove_only_occurrence};

verus! {

/// One successful store operation, as the laws speak of it: the record a
/// create appended, the id and new record of an update, the id of a delete.
pub enum StoreStep {
    Create(MovieView),
    Update(u128, MovieView),
    Delete(u128),
}

/// The store contents after one successful operation. A create appends its
/// record; an update overwrites in place; a delete removes one record.
pub open spec fn apply_step(s: Seq<MovieView>, step: StoreStep) -> Seq<MovieView> {
    match step {
        StoreStep::Create(m) => s.push(m),
        StoreStep::Update(id, m) => s.update(index_of_id(s, id), m),
        StoreStep::Delete(id) => s.remove(index_of_id(s, id)),
    }
}

/// Whether every step of `steps`, run in order from `s`, succeeds as the
/// store's contracts promise: a create appends a record under an id absent
/// at its turn; an update or delete needs its id present at its turn, and
/// an update's new record carries the id it is stored under.
pub open spec fn steps_succeed(s: Seq<MovieView>, steps: Seq<StoreStep>) -> bool
    decreases steps.len(),
{
    steps.len() == 0 || {
        &&& (match steps[0] {
            StoreStep::Create(m) => !contains_id(s, m.id),
            StoreStep::Update(id, m) => contains_id(s, id) && m.id == id,
            StoreStep::Delete(id) => contains_id(s, id),
        })
        &&& steps_succeed(apply_step(s, steps[0]), steps.drop_first())
    }
}

/// The store contents after a whole run of successful operations.
pub open spec fn apply_steps(s: Seq<MovieView>, steps: Seq<StoreStep>) -> Seq<MovieView>
    decreases steps.len(),
{
    if steps.len() == 0 {
        s
    } else {
        apply_steps(apply_step(s, steps[0]), steps.drop_first())
    }
}

/// How many steps of `steps` are creates.
pub open spec fn count_creates(steps: Seq<StoreStep>) -> int
    decreases steps.len(),
{
    if steps.len() == 0 {
        0
    } else {
        (if steps[0] is Create { 1int } else { 0int }) + count_creates(steps.drop_first())
    }
}

/// How many steps of `steps` are deletes.
pub open spec fn count_deletes(steps: Seq<StoreStep>) -> int
    decreases steps.len(),
{
    if steps.len() == 0 {
        0
    } else {
        (if steps[0] is Delete { 1int } else { 0int }) + count_deletes(steps.drop_first())
    }
}

/// After N successful creates and M successful deletes (and any number of
/// updates, which keep the count), the store holds exactly N - M records
/// more than it started with: what a list then returns has that length.
pub proof fn lemma_record_count(s: Seq<MovieView>, steps: Seq<StoreStep>)
    requires
        steps_succeed(s, steps),
    ensures
        apply_steps(s, steps).len() == s.len() + count_creates(steps) - count_deletes(steps),
    decreases steps.len(),
{
    if steps.len() > 0 {
        let t = apply_step(s, steps[0]);
        match steps[0] {
            StoreStep::Create(m) => {},
            StoreStep::Update(id, m) => {
                let i = index_of_id(s, id);
                assert(0 <= i < s.len());
            },
            StoreStep::Delete(id) => {
                let i = index_of_id(s, id);
                assert(0 <= i < s.len());
            },
        }
        lemma_record_count(t, steps.drop_first());
    }
}

/// Identifiers returned by a run of creates are pairwise distinct: each
/// create hands out an id absent from the store it appends to, and creates
/// only ever append, so no later create can repeat an earlier id.
pub proof fn lemma_created_ids_distinct(s0: Seq<MovieView>, created: Seq<MovieView>)
    requires
        forall|k: int| 0 <= k < created.len()
            ==> !(#[trigger] contains_id(s0 + created.take(k), created[k].id)),
    ensures
        forall|i: int, j: int| 0 <= i < j < created.len() ==> created[i].id != created[j].id,
{
    assert forall|i: int, j: int| 0 <= i < j < created.len()
        implies created[i].id != created[j].id by {
        let t = s0 + created.take(j);
        assert(t[s0.len() + i] == created[i]);
        if created[i].id == created[j].id {
            assert(contains_id(t, created[j].id));
        }
    }
}

/// What a run of steps last did to the records under one id: never touched
/// it, last wrote this record under it (by create or update), or last
/// deleted it.
pub enum IdFate {
    Untouched,
    Written(MovieView),
    Deleted,
}

/// The fate of `id` under a run of steps: the latest step that creates,
/// updates or deletes `id` decides; with no such step the id is untouched.
pub open spec fn fate_of(steps: Seq<StoreStep>, id: u128) -> IdFate
    decreases steps.len(),
{
    if steps.len() == 0 {
        IdFate::Untouched
    } else {
        let later = fate_of(steps.drop_first(), id);
        if later is Untouched {
            match steps[0] {
                StoreStep::Create(m) => if m.id == id {
                    IdFate::Written(m)
                } else {
                    IdFate::Untouched
                },
                StoreStep::Update(wid, m) => if wid == id {
                    IdFate::Written(m)
                } else {
                    IdFate::Untouched
                },
                StoreStep::Delete(did) => if did == id {
                    IdFate::Deleted
                } else {
                    IdFate::Untouched
                },
            }
        } else {
            later
        }
    }
}

/// An update never loses or changes a record under another id.
proof fn lemma_update_preserves_others(s: Seq<MovieView>, i: int, m: MovieView, id: u128)
    requires
        unique_ids(s),
        0 <= i < s.len(),
        m.id == s[i].id,
        id != s[i].id,
    ensures
        contains_id(s.update(i, m), id) == contains_id(s, id),
        contains_id(s, id) ==> record_of(s.update(i, m), id) == record_of(s, id),
{
    lemma_update_same_id_keeps_unique(s, i, m);
    let t = s.update(i, m);
    if contains_id(s, id) {
        let k = index_of_id(s, id);
        assert(0 <= k < s.len() && s[k].id == id);
        assert(k != i);
        assert(t[k] == s[k]);
        lemma_unique_index(t, id, k);
        lemma_unique_index(s, id, k);
    }
    if contains_id(t, id) {
        let k = index_of_id(t, id);
        assert(0 <= k < t.len() && t[k].id == id);
        assert(k != i);
        assert(t[k] == s[k]);
        assert(contains_id(s, id));
    }
}

/// A delete never loses or changes a record under another id.
proof fn lemma_remove_preserves_others(s: Seq<MovieView>, i: int, id: u128)
    requires
        unique_ids(s),
        0 <= i < s.len(),
        id != s[i].id,
    ensures
        contains_id(s.remove(i), id) == contains_id(s, id),
        contains_id(s, id) ==> record_of(s.remove(i), id) == record_of(s, id),
{
    lemma_remove_keeps_unique(s, i);
    let t = s.remove(i);
    if contains_id(s, id) {
        let k = index_of_id(s, id);
        assert(0 <= k < s.len() && s[k].id == id);
        assert(k != i);
        let k2: int = if k < i { k } else { k - 1 };
        assert(t[k2] == s[k]);
        lemma_unique_index(t, id, k2);
        lemma_unique_index(s, id, k);
    }
    if contains_id(t, id) {
        let k = index_of_id(t, id);
        assert(0 <= k < t.len() && t[k].id == id);
        let k0: int = if k < i { k } else { k + 1 };
        assert(t[k] == s[k0]);
        assert(contains_id(s, id));
    }
}

/// The record under `id` after a successful run is decided by the run's
/// last word on `id`: untouched ids keep their record (or stay absent),
/// a last create or update leaves exactly the record it wrote, and a last
/// delete leaves the id absent. With `fate_of` spelling out "last-applied
/// create/update", this is the content half of the list-after-a-run law.
pub proof fn lemma_final_record_is_last_write(s: Seq<MovieView>, steps: Seq<StoreStep>, id: u128)
    requires
        unique_ids(s),
        steps_succeed(s, steps),
    ensures
        unique_ids(apply_steps(s, steps)),
        match fate_of(steps, id) {
            IdFate::Untouched => contains_id(apply_steps(s, steps), id) == contains_id(s, id)
                && (contains_id(s, id) ==> record_of(apply_steps(s, steps), id) == record_of(
                s,
                id,
            )),
            IdFate::Written(m) => m.id == id && contains_id(apply_steps(s, steps), id)
                && record_of(apply_steps(s, steps), id) == m,
            IdFate::Deleted => !contains_id(apply_steps(s, steps), id),
        },
    decreases steps.len(),
{
    if steps.len() > 0 {
        let t = apply_step(s, steps[0]);
        match steps[0] {
            StoreStep::Create(m0) => {
                lemma_push_fresh_keeps_unique(s, m0);
                if m0.id == id {
                    lemma_get_after_create(s, m0);
                } else {
                    lemma_create_preserves_others(s, m0, id);
                }
            },
            StoreStep::Update(wid, m0) => {
                let i = index_of_id(s, wid);
                assert(0 <= i < s.len() && s[i].id == wid);
                lemma_update_same_id_keeps_unique(s, i, m0);
                if wid == id {
                    assert(t[i] == m0);
                    lemma_unique_index(t, id, i);
                } else {
                    lemma_update_preserves_others(s, i, m0, id);
                }
            },
            StoreStep::Delete(did) => {
                let i = index_of_id(s, did);
                assert(0 <= i < s.len() && s[i].id == did);
                lemma_remove_keeps_unique(s, i);
                if did == id {
                    lemma_remove_only_occurrence(s, i);
                } else {
                    lemma_remove_preserves_others(s, i, id);
                }
            },
        }
        lemma_final_record_is_last_write(t, steps.drop_first(), id);
    }
}

/// A record just created is found again under its id: get straight after
/// create returns exactly the record that was stored.
pub proof fn lemma_get_after_create(s: Seq<MovieView>, m: MovieView)
    requires
        unique_ids(s),
        !contains_id(s, m.id),
    ensures
        unique_ids(s.push(m)),
        contains_id(s.push(m), m.id),
        record_of(s.push(m), m.id) == m,
{
    lemma_push_fresh_keeps_unique(s, m);
    let t = s.push(m);
    assert(t[s.len() as int] == m);
    lemma_unique_index(t, m.id, s.len() as int);
}

/// A create never loses or changes an existing record: every other id maps
/// to the same record before and after.
pub proof fn lemma_create_preserves_others(s: Seq<MovieView>, m: MovieView, id: u128)
    requires
        unique_ids(s),
        !contains_id(s, m.id),
        id != m.id,
    ensures
        contains_id(s.push(m), id) == contains_id(s, id),
        contains_id(s, id) ==> record_of(s.push(m), id) == record_of(s, id),
{
    lemma_push_fresh_keeps_unique(s, m);
    let t = s.push(m);
    if contains_id(s, id) {
        let i = index_of_id(s, id);
        assert(0 <= i < s.len() && s[i].id == id);
        assert(t[i] == s[i]);
        lemma_unique_index(t, id, i);
        lemma_unique_index(s, id, i);
    }
    if contains_id(t, id) {
        let i = index_of_id(t, id);
        assert(0 <= i < t.len() && t[i].id == id);
        assert(i < s.len());
        assert(contains_id(s, id));
    }
}

} // verus!
