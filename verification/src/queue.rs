//! First-in, first-out queues of task identifiers.

use std::collections::VecDeque;
use vstd::prelude::*;

use crate::message::TaskId;

verus! {

/// The index of the first occurrence of `id` in `queue`, or the length of
/// `queue` when `id` does not occur.
pub open spec fn position(queue: Seq<TaskId>, id: TaskId) -> int
    decreases queue.len(),
{
    if queue.len() == 0 {
        0
    } else if queue[0] == id {
        0
    } else {
        1 + position(queue.drop_first(), id)
    }
}

/// `queue` without the first occurrence of `id`.
pub open spec fn without(queue: Seq<TaskId>, id: TaskId) -> Seq<TaskId> {
    if position(queue, id) < queue.len() {
        queue.remove(position(queue, id))
    } else {
        queue
    }
}

/// `position` is the least index at which `id` stands.
pub proof fn lemma_position(queue: Seq<TaskId>, id: TaskId)
    ensures
        0 <= position(queue, id) <= queue.len(),
        position(queue, id) < queue.len() ==> queue[position(queue, id)] == id,
        forall|j: int| 0 <= j < position(queue, id) ==> queue[j] != id,
        position(queue, id) < queue.len() <==> queue.contains(id),
    decreases queue.len(),
{
    if queue.len() > 0 && queue[0] != id {
        let rest = queue.drop_first();
        lemma_position(rest, id);
        let p = position(rest, id);
        assert forall|j: int| 0 <= j < p + 1 implies queue[j] != id by {
            if j > 0 {
                assert(rest[j - 1] == queue[j]);
            }
        }
        if p < rest.len() {
            assert(queue[p + 1] == rest[p]);
        }
        if queue.contains(id) {
            let i = choose|i: int| 0 <= i < queue.len() && queue[i] == id;
            assert(rest[i - 1] == id);
        }
    }
}

/// Where `id` stands at `index` and nowhere before, `position` is `index`.
pub proof fn lemma_position_is(queue: Seq<TaskId>, id: TaskId, index: int)
    requires
        0 <= index <= queue.len(),
        index < queue.len() ==> queue[index] == id,
        forall|j: int| 0 <= j < index ==> queue[j] != id,
    ensures
        position(queue, id) == index,
{
    lemma_position(queue, id);
}

/// Taking `id` out of a queue without repetitions leaves a queue without
/// repetitions that holds every other member and not `id`.
pub proof fn lemma_without(queue: Seq<TaskId>, id: TaskId)
    requires
        queue.no_duplicates(),
    ensures
        without(queue, id).no_duplicates(),
        !without(queue, id).contains(id),
        forall|other: TaskId| other != id ==> without(queue, id).contains(other) == queue.contains(other),
        !queue.contains(id) ==> without(queue, id) == queue,
        queue.contains(id) ==> without(queue, id).len() == queue.len() - 1,
{
    lemma_position(queue, id);
    let p = position(queue, id);
    if p < queue.len() {
        let rest = queue.remove(p);
        assert forall|i: int, j: int| 0 <= i < rest.len() && 0 <= j < rest.len() && i != j implies rest[i] != rest[j] by {
            let a = if i < p { i } else { i + 1 };
            let b = if j < p { j } else { j + 1 };
            assert(rest[i] == queue[a] && rest[j] == queue[b]);
        }
        if rest.contains(id) {
            let i = choose|i: int| 0 <= i < rest.len() && rest[i] == id;
            let a = if i < p { i } else { i + 1 };
            assert(queue[a] == id && queue[p] == id);
        }
        assert forall|other: TaskId| other != id implies rest.contains(other) == queue.contains(other) by {
            if rest.contains(other) {
                let i = choose|i: int| 0 <= i < rest.len() && rest[i] == other;
                let a = if i < p { i } else { i + 1 };
                assert(queue[a] == other);
            }
            if queue.contains(other) {
                let a = choose|a: int| 0 <= a < queue.len() && queue[a] == other;
                let i = if a < p { a } else { a - 1 };
                assert(rest[i] == other);
            }
        }
    }
}

/// Adding a new member at the back of a queue without repetitions leaves
/// a queue without repetitions.
pub proof fn lemma_push_new(queue: Seq<TaskId>, id: TaskId)
    requires
        queue.no_duplicates(),
        !queue.contains(id),
    ensures
        queue.push(id).no_duplicates(),
        queue.push(id).contains(id),
        forall|other: TaskId| other != id ==> queue.push(id).contains(other) == queue.contains(other),
{
    let after = queue.push(id);
    assert forall|i: int, j: int| 0 <= i < after.len() && 0 <= j < after.len() && i != j implies after[i] != after[j] by {
        if i < queue.len() {
            assert(queue[i] == after[i]);
            assert(queue.contains(after[i]));
        }
        if j < queue.len() {
            assert(queue[j] == after[j]);
            assert(queue.contains(after[j]));
        }
    }
    assert(after[queue.len() as int] == id);
    assert forall|other: TaskId| other != id implies after.contains(other) == queue.contains(other) by {
        if after.contains(other) {
            let i = choose|i: int| 0 <= i < after.len() && after[i] == other;
            assert(queue[i] == other);
        }
        if queue.contains(other) {
            let i = choose|i: int| 0 <= i < queue.len() && queue[i] == other;
            assert(after[i] == other);
        }
    }
}

/// Taking the first member off a queue without repetitions leaves a queue
/// without repetitions that holds every other member and not the first.
pub proof fn lemma_drop_first(queue: Seq<TaskId>)
    requires
        queue.no_duplicates(),
        queue.len() > 0,
    ensures
        queue.drop_first().no_duplicates(),
        !queue.drop_first().contains(queue[0]),
        forall|other: TaskId| other != queue[0] ==> queue.drop_first().contains(other) == queue.contains(other),
        queue.drop_first() == without(queue, queue[0]),
{
    lemma_without(queue, queue[0]);
    assert(queue.drop_first() =~= queue.remove(0));
}

/// The index of the first occurrence of `id` in `queue`.
pub fn index_of(queue: &VecDeque<TaskId>, id: TaskId) -> (found: Option<usize>)
    ensures
        match found {
            Some(index) => index == position(queue@, id) && index < queue@.len(),
            None => position(queue@, id) == queue@.len(),
        },
{
    let mut index: usize = 0;
    while index < queue.len()
        invariant
            index <= queue@.len(),
            forall|j: int| 0 <= j < index ==> queue@[j] != id,
        decreases queue@.len() - index,
    {
        if queue[index] == id {
            proof {
                lemma_position_is(queue@, id, index as int);
            }
            return Some(index);
        }
        index = index + 1;
    }
    proof {
        lemma_position_is(queue@, id, index as int);
    }
    None
}

/// Takes the first occurrence of `id` out of `queue`; tells whether there
/// was one.
pub fn remove_id(queue: &mut VecDeque<TaskId>, id: TaskId) -> (removed: bool)
    ensures
        final(queue)@ == without(old(queue)@, id),
        removed == (position(old(queue)@, id) < old(queue)@.len()),
{
    match index_of(queue, id) {
        Some(index) => {
            let _ = queue.remove(index);
            true
        },
        None => false,
    }
}

/// Adds `id` at the back of `queue` unless it is a member already.
pub fn push_unique(queue: &mut VecDeque<TaskId>, id: TaskId)
    ensures
        final(queue)@ == (if old(queue)@.contains(id) {
            old(queue)@
        } else {
            old(queue)@.push(id)
        }),
{
    proof {
        lemma_position(queue@, id);
    }
    if index_of(queue, id).is_none() {
        queue.push_back(id);
    }
}

} // verus!
