//! The queue that orders ingested MIDI events, kept in the `priority-queue`
//! crate's `PriorityQueue` with event indices as items.
use priority_queue::PriorityQueue;
use vstd::prelude::*;

verus! {

#[verifier::external_type_specification]
#[verifier::external_body]
#[verifier::reject_recursive_types(I)]
#[verifier::reject_recursive_types(P)]
#[verifier::reject_recursive_types(H)]
pub struct ExPriorityQueue<I, P, H>(PriorityQueue<I, P, H>);

/// A queue of event indices, each with a pair of integers as its priority.
pub type EventQueue = PriorityQueue<u64, (u64, u64)>;

/// What a queue holds: each item with its priority.
pub uninterp spec fn queue_contents(q: EventQueue) -> Map<u64, (u64, u64)>;

/// `a <= b` in the lexicographic order of pairs.
pub open spec fn pair_le(a: (u64, u64), b: (u64, u64)) -> bool {
    a.0 < b.0 || (a.0 == b.0 && a.1 <= b.1)
}

/// Relies on `PriorityQueue::new`: a new queue holds nothing.
#[verifier::external_body]
pub(crate) fn queue_new() -> (q: EventQueue)
    ensures
        queue_contents(q).dom() == Set::<u64>::empty(),
{
    PriorityQueue::new()
}

/// Relies on `PriorityQueue::push`: an item that is not in the queue yet is
/// added with its priority.
#[verifier::external_body]
pub(crate) fn queue_push(q: &mut EventQueue, item: u64, priority: (u64, u64))
    requires
        !queue_contents(*old(q)).contains_key(item),
    ensures
        queue_contents(*final(q)) == queue_contents(*old(q)).insert(item, priority),
{
    q.push(item, priority);
}

/// Relies on `PriorityQueue::into_sorted_vec`: every item once, from the
/// highest priority to the lowest.
#[verifier::external_body]
pub(crate) fn queue_into_sorted_vec(q: EventQueue) -> (r: Vec<u64>)
    ensures
        r@.len() == queue_contents(q).dom().len(),
        r@.no_duplicates(),
        forall|k: int| 0 <= k < r@.len() ==> queue_contents(q).contains_key(#[trigger] r@[k]),
        forall|i: int, j: int|
            0 <= i < j < r@.len() ==> pair_le(
                #[trigger] queue_contents(q)[r@[j]],
                #[trigger] queue_contents(q)[r@[i]],
            ),
{
    q.into_sorted_vec()
}

} // verus!
