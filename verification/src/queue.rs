//! The bounded queue between an interrupt handler and the task that reads
//! what the handler received.

use vstd::prelude::*;

verus! {

/// `ArrayQueue` of the crossbeam_queue crate. Nothing inside it is seen
/// here.
#[verifier::external_type_specification]
#[verifier::external_body]
#[verifier::reject_recursive_types(T)]
pub struct ExArrayQueue<T>(crossbeam_queue::ArrayQueue<T>);

/// The bytes in a queue, oldest first.
pub uninterp spec fn queue_items(queue: crossbeam_queue::ArrayQueue<u8>) -> Seq<u8>;

/// How many bytes a queue holds at most.
pub uninterp spec fn queue_capacity(queue: crossbeam_queue::ArrayQueue<u8>) -> nat;

/// `ArrayQueue::new` of the crossbeam_queue crate: an empty queue that holds
/// up to `capacity` bytes.
#[verifier::external_body]
pub(crate) fn queue_new(capacity: usize) -> (queue: crossbeam_queue::ArrayQueue<u8>)
    requires
        capacity > 0,
    ensures
        queue_items(queue) == Seq::<u8>::empty(),
        queue_capacity(queue) == capacity,
{
    crossbeam_queue::ArrayQueue::new(capacity)
}

/// `ArrayQueue::push` of the crossbeam_queue crate: the byte goes to the
/// end of the queue where there is room, and is handed back where the queue
/// is full.
#[verifier::external_body]
pub(crate) fn queue_push(queue: &mut crossbeam_queue::ArrayQueue<u8>, byte: u8) -> (pushed: bool)
    ensures
        queue_capacity(*final(queue)) == queue_capacity(*old(queue)),
        pushed == (queue_items(*old(queue)).len() < queue_capacity(*old(queue))),
        queue_items(*final(queue)) == pushed_onto(
            queue_items(*old(queue)),
            queue_capacity(*old(queue)),
            byte,
        ),
{
    queue.push(byte).is_ok()
}

/// `ArrayQueue::pop` of the crossbeam_queue crate: takes the oldest byte
/// out, if there is one.
#[verifier::external_body]
pub(crate) fn queue_pop(queue: &mut crossbeam_queue::ArrayQueue<u8>) -> (byte: Option<u8>)
    ensures
        queue_capacity(*final(queue)) == queue_capacity(*old(queue)),
        match byte {
            Some(b) => queue_items(*old(queue)).len() > 0 && b == queue_items(*old(queue))[0]
                && queue_items(*final(queue)) == queue_items(*old(queue)).skip(1),
            None => queue_items(*old(queue)).len() == 0 && queue_items(*final(queue))
                == queue_items(*old(queue)),
        },
{
    queue.pop()
}

/// What a queue of the given capacity holds after a push: the byte at its
/// end where there was room, and what it held before where there was none.
pub open spec fn pushed_onto(items: Seq<u8>, capacity: nat, byte: u8) -> Seq<u8> {
    if items.len() < capacity {
        items.push(byte)
    } else {
        items
    }
}

/// What a queue holds after a run of pushes, first to last.
pub open spec fn pushed_all(items: Seq<u8>, capacity: nat, bytes: Seq<u8>) -> Seq<u8>
    decreases bytes.len(),
{
    if bytes.len() == 0 {
        items
    } else {
        pushed_onto(pushed_all(items, capacity, bytes.drop_last()), capacity, bytes.last())
    }
}

/// After any number of pushes into an empty queue, the queue holds the
/// bytes that were pushed first, in their order, up to its capacity: the
/// oldest are kept and the newest dropped.
pub proof fn lemma_pushes_keep_oldest(capacity: nat, bytes: Seq<u8>)
    ensures
        pushed_all(Seq::empty(), capacity, bytes).len() <= capacity,
        pushed_all(Seq::empty(), capacity, bytes) == if bytes.len() <= capacity {
            bytes
        } else {
            bytes.take(capacity as int)
        },
    decreases bytes.len(),
{
    if bytes.len() > 0 {
        lemma_pushes_keep_oldest(capacity, bytes.drop_last());
        let before = pushed_all(Seq::empty(), capacity, bytes.drop_last());
        if bytes.len() <= capacity {
            assert(before.push(bytes.last()) =~= bytes);
        } else if bytes.len() == capacity + 1 {
            assert(bytes.drop_last() =~= bytes.take(capacity as int));
        } else {
            assert(bytes.drop_last().take(capacity as int) =~= bytes.take(capacity as int));
        }
    }
}

} // verus!
