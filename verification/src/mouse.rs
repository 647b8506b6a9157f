//! Packets on their way from the mouse interrupt to the task that reads
//! them.

use vstd::prelude::*;
use crate::queue::{pushed_onto, queue_capacity, queue_items, queue_new, queue_pop, queue_push};

verus! {

/// How many packet bytes can wait to be read.
pub const MOUSE_QUEUE_SIZE: usize = 200;

/// The packet bytes that wait to be read.
pub struct PacketStream {
    queue: crossbeam_queue::ArrayQueue<u8>,
}

impl View for PacketStream {
    type V = Seq<u8>;

    /// The bytes that wait, oldest first.
    closed spec fn view(&self) -> Seq<u8> {
        queue_items(self.queue)
    }
}

impl PacketStream {
    /// How many bytes the stream holds at most.
    pub closed spec fn capacity(&self) -> nat {
        queue_capacity(self.queue)
    }

    /// An empty stream of the standard capacity.
    pub fn new() -> (stream: Self)
        ensures
            stream@ == Seq::<u8>::empty(),
            stream.capacity() == MOUSE_QUEUE_SIZE,
    {
        PacketStream { queue: queue_new(MOUSE_QUEUE_SIZE) }
    }

    /// Takes the oldest byte out, if one waits.
    pub fn poll_next(&mut self) -> (packet: Option<u8>)
        ensures
            final(self).capacity() == old(self).capacity(),
            match packet {
                Some(byte) => old(self)@.len() > 0 && byte == old(self)@[0] && final(self)@
                    == old(self)@.skip(1),
                None => old(self)@.len() == 0 && final(self)@ == old(self)@,
            },
    {
        queue_pop(&mut self.queue)
    }
}

/// Hands a byte from the mouse to the stream. Where the stream is full the
/// byte is dropped. Returns whether it was taken, and so whether the
/// reading task is to be woken.
pub fn add_packet(stream: &mut PacketStream, packet: u8) -> (taken: bool)
    ensures
        final(stream).capacity() == old(stream).capacity(),
        taken == (old(stream)@.len() < old(stream).capacity()),
        final(stream)@ == pushed_onto(old(stream)@, old(stream).capacity(), packet),
{
    queue_push(&mut stream.queue, packet)
}

} // verus!
