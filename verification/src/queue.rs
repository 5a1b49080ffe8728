//! Model of a virtio queue as seen by the device: descriptor chain heads
//! delivered by the guest driver in order, a cursor over the ones not yet
//! popped, and the used ring of acknowledged descriptors.

use vstd::prelude::*;

verus! {

/// Size of every queue of the devices in this crate.
pub const QUEUE_SIZE: u16 = 256;

/// A descriptor chain head: one guest buffer reference.  The devices in this
/// crate never walk chain continuations; each request is a single descriptor.
#[derive(Clone, Copy, Debug, PartialEq, Eq, Structural)]
pub struct Descriptor {
    /// Guest physical address of the buffer.
    pub addr: u64,
    /// Length of the buffer in bytes.
    pub len: u32,
    /// Index of the descriptor in the ring, quoted back on acknowledgment.
    pub index: u16,
    /// True when the buffer is device-writable (driver-readable only).
    pub write_only: bool,
}

impl Descriptor {
    pub fn is_write_only(&self) -> (r: bool)
        ensures
            r == self.write_only,
    {
        self.write_only
    }
}

#[derive(Clone, Copy, Debug, PartialEq, Eq, Structural)]
pub enum QueueError {
    /// A descriptor index at or past the queue size was acknowledged.
    DescIndexOutOfBounds,
}

/// A virtio queue: the pending descriptor heads in arrival order, the cursor
/// of the next one to pop, and the used entries (index, bytes written).
#[derive(Clone, Debug)]
pub struct Queue {
    pub size: u16,
    pub descs: Vec<Descriptor>,
    pub next: usize,
    pub used: Vec<(u16, u32)>,
}

/// Two queues with the same size, cursor and ring contents.
pub open spec fn queue_eq(a: Queue, b: Queue) -> bool {
    a.size == b.size && a.next == b.next && a.descs@ == b.descs@ && a.used@ == b.used@
}

impl Queue {
    pub open spec fn wf(&self) -> bool {
        self.next <= self.descs@.len()
    }

    /// The descriptors not yet popped.
    pub open spec fn remaining(&self) -> Seq<Descriptor> {
        self.descs@.skip(self.next as int)
    }

    pub fn new(size: u16) -> (q: Queue)
        ensures
            q.size == size,
            q.descs@ =~= Seq::<Descriptor>::empty(),
            q.next == 0,
            q.used@ =~= Seq::<(u16, u32)>::empty(),
            q.wf(),
    {
        Queue { size, descs: Vec::new(), next: 0, used: Vec::new() }
    }

    /// Pops the next pending descriptor chain head, if any.
    pub fn pop(&mut self) -> (r: Option<Descriptor>)
        requires
            old(self).wf(),
        ensures
            final(self).wf(),
            final(self).size == old(self).size,
            final(self).descs == old(self).descs,
            final(self).used == old(self).used,
            old(self).next < old(self).descs@.len() ==> r == Some(
                old(self).descs@[old(self).next as int],
            ) && final(self).next == old(self).next + 1,
            old(self).next >= old(self).descs@.len() ==> r is None && final(self).next == old(
                self,
            ).next,
    {
        if self.next < self.descs.len() {
            let d = self.descs[self.next];
            self.next = self.next + 1;
            Some(d)
        } else {
            None
        }
    }

    /// Pushes the most recently popped descriptor back, undoing one `pop`.
    pub fn undo_pop(&mut self)
        requires
            old(self).wf(),
            old(self).next > 0,
        ensures
            final(self).wf(),
            final(self).size == old(self).size,
            final(self).descs == old(self).descs,
            final(self).used == old(self).used,
            final(self).next == old(self).next - 1,
    {
        self.next = self.next - 1;
    }

    /// Acknowledges a descriptor, handing it back to the guest on the used
    /// ring with the number of bytes the device wrote.
    pub fn add_used(&mut self, desc_index: u16, len: u32) -> (r: Result<(), QueueError>)
        requires
            old(self).wf(),
        ensures
            final(self).wf(),
            final(self).size == old(self).size,
            final(self).descs == old(self).descs,
            final(self).next == old(self).next,
            desc_index < old(self).size ==> r is Ok && final(self).used@ =~= old(self).used@.push(
                (desc_index, len),
            ),
            desc_index >= old(self).size ==> r == Err::<(), QueueError>(
                QueueError::DescIndexOutOfBounds,
            ) && final(self).used == old(self).used,
    {
        if desc_index < self.size {
            self.used.push((desc_index, len));
            Ok(())
        } else {
            Err(QueueError::DescIndexOutOfBounds)
        }
    }
}

} // verus!
