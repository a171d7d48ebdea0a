use crate::ring_math::{
    lemma_distance_after_consume, lemma_distance_after_produce, lemma_mask_is_mod,
};
use vstd::arithmetic::power2::is_pow2;
use vstd::prelude::*;

verus! {

/// Cursor bookkeeping for the ring buffer: an unbounded write cursor, an
/// unbounded read cursor and a fixed power-of-two capacity. The cursors wrap
/// at the word width and never saturate; the physical offsets are the cursors
/// reduced modulo the capacity. Keeping the cursors unbounded removes the
/// classic full/empty ambiguity of modulo-indexed rings when the two cursors
/// coincide.
#[derive(Debug)]
pub struct Position {
    pub write: usize,
    pub read: usize,
    pub capacity: usize,
}

impl Position {
    /// The states reachable from a fresh tracker: the capacity is a positive
    /// power of two, and the wrapped distance from the read cursor to the
    /// write cursor never exceeds it.
    pub open spec fn wf(&self) -> bool {
        &&& is_pow2(self.capacity as int)
        &&& self.write.wrapping_sub(self.read) <= self.capacity
    }

    /// Elements available for reading: the wrapped cursor distance.
    pub open spec fn read_len_spec(&self) -> usize {
        self.write.wrapping_sub(self.read)
    }

    /// Elements available for writing: whatever the readable part leaves free.
    pub open spec fn write_len_spec(&self) -> usize {
        self.capacity.wrapping_sub(self.write.wrapping_sub(self.read))
    }

    /// Physical element offset at which the next write lands.
    pub open spec fn write_offset_spec(&self) -> usize {
        self.write % self.capacity
    }

    /// Physical element offset at which the next read starts.
    pub open spec fn read_offset_spec(&self) -> usize {
        self.read % self.capacity
    }

    /// A fresh tracker: both cursors at zero.
    pub fn new(capacity: usize) -> (p: Position)
        requires
            is_pow2(capacity as int),
        ensures
            p.wf(),
            p.capacity == capacity,
            p.write == 0,
            p.read == 0,
    {
        Position { write: 0, read: 0, capacity }
    }

    /// Elements available for writing.
    pub fn write_len(&self) -> (n: usize)
        ensures
            n == self.write_len_spec(),
    {
        self.capacity.wrapping_sub(self.write.wrapping_sub(self.read))
    }

    /// Elements available for reading.
    pub fn read_len(&self) -> (n: usize)
        ensures
            n == self.read_len_spec(),
    {
        self.write.wrapping_sub(self.read)
    }

    /// Element offset of the write cursor into the region.
    pub fn write_offset(&self) -> (o: usize)
        requires
            self.wf(),
        ensures
            o == self.write_offset_spec(),
            o < self.capacity,
    {
        proof {
            lemma_mask_is_mod(self.write, self.capacity);
        }
        self.write & (self.capacity - 1)
    }

    /// Element offset of the read cursor into the region.
    pub fn read_offset(&self) -> (o: usize)
        requires
            self.wf(),
        ensures
            o == self.read_offset_spec(),
            o < self.capacity,
    {
        proof {
            lemma_mask_is_mod(self.read, self.capacity);
        }
        self.read & (self.capacity - 1)
    }

    /// Both write-side values at once.
    pub fn write_offset_len(&self) -> (r: (usize, usize))
        requires
            self.wf(),
        ensures
            r.0 == self.write_offset_spec(),
            r.0 < self.capacity,
            r.1 == self.write_len_spec(),
    {
        (self.write_offset(), self.write_len())
    }

    /// Both read-side values at once.
    pub fn read_offset_len(&self) -> (r: (usize, usize))
        requires
            self.wf(),
        ensures
            r.0 == self.read_offset_spec(),
            r.0 < self.capacity,
            r.1 == self.read_len_spec(),
    {
        (self.read_offset(), self.read_len())
    }

    /// Move the write cursor forward after filling `amount` elements.
    pub fn produce(&mut self, amount: usize)
        requires
            old(self).wf(),
            amount <= old(self).write_len_spec(),
        ensures
            final(self).wf(),
            final(self).capacity == old(self).capacity,
            final(self).read == old(self).read,
            final(self).write == old(self).write.wrapping_add(amount),
            final(self).read_len_spec() == old(self).read_len_spec() + amount,
    {
        proof {
            lemma_distance_after_produce(self.write, self.read, amount);
        }
        self.write = self.write.wrapping_add(amount);
    }

    /// Move the read cursor forward after consuming `amount` elements.
    pub fn consume(&mut self, amount: usize)
        requires
            old(self).wf(),
            amount <= old(self).read_len_spec(),
        ensures
            final(self).wf(),
            final(self).capacity == old(self).capacity,
            final(self).write == old(self).write,
            final(self).read == old(self).read.wrapping_add(amount),
            final(self).read_len_spec() == old(self).read_len_spec() - amount,
    {
        proof {
            lemma_distance_after_consume(self.write, self.read, amount);
        }
        self.read = self.read.wrapping_add(amount);
    }
}

/// What is readable and what is writable always partition the capacity
/// exactly: neither can be negative and their sum never drifts.
pub proof fn lemma_lengths_partition_capacity(p: Position)
    requires
        p.wf(),
    ensures
        p.read_len_spec() <= p.capacity,
        p.read_len_spec() + p.write_len_spec() == p.capacity,
{
}

} // verus!
