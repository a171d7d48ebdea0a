use crate::position::Position;
use crate::ring_math::{
    lemma_alias_same_mod, lemma_consumed_offset, lemma_pow2_divides_modulus, lemma_same_cell,
    lemma_separated_mod_ne, lemma_windows_disjoint, lemma_write_cell_follows_readable,
};
use vstd::arithmetic::div_mod::lemma_mod_division_less_than_divisor;
use crate::shared_mem::{alias_index, SharedMemory};
use vstd::arithmetic::power2::is_pow2;
use vstd::prelude::*;

verus! {

/// The sequential core of the ring: the doubled region together with the
/// cursor tracker. All transfer semantics are stated and proved here; the
/// concurrent writer and reader handles acquire the channel lock and then
/// run these operations.
pub struct Channel<T> {
    pub shm: SharedMemory<T>,
    pub pos: Position,
}

impl<T: Copy> Channel<T> {
    pub open spec fn wf(&self) -> bool {
        &&& self.shm.wf()
        &&& self.pos.wf()
        &&& self.pos.capacity == self.shm.len
    }

    /// The fixed element capacity of the ring.
    pub open spec fn capacity_spec(&self) -> usize {
        self.pos.capacity
    }

    /// The committed, not yet consumed elements, oldest first: the readable
    /// window of the doubled region.
    pub open spec fn queue(&self) -> Seq<T> {
        Seq::new(
            self.pos.read_len_spec() as nat,
            |i: int| self.shm.data@[self.pos.read_offset_spec() + i],
        )
    }

    /// A fresh channel of `capacity` elements, empty.
    pub fn new(capacity: usize) -> (c: Channel<T>) where T: Default
        requires
            is_pow2(capacity as int),
            capacity <= usize::MAX / 2,
        ensures
            c.wf(),
            c.capacity_spec() == capacity,
            c.queue() == Seq::<T>::empty(),
    {
        let shm = match SharedMemory::<T>::new(capacity, T::default()) {
            Ok(s) => s,
            Err(_) => vstd::pervasive::unreached(),
        };
        let pos = Position::new(capacity);
        let c = Channel { shm, pos };
        proof {
            assert(c.queue() =~= Seq::<T>::empty());
        }
        c
    }

    /// The fixed element capacity of the ring.
    pub fn capacity(&self) -> (n: usize)
        ensures
            n == self.capacity_spec(),
    {
        self.pos.capacity
    }

    /// Elements that can be written right now.
    pub fn write_len(&self) -> (n: usize)
        ensures
            n == self.pos.write_len_spec(),
    {
        self.pos.write_len()
    }

    /// Elements that can be read right now.
    pub fn read_len(&self) -> (n: usize)
        ensures
            n == self.pos.read_len_spec(),
    {
        self.pos.read_len()
    }

    /// Commit `amount` elements that were placed in the writable window: the
    /// queue grows by exactly the `amount` cells past its current end.
    pub fn produce(&mut self, amount: usize)
        requires
            old(self).wf(),
            amount <= old(self).pos.write_len_spec(),
        ensures
            final(self).wf(),
            final(self).capacity_spec() == old(self).capacity_spec(),
            final(self).shm == old(self).shm,
            final(self).pos.read == old(self).pos.read,
            final(self).pos.write == old(self).pos.write.wrapping_add(amount),
            final(self).queue() == Seq::new(
                (old(self).queue().len() + amount) as nat,
                |i: int| old(self).shm.data@[old(self).pos.read_offset_spec() + i],
            ),
            final(self).queue().len() == old(self).queue().len() + amount,
            forall|i: int|
                0 <= i < old(self).queue().len() ==> final(self).queue()[i] == old(
                    self,
                ).queue()[i],
    {
        self.pos.produce(amount);
        proof {
            assert(self.queue() =~= Seq::new(
                (old(self).queue().len() + amount) as nat,
                |i: int| old(self).shm.data@[old(self).pos.read_offset_spec() + i],
            ));
        }
    }

    /// Release `amount` elements from the front of the queue: the queue loses
    /// exactly its first `amount` elements and nothing else changes.
    pub fn consume(&mut self, amount: usize)
        requires
            old(self).wf(),
            amount <= old(self).queue().len(),
        ensures
            final(self).wf(),
            final(self).capacity_spec() == old(self).capacity_spec(),
            final(self).shm == old(self).shm,
            final(self).pos.write == old(self).pos.write,
            final(self).pos.read == old(self).pos.read.wrapping_add(amount),
            final(self).queue() == old(self).queue().skip(amount as int),
    {
        self.pos.consume(amount);
        proof {
            let c = self.pos.capacity;
            let roff0 = old(self).pos.read_offset_spec() as int;
            let d0 = old(self).pos.read_len_spec() as int;
            lemma_pow2_divides_modulus(c);
            lemma_mod_division_less_than_divisor(self.pos.read as int, c as int);
            lemma_mod_division_less_than_divisor(old(self).pos.read as int, c as int);
            assert forall|j: int| 0 <= j < d0 - amount implies #[trigger] self.queue()[j] == old(
                self,
            ).queue()[amount + j] by {
                lemma_consumed_offset(old(self).pos.read, amount, c, j);
                lemma_same_cell(
                    self.pos.read_offset_spec() + j,
                    roff0 + amount + j,
                    c as int,
                );
            }
            assert(self.queue() =~= old(self).queue().skip(amount as int));
        }
    }

    /// Copy as much of `buf` as fits into the writable window and commit it.
    /// The count transferred is exactly the smaller of the free space and the
    /// buffer length; the transferred prefix of `buf` appears at the end of
    /// the queue and nothing else changes.
    pub fn write(&mut self, buf: &[T]) -> (n: usize)
        requires
            old(self).wf(),
        ensures
            final(self).wf(),
            final(self).capacity_spec() == old(self).capacity_spec(),
            n <= buf@.len(),
            n <= old(self).pos.write_len_spec(),
            n == buf@.len() || n == old(self).pos.write_len_spec(),
            final(self).queue() == old(self).queue() + buf@.take(n as int),
    {
        let (woff, wlen) = self.pos.write_offset_len();
        let n = if buf.len() < wlen {
            buf.len()
        } else {
            wlen
        };
        let ghost w0 = self.pos.write;
        let ghost r0 = self.pos.read;
        let ghost c = self.pos.capacity;
        let ghost d0 = self.pos.read_len_spec() as int;
        let ghost roff0 = self.pos.read_offset_spec() as int;
        let ghost data0 = self.shm.data@;
        let mut k: usize = 0;
        while k < n
            invariant
                n <= buf@.len(),
                n <= self.pos.write_len_spec(),
                k <= n,
                self.pos == old(self).pos,
                self.shm.wf(),
                self.shm.len == c,
                self.pos.capacity == c,
                self.pos.wf(),
                woff == self.pos.write_offset_spec(),
                woff < c,
                w0 == self.pos.write,
                r0 == self.pos.read,
                d0 == self.pos.read_len_spec(),
                roff0 == self.pos.read_offset_spec(),
                self.shm.data@.len() == data0.len() == 2 * c,
                forall|t: int| 0 <= t < k ==> #[trigger] self.shm.data@[woff + t] == buf@[t],
                forall|j: int| 0 <= j < d0 ==> #[trigger] self.shm.data@[roff0 + j] == data0[roff0 + j],
            decreases n - k,
        {
            let ghost pre = self.shm.data@;
            self.shm.write_at(woff + k, buf[k]);
            proof {
                let p = woff + k as int;
                let pa = alias_index(p, c as int);
                lemma_pow2_divides_modulus(c);
                lemma_alias_same_mod(p, c as int);
                assert forall|j: int| 0 <= j < d0 implies #[trigger] self.shm.data@[roff0 + j] == data0[
                roff0 + j] by {
                    lemma_windows_disjoint(w0, r0, c, j, k as int);
                }
                assert forall|t: int| 0 <= t < k + 1 implies #[trigger] self.shm.data@[woff + t] == buf@[
                t] by {}
            }
            k = k + 1;
        }
        self.produce(n);
        proof {
            lemma_pow2_divides_modulus(c);
            lemma_mod_division_less_than_divisor(r0 as int, c as int);
            assert forall|i: int| d0 <= i < d0 + n implies #[trigger] self.shm.data@[roff0 + i] == buf@[
            i - d0] by {
                let t = i - d0;
                let p2 = woff + t;
                assert(self.shm.data@[p2] == buf@[t]);
                lemma_write_cell_follows_readable(w0, r0, c, t);
                lemma_same_cell(roff0 + i, p2, c as int);
                if roff0 + i == p2 + c {
                    assert(self.shm.data@[p2] == self.shm.data@[p2 + c]);
                }
                if p2 == roff0 + i + c {
                    assert(self.shm.data@[roff0 + i] == self.shm.data@[roff0 + i + c]);
                }
            }
            assert(self.queue() =~= old(self).queue() + buf@.take(n as int));
        }
        n
    }

    /// Copy as much of the queue as fits into `buf` and release it. The count
    /// transferred is exactly the smaller of the queue length and the buffer
    /// length; the transferred elements are the front of the queue, in order,
    /// and the rest of `buf` is untouched.
    pub fn read(&mut self, buf: &mut Vec<T>) -> (n: usize)
        requires
            old(self).wf(),
        ensures
            final(self).wf(),
            final(self).capacity_spec() == old(self).capacity_spec(),
            n <= old(buf)@.len(),
            n <= old(self).queue().len(),
            n == old(buf)@.len() || n == old(self).queue().len(),
            final(buf)@ == old(self).queue().take(n as int) + old(buf)@.skip(n as int),
            final(self).queue() == old(self).queue().skip(n as int),
    {
        let (roff, rlen) = self.pos.read_offset_len();
        let n = if buf.len() < rlen {
            buf.len()
        } else {
            rlen
        };
        let mut k: usize = 0;
        while k < n
            invariant
                n <= buf@.len(),
                buf@.len() == old(buf)@.len(),
                n <= self.pos.read_len_spec(),
                k <= n,
                self == old(self),
                self.wf(),
                roff == self.pos.read_offset_spec(),
                roff < self.pos.capacity,
                forall|t: int| 0 <= t < k ==> buf@[t] == self.queue()[t],
                forall|t: int| k <= t < buf@.len() ==> buf@[t] == old(buf)@[t],
            decreases n - k,
        {
            let v = self.shm.read_at(roff + k);
            buf[k] = v;
            k = k + 1;
        }
        self.consume(n);
        proof {
            assert(buf@ =~= old(self).queue().take(n as int) + old(buf)@.skip(n as int));
        }
        n
    }

    /// Store `v` at position `k` of the writable window without committing
    /// it: the in-place equivalent of writing through the region's mutable
    /// view. The committed queue is untouched; the staged cell sits `k` past
    /// the queue's end, where the next `produce` exposes it; the other staged
    /// cells keep their values, so a window can be filled one store at a
    /// time.
    pub fn set_writable(&mut self, k: usize, v: T)
        requires
            old(self).wf(),
            k < old(self).pos.write_len_spec(),
        ensures
            final(self).wf(),
            final(self).pos == old(self).pos,
            final(self).shm.len == old(self).shm.len,
            final(self).queue() == old(self).queue(),
            final(self).shm.data@[old(self).pos.read_offset_spec()
                + old(self).pos.read_len_spec() + k] == v,
            forall|t: int|
                0 <= t < old(self).pos.write_len_spec() && t != k
                    ==> #[trigger] final(self).shm.data@[old(self).pos.read_offset_spec()
                    + old(self).pos.read_len_spec() + t] == old(self).shm.data@[old(
                    self).pos.read_offset_spec() + old(self).pos.read_len_spec() + t],
    {
        let (woff, wlen) = self.pos.write_offset_len();
        let ghost w0 = self.pos.write;
        let ghost r0 = self.pos.read;
        let ghost c = self.pos.capacity;
        let ghost d0 = self.pos.read_len_spec() as int;
        let ghost roff0 = self.pos.read_offset_spec() as int;
        let ghost data0 = self.shm.data@;
        self.shm.write_at(woff + k, v);
        proof {
            let p = woff + k as int;
            let pa = alias_index(p, c as int);
            lemma_pow2_divides_modulus(c);
            lemma_mod_division_less_than_divisor(r0 as int, c as int);
            lemma_alias_same_mod(p, c as int);
            assert forall|j: int| 0 <= j < d0 implies #[trigger] self.shm.data@[roff0 + j]
                == data0[roff0 + j] by {
                lemma_windows_disjoint(w0, r0, c, j, k as int);
            }
            assert(self.queue() =~= old(self).queue());
            lemma_write_cell_follows_readable(w0, r0, c, k as int);
            lemma_same_cell(roff0 + d0 + k, p, c as int);
            assert forall|t: int| 0 <= t < wlen && t != k implies #[trigger] self.shm.data@[roff0
                + d0 + t] == data0[roff0 + d0 + t] by {
                lemma_write_cell_follows_readable(w0, r0, c, t);
                if t < k {
                    lemma_separated_mod_ne(roff0 + d0 + t, roff0 + d0 + k, k - t, c as int);
                } else {
                    lemma_separated_mod_ne(roff0 + d0 + k, roff0 + d0 + t, t - k, c as int);
                }
            }
        }
    }

    /// Round trip: writing a whole buffer into a channel whose queue is
    /// empty and then reading exactly that many elements hands back the
    /// written sequence, in order, whatever the cursor positions were — the
    /// physical wrap point is invisible. The two hypotheses are exactly the
    /// postconditions of `write` when the whole buffer fits and of `read`
    /// when it drains `buf.len()` elements.
    pub proof fn lemma_round_trip(pre: Channel<T>, mid: Channel<T>, buf: Seq<T>, got: Seq<T>)
        requires
            pre.queue() == Seq::<T>::empty(),
            mid.queue() == pre.queue() + buf.take(buf.len() as int),
            got == mid.queue().take(buf.len() as int),
        ensures
            got == buf,
    {
        assert(buf.take(buf.len() as int) =~= buf);
        assert(got =~= buf);
    }

    /// Contiguity: each window is one contiguous in-bounds range of the
    /// doubled region, even when its offset plus its length crosses the
    /// single-copy region length.
    pub proof fn lemma_views_contiguous(c: Channel<T>)
        requires
            c.wf(),
        ensures
            c.pos.read_offset_spec() + c.pos.read_len_spec() <= c.shm.data@.len(),
            c.pos.write_offset_spec() + c.pos.write_len_spec() <= c.shm.data@.len(),
    {
        lemma_pow2_divides_modulus(c.pos.capacity);
        lemma_mod_division_less_than_divisor(c.pos.read as int, c.pos.capacity as int);
        lemma_mod_division_less_than_divisor(c.pos.write as int, c.pos.capacity as int);
    }

    /// The whole readable window, copied out in order. The window is one
    /// contiguous range of the doubled region even when it crosses the wrap
    /// point, so this is a single linear pass.
    pub fn readable_view(&self) -> (v: Vec<T>)
        requires
            self.wf(),
        ensures
            v@ == self.queue(),
    {
        let (roff, rlen) = self.pos.read_offset_len();
        let mut v: Vec<T> = Vec::new();
        let mut k: usize = 0;
        while k < rlen
            invariant
                self.wf(),
                k <= rlen,
                rlen == self.pos.read_len_spec(),
                roff == self.pos.read_offset_spec(),
                roff < self.pos.capacity,
                v@.len() == k,
                forall|t: int| 0 <= t < k ==> v@[t] == self.queue()[t],
            decreases rlen - k,
        {
            v.push(self.shm.read_at(roff + k));
            k = k + 1;
        }
        proof {
            assert(v@ =~= self.queue());
        }
        v
    }
}

} // verus!
