use vstd::prelude::*;

verus! {

/// Failure to set up the backing region. Allocation failure is the only
/// recoverable error of the whole channel; it is reported once at
/// construction and never retried.
#[derive(Debug)]
pub enum Error {
    Allocate(&'static str),
}

/// The index of the cell that shares physical storage with cell `i` in a
/// doubled region of `2 * len` cells.
pub open spec fn alias_index(i: int, len: int) -> int {
    if i < len {
        i + len
    } else {
        i - len
    }
}

/// The backing region of the ring, holding `len` elements addressable twice.
///
/// The real buffer maps one physical range at two adjacent virtual address
/// ranges, so the region appears as `2 * len` consecutive elements in which
/// cell `i` and cell `i + len` are the same storage. This type models that
/// aliasing as an invariant kept by construction and by every store: the two
/// mirror cells always hold equal values. Any window of at most `len`
/// elements starting below `len` is then one contiguous in-bounds range,
/// even when it crosses the wrap point.
#[derive(Debug)]
pub struct SharedMemory<T> {
    pub data: Vec<T>,
    pub len: usize,
}

impl<T: Copy> SharedMemory<T> {
    /// The doubled length and the mirror invariant.
    pub open spec fn wf(&self) -> bool {
        &&& self.len <= usize::MAX / 2
        &&& self.data@.len() == 2 * self.len
        &&& forall|i: int|
            0 <= i < self.len ==> #[trigger] self.data@[i] == self.data@[i + self.len]
    }

    /// Allocate a region of `len` elements, doubled, with every cell holding
    /// `fill` — the model of the real mapping's zero-initialized pages, which
    /// takes the initial element as an argument because a bare type parameter
    /// has no zero. The model's allocation cannot be refused, so the result
    /// is always the region; the fallible signature is what callers of a
    /// real double mapping must handle.
    pub fn new(len: usize, fill: T) -> (r: Result<SharedMemory<T>, Error>)
        requires
            len <= usize::MAX / 2,
        ensures
            r is Ok,
            r matches Ok(s) ==> s.wf() && s.len == len,
            r matches Ok(s) ==> forall|i: int| 0 <= i < s.data@.len() ==> s.data@[i] == fill,
    {
        let total = 2 * len;
        let mut data: Vec<T> = Vec::new();
        let mut k: usize = 0;
        while k < total
            invariant
                k <= total,
                data@.len() == k,
                forall|i: int| 0 <= i < k ==> data@[i] == fill,
            decreases total - k,
        {
            data.push(fill);
            k = k + 1;
        }
        Ok(SharedMemory { data, len })
    }

    /// Load the element at cell `i` of the doubled region.
    pub fn read_at(&self, i: usize) -> (v: T)
        requires
            self.wf(),
            i < 2 * self.len,
        ensures
            v == self.data@[i as int],
    {
        self.data[i]
    }

    /// Store `v` at cell `i` and at its mirror cell, as the double mapping
    /// would: one store through either virtual range lands in both.
    pub fn write_at(&mut self, i: usize, v: T)
        requires
            old(self).wf(),
            i < 2 * old(self).len,
        ensures
            final(self).wf(),
            final(self).len == old(self).len,
            final(self).data@ == old(self).data@.update(i as int, v).update(
                alias_index(i as int, old(self).len as int),
                v,
            ),
    {
        let alias: usize = if i < self.len {
            i + self.len
        } else {
            i - self.len
        };
        self.data[i] = v;
        self.data[alias] = v;
    }
}

} // verus!
