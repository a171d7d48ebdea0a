use crate::channel::Channel;
use crate::ring_math::lemma_quarter_modulus_pow2;
use crate::rounding::next_pow2;
use crate::sync::{arc_share, lock_signal, notify_signal, signal_condvar_new, signal_mutex_new, wait_for};
use std::sync::{Arc, Condvar, Mutex};
use vstd::arithmetic::power2::is_pow2;
use vstd::prelude::*;
use vstd::rwlock::RwLock;

pub use crate::position::Position;
pub use crate::shared_mem::{Error, SharedMemory};

verus! {

/// The lock invariant every channel maintains at every observation point:
/// the shared state is well formed — cursors within capacity, region doubled
/// and mirrored — and the capacity never changes.
pub open spec fn channel_inv<T: Copy>(capacity: usize) -> spec_fn(Channel<T>) -> bool {
    |c: Channel<T>| c.wf() && c.capacity_spec() == capacity
}

/// The producing handle of a channel. It shares the locked core and the
/// wake-up signal with exactly one `Reader`.
///
/// A mutable view of the writable window cannot outlive the lock, so the
/// in-place producer path is `Channel::set_writable` followed by `produce`,
/// run while holding `chan`'s write lock; this handle offers the copying
/// `write` on top of it.
#[verifier::reject_recursive_types(T)]
pub struct Writer<T> {
    pub chan: Arc<RwLock<Channel<T>, spec_fn(Channel<T>) -> bool>>,
    pub signal: Arc<(Mutex<()>, Condvar)>,
    pub capacity: usize,
}

/// The consuming handle of a channel. It shares the locked core and the
/// wake-up signal with exactly one `Writer`.
#[verifier::reject_recursive_types(T)]
pub struct Reader<T> {
    pub chan: Arc<RwLock<Channel<T>, spec_fn(Channel<T>) -> bool>>,
    pub signal: Arc<(Mutex<()>, Condvar)>,
    pub capacity: usize,
}

impl<T: Copy> Writer<T> {
    pub open spec fn wf(&self) -> bool {
        (*self.chan).pred() == channel_inv::<T>(self.capacity)
    }

    /// Commit `amount` elements of the writable window, waking a blocked
    /// reader. Between two operations the other handle may run, so the free
    /// space cannot be known beforehand: the commit happens exactly when
    /// `amount` fits, and the return value says whether it did. The exact
    /// cursor semantics are those of `Channel::produce`, run under the lock.
    ///
    /// At the cursor tracker an out-of-range advance is a fatal contract
    /// breach (`Position::produce`'s precondition). A verified function
    /// cannot panic and a caller cannot state that bound through the lock,
    /// so this handle refuses the advance and reports `false` instead.
    pub fn produce(&mut self, amount: usize) -> (committed: bool)
        requires
            old(self).wf(),
        ensures
            *final(self) == *old(self),
            amount == 0 ==> committed,
            committed ==> amount <= old(self).capacity,
            amount > old(self).capacity ==> !committed,
    {
        let (mut c, handle) = self.chan.acquire_write();
        let fits = amount <= c.write_len();
        if fits {
            c.produce(amount);
        }
        handle.release_write(c);
        if fits {
            let _held = lock_signal(&self.signal.0);
            notify_signal(&self.signal.1);
        }
        fits
    }

    /// Copy as much of `buf` as fits into the writable window, commit it and
    /// wake a blocked reader. A short count is normal, never an error. The
    /// exact transfer semantics — the count is the smaller of the free space
    /// and the buffer length, and that prefix of `buf` lands at the end of
    /// the queue — are those of `Channel::write`, run under the lock.
    pub fn write(&mut self, buf: &[T]) -> (r: Result<usize, std::io::Error>)
        requires
            old(self).wf(),
        ensures
            *final(self) == *old(self),
            r is Ok,
            r matches Ok(n) ==> n <= buf@.len(),
            r matches Ok(n) ==> n <= old(self).capacity,
    {
        let (mut c, handle) = self.chan.acquire_write();
        let n = c.write(buf);
        handle.release_write(c);
        let _held = lock_signal(&self.signal.0);
        notify_signal(&self.signal.1);
        Ok(n)
    }
}

impl<T: Copy> Reader<T> {
    pub open spec fn wf(&self) -> bool {
        (*self.chan).pred() == channel_inv::<T>(self.capacity)
    }

    /// The whole readable window, copied out in order: at most one capacity's
    /// worth of elements, contiguous even across the wrap point.
    pub fn as_slice(&self) -> (v: Vec<T>)
        requires
            self.wf(),
        ensures
            v@.len() <= self.capacity,
    {
        let handle = self.chan.acquire_read();
        let v = handle.borrow().readable_view();
        handle.release_read();
        v
    }

    /// Release `amount` elements from the front of the queue, waking a
    /// blocked writer-side waiter. As with `Writer::produce`, the other
    /// handle may run between operations, so the release happens exactly
    /// when `amount` elements are readable, and the return value says
    /// whether it did. The exact semantics are those of `Channel::consume`.
    ///
    /// An out-of-range release is fatal at the cursor tracker
    /// (`Position::consume`'s precondition); as at `Writer::produce`, this
    /// handle refuses it and reports `false` instead of panicking.
    pub fn consume(&mut self, amount: usize) -> (released: bool)
        requires
            old(self).wf(),
        ensures
            *final(self) == *old(self),
            amount == 0 ==> released,
            released ==> amount <= old(self).capacity,
            amount > old(self).capacity ==> !released,
    {
        let (mut c, handle) = self.chan.acquire_write();
        let fits = amount <= c.read_len();
        if fits {
            c.consume(amount);
        }
        handle.release_write(c);
        if fits {
            let _held = lock_signal(&self.signal.0);
            notify_signal(&self.signal.1);
        }
        fits
    }

    /// Copy as much of the queue as fits into `buf` and release it, without
    /// blocking; zero is a normal result. The exact transfer semantics — the
    /// count is the smaller of the queue length and the buffer length, the
    /// front of the queue lands in the prefix of `buf` in order, the rest of
    /// `buf` is untouched — are those of `Channel::read`, run under the lock.
    pub fn read(&mut self, buf: &mut Vec<T>) -> (r: Result<usize, std::io::Error>)
        requires
            old(self).wf(),
        ensures
            *final(self) == *old(self),
            final(buf)@.len() == old(buf)@.len(),
            r is Ok,
            r matches Ok(n) ==> n <= old(buf)@.len(),
            r matches Ok(n) ==> n <= old(self).capacity,
    {
        let (mut c, handle) = self.chan.acquire_write();
        let n = c.read(buf);
        handle.release_write(c);
        let _held = lock_signal(&self.signal.0);
        notify_signal(&self.signal.1);
        Ok(n)
    }

    /// Block until `buf.len()` elements are readable, then transfer exactly
    /// that many: never a short read. The wait sleeps on the signal's
    /// condition variable, and on every wake-up checks the queue length and,
    /// under that same lock acquisition, drains the `buf.len()` front
    /// elements the moment they are there; with no writer left to commit
    /// enough, the call never returns. This is the only blocking operation
    /// of the channel.
    pub fn read_exact(&mut self, buf: &mut Vec<T>) -> (r: Result<usize, std::io::Error>)
        requires
            old(self).wf(),
        ensures
            *final(self) == *old(self),
            final(buf)@.len() == old(buf)@.len(),
            r is Ok,
            r matches Ok(n) ==> n == old(buf)@.len(),
    {
        let needed = buf.len();
        let chan = &self.chan;
        let step = || -> (taken: Option<Vec<T>>)
            ensures
                taken matches Some(v) ==> v@.len() == needed,
            {
                let (mut c, handle) = chan.acquire_write();
                let out = if needed <= c.read_len() {
                    let mut v = c.readable_view();
                    v.truncate(needed);
                    c.consume(needed);
                    Some(v)
                } else {
                    None
                };
                handle.release_write(c);
                out
            };
        let held = lock_signal(&self.signal.0);
        let (held, got) = wait_for(&self.signal.1, held, step);
        notify_signal(&self.signal.1);
        drop_signal(held);
        let mut k: usize = 0;
        while k < needed
            invariant
                needed == old(buf)@.len(),
                buf@.len() == old(buf)@.len(),
                got@.len() == needed,
                k <= needed,
                forall|t: int| 0 <= t < k ==> buf@[t] == got@[t],
            decreases needed - k,
        {
            buf[k] = got[k];
            k = k + 1;
        }
        Ok(needed)
    }
}

/// Release the signal guard: moving it out of scope unlocks the signal.
fn drop_signal<'a>(_guard: std::sync::MutexGuard<'a, ()>) {
}

/// Create a connected writer/reader pair over a fresh ring whose effective
/// capacity is the requested one rounded up to the next power of two. The
/// two handles share the region and the cursor state; the region is released
/// when the last handle is dropped.
pub fn new<T: Copy + Default>(capacity: usize) -> (pair: (Writer<T>, Reader<T>))
    requires
        capacity <= usize::MAX / 4 + 1,
    ensures
        pair.0.wf(),
        pair.1.wf(),
        pair.0.chan == pair.1.chan,
        pair.0.signal == pair.1.signal,
        pair.0.capacity == pair.1.capacity,
        is_pow2(pair.0.capacity as int),
        pair.0.capacity >= capacity,
        forall|q: usize| is_pow2(q as int) && q >= capacity ==> pair.0.capacity <= q,
{
    let pow_two_cap = next_pow2(capacity);
    proof {
        lemma_quarter_modulus_pow2();
    }
    let core = Channel::<T>::new(pow_two_cap);
    let lock = RwLock::<Channel<T>, spec_fn(Channel<T>) -> bool>::new(
        core,
        Ghost(channel_inv::<T>(pow_two_cap)),
    );
    let chan = Arc::new(lock);
    let signal = Arc::new((signal_mutex_new(), signal_condvar_new()));
    let writer = Writer {
        chan: arc_share(&chan),
        signal: arc_share(&signal),
        capacity: pow_two_cap,
    };
    let reader = Reader { chan, signal, capacity: pow_two_cap };
    (writer, reader)
}

} // verus!
