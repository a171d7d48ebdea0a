use vstd::prelude::*;

verus! {

// The cross-thread plumbing the channel handles rely on: a shared-ownership
// pointer for the two handles, and a mutex/condition-variable signal through
// which a blocked reader sleeps until the writer commits more data. The
// declarations and wrappers below are the trusted boundary; everything the
// handles decide with the values is verified code.
/// `std::io::Error` appears in the handles' transfer signatures; the
/// operations themselves never produce one.
#[verifier::external_type_specification]
#[verifier::external_body]
pub struct ExIoError(std::io::Error);

/// `std::sync::Mutex` guards the wake-up signal.
#[verifier::external_type_specification]
#[verifier::external_body]
#[verifier::reject_recursive_types(T)]
pub struct ExMutex<T: ?Sized>(std::sync::Mutex<T>);

/// The guard handed out while the signal mutex is held.
#[verifier::external_type_specification]
#[verifier::external_body]
#[verifier::reject_recursive_types(T)]
pub struct ExMutexGuard<'a, T: ?Sized + 'a>(std::sync::MutexGuard<'a, T>);

/// `std::sync::Condvar` carries the wake-ups from committer to waiter.
#[verifier::external_type_specification]
#[verifier::external_body]
pub struct ExCondvar(std::sync::Condvar);

/// Relies on `std::sync::Mutex::new`: a fresh, unlocked signal mutex.
#[verifier::external_body]
pub fn signal_mutex_new() -> std::sync::Mutex<()> {
    std::sync::Mutex::new(())
}

/// Relies on `std::sync::Condvar::new`: a fresh condition variable.
#[verifier::external_body]
pub fn signal_condvar_new() -> std::sync::Condvar {
    std::sync::Condvar::new()
}

/// Relies on `std::sync::Arc::clone`: the clone refers to the same
/// allocation, so it carries the very same value as the one it came from.
#[verifier::external_body]
pub fn arc_share<T>(a: &std::sync::Arc<T>) -> (r: std::sync::Arc<T>)
    ensures
        r == *a,
{
    std::sync::Arc::clone(a)
}

/// Relies on `std::sync::Mutex::lock`: blocks until the signal mutex is free
/// and returns its guard. A poisoned mutex — some thread panicked while
/// holding it — is recovered rather than propagated, by taking the guard out
/// of the poison error; the signal mutex guards no data, so that is sound.
/// The one panic std leaves possible is a re-entrant `lock` by the thread
/// already holding it; the library holds this mutex only across a notify or
/// hands it straight to the wait, never re-entering, and callers cannot
/// re-enter through the library either, so within this crate's use the
/// wrapper does not panic.
#[verifier::external_body]
pub fn lock_signal<'a>(m: &'a std::sync::Mutex<()>) -> std::sync::MutexGuard<'a, ()> {
    m.lock().unwrap_or_else(|e| e.into_inner())
}

/// Relies on `std::sync::Condvar::wait`: each pass runs `step` with the
/// signal mutex held and, while `step` has no value yet, atomically releases
/// the mutex and sleeps until a notification; a spurious or stray wake-up
/// only re-runs `step`. The value handed back comes from an actual call of
/// `step`, so it satisfies `step`'s postcondition; nothing is assumed about
/// any state `step` inspected once the call returns. A poisoned mutex at a
/// reacquisition is recovered as in `lock_signal` and the loop simply goes
/// round again, so this wrapper never panics.
#[verifier::external_body]
pub fn wait_for<'a, A, F: FnMut() -> Option<A>>(
    cv: &std::sync::Condvar,
    guard: std::sync::MutexGuard<'a, ()>,
    step: F,
) -> (r: (std::sync::MutexGuard<'a, ()>, A))
    ensures
        call_ensures(step, (), Some(r.1)),
{
    let mut step = step;
    let mut guard = guard;
    loop {
        if let Some(v) = step() {
            return (guard, v);
        }
        guard = cv.wait(guard).unwrap_or_else(|e| e.into_inner());
    }
}

/// Relies on `std::sync::Condvar::notify_one`: wakes one thread blocked on
/// the condition variable — the single waiter a channel can have. Threads
/// not yet blocked are unaffected, which is why notifiers take the signal
/// mutex first.
#[verifier::external_body]
pub fn notify_signal(cv: &std::sync::Condvar) {
    cv.notify_one();
}

} // verus!
