//! Mutual exclusion for sharing an I/O device between contexts.

use vstd::prelude::*;

verus! {

/// Any type that can implement `IOMutex` can be used by a host environment
/// as a mutex for synchronizing access to an I/O device. The driver core
/// itself is single-owner and does not call through this trait; it is the
/// hook for hosts that arbitrate one bus between several users.
pub trait IOMutex<T>: Sized {
    /// Construct a new instance of this mutex containing the value `v`.
    fn new(v: T) -> Self;

    /// Lock the mutex and call the closure `f` as a critical section,
    /// passing a mutable reference to the owned value. Returns the value
    /// returned by `f`.
    fn lock<R, F: FnOnce(&mut T) -> R>(&self, f: F) -> R;
}

} // verus!
