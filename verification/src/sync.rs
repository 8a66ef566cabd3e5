//! Locks that threads share, from the crate `parking_lot`.
//!
//! What a lock holds can be changed by any thread between two acquisitions,
//! so nothing here says what is found behind one. What is known of it is what
//! holds of every value of its type.

use std::sync::Arc;
use vstd::prelude::*;

verus! {

/// `parking_lot::RawMutex`, the lock without a value that a `Mutex` is built
/// on. It is only named here, as a part of the type of a `Mutex`.
#[verifier::external_type_specification]
#[verifier::external_body]
pub struct ExRawMutex(parking_lot::RawMutex);

/// `lock_api::Mutex`, of which `parking_lot::Mutex` is an instance: a value
/// behind a lock. Nothing is known of the value from outside.
#[verifier::external_type_specification]
#[verifier::external_body]
#[verifier::reject_recursive_types(R)]
#[verifier::reject_recursive_types(T)]
pub struct ExMutex<R, T: ?Sized>(parking_lot::lock_api::Mutex<R, T>);

/// A lock that is held: a `parking_lot::MutexGuard`, kept in a field that
/// the verifier does not look into, since the guard's own declaration is
/// bound by a trait of `lock_api`. The lock is released when the value is
/// dropped.
#[verifier::external_body]
#[verifier::reject_recursive_types(T)]
pub(crate) struct Held<'a, T> {
    guard: parking_lot::MutexGuard<'a, T>,
}

/// `Mutex::new` makes a lock around `value`, not held by anyone.
#[verifier::external_body]
pub(crate) fn new_mutex<T>(value: T) -> parking_lot::Mutex<T> {
    parking_lot::Mutex::new(value)
}

/// `Mutex::lock` waits until no other thread holds the lock, and takes it.
/// A thread that holds the lock already would wait for itself: the library
/// takes a lock only where it holds none, and lets go of it before it takes
/// the next.
#[verifier::external_body]
pub(crate) fn lock<T>(mutex: &parking_lot::Mutex<T>) -> Held<'_, T> {
    Held { guard: mutex.lock() }
}

/// `MutexGuard::deref_mut` gives the value behind a lock that is held.
/// Nothing is claimed of the value: other threads have had their turn.
#[verifier::external_body]
pub(crate) fn held<'a, 'b, T>(lock: &'a mut Held<'b, T>) -> &'a mut T {
    &mut *lock.guard
}

/// `Arc::clone` makes one more pointer to the same value.
#[verifier::external_body]
pub(crate) fn share<T>(pointer: &Arc<T>) -> (other: Arc<T>)
    ensures
        other == *pointer,
{
    Arc::clone(pointer)
}

} // verus!
