//! What the limiter takes from `std::sync`: a mutex around the client table.
//!
//! Nothing is claimed of what a lock holds: between two acquisitions any
//! other holder may have changed it. The declarations below only let the
//! verified code create a mutex, acquire it, and reach the value it guards.
use std::sync::{Mutex, MutexGuard, PoisonError};
use vstd::prelude::*;

verus! {

/// `std::sync::Mutex`, as an opaque type.
#[verifier::external_type_specification]
#[verifier::external_body]
#[verifier::reject_recursive_types(T)]
pub struct ExMutex<T: ?Sized>(Mutex<T>);

/// `std::sync::MutexGuard`, as an opaque type. The lock is held for as long
/// as the guard lives, and released when it goes out of scope.
#[verifier::external_type_specification]
#[verifier::external_body]
#[verifier::reject_recursive_types(T)]
pub struct ExMutexGuard<'a, T: ?Sized + 'a>(MutexGuard<'a, T>);

/// `std::sync::PoisonError`, as an opaque type: what `lock` returns in place
/// of the guard when an earlier holder panicked.
#[verifier::external_type_specification]
#[verifier::external_body]
#[verifier::reject_recursive_types(T)]
pub struct ExPoisonError<T>(PoisonError<T>);

/// `Mutex::new` wraps a value in a fresh, unlocked mutex. Nothing is stated
/// of the result.
pub assume_specification<T>[ Mutex::<T>::new ](value: T) -> (mutex: Mutex<T>)
;

/// `Mutex::lock` blocks until the calling thread holds the lock, and returns
/// the guard, or the poison error that carries the guard. Nothing is stated
/// of the result. It must not be called by a thread that already holds this
/// lock; the limiter never does, since each of its operations drops its guard
/// before it returns.
pub assume_specification<'a, T: ?Sized>[ Mutex::<T>::lock ](mutex: &'a Mutex<T>) -> (acquired:
    Result<MutexGuard<'a, T>, PoisonError<MutexGuard<'a, T>>>)
;

/// `PoisonError::into_inner` hands out the guard that a poison error
/// carries. Nothing is stated of the result.
pub assume_specification<T>[ PoisonError::<T>::into_inner ](poisoned: PoisonError<T>) -> (inner: T)
;

/// Calls `DerefMut::deref_mut` on the guard: exclusive access to the value
/// behind the lock, for no longer than the guard is borrowed. Nothing is
/// stated of the value that comes back.
#[verifier::external_body]
pub(crate) fn guarded<'g, 'm, T>(guard: &'g mut MutexGuard<'m, T>) -> (protected: &'g mut T) {
    std::ops::DerefMut::deref_mut(guard)
}

} // verus!
