//! What the library assumes of the spin lock that guards its shared state.
//!
//! A lock hides the value it holds from the verifier: nothing is known of a
//! value read through a guard beyond what its type guarantees.

use vstd::prelude::*;

verus! {

#[verifier::external_type_specification]
#[verifier::external_body]
#[verifier::reject_recursive_types(T)]
pub struct ExMutex<T: ?Sized>(spin::Mutex<T>);

#[verifier::external_type_specification]
#[verifier::external_body]
#[verifier::reject_recursive_types(T)]
pub struct ExMutexGuard<'a, T: 'a + ?Sized>(spin::MutexGuard<'a, T>);

/// `spin::Mutex::new` wraps a value in an unlocked mutex. The mutex is
/// opaque here, so nothing is claimed of the result.
pub assume_specification<T>[ spin::Mutex::<T>::new ](value: T) -> (mutex: spin::Mutex<T>)
;

/// `spin::Mutex::lock` spins until the lock is free and returns its guard.
/// What the guard gives access to depends on every other holder of the
/// mutex, so nothing is claimed of it. The caller must not already hold a
/// guard of the same mutex: the call would spin forever.
pub assume_specification<'a, T: ?Sized>[ spin::Mutex::<T>::lock ](
    mutex: &'a spin::Mutex<T>,
) -> (guard: spin::MutexGuard<'a, T>)
;

/// `Deref::deref` of a guard lends the guarded value. Nothing is claimed of
/// it.
pub assume_specification<'a, 'b, T: ?Sized>[ <spin::MutexGuard<'a, T> as core::ops::Deref>::deref ](
    guard: &'b spin::MutexGuard<'a, T>,
) -> (value: &'b T)
;

/// `DerefMut::deref_mut` of a guard lends the guarded value for writing.
/// Nothing is claimed of the value found, nor of the guard afterwards.
pub assume_specification<'a, 'b, T: ?Sized>[ <spin::MutexGuard<'a, T> as core::ops::DerefMut>::deref_mut ](
    guard: &'b mut spin::MutexGuard<'a, T>,
) -> (value: &'b mut T)
;

} // verus!
