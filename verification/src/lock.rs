//! The lock that the two halves of a queue share.
//!
//! The lock is `std::sync::Mutex`. What is said of it here is taken on
//! trust, and it is very little: no contract below claims anything of a
//! value that comes out of the lock. The lock is only ever tried, never
//! waited for, so no call here can fail to return.

use std::ops::DerefMut;
use std::sync::Mutex;
use std::sync::MutexGuard;
use std::sync::PoisonError;
use std::sync::TryLockError;
use vstd::prelude::*;

verus! {

/// `std::sync::Mutex`, a lock around one value. Nothing is known of the value
/// inside: it changes while the mutex itself stays the same.
#[verifier::external_type_specification]
#[verifier::external_body]
#[verifier::reject_recursive_types(T)]
pub struct ExMutex<T: ?Sized>(Mutex<T>);

/// `std::sync::MutexGuard`, which stands for a lock that is held and gives it
/// up when it is dropped.
#[verifier::external_type_specification]
#[verifier::external_body]
#[verifier::reject_recursive_types(T)]
pub struct ExMutexGuard<'a, T: ?Sized + 'a>(MutexGuard<'a, T>);

/// `std::sync::PoisonError`, which a lock hands out in place of its guard
/// once a thread has unwound while holding it. The guard is inside.
#[verifier::external_type_specification]
#[verifier::external_body]
#[verifier::reject_recursive_types(T)]
pub struct ExPoisonError<T>(PoisonError<T>);

/// `Mutex::new` puts a value behind a new lock. Nothing is claimed of the
/// result.
pub assume_specification<T>[ Mutex::<T>::new ](t: T) -> (mutex: Mutex<T>)
;

/// `PoisonError::into_inner` hands out the guard all the same. Nothing is
/// claimed of it.
pub assume_specification<T>[ PoisonError::<T>::into_inner ](poisoned: PoisonError<T>) -> (guard: T)
;

/// `DerefMut::deref_mut` of a `MutexGuard`: exclusive access to the value
/// behind the lock for as long as the guard is borrowed. Nothing is claimed
/// of the value found there.
pub assume_specification<'a, 'b, T: ?Sized>[ <MutexGuard<'a, T> as DerefMut>::deref_mut ](
    guard: &'b mut MutexGuard<'a, T>,
) -> (value: &'b mut T)
;

/// What came of trying a lock.
#[verifier::reject_recursive_types(T)]
pub(crate) enum Tried<'a, T> {
    /// The lock was free and is now held.
    Free(MutexGuard<'a, T>),
    /// The lock was free and is now held; a thread had unwound while holding
    /// it before.
    Poisoned(PoisonError<MutexGuard<'a, T>>),
    /// The lock is held already.
    Busy,
}

/// `Mutex::try_lock` takes the lock if it is free and returns at once if it
/// is not, whoever holds it. The three outcomes that std tells apart are
/// handed on as they are; nothing is claimed of which one comes.
#[verifier::external_body]
pub(crate) fn try_lock<'a, T>(mutex: &'a Mutex<T>) -> (tried: Tried<'a, T>) {
    match mutex.try_lock() {
        Ok(guard) => Tried::Free(guard),
        Err(TryLockError::Poisoned(poisoned)) => Tried::Poisoned(poisoned),
        Err(TryLockError::WouldBlock) => Tried::Busy,
    }
}

/// Takes the lock if it is free. A lock that an unwinding thread left
/// poisoned is taken all the same: nothing that can unwind ever touches the
/// queue behind it, so the queue is whole even then.
pub(crate) fn take<'a, T>(mutex: &'a Mutex<T>) -> (taken: Option<MutexGuard<'a, T>>) {
    match try_lock(mutex) {
        Tried::Free(guard) => Some(guard),
        Tried::Poisoned(poisoned) => Some(poisoned.into_inner()),
        Tried::Busy => None,
    }
}

} // verus!
