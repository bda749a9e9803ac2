//! The parts of std that contexts rest on, declared for the verifier.
//!
//! Mutual exclusion, wakers and the future protocol are std's own. Nothing
//! here states what a lock holds or what a waker does: the library carries
//! them through, and all of its decisions are made on the arena inside.
use vstd::prelude::*;

verus! {

#[verifier::external_type_specification]
#[verifier::external_body]
#[verifier::reject_recursive_types(T)]
pub struct ExMutex<T: ?Sized>(std::sync::Mutex<T>);

#[verifier::external_type_specification]
#[verifier::external_body]
#[verifier::reject_recursive_types(T)]
pub struct ExMutexGuard<'a, T: ?Sized + 'a>(std::sync::MutexGuard<'a, T>);

#[verifier::external_type_specification]
#[verifier::external_body]
#[verifier::reject_recursive_types(T)]
pub struct ExPoisonError<T>(std::sync::PoisonError<T>);

#[verifier::external_type_specification]
#[verifier::external_body]
pub struct ExWaker(std::task::Waker);

#[verifier::external_type_specification]
#[verifier::external_body]
pub struct ExTaskContext<'a>(std::task::Context<'a>);

#[verifier::external_type_specification]
#[verifier::external_body]
#[verifier::reject_recursive_types(Ptr)]
pub struct ExPin<Ptr>(std::pin::Pin<Ptr>);

#[verifier::external_type_specification]
#[verifier::reject_recursive_types(T)]
pub struct ExPoll<T>(std::task::Poll<T>);

/// Relies on `Mutex::new`: wraps a value in a new, unlocked mutex.
pub assume_specification<T>[ std::sync::Mutex::<T>::new ](t: T) -> std::sync::Mutex<T>;

/// Relies on `Mutex::lock`: blocks until the lock is held and returns its
/// guard, or the guard wrapped in a `PoisonError`.
pub assume_specification<T: ?Sized>[ std::sync::Mutex::<T>::lock ](
    m: &std::sync::Mutex<T>,
) -> std::sync::LockResult<std::sync::MutexGuard<'_, T>>
;

/// Relies on `PoisonError::into_inner`: hands back the guard it wraps.
pub assume_specification<T>[ std::sync::PoisonError::<T>::into_inner ](
    e: std::sync::PoisonError<T>,
) -> T
;

/// Relies on `MutexGuard`'s `DerefMut`: access to the locked value.
pub assume_specification<'a, 'b, T: ?Sized>[ <std::sync::MutexGuard<'a, T> as core::ops::DerefMut>::deref_mut ](
    g: &'b mut std::sync::MutexGuard<'a, T>,
) -> &'b mut T
;

/// Relies on `Waker::wake_by_ref`: schedules the waiting task.
pub assume_specification[ std::task::Waker::wake_by_ref ](w: &std::task::Waker)
;

/// Relies on `Waker::clone`: a second handle that wakes the same task.
pub assume_specification[ <std::task::Waker as Clone>::clone ](
    w: &std::task::Waker,
) -> std::task::Waker;

/// Relies on `task::Context::waker`: the waker of the task being polled.
pub assume_specification<'a>[ std::task::Context::<'a>::waker ](
    cx: &std::task::Context<'a>,
) -> &'a std::task::Waker;

/// Relies on `Pin::into_ref`: the same pin, as a shared reference.
pub assume_specification<'a, T: ?Sized>[ std::pin::Pin::<&'a mut T>::into_ref ](
    p: std::pin::Pin<&'a mut T>,
) -> std::pin::Pin<&'a T>;

/// Relies on `Pin::get_ref`: the shared reference that the pin holds.
pub assume_specification<'a, T: ?Sized>[ std::pin::Pin::<&'a T>::get_ref ](
    p: std::pin::Pin<&'a T>,
) -> &'a T;

} // verus!
