//! What this crate takes on trust of the one-shot channel of `futures` and of
//! the mutex of `std`.

use futures::channel::oneshot::{Canceled, Receiver, Sender};
use std::ops::DerefMut;
use std::sync::{Mutex, MutexGuard};
use vstd::prelude::*;

verus! {

/// `futures::channel::oneshot::Sender`, the sending half of a one-shot
/// channel. Nothing inside it is visible here.
#[verifier::external_type_specification]
#[verifier::external_body]
#[verifier::reject_recursive_types(T)]
pub struct ExSender<T>(futures::channel::oneshot::Sender<T>);

/// `futures::channel::oneshot::Receiver`, the receiving half of a one-shot
/// channel. Nothing inside it is visible here.
#[verifier::external_type_specification]
#[verifier::external_body]
#[verifier::reject_recursive_types(T)]
pub struct ExReceiver<T>(futures::channel::oneshot::Receiver<T>);

/// `futures::channel::oneshot::Canceled`: what a receiver gets when the
/// sender is gone and nothing was sent.
#[verifier::external_type_specification]
#[verifier::external_body]
pub struct ExCanceled(futures::channel::oneshot::Canceled);

/// `std::sync::Mutex`. Nothing inside it is visible here.
#[verifier::external_type_specification]
#[verifier::external_body]
#[verifier::reject_recursive_types(T)]
pub struct ExMutex<T: ?Sized>(std::sync::Mutex<T>);

/// `std::sync::MutexGuard`, which holds a `Mutex` locked until it is dropped.
#[verifier::external_type_specification]
#[verifier::external_body]
#[verifier::reject_recursive_types(T)]
pub struct ExMutexGuard<'a, T: ?Sized + 'a>(std::sync::MutexGuard<'a, T>);

/// `futures::channel::oneshot::channel` makes the two halves of a new
/// channel. Nothing is claimed of them.
pub assume_specification<T>[ futures::channel::oneshot::channel::<T> ]() -> (halves: (
    Sender<T>,
    Receiver<T>,
));

/// `Sender::send` uses up the sender. It either enqueues the value for the
/// receiver or, when the receiver is gone, hands the value back. Claimed:
/// the value handed back is the value given.
pub assume_specification<T>[ Sender::<T>::send ](sender: Sender<T>, value: T) -> (sent: Result<
    (),
    T,
>)
    ensures
        sent matches Err(back) ==> back == value,
;

/// `Receiver::try_recv` looks, without waiting, for a value: `Ok(Some(..))`
/// when one has arrived, `Ok(None)` when the sender still holds the channel,
/// `Err(Canceled)` when the sender is gone and nothing is there. Which of
/// these comes depends on what the other half did; nothing is claimed.
pub assume_specification<T>[ Receiver::<T>::try_recv ](receiver: &mut Receiver<T>) -> (polled:
    Result<Option<T>, Canceled>);

/// `Mutex::new` makes a lock around a value. Nothing is claimed of it.
pub assume_specification<T>[ Mutex::<T>::new ](value: T) -> (mutex: Mutex<T>);

/// Locks the mutex and waits for it if need be: `Mutex::lock`. `None` when
/// the lock is poisoned. Nothing is claimed of what the guard holds.
#[verifier::external_body]
pub(crate) fn acquire<'a, T>(mutex: &'a Mutex<T>) -> (guard: Option<MutexGuard<'a, T>>) {
    match mutex.lock() {
        Ok(guard) => Some(guard),
        Err(_) => None,
    }
}

/// The value behind a held lock: `DerefMut::deref_mut` of the guard. Nothing
/// is claimed of the value.
#[verifier::external_body]
pub(crate) fn guarded<'a, 'b, T>(guard: &'b mut MutexGuard<'a, T>) -> (value: &'b mut T) {
    guard.deref_mut()
}

} // verus!
