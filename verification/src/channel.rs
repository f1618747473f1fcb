//! The parts of `std::sync` that the scheduler is built on: the channels that
//! carry requests and notifications, and the condition variable that wakes
//! the worker. Verus sees nothing inside these values and is told nothing of
//! what the calls return: what comes back depends on the other threads.
use std::sync::mpsc::{Receiver, SendError, Sender, TryRecvError};
use std::sync::Condvar;
use vstd::prelude::*;

verus! {

/// The sending end of a `std::sync::mpsc` channel.
#[verifier::external_type_specification]
#[verifier::external_body]
#[verifier::reject_recursive_types(T)]
pub struct ExSender<T>(Sender<T>);

/// The receiving end of a `std::sync::mpsc` channel.
#[verifier::external_type_specification]
#[verifier::external_body]
#[verifier::reject_recursive_types(T)]
pub struct ExReceiver<T>(Receiver<T>);

/// What `Sender::send` hands back when the receiving end is gone: the value
/// that could not be sent.
#[verifier::external_type_specification]
#[verifier::external_body]
#[verifier::reject_recursive_types(T)]
pub struct ExSendError<T>(SendError<T>);

/// Why `Receiver::try_recv` returned no value: the channel is empty, or every
/// sender is gone.
#[verifier::external_type_specification]
#[verifier::external_body]
pub struct ExTryRecvError(TryRecvError);

/// `std::sync::Condvar`.
#[verifier::external_type_specification]
#[verifier::external_body]
pub struct ExCondvar(Condvar);

/// `std::sync::mpsc::channel` makes the two ends of a new channel. Nothing is
/// claimed of them.
pub assume_specification<T>[ std::sync::mpsc::channel::<T> ]() -> (ends: (Sender<T>, Receiver<T>));

/// `Sender::send` never blocks. It fails exactly when the receiving end has
/// been dropped, which no contract can foresee: nothing is claimed of the
/// result.
pub assume_specification<T>[ Sender::<T>::send ](sender: &Sender<T>, t: T) -> (sent: Result<(), SendError<T>>);

/// `Receiver::try_recv` never blocks. Whether a value is waiting depends on
/// the senders: nothing is claimed of the result.
pub assume_specification<T>[ Receiver::<T>::try_recv ](receiver: &Receiver<T>) -> (received: Result<T, TryRecvError>);

/// `Condvar::notify_one` wakes one thread that waits on the condition
/// variable, if there is one. It returns nothing.
pub assume_specification[ Condvar::notify_one ](condvar: &Condvar);

} // verus!
