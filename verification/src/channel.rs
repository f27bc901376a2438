//! The unbounded multi-producer multi-consumer channel that carries jobs to
//! the workers and results back.
//!
//! The channel is shared between threads. What a call returns depends on what
//! the other threads have done, so nothing is claimed of any result: the code
//! that calls these functions is verified for every outcome.

use crossbeam::channel::{Receiver, RecvError, SendError, Sender, TryRecvError};
use vstd::prelude::*;

verus! {

#[verifier::external_type_specification]
#[verifier::external_body]
#[verifier::reject_recursive_types(T)]
pub struct ExSender<T>(Sender<T>);

#[verifier::external_type_specification]
#[verifier::external_body]
#[verifier::reject_recursive_types(T)]
pub struct ExReceiver<T>(Receiver<T>);

#[verifier::external_type_specification]
#[verifier::external_body]
#[verifier::reject_recursive_types(T)]
pub struct ExSendError<T>(SendError<T>);

#[verifier::external_type_specification]
#[verifier::external_body]
pub struct ExRecvError(RecvError);

#[verifier::external_type_specification]
#[verifier::external_body]
pub struct ExTryRecvError(TryRecvError);

/// `crossbeam::channel::unbounded`: a new channel, as its two ends.
pub assume_specification<T>[ crossbeam::channel::unbounded::<T> ]() -> (ends: (
    Sender<T>,
    Receiver<T>,
));

/// `Sender::send`: hands a message to the channel, or gives it back in the
/// error when the channel is disconnected.
pub assume_specification<T>[ Sender::<T>::send ](sender: &Sender<T>, msg: T) -> (sent: Result<
    (),
    SendError<T>,
>);

/// `Receiver::recv`: waits for a message; fails when the channel is empty and
/// disconnected.
pub assume_specification<T>[ Receiver::<T>::recv ](receiver: &Receiver<T>) -> (received: Result<
    T,
    RecvError,
>);

/// `Receiver::try_recv`: takes a message if one is there, without waiting.
pub assume_specification<T>[ Receiver::<T>::try_recv ](receiver: &Receiver<T>) -> (received:
    Result<T, TryRecvError>);

/// `Receiver::len`: how many messages the channel holds at the moment.
pub assume_specification<T>[ Receiver::<T>::len ](receiver: &Receiver<T>) -> (pending: usize);

/// `Sender::clone`: another handle on the same channel. A sender holds
/// nothing but the reference to its channel, and the clone holds the same
/// reference, so the two are equal. (With more than `isize::MAX` handles
/// alive the call ends the process; no run gets there.)
pub assume_specification<T>[ <Sender<T> as Clone>::clone ](sender: &Sender<T>) -> (handle: Sender<
    T,
>)
    ensures
        handle == *sender,
;

} // verus!
