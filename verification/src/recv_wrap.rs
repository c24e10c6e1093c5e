//! A receiving end of a channel that can be drained as a sequence.
use vstd::prelude::*;

verus! {

/// `std::sync::mpsc::Receiver`, carried through without a look inside.
#[verifier::external_type_specification]
#[verifier::external_body]
#[verifier::reject_recursive_types(T)]
pub struct ExReceiver<T>(std::sync::mpsc::Receiver<T>);

/// `std::sync::mpsc::TryRecvError`: the channel is empty, or closed.
#[verifier::external_type_specification]
pub struct ExTryRecvError(std::sync::mpsc::TryRecvError);

/// `std::sync::mpsc::RecvError`: the channel is closed.
#[verifier::external_type_specification]
#[verifier::external_body]
pub struct ExRecvError(std::sync::mpsc::RecvError);

/// `std::sync::mpsc::Receiver::try_recv` returns at once: a message where one is
/// waiting, else why there is none. Which, depends on the sending side.
pub assume_specification<T>[ std::sync::mpsc::Receiver::<T>::try_recv ](r: &std::sync::mpsc::Receiver<T>) -> (res: Result<
    T,
    std::sync::mpsc::TryRecvError,
>);

/// `std::sync::mpsc::Receiver::recv` blocks until a message arrives or every sender
/// is gone.
pub assume_specification<T>[ std::sync::mpsc::Receiver::<T>::recv ](r: &std::sync::mpsc::Receiver<T>) -> (res: Result<
    T,
    std::sync::mpsc::RecvError,
>);

/// The receiving end of a channel.
#[verifier::reject_recursive_types(T)]
pub struct Receiver<T> {
    recv: std::sync::mpsc::Receiver<T>,
}

impl<T> Receiver<T> {
    pub fn new(recv: std::sync::mpsc::Receiver<T>) -> (r: Receiver<T>)
        ensures
            r.inner() == recv,
    {
        Receiver { recv }
    }

    /// The channel end that this receiver reads from.
    pub closed spec fn inner(&self) -> std::sync::mpsc::Receiver<T> {
        self.recv
    }

    /// Blocks until a message arrives or the channel is closed.
    pub fn recv(&self) -> (r: Result<T, std::sync::mpsc::RecvError>) {
        self.recv.recv()
    }

    /// A waiting message, or why there is none.
    pub fn try_recv(&self) -> (r: Result<T, std::sync::mpsc::TryRecvError>) {
        self.recv.try_recv()
    }

    /// The receiver as a sequence of its messages.
    pub fn into_iter(self) -> (r: IntoIter<T>)
        ensures
            r.recv == self,
    {
        IntoIter { recv: self }
    }
}

/// The messages of a receiver, one by one, until the channel is closed.
#[verifier::reject_recursive_types(T)]
pub struct IntoIter<T> {
    pub recv: Receiver<T>,
}

impl<T> IntoIter<T> {
    /// The next message; `None` once the channel is closed.
    pub fn next(&mut self) -> (r: Option<T>)
        ensures
            final(self).recv == old(self).recv,
    {
        message_of(self.recv.recv())
    }
}

/// What a blocking receive gave, as the next of a sequence: the message,
/// or the end once the channel is closed.
pub fn message_of<T>(received: Result<T, std::sync::mpsc::RecvError>) -> (r: Option<T>)
    ensures
        r == match received {
            Ok(it) => Some(it),
            Err(_) => None::<T>,
        },
{
    match received {
        Ok(it) => Some(it),
        Err(_) => None,
    }
}

} // verus!
