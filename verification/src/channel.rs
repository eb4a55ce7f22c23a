//! Queues between threads.
//!
//! A queue has any number of holders at both ends, so that what it holds at a moment depends on
//! what others do. What is promised of a call is therefore only what holds whatever they do.

use vstd::prelude::*;

verus! {

#[verifier::external_type_specification]
#[verifier::external_body]
#[verifier::reject_recursive_types(T)]
pub struct ExSender<T>(crossbeam_channel::Sender<T>);

#[verifier::external_type_specification]
#[verifier::external_body]
#[verifier::reject_recursive_types(T)]
pub struct ExReceiver<T>(crossbeam_channel::Receiver<T>);

/// What became of a message.
#[derive(Debug)]
pub enum SendOutcome<T> {
    Sent,
    /// The queue had no room; the message comes back.
    Full(T),
    /// No receiver is left; the message comes back.
    Disconnected(T),
}

/// Both ends of a queue without a limit. Calls `crossbeam_channel::unbounded`.
#[verifier::external_body]
pub(crate) fn unbounded_queue<T>() -> (crossbeam_channel::Sender<T>, crossbeam_channel::Receiver<T>) {
    crossbeam_channel::unbounded()
}

/// Both ends of a queue for at most `capacity` messages. Calls `crossbeam_channel::bounded`.
#[verifier::external_body]
pub(crate) fn bounded_queue<T>(capacity: usize) -> (
    crossbeam_channel::Sender<T>,
    crossbeam_channel::Receiver<T>,
) {
    crossbeam_channel::bounded(capacity)
}

/// Another handle on the sending end. Calls `crossbeam_channel::Sender::clone`.
#[verifier::external_body]
pub(crate) fn same_sender<T>(tx: &crossbeam_channel::Sender<T>) -> crossbeam_channel::Sender<T> {
    tx.clone()
}

/// Another handle on the receiving end. Calls `crossbeam_channel::Receiver::clone`.
#[verifier::external_body]
pub(crate) fn same_receiver<T>(rx: &crossbeam_channel::Receiver<T>) -> crossbeam_channel::Receiver<
    T,
> {
    rx.clone()
}

/// Puts a message into the queue without waiting.
///
/// Calls `crossbeam_channel::Sender::try_send`. A message that is not sent comes back. Whether
/// there is room depends on the other holders and is left unsaid.
#[verifier::external_body]
pub(crate) fn try_send<T>(tx: &crossbeam_channel::Sender<T>, msg: T) -> (r: SendOutcome<T>)
    ensures
        r matches SendOutcome::Full(m) ==> m == msg,
        r matches SendOutcome::Disconnected(m) ==> m == msg,
{
    match tx.try_send(msg) {
        Ok(()) => SendOutcome::Sent,
        Err(crossbeam_channel::TrySendError::Full(m)) => SendOutcome::Full(m),
        Err(crossbeam_channel::TrySendError::Disconnected(m)) => SendOutcome::Disconnected(m),
    }
}

/// Puts a message into the queue, waiting up to `timeout_ms` milliseconds for room.
///
/// Calls `crossbeam_channel::Sender::send_timeout`. A message that is not sent comes back.
#[verifier::external_body]
pub(crate) fn send_timeout<T>(
    tx: &crossbeam_channel::Sender<T>,
    msg: T,
    timeout_ms: u64,
) -> (r: SendOutcome<T>)
    ensures
        r matches SendOutcome::Full(m) ==> m == msg,
        r matches SendOutcome::Disconnected(m) ==> m == msg,
{
    match tx.send_timeout(msg, std::time::Duration::from_millis(timeout_ms)) {
        Ok(()) => SendOutcome::Sent,
        Err(crossbeam_channel::SendTimeoutError::Timeout(m)) => SendOutcome::Full(m),
        Err(crossbeam_channel::SendTimeoutError::Disconnected(m)) => SendOutcome::Disconnected(m),
    }
}

/// Takes a message out of the queue, if one is waiting.
///
/// Calls `crossbeam_channel::Receiver::try_recv`. Which message comes, if any, depends on the
/// other holders and is left unsaid.
#[verifier::external_body]
pub(crate) fn try_recv<T>(rx: &crossbeam_channel::Receiver<T>) -> Option<T> {
    rx.try_recv().ok()
}

/// The receiving end of a queue, with all that it gave: messages, and nothing where none was
/// waiting.
#[verifier::reject_recursive_types(T)]
pub struct Inbox<T> {
    rx: crossbeam_channel::Receiver<T>,
    given: Ghost<Seq<Option<T>>>,
}

impl<T> Inbox<T> {
    /// What the queue gave, in the order in which it was asked.
    pub closed spec fn given(&self) -> Seq<Option<T>> {
        self.given@
    }

    /// The receiving end.
    pub closed spec fn end(&self) -> crossbeam_channel::Receiver<T> {
        self.rx
    }

    pub(crate) fn new(rx: crossbeam_channel::Receiver<T>) -> (r: Self)
        ensures
            r.end() == rx,
            r.given() == Seq::<Option<T>>::empty(),
    {
        Inbox { rx, given: Ghost(Seq::empty()) }
    }

    /// Takes a message out of the queue, if one is waiting. Which one comes rests on all who hold
    /// the queue.
    pub(crate) fn take(&mut self) -> (r: Option<T>)
        ensures
            final(self).end() == old(self).end(),
            final(self).given() == old(self).given().push(r),
            call_ensures(try_recv::<T>, (&old(self).end(),), r),
    {
        let r = try_recv(&self.rx);
        proof {
            self.given@ = self.given@.push(r);
        }
        r
    }

    /// How many messages are waiting. That rests on all who hold the queue.
    pub(crate) fn waiting(&self) -> (r: usize)
        ensures
            call_ensures(waiting::<T>, (&self.end(),), r),
    {
        waiting(&self.rx)
    }
}

/// How many messages are waiting. Calls `crossbeam_channel::Receiver::len`.
#[verifier::external_body]
pub(crate) fn waiting<T>(rx: &crossbeam_channel::Receiver<T>) -> usize {
    rx.len()
}

} // verus!
