//! The queue of what a task is to send out, with a record of what was put on it.

use tokio::sync::mpsc::UnboundedSender;
use vstd::prelude::*;

verus! {

/// The sending end of a queue of `tokio` without bound.
#[verifier::external_type_specification]
#[verifier::external_body]
#[verifier::reject_recursive_types(T)]
pub struct ExUnboundedSender<T>(UnboundedSender<T>);

/// A record of messages that queues did not take. Only [`Outbox::send`] adds to one; records can
/// be put together.
#[verifier::reject_recursive_types(T)]
pub(crate) struct Refused<T> {
    messages: Ghost<Seq<T>>,
}

impl<T> Refused<T> {
    /// The messages that were not taken, the first one first.
    pub closed spec fn messages(self) -> Seq<T> {
        self.messages@
    }

    /// No message was not taken.
    pub(crate) fn new() -> (r: Self)
        ensures
            r.messages() == Seq::<T>::empty(),
    {
        Refused { messages: Ghost(Seq::empty()) }
    }

    /// Adds another record to this one.
    pub(crate) fn append(&mut self, other: Self)
        ensures
            final(self).messages() == old(self).messages() + other.messages(),
    {
        self.messages = Ghost(self.messages@ + other.messages@);
    }
}

/// The sending end of a queue, all that was queued through it so far, and all that was not taken.
/// Only [`Outbox::send`] adds to the records.
#[verifier::reject_recursive_types(T)]
pub(crate) struct Outbox<T> {
    queue: UnboundedSender<T>,
    queued: Ghost<Seq<T>>,
    refused: Refused<T>,
}

impl<T> Outbox<T> {
    /// All that was queued so far, the first one first.
    pub closed spec fn queued(self) -> Seq<T> {
        self.queued@
    }

    /// All that was not taken so far, the first one first.
    pub closed spec fn refused(self) -> Seq<T> {
        self.refused.messages()
    }

    /// The same end of the queue, once one more message is queued.
    pub closed spec fn after_queueing(self, msg: T) -> Self {
        Outbox { queued: Ghost(self.queued@.push(msg)), ..self }
    }

    /// The same end of the queue, once one more message was not taken.
    pub closed spec fn after_refusing(self, msg: T) -> Self {
        Outbox {
            refused: Refused { messages: Ghost(self.refused.messages@.push(msg)) },
            ..self
        }
    }

    /// A message is noted behind those before it, as queued or as not taken.
    pub(crate) proof fn lemma_after_sending(self, msg: T)
        ensures
            self.after_queueing(msg).queued() == self.queued().push(msg),
            self.after_queueing(msg).refused() == self.refused(),
            self.after_refusing(msg).queued() == self.queued(),
            self.after_refusing(msg).refused() == self.refused().push(msg),
    {
    }

    /// Takes over the sending end of a queue.
    pub(crate) fn new(queue: UnboundedSender<T>) -> (r: Self)
        ensures
            r.queued() == Seq::<T>::empty(),
            r.refused() == Seq::<T>::empty(),
    {
        Outbox { queue, queued: Ghost(Seq::empty()), refused: Refused::new() }
    }

    /// `UnboundedSender::send`: offers a message to the queue, which takes it behind those before
    /// it, or hands it back. It is handed back where the receiving end is gone, which is for the
    /// task at that end to say, so that nothing is promised of when.
    #[verifier::external_body]
    pub(crate) fn send(&mut self, msg: T) -> (r: Result<(), T>)
        ensures
            match r {
                Ok(_) => *final(self) == old(self).after_queueing(msg),
                Err(back) => back == msg && *final(self) == old(self).after_refusing(msg),
            },
    {
        self.queue.send(msg).map_err(|err| err.0)
    }

    /// Gives the queue up and keeps the record of what was not taken.
    pub(crate) fn into_refused(self) -> (r: Refused<T>)
        ensures
            r.messages() == self.refused(),
    {
        self.refused
    }
}

} // verus!
