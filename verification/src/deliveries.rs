//! Answers that were handed to waiting requests.

use tokio::sync::oneshot;
use vstd::prelude::*;

use crate::messages::{Answer, ServerMessage};

verus! {

/// The sending end of a queue of `tokio` for one value.
#[verifier::external_type_specification]
#[verifier::external_body]
#[verifier::reject_recursive_types(T)]
pub struct ExOneshotSender<T>(oneshot::Sender<T>);

/// A record of what was handed to which request, and of what was offered to one that was gone.
/// Only [`Deliveries::hand`] adds to it.
#[verifier::reject_recursive_types(T)]
pub(crate) struct Deliveries<T> {
    made: Ghost<Seq<(T, Answer)>>,
    refused: Ghost<Seq<(T, Answer)>>,
}

impl<T> Deliveries<T> {
    /// What was handed to which request, the first one first.
    pub closed spec fn made(self) -> Seq<(T, Answer)> {
        self.made@
    }

    /// What was offered to which request that was gone, the first one first.
    pub closed spec fn refused(self) -> Seq<(T, Answer)> {
        self.refused@
    }

    /// Nothing was offered to any request.
    pub(crate) fn new() -> (r: Self)
        ensures
            r.made() == Seq::<(T, Answer)>::empty(),
            r.refused() == Seq::<(T, Answer)>::empty(),
    {
        Deliveries { made: Ghost(Seq::empty()), refused: Ghost(Seq::empty()) }
    }
}

impl Deliveries<oneshot::Sender<ServerMessage>> {
    /// `oneshot::Sender::send`: offers a message to a request, which takes it, or hands it back. It
    /// comes back where the receiving end is gone, which is for the task at that end to say, so that nothing is
    /// promised of when.
    #[verifier::external_body]
    pub(crate) fn hand(&mut self, to: oneshot::Sender<ServerMessage>, msg: ServerMessage) -> (r: Result<
        (),
        ServerMessage,
    >)
        ensures
            match r {
                Ok(_) => {
                    &&& final(self).made() == old(self).made().push((to, msg@))
                    &&& final(self).refused() == old(self).refused()
                },
                Err(back) => {
                    &&& back == msg
                    &&& final(self).made() == old(self).made()
                    &&& final(self).refused() == old(self).refused().push((to, msg@))
                },
            },
    {
        to.send(msg)
    }
}

} // verus!
