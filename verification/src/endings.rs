//! Tasks that were asked to end.

use tokio::task::JoinHandle;
use vstd::prelude::*;

verus! {

/// Why a task of `tokio` has no result; part of what a task is.
#[verifier::external_type_specification]
#[verifier::external_body]
pub struct ExJoinError(tokio::task::JoinError);

/// A task of `tokio`.
#[verifier::external_type_specification]
#[verifier::external_body]
#[verifier::reject_recursive_types(T)]
pub struct ExJoinHandle<T>(JoinHandle<T>);

/// A record of the tasks that were asked to end. Only [`Endings::abort`] adds to it.
pub(crate) struct Endings {
    asked: Ghost<Set<JoinHandle<()>>>,
}

impl Endings {
    /// The tasks that were asked to end.
    pub closed spec fn asked(self) -> Set<JoinHandle<()>> {
        self.asked@
    }

    /// No task was asked to end.
    pub(crate) fn new() -> (r: Self)
        ensures
            r.asked() == Set::<JoinHandle<()>>::empty(),
    {
        Endings { asked: Ghost(Set::empty()) }
    }

    /// `JoinHandle::abort`: asks a task to end. When it ends is for the runtime to say.
    #[verifier::external_body]
    pub(crate) fn abort(&mut self, task: &JoinHandle<()>)
        ensures
            final(self).asked() == old(self).asked().insert(*task),
    {
        task.abort()
    }
}

} // verus!
