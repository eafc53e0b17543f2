//! Links to peers and clients: the queue of what is to be sent, and the tasks that read and
//! write. `M` is a message of the consensus protocol.

use tokio::sync::mpsc::UnboundedSender;
use tokio::task::JoinHandle;
use vstd::prelude::*;

use crate::endings::Endings;
use crate::kv::{ClientId, NodeId};
use crate::messages::{ClusterMessage, ServerMessage};
use crate::outbox::{Outbox, Refused};

verus! {

/// A link to a server of the cluster.
#[verifier::reject_recursive_types(M)]
pub struct PeerConnection<M> {
    peer_id: NodeId,
    reader_task: JoinHandle<()>,
    writer_task: JoinHandle<()>,
    outgoing_messages: Outbox<ClusterMessage<M>>,
}

impl<M> PeerConnection<M> {
    /// The server at the other end.
    pub closed spec fn id(self) -> NodeId {
        self.peer_id
    }

    /// The tasks that serve the link.
    pub closed spec fn tasks(self) -> Set<JoinHandle<()>> {
        set![self.reader_task, self.writer_task]
    }

    /// All messages that were queued for sending so far, the first one first.
    pub closed spec fn queued(self) -> Seq<ClusterMessage<M>> {
        self.outgoing_messages.queued()
    }

    /// All messages that were offered and not taken so far, the first one first.
    pub closed spec fn refused(self) -> Seq<ClusterMessage<M>> {
        self.outgoing_messages.refused()
    }

    /// The link once one more message is queued.
    pub closed spec fn after_queueing(self, msg: ClusterMessage<M>) -> Self {
        PeerConnection {
            outgoing_messages: self.outgoing_messages.after_queueing(msg),
            ..self
        }
    }

    /// The link once one more message was offered and not taken.
    pub closed spec fn after_refusing(self, msg: ClusterMessage<M>) -> Self {
        PeerConnection {
            outgoing_messages: self.outgoing_messages.after_refusing(msg),
            ..self
        }
    }

    /// A message that is sent is noted behind those before it, as queued or as not taken, on the
    /// link to the same server with the same tasks.
    pub proof fn law_messages_line_up(self, msg: ClusterMessage<M>)
        ensures
            self.after_queueing(msg).queued() == self.queued().push(msg),
            self.after_queueing(msg).refused() == self.refused(),
            self.after_queueing(msg).id() == self.id(),
            self.after_queueing(msg).tasks() == self.tasks(),
            self.after_refusing(msg).queued() == self.queued(),
            self.after_refusing(msg).refused() == self.refused().push(msg),
            self.after_refusing(msg).id() == self.id(),
            self.after_refusing(msg).tasks() == self.tasks(),
    {
        self.outgoing_messages.lemma_after_sending(msg);
    }

    /// A link to a server, with the tasks that serve it and the queue of the one that writes.
    pub fn new(
        peer_id: NodeId,
        reader_task: JoinHandle<()>,
        writer_task: JoinHandle<()>,
        outgoing_messages: UnboundedSender<ClusterMessage<M>>,
    ) -> (r: Self)
        ensures
            r.id() == peer_id,
            r.tasks() == set![reader_task, writer_task],
            r.queued() == Seq::<ClusterMessage<M>>::empty(),
            r.refused() == Seq::<ClusterMessage<M>>::empty(),
    {
        let outgoing_messages = Outbox::new(outgoing_messages);
        PeerConnection { peer_id, reader_task, writer_task, outgoing_messages }
    }

    /// The server at the other end.
    pub fn peer_id(&self) -> (r: NodeId)
        ensures
            r == self.id(),
    {
        self.peer_id
    }

    /// Queues a message for sending, or hands it back where the link is closed.
    pub fn send(&mut self, msg: ClusterMessage<M>) -> (r: Result<(), ClusterMessage<M>>)
        ensures
            match r {
                Ok(_) => *final(self) == old(self).after_queueing(msg),
                Err(back) => back == msg && *final(self) == old(self).after_refusing(msg),
            },
    {
        self.outgoing_messages.send(msg)
    }

    /// Gives the link up and keeps the record of what was not taken.
    pub(crate) fn into_refused(self) -> (r: Refused<ClusterMessage<M>>)
        ensures
            r.messages() == self.refused(),
    {
        self.outgoing_messages.into_refused()
    }

    /// Asks the tasks of the link to end.
    pub(crate) fn close(&self, endings: &mut Endings)
        ensures
            final(endings).asked() == old(endings).asked().union(self.tasks()),
    {
        endings.abort(&self.reader_task);
        endings.abort(&self.writer_task);
        assert(endings.asked() =~= old(endings).asked().union(self.tasks()));
    }
}

/// A link to a client.
pub struct ClientConnection {
    client_id: ClientId,
    reader_task: JoinHandle<()>,
    writer_task: JoinHandle<()>,
    outgoing_messages: Outbox<ServerMessage>,
}

impl ClientConnection {
    /// The client at the other end.
    pub closed spec fn id(self) -> ClientId {
        self.client_id
    }

    /// The tasks that serve the link.
    pub closed spec fn tasks(self) -> Set<JoinHandle<()>> {
        set![self.reader_task, self.writer_task]
    }

    /// All messages that were queued for sending so far, the first one first.
    pub closed spec fn queued(self) -> Seq<ServerMessage> {
        self.outgoing_messages.queued()
    }

    /// All messages that were offered and not taken so far, the first one first.
    pub closed spec fn refused(self) -> Seq<ServerMessage> {
        self.outgoing_messages.refused()
    }

    /// The link once one more message is queued.
    pub closed spec fn after_queueing(self, msg: ServerMessage) -> Self {
        ClientConnection {
            outgoing_messages: self.outgoing_messages.after_queueing(msg),
            ..self
        }
    }

    /// The link once one more message was offered and not taken.
    pub closed spec fn after_refusing(self, msg: ServerMessage) -> Self {
        ClientConnection {
            outgoing_messages: self.outgoing_messages.after_refusing(msg),
            ..self
        }
    }

    /// A message that is sent is noted behind those before it, as queued or as not taken, on the
    /// link to the same client with the same tasks.
    pub proof fn law_messages_line_up(self, msg: ServerMessage)
        ensures
            self.after_queueing(msg).queued() == self.queued().push(msg),
            self.after_queueing(msg).refused() == self.refused(),
            self.after_queueing(msg).id() == self.id(),
            self.after_queueing(msg).tasks() == self.tasks(),
            self.after_refusing(msg).queued() == self.queued(),
            self.after_refusing(msg).refused() == self.refused().push(msg),
            self.after_refusing(msg).id() == self.id(),
            self.after_refusing(msg).tasks() == self.tasks(),
    {
        self.outgoing_messages.lemma_after_sending(msg);
    }

    /// A link to a client, with the tasks that serve it and the queue of the one that writes.
    pub fn new(
        client_id: ClientId,
        reader_task: JoinHandle<()>,
        writer_task: JoinHandle<()>,
        outgoing_messages: UnboundedSender<ServerMessage>,
    ) -> (r: Self)
        ensures
            r.id() == client_id,
            r.tasks() == set![reader_task, writer_task],
            r.queued() == Seq::<ServerMessage>::empty(),
            r.refused() == Seq::<ServerMessage>::empty(),
    {
        let outgoing_messages = Outbox::new(outgoing_messages);
        ClientConnection { client_id, reader_task, writer_task, outgoing_messages }
    }

    /// The client at the other end.
    pub fn client_id(&self) -> (r: ClientId)
        ensures
            r == self.id(),
    {
        self.client_id
    }

    /// Queues a message for sending, or hands it back where the link is closed.
    pub fn send(&mut self, msg: ServerMessage) -> (r: Result<(), ServerMessage>)
        ensures
            match r {
                Ok(_) => *final(self) == old(self).after_queueing(msg),
                Err(back) => back == msg && *final(self) == old(self).after_refusing(msg),
            },
    {
        self.outgoing_messages.send(msg)
    }

    /// Gives the link up and keeps the record of what was not taken.
    pub(crate) fn into_refused(self) -> (r: Refused<ServerMessage>)
        ensures
            r.messages() == self.refused(),
    {
        self.outgoing_messages.into_refused()
    }

    /// Asks the tasks of the link to end.
    pub(crate) fn close(&self, endings: &mut Endings)
        ensures
            final(endings).asked() == old(endings).asked().union(self.tasks()),
    {
        endings.abort(&self.reader_task);
        endings.abort(&self.writer_task);
        assert(endings.asked() =~= old(endings).asked().union(self.tasks()));
    }
}

} // verus!
