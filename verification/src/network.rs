//! Which servers and clients a server is connected to, and through which link it reaches
//! each. `A` is the type of a peer's address and `M` that of a message of the consensus protocol.

use std::collections::HashMap;
use tokio::task::JoinHandle;
use vstd::prelude::*;

use crate::endings::Endings;
use crate::kv::{ClientId, NodeId};
use crate::link::{ClientConnection, PeerConnection};
use crate::messages::{ClusterMessage, RegistrationMessage, ServerMessage};
use crate::outbox::Refused;
use crate::queue::queue_of;

verus! {

broadcast use vstd::std_specs::hash::group_hash_axioms;

/// The servers of a cluster but one, each with its address. Where one list is longer than
/// the other, the rest of it is left out.
pub open spec fn peers_of<A>(id: NodeId, nodes: Seq<NodeId>, addresses: Seq<A>) -> Seq<(NodeId, A)> {
    zipped(nodes, addresses).filter(other_than(id))
}

/// Holds of every server but this one.
pub open spec fn other_than<A>(id: NodeId) -> spec_fn((NodeId, A)) -> bool {
    |peer: (NodeId, A)| peer.0 != id
}

/// Holds of the servers that this one opens connections to.
pub open spec fn dialled_by<A>(id: NodeId) -> spec_fn((NodeId, A)) -> bool {
    |peer: (NodeId, A)| dials(id, peer.0)
}

/// Each server with its address.
pub open spec fn zipped<A>(nodes: Seq<NodeId>, addresses: Seq<A>) -> Seq<(NodeId, A)> {
    Seq::new(
        if nodes.len() <= addresses.len() {
            nodes.len()
        } else {
            addresses.len()
        },
        |i: int| (nodes[i], addresses[i]),
    )
}

/// The address of each server; the last one of a server that is listed twice.
pub open spec fn address_book<A>(peers: Seq<(NodeId, A)>) -> Map<NodeId, A>
    decreases peers.len(),
{
    if peers.len() == 0 {
        Map::empty()
    } else {
        address_book(peers.drop_last()).insert(peers.last().0, peers.last().1)
    }
}

/// Whether a server opens the connection to a peer, rather than wait for the peer to.
pub open spec fn dials(id: NodeId, peer: NodeId) -> bool {
    peer < id
}

/// A connection that has just been established.
#[verifier::reject_recursive_types(M)]
pub enum NewConnection<M> {
    /// A link to a server of the cluster.
    ToPeer(PeerConnection<M>),
    /// A link to a client.
    ToClient(ClientConnection),
}

/// A missing link that this server is to open.
#[derive(Debug, PartialEq, Eq)]
pub struct ReconnectTarget<A> {
    /// Where the link belongs.
    pub index: usize,
    /// The server to connect to.
    pub peer_id: NodeId,
    /// Its address.
    pub address: A,
}

/// What becomes of a message to a server of the cluster.
#[derive(Debug, PartialEq, Eq)]
pub enum PeerDelivery<M> {
    /// It goes out on the link at this index.
    Send(usize, M),
    /// There is no link to the server.
    NotConnected,
    /// There is no such server.
    UnexpectedNode,
}

/// What becomes of a message to a client.
#[derive(Debug, PartialEq, Eq)]
pub enum ClientDelivery<M> {
    /// It goes out on the link to this client.
    Send(ClientId, M),
    /// There is no link to the client.
    NotConnected,
}

/// What became of a message.
#[derive(Debug, Clone, Copy, PartialEq, Eq)]
pub enum Sent {
    /// It was queued for sending.
    Queued,
    /// It could not be queued, and its link was given up.
    Failed,
    /// There is no link for it.
    NotConnected,
    /// There is no such receiver.
    UnexpectedNode,
}

/// Whom messages are to.
pub open spec fn recipients_of<M>(messages: Seq<(u64, M)>) -> Seq<u64> {
    messages.map_values(|m: (u64, M)| m.0)
}

/// The mathematical model of a [`Network`].
#[verifier::ext_equal]
#[verifier::reject_recursive_types(A)]
#[verifier::reject_recursive_types(M)]
pub struct NetworkState<A, M> {
    pub id: NodeId,
    pub peers: Seq<NodeId>,
    pub addresses: Map<NodeId, A>,
    pub links: Seq<Option<PeerConnection<M>>>,
    pub clients: Map<ClientId, ClientConnection>,
    pub batch_size: usize,
    /// The tasks that were asked to end.
    pub ended: Set<JoinHandle<()>>,
    /// What was offered to links to peers and not taken, before they were given up for that, the
    /// first one first.
    pub refused_by_peers: Seq<ClusterMessage<M>>,
    /// What was offered to links to clients and not taken, before they were given up for that,
    /// the first one first.
    pub refused_by_clients: Seq<ServerMessage>,
}

impl<A, M> NetworkState<A, M> {
    /// There is one place for a link to each peer.
    pub open spec fn wf(self) -> bool {
        self.links.len() == self.peers.len()
    }

    /// Where the link to a server belongs.
    pub open spec fn index_of(self, id: NodeId) -> Option<int> {
        self.peers.index_of_first(id)
    }

    /// Whether the link at an index is missing and is this server's to open.
    pub open spec fn to_reopen(self, index: int) -> bool {
        &&& 0 <= index < self.peers.len()
        &&& self.links[index] is None
        &&& dials(self.id, self.peers[index])
        &&& self.addresses.contains_key(self.peers[index])
    }

    /// Whether this many clients and every peer are connected.
    pub open spec fn complete(self, num_clients: int) -> bool {
        &&& self.clients.len() >= num_clients
        &&& forall|i: int| 0 <= i < self.links.len() ==> (#[trigger] self.links[i]) is Some
    }

    /// The state with this link at an index.
    pub open spec fn with_link(self, index: int, link: Option<PeerConnection<M>>) -> Self {
        NetworkState { links: self.links.update(index, link), ..self }
    }

    /// The state with this link to a client.
    pub open spec fn with_client(self, id: ClientId, link: ClientConnection) -> Self {
        NetworkState { clients: self.clients.insert(id, link), ..self }
    }

    /// The state once the link at an index was given up; what it had not taken is noted.
    pub open spec fn without_link(self, index: int) -> Self {
        NetworkState {
            links: self.links.update(index, None),
            refused_by_peers: match self.links[index] {
                Some(link) => self.refused_by_peers + link.refused(),
                None => self.refused_by_peers,
            },
            ..self
        }
    }

    /// The state once the link to a client was given up; what it had not taken is noted.
    pub open spec fn without_client(self, id: ClientId) -> Self {
        NetworkState {
            clients: self.clients.remove(id),
            refused_by_clients: if self.clients.contains_key(id) {
                self.refused_by_clients + self.clients[id].refused()
            } else {
                self.refused_by_clients
            },
            ..self
        }
    }

    /// The state without any link.
    pub open spec fn emptied(self) -> Self {
        NetworkState {
            clients: Map::empty(),
            links: Seq::new(self.peers.len(), |i: int| None::<PeerConnection<M>>),
            ..self
        }
    }

    /// Whether this can become of a message to a server.
    pub open spec fn may_become(self, to: NodeId, sent: Sent) -> bool {
        match self.index_of(to) {
            Some(index) => if self.links[index] is Some {
                sent == Sent::Queued || sent == Sent::Failed
            } else {
                sent == Sent::NotConnected
            },
            None => sent == Sent::UnexpectedNode,
        }
    }

    /// Whether this can become of a message to a client.
    pub open spec fn may_become_to_client(self, to: ClientId, sent: Sent) -> bool {
        if self.clients.contains_key(to) {
            sent == Sent::Queued || sent == Sent::Failed
        } else {
            sent == Sent::NotConnected
        }
    }

    /// The state after a new connection.
    pub open spec fn connected(self, connection: NewConnection<M>) -> Self {
        match connection {
            NewConnection::ToPeer(link) => self.with_link(
                self.index_of(link.id()).unwrap(),
                Some(link),
            ),
            NewConnection::ToClient(link) => self.with_client(link.id(), link),
        }
    }

    /// What becomes of a message to a server.
    pub open spec fn peer_delivery<X>(self, to: NodeId, msg: X) -> PeerDelivery<X> {
        match self.index_of(to) {
            Some(index) => if self.links[index] is Some {
                PeerDelivery::Send(index as usize, msg)
            } else {
                PeerDelivery::NotConnected
            },
            None => PeerDelivery::UnexpectedNode,
        }
    }

    /// What becomes of a message to a client.
    pub open spec fn client_delivery<X>(self, to: ClientId, msg: X) -> ClientDelivery<X> {
        if self.clients.contains_key(to) {
            ClientDelivery::Send(to, msg)
        } else {
            ClientDelivery::NotConnected
        }
    }

    /// Whether a task serves a link to a peer.
    pub open spec fn serves_peer(self, task: JoinHandle<()>) -> bool {
        exists|i: int|
            0 <= i < self.links.len() && (#[trigger] self.links[i]) is Some
                && self.links[i].unwrap().tasks().contains(task)
    }

    /// Whether a task serves a link to a client.
    pub open spec fn serves_client(self, task: JoinHandle<()>) -> bool {
        exists|id: ClientId| #[trigger]
            self.clients.contains_key(id) && self.clients[id].tasks().contains(task)
    }

    /// The tasks of all links.
    pub open spec fn tasks(self) -> Set<JoinHandle<()>> {
        Set::new(|task: JoinHandle<()>| self.serves_client(task) || self.serves_peer(task))
    }

    /// Whether every link to a peer is to the peer that it stands for.
    pub open spec fn peers_match(self) -> bool {
        forall|i: int|
            0 <= i < self.links.len() && (#[trigger] self.links[i]) is Some
                ==> self.links[i].unwrap().id() == self.peers[i]
    }

    /// Whether every link to a client is to the client that it stands for.
    pub open spec fn clients_match(self) -> bool {
        forall|id: ClientId| #[trigger]
            self.clients.contains_key(id) ==> self.clients[id].id() == id
    }

    /// The state without any link, once all tasks of the links were asked to end.
    pub open spec fn shut_down(self) -> Self {
        NetworkState { ended: self.ended.union(self.tasks()), ..self.emptied() }
    }

    /// The state once this has become of a message to a server: it was queued on the link to
    /// the server, or offered to it and not taken, and then the link was given up.
    pub open spec fn after_sending(self, to: NodeId, msg: ClusterMessage<M>, sent: Sent) -> Self {
        let index = self.index_of(to).unwrap();
        match sent {
            Sent::Queued => self.with_link(
                index,
                Some(self.links[index].unwrap().after_queueing(msg)),
            ),
            Sent::Failed => self.with_link(
                index,
                Some(self.links[index].unwrap().after_refusing(msg)),
            ).without_link(index),
            _ => self,
        }
    }

    /// The state once this has become of the first `n` of some messages to servers.
    pub open spec fn after_sending_first(
        self,
        messages: Seq<(NodeId, ClusterMessage<M>)>,
        sent: Seq<(NodeId, Sent)>,
        n: int,
    ) -> Self
        decreases n,
    {
        if n <= 0 {
            self
        } else {
            self.after_sending_first(messages, sent, n - 1).after_sending(
                messages[n - 1].0,
                messages[n - 1].1,
                sent[n - 1].1,
            )
        }
    }

    /// Whether this can become of some messages to servers, which are sent in order.
    pub open spec fn all_may_become(
        self,
        messages: Seq<(NodeId, ClusterMessage<M>)>,
        sent: Seq<(NodeId, Sent)>,
    ) -> bool {
        &&& recipients_of(sent) == recipients_of(messages)
        &&& forall|i: int|
            0 <= i < sent.len() ==> self.after_sending_first(messages, sent, i).may_become(
                (#[trigger] sent[i]).0,
                sent[i].1,
            )
    }

    /// The state once this has become of a message to a client: it was queued on the link to
    /// the client, or offered to it and not taken, and then the link was given up.
    pub open spec fn after_sending_to_client(
        self,
        to: ClientId,
        msg: ServerMessage,
        sent: Sent,
    ) -> Self {
        match sent {
            Sent::Queued => self.with_client(to, self.clients[to].after_queueing(msg)),
            Sent::Failed => self.with_client(
                to,
                self.clients[to].after_refusing(msg),
            ).without_client(to),
            _ => self,
        }
    }

    /// The state once this has become of the first `n` of some messages to clients.
    pub open spec fn after_sending_first_to_clients(
        self,
        messages: Seq<(ClientId, ServerMessage)>,
        sent: Seq<(ClientId, Sent)>,
        n: int,
    ) -> Self
        decreases n,
    {
        if n <= 0 {
            self
        } else {
            self.after_sending_first_to_clients(messages, sent, n - 1).after_sending_to_client(
                messages[n - 1].0,
                messages[n - 1].1,
                sent[n - 1].1,
            )
        }
    }

    /// Whether this can become of some messages to clients, which are sent in order.
    pub open spec fn all_may_become_to_clients(
        self,
        messages: Seq<(ClientId, ServerMessage)>,
        sent: Seq<(ClientId, Sent)>,
    ) -> bool {
        &&& recipients_of(sent) == recipients_of(messages)
        &&& forall|i: int|
            0 <= i < sent.len() ==> self.after_sending_first_to_clients(
                messages,
                sent,
                i,
            ).may_become_to_client((#[trigger] sent[i]).0, sent[i].1)
    }

    proof fn lemma_after_sending_first(
        self,
        messages: Seq<(NodeId, ClusterMessage<M>)>,
        sent: Seq<(NodeId, Sent)>,
        last: (NodeId, Sent),
        n: int,
    )
        requires
            n <= sent.len(),
        ensures
            self.after_sending_first(messages, sent.push(last), n) == self.after_sending_first(
                messages,
                sent,
                n,
            ),
        decreases n,
    {
        if n > 0 {
            self.lemma_after_sending_first(messages, sent, last, n - 1);
        }
    }


    /// Whether this can have become of the first messages of some, as many as there are outcomes.
    spec fn so_far(
        self,
        messages: Seq<(NodeId, ClusterMessage<M>)>,
        sent: Seq<(NodeId, Sent)>,
    ) -> bool {
        &&& sent.len() <= messages.len()
        &&& recipients_of(sent) == recipients_of(messages).take(sent.len() as int)
        &&& forall|i: int|
            0 <= i < sent.len() ==> self.after_sending_first(messages, sent, i).may_become(
                (#[trigger] sent[i]).0,
                sent[i].1,
            )
    }

    proof fn lemma_one_more(
        self,
        messages: Seq<(NodeId, ClusterMessage<M>)>,
        done: Seq<(NodeId, Sent)>,
        last: (NodeId, Sent),
    )
        requires
            self.so_far(messages, done),
            done.len() < messages.len(),
            last.0 == messages[done.len() as int].0,
            self.after_sending_first(messages, done, done.len() as int).may_become(last.0, last.1),
        ensures
            self.so_far(messages, done.push(last)),
            self.after_sending_first(messages, done.push(last), done.len() as int + 1) == self.after_sending_first(
                messages,
                done,
                done.len() as int,
            ).after_sending(last.0, messages[done.len() as int].1, last.1),
    {
        let sent = done.push(last);
        let n = done.len() as int;
        self.lemma_after_sending_first(messages, done, last, n);
        assert forall|i: int| 0 <= i < sent.len() implies self.after_sending_first(
            messages,
            sent,
            i,
        ).may_become((#[trigger] sent[i]).0, sent[i].1) by {
            self.lemma_after_sending_first(messages, done, last, i);
            if i < n {
                assert(sent[i] == done[i]);
            }
        }
        assert(recipients_of(sent) =~= recipients_of(done).push(last.0));
        assert(recipients_of(messages).take(n + 1) =~= recipients_of(messages).take(n).push(last.0));
    }

    proof fn lemma_after_sending_first_to_clients(
        self,
        messages: Seq<(ClientId, ServerMessage)>,
        sent: Seq<(ClientId, Sent)>,
        last: (ClientId, Sent),
        n: int,
    )
        requires
            n <= sent.len(),
        ensures
            self.after_sending_first_to_clients(messages, sent.push(last), n)
                == self.after_sending_first_to_clients(messages, sent, n),
        decreases n,
    {
        if n > 0 {
            self.lemma_after_sending_first_to_clients(messages, sent, last, n - 1);
        }
    }

    /// Whether this can have become of the first messages of some, as many as there are outcomes.
    spec fn so_far_to_clients(
        self,
        messages: Seq<(ClientId, ServerMessage)>,
        sent: Seq<(ClientId, Sent)>,
    ) -> bool {
        &&& sent.len() <= messages.len()
        &&& recipients_of(sent) == recipients_of(messages).take(sent.len() as int)
        &&& forall|i: int|
            0 <= i < sent.len() ==> self.after_sending_first_to_clients(messages, sent, i).may_become_to_client(
                (#[trigger] sent[i]).0,
                sent[i].1,
            )
    }

    proof fn lemma_one_more_to_clients(
        self,
        messages: Seq<(ClientId, ServerMessage)>,
        done: Seq<(ClientId, Sent)>,
        last: (ClientId, Sent),
    )
        requires
            self.so_far_to_clients(messages, done),
            done.len() < messages.len(),
            last.0 == messages[done.len() as int].0,
            self.after_sending_first_to_clients(messages, done, done.len() as int).may_become_to_client(last.0, last.1),
        ensures
            self.so_far_to_clients(messages, done.push(last)),
            self.after_sending_first_to_clients(messages, done.push(last), done.len() as int + 1) == self.after_sending_first_to_clients(
                messages,
                done,
                done.len() as int,
            ).after_sending_to_client(last.0, messages[done.len() as int].1, last.1),
    {
        let sent = done.push(last);
        let n = done.len() as int;
        self.lemma_after_sending_first_to_clients(messages, done, last, n);
        assert forall|i: int| 0 <= i < sent.len() implies self.after_sending_first_to_clients(
            messages,
            sent,
            i,
        ).may_become_to_client((#[trigger] sent[i]).0, sent[i].1) by {
            self.lemma_after_sending_first_to_clients(messages, done, last, i);
            if i < n {
                assert(sent[i] == done[i]);
            }
        }
        assert(recipients_of(sent) =~= recipients_of(done).push(last.0));
        assert(recipients_of(messages).take(n + 1) =~= recipients_of(messages).take(n).push(last.0));
    }
}

/// The links that there are, in order.
pub open spec fn present<P>(links: Seq<Option<P>>) -> Seq<P>
    decreases links.len(),
{
    if links.len() == 0 {
        seq![]
    } else {
        match links.last() {
            Some(link) => present(links.drop_last()).push(link),
            None => present(links.drop_last()),
        }
    }
}

/// The servers of a cluster but one, each with its address.
pub fn peer_addresses<A: Copy>(id: NodeId, nodes: &Vec<NodeId>, addresses: &Vec<A>) -> (r: Vec<
    (NodeId, A),
>)
    ensures
        r@ == peers_of(id, nodes@, addresses@),
{
    let ghost all = zipped(nodes@, addresses@);
    let ghost other = other_than::<A>(id);
    let mut r: Vec<(NodeId, A)> = Vec::new();
    let mut i: usize = 0;
    proof {
        reveal(Seq::filter);
        assert(all.take(0) =~= Seq::<(NodeId, A)>::empty());
    }
    while i < nodes.len() && i < addresses.len()
        invariant
            i <= nodes.len(),
            i <= addresses.len(),
            all == zipped(nodes@, addresses@),
            other == other_than::<A>(id),
            r@ == all.take(i as int).filter(other),
        decreases nodes.len() - i,
    {
        proof {
            reveal(Seq::filter);
            assert(all.take(i as int + 1).drop_last() =~= all.take(i as int));
        }
        if nodes[i] != id {
            r.push((nodes[i], addresses[i]));
        }
        i = i + 1;
    }
    assert(all.take(i as int) =~= all);
    r
}

/// The peers that a server opens connections to.
pub fn peers_to_connect_to<A: Copy>(my_id: NodeId, peers: &Vec<(NodeId, A)>) -> (r: Vec<
    (NodeId, A),
>)
    ensures
        r@ == peers@.filter(dialled_by(my_id)),
{
    let ghost dialled = dialled_by::<A>(my_id);
    let mut r: Vec<(NodeId, A)> = Vec::new();
    let mut i: usize = 0;
    proof {
        reveal(Seq::filter);
        assert(peers@.take(0) =~= Seq::<(NodeId, A)>::empty());
    }
    while i < peers.len()
        invariant
            i <= peers.len(),
            dialled == dialled_by::<A>(my_id),
            r@ == peers@.take(i as int).filter(dialled),
        decreases peers.len() - i,
    {
        proof {
            reveal(Seq::filter);
            assert(peers@.take(i as int + 1).drop_last() =~= peers@.take(i as int));
        }
        if peers[i].0 < my_id {
            r.push(peers[i]);
        }
        i = i + 1;
    }
    assert(peers@.take(i as int) =~= peers@);
    r
}

/// A peer and the link to it.
#[verifier::reject_recursive_types(M)]
struct Slot<M> {
    peer_id: NodeId,
    connection: Option<PeerConnection<M>>,
}

/// The peers of some slots.
spec fn peers_in<M>(slots: Seq<Slot<M>>) -> Seq<NodeId> {
    slots.map_values(|slot: Slot<M>| slot.peer_id)
}

/// The links of some slots.
spec fn links_in<M>(slots: Seq<Slot<M>>) -> Seq<Option<PeerConnection<M>>> {
    slots.map_values(|slot: Slot<M>| slot.connection)
}

/// The links of one server.
#[verifier::reject_recursive_types(A)]
#[verifier::reject_recursive_types(M)]
pub struct Network<A, M> {
    id: NodeId,
    slots: Vec<Slot<M>>,
    peer_addresses: HashMap<NodeId, A>,
    client_connections: HashMap<ClientId, ClientConnection>,
    batch_size: usize,
    endings: Endings,
    refused_by_peers: Refused<ClusterMessage<M>>,
    refused_by_clients: Refused<ServerMessage>,
}

impl<A, M> View for Network<A, M> {
    type V = NetworkState<A, M>;

    closed spec fn view(&self) -> NetworkState<A, M> {
        NetworkState {
            id: self.id,
            peers: peers_in(self.slots@),
            addresses: self.peer_addresses@,
            links: links_in(self.slots@),
            clients: self.client_connections@,
            batch_size: self.batch_size,
            ended: self.endings.asked(),
            refused_by_peers: self.refused_by_peers.messages(),
            refused_by_clients: self.refused_by_clients.messages(),
        }
    }
}

impl<A: Copy, M> Network<A, M> {
    /// A network with these peers and no connection yet.
    pub fn new(id: NodeId, peer_addresses: &Vec<(NodeId, A)>, batch_size: usize) -> (r: Self)
        ensures
            r@.wf(),
            r@.id == id,
            r@.peers == peer_addresses@.map_values(|peer: (NodeId, A)| peer.0),
            r@.addresses == address_book(peer_addresses@),
            r@.links == Seq::new(peer_addresses@.len(), |i: int| None::<PeerConnection<M>>),
            r@.clients == Map::<ClientId, ClientConnection>::empty(),
            r@.batch_size == batch_size,
            r@.ended == Set::<JoinHandle<()>>::empty(),
            r@.refused_by_peers == Seq::<ClusterMessage<M>>::empty(),
            r@.refused_by_clients == Seq::<ServerMessage>::empty(),
    {
        let mut slots: Vec<Slot<M>> = Vec::new();
        let mut book: HashMap<NodeId, A> = HashMap::new();
        let mut i: usize = 0;
        assert(peer_addresses@.take(0) =~= Seq::<(NodeId, A)>::empty());
        while i < peer_addresses.len()
            invariant
                i <= peer_addresses.len(),
                slots@.len() == i,
                forall|j: int|
                    0 <= j < i ==> (#[trigger] slots@[j]).peer_id == peer_addresses@[j].0
                        && slots@[j].connection is None,
                book@ == address_book(peer_addresses@.take(i as int)),
            decreases peer_addresses.len() - i,
        {
            proof {
                let longer = peer_addresses@.take(i as int + 1);
                assert(longer.drop_last() =~= peer_addresses@.take(i as int));
                assert(longer.last() == peer_addresses@[i as int]);
            }
            let peer = peer_addresses[i];
            slots.push(Slot { peer_id: peer.0, connection: None });
            book.insert(peer.0, peer.1);
            i = i + 1;
        }
        assert(peer_addresses@.take(i as int) =~= peer_addresses@);
        Network {
            id,
            slots,
            peer_addresses: book,
            client_connections: HashMap::new(),
            batch_size,
            endings: Endings::new(),
            refused_by_peers: Refused::new(),
            refused_by_clients: Refused::new(),
        }
    }

    /// How many messages are handled at once.
    pub fn batch_size(&self) -> (r: usize)
        ensures
            r == self@.batch_size,
    {
        self.batch_size
    }

    /// Where the link to a server belongs.
    fn cluster_id_to_idx(&self, id: NodeId) -> (r: Option<usize>)
        ensures
            match r {
                Some(index) => self@.index_of(id) == Some(index as int) && index
                    < self@.peers.len(),
                None => self@.index_of(id) is None,
            },
    {
        proof {
            self@.peers.index_of_first_ensures(id);
        }
        let mut i: usize = 0;
        while i < self.slots.len()
            invariant
                i <= self.slots.len(),
                forall|j: int| 0 <= j < i ==> self@.peers[j] != id,
            decreases self.slots.len() - i,
        {
            if self.slots[i].peer_id == id {
                proof {
                    self@.peers.index_of_first_ensures(id);
                    assert(self@.peers[i as int] == id);
                    assert(self@.peers.contains(id));
                }
                return Some(i);
            }
            i = i + 1;
        }
        None
    }

    /// The first missing link from an index on that this server is to open.
    pub fn try_reconnect_peers(&self, from: usize) -> (r: Option<ReconnectTarget<A>>)
        ensures
            match r {
                Some(target) => {
                    &&& from <= target.index
                    &&& self@.to_reopen(target.index as int)
                    &&& target.peer_id == self@.peers[target.index as int]
                    &&& target.address == self@.addresses[target.peer_id]
                    &&& forall|i: int| from <= i < target.index ==> !self@.to_reopen(i)
                },
                None => forall|i: int| from <= i ==> !self@.to_reopen(i),
            },
    {
        let mut index: usize = from;
        while index < self.slots.len()
            invariant
                from <= index,
                forall|i: int| from <= i < index ==> !self@.to_reopen(i),
            decreases self.slots.len() - index,
        {
            let peer_id = self.slots[index].peer_id;
            if self.slots[index].connection.is_none() && peer_id < self.id {
                if let Some(address) = self.peer_addresses.get(&peer_id) {
                    return Some(ReconnectTarget { index, peer_id, address: *address });
                }
            }
            index = index + 1;
        }
        None
    }

    /// Puts a link in the place at an index, or none, and gives the one that was there.
    fn replace_link(&mut self, index: usize, link: Option<PeerConnection<M>>) -> (r: Option<
        PeerConnection<M>,
    >)
        requires
            index < old(self)@.peers.len(),
        ensures
            final(self)@.wf(),
            final(self)@ == old(self)@.with_link(index as int, link),
            r == old(self)@.links[index as int],
    {
        let mut link = link;
        std::mem::swap(&mut link, &mut self.slots[index].connection);
        assert(self@.peers =~= old(self)@.peers);
        link
    }

    /// Puts a link that was opened again in its place.
    pub fn reconnected(&mut self, index: usize, link: PeerConnection<M>)
        requires
            index < old(self)@.peers.len(),
        ensures
            final(self)@.wf(),
            final(self)@ == old(self)@.with_link(index as int, Some(link)),
    {
        self.replace_link(index, Some(link));
    }

    /// Whether this many clients and every peer are connected. Where there is no peer and no
    /// client to wait for, that is so before any connection.
    pub fn is_complete(&self, num_clients: usize) -> (r: bool)
        ensures
            r == self@.complete(num_clients as int),
            r <==> self@.clients.len() >= num_clients && forall|i: int|
                0 <= i < self@.peers.len() ==> (#[trigger] self@.links[i]) is Some,
    {
        let all_clients_connected = self.client_connections.len() >= num_clients;
        let mut all_cluster_connected = true;
        let mut i: usize = 0;
        while i < self.slots.len()
            invariant
                i <= self.slots.len(),
                all_cluster_connected <==> forall|j: int|
                    0 <= j < i ==> (#[trigger] self@.links[j]) is Some,
            decreases self.slots.len() - i,
        {
            assert(self@.links[i as int] == self.slots@[i as int].connection);
            if self.slots[i].connection.is_none() {
                all_cluster_connected = false;
            }
            i = i + 1;
        }
        all_clients_connected && all_cluster_connected
    }

    /// Takes up a new connection and says whether this many clients and every peer are now
    /// connected. A connection to a server that is no peer is not to be handed over.
    pub fn initialize_connections(
        &mut self,
        connection: NewConnection<M>,
        num_clients: usize,
    ) -> (r: bool)
        requires
            connection matches NewConnection::ToPeer(link) ==> old(self)@.peers.contains(link.id()),
        ensures
            final(self)@.wf(),
            final(self)@ == old(self)@.connected(connection),
            r == final(self)@.complete(num_clients as int),
    {
        match connection {
            NewConnection::ToPeer(link) => {
                let peer_id = link.peer_id();
                proof {
                    self@.peers.index_of_first_ensures(peer_id);
                }
                if let Some(index) = self.cluster_id_to_idx(peer_id) {
                    self.replace_link(index, Some(link));
                }
            },
            NewConnection::ToClient(link) => {
                self.client_connections.insert(link.client_id(), link);
            },
        }
        self.is_complete(num_clients)
    }

    /// Whether a server is a peer.
    pub fn is_peer(&self, id: NodeId) -> (r: bool)
        ensures
            r == self@.peers.contains(id),
    {
        proof {
            self@.peers.index_of_first_ensures(id);
        }
        self.cluster_id_to_idx(id).is_some()
    }

    /// Where a message to a server of the cluster goes out.
    pub fn cluster_delivery<X>(&self, to: NodeId, msg: X) -> (r: PeerDelivery<X>)
        ensures
            r == self@.peer_delivery(to, msg),
    {
        match self.cluster_id_to_idx(to) {
            Some(index) => if self.slots[index].connection.is_some() {
                PeerDelivery::Send(index, msg)
            } else {
                PeerDelivery::NotConnected
            },
            None => PeerDelivery::UnexpectedNode,
        }
    }

    /// Notes whether a message was sent on a link, and gives the link up where it was not.
    pub fn sent_to_cluster(&mut self, index: usize, ok: bool) -> (r: Sent)
        requires
            index < old(self)@.peers.len(),
        ensures
            final(self)@.wf(),
            final(self)@ == if ok {
                old(self)@
            } else {
                old(self)@.without_link(index as int)
            },
            r == if ok {
                Sent::Queued
            } else {
                Sent::Failed
            },
    {
        if ok {
            Sent::Queued
        } else {
            if let Some(link) = self.replace_link(index, None) {
                self.refused_by_peers.append(link.into_refused());
            }
            Sent::Failed
        }
    }

    /// Where a message to a client goes out.
    pub fn client_delivery<X>(&self, to: ClientId, msg: X) -> (r: ClientDelivery<X>)
        ensures
            r == self@.client_delivery(to, msg),
    {
        if self.client_connections.contains_key(&to) {
            ClientDelivery::Send(to, msg)
        } else {
            ClientDelivery::NotConnected
        }
    }

    /// Notes whether a message was sent to a client, and gives its link up where it was not.
    pub fn sent_to_client(&mut self, to: ClientId, ok: bool) -> (r: Sent)
        ensures
            final(self)@ == if ok {
                old(self)@
            } else {
                old(self)@.without_client(to)
            },
            r == if ok {
                Sent::Queued
            } else {
                Sent::Failed
            },
    {
        if ok {
            Sent::Queued
        } else {
            if let Some(link) = self.client_connections.remove(&to) {
                self.refused_by_clients.append(link.into_refused());
            }
            assert(self@.clients =~= old(self)@.clients.remove(to));
            Sent::Failed
        }
    }

    /// Takes all links out, those to clients and those to peers.
    fn take_links(&mut self) -> (r: (
        HashMap<ClientId, ClientConnection>,
        Vec<PeerConnection<M>>,
    ))
        ensures
            final(self)@.wf(),
            r.0@ == old(self)@.clients,
            r.1@ == present(old(self)@.links),
            final(self)@ == old(self)@.emptied(),
    {
        let mut clients: HashMap<ClientId, ClientConnection> = HashMap::new();
        std::mem::swap(&mut clients, &mut self.client_connections);
        let mut open: Vec<PeerConnection<M>> = Vec::new();
        let mut i: usize = 0;
        let ghost start = self@;
        let ghost links = self@.links;
        assert(links.take(0) =~= Seq::<Option<PeerConnection<M>>>::empty());
        while i < self.slots.len()
            invariant
                i <= self.slots.len(),
                self.slots.len() == links.len(),
                self@ == (NetworkState { links: self@.links, ..start }),
                self@.links.len() == links.len(),
                self@.peers.len() == links.len(),
                forall|j: int| 0 <= j < i ==> (#[trigger] self@.links[j]) is None,
                forall|j: int| i <= j < links.len() ==> #[trigger] self@.links[j] == links[j],
                open@ == present(links.take(i as int)),
            decreases self.slots.len() - i,
        {
            proof {
                assert(links.take(i as int + 1).drop_last() =~= links.take(i as int));
                assert(links.take(i as int + 1).last() == links[i as int]);
            }
            if let Some(link) = self.replace_link(i, None) {
                open.push(link);
            }
            i = i + 1;
        }
        proof {
            assert(links.take(i as int) =~= links);
            assert(self@.links =~= old(self)@.emptied().links);
        }
        (clients, open)
    }

    /// Queues a message on the link to a server of the cluster, and says what became of it. A
    /// link on which it cannot be sent is given up.
    pub fn send_to_cluster(&mut self, to: NodeId, msg: ClusterMessage<M>) -> (r: Sent)
        ensures
            final(self)@.wf(),
            old(self)@.may_become(to, r),
            final(self)@ == old(self)@.after_sending(to, msg, r),
    {
        proof {
            self@.peers.index_of_first_ensures(to);
            assert(self@.peers.len() == self.slots.len());
        }
        match self.cluster_delivery(to, msg) {
            PeerDelivery::Send(index, msg) => match self.replace_link(index, None) {
                Some(connection) => {
                    let mut connection = connection;
                    let ok = connection.send(msg).is_ok();
                    self.replace_link(index, Some(connection));
                    let r = self.sent_to_cluster(index, ok);
                    assert(self@.links =~= old(self)@.after_sending(to, msg, r).links);
                    r
                },
                None => Sent::NotConnected,
            },
            PeerDelivery::NotConnected => Sent::NotConnected,
            PeerDelivery::UnexpectedNode => Sent::UnexpectedNode,
        }
    }

    /// Queues each of some messages on the link to a server of the cluster, in order, and says
    /// whom each was to and what became of it.
    pub fn send_each_to_cluster(&mut self, messages: Vec<(NodeId, ClusterMessage<M>)>) -> (r: Vec<
        (NodeId, Sent),
    >)
        ensures
            final(self)@.wf(),
            old(self)@.all_may_become(messages@, r@),
            final(self)@ == old(self)@.after_sending_first(
                messages@,
                r@,
                messages@.len() as int,
            ),
    {
        let ghost all = messages@;
        let ghost start = self@;
        let mut rest = queue_of(messages);
        let mut r: Vec<(NodeId, Sent)> = Vec::new();
        assert(recipients_of(r@) =~= recipients_of(all).take(0));
        while rest.len() > 0
            invariant
                rest@ == all.skip(r@.len() as int),
                start.so_far(all, r@),
                self@.wf(),
                self@ == start.after_sending_first(all, r@, r@.len() as int),
            decreases rest.len(),
        {
            let ghost done = r@;
            if let Some((to, msg)) = rest.pop_front() {
                assert((to, msg) == all[done.len() as int]);
                let sent = self.send_to_cluster(to, msg);
                r.push((to, sent));
                proof {
                    start.lemma_one_more(all, done, (to, sent));
                    assert(rest@ =~= all.skip(r@.len() as int));
                }
            }
        }
        assert(recipients_of(all).take(r@.len() as int) =~= recipients_of(all));
        r
    }

    /// Queues a message on the link to a client, and says what became of it. A link on which it
    /// cannot be sent is given up.
    pub fn send_to_client(&mut self, to: ClientId, msg: ServerMessage) -> (r: Sent)
        ensures
            final(self)@.wf(),
            old(self)@.may_become_to_client(to, r),
            final(self)@ == old(self)@.after_sending_to_client(to, msg, r),
    {
        match self.client_delivery(to, msg) {
            ClientDelivery::Send(to, msg) => match self.client_connections.remove(&to) {
                Some(connection) => {
                    let mut connection = connection;
                    let ok = connection.send(msg).is_ok();
                    self.client_connections.insert(to, connection);
                    let r = self.sent_to_client(to, ok);
                    assert(self@.clients =~= old(self)@.after_sending_to_client(to, msg, r).clients);
                    r
                },
                None => Sent::NotConnected,
            },
            ClientDelivery::NotConnected => Sent::NotConnected,
        }
    }

    /// Queues each of some messages on the link to a client, in order, and says whom each was to
    /// and what became of it.
    pub fn send_each_to_client(&mut self, messages: Vec<(ClientId, ServerMessage)>) -> (r: Vec<
        (ClientId, Sent),
    >)
        ensures
            final(self)@.wf(),
            old(self)@.all_may_become_to_clients(messages@, r@),
            final(self)@ == old(self)@.after_sending_first_to_clients(
                messages@,
                r@,
                messages@.len() as int,
            ),
    {
        let ghost all = messages@;
        let ghost start = self@;
        let mut rest = queue_of(messages);
        let mut r: Vec<(ClientId, Sent)> = Vec::new();
        assert(recipients_of(r@) =~= recipients_of(all).take(0));
        while rest.len() > 0
            invariant
                rest@ == all.skip(r@.len() as int),
                start.so_far_to_clients(all, r@),
                self@.wf(),
                self@ == start.after_sending_first_to_clients(all, r@, r@.len() as int),
            decreases rest.len(),
        {
            let ghost done = r@;
            if let Some((to, msg)) = rest.pop_front() {
                assert((to, msg) == all[done.len() as int]);
                let sent = self.send_to_client(to, msg);
                r.push((to, sent));
                proof {
                    start.lemma_one_more_to_clients(all, done, (to, sent));
                    assert(rest@ =~= all.skip(r@.len() as int));
                }
            }
        }
        assert(recipients_of(all).take(r@.len() as int) =~= recipients_of(all));
        r
    }

    /// Gives up all links and asks their tasks to end.
    pub fn shutdown(&mut self)
        ensures
            final(self)@.wf(),
            final(self)@ == old(self)@.shut_down(),
    {
        let ghost before = self@;
        let (clients, peers) = self.take_links();
        let ghost emptied = self@;
        let values = clients.values();
        let ghost all = vstd::std_specs::hash::into_iter_values(values);
        assert(all.to_set() == clients@.values());
        for connection in iter: values
            invariant
                iter.seq().unref() == all,
                self@ == (NetworkState { ended: self@.ended, ..emptied }),
                forall|task: JoinHandle<()>| #[trigger]
                    self@.ended.contains(task) <==> before.ended.contains(task) || exists|j: int|
                        0 <= j < iter.index() && (#[trigger] all[j]).tasks().contains(task),
        {
            assert(*connection == all[iter.index()]);
            connection.close(&mut self.endings);
        }
        assert forall|task: JoinHandle<()>| #[trigger]
            self@.ended.contains(task) <==> before.ended.contains(task)
                || before.serves_client(task) by {
            if exists|j: int| 0 <= j < all.len() && (#[trigger] all[j]).tasks().contains(task) {
                let j = choose|j: int|
                    0 <= j < all.len() && (#[trigger] all[j]).tasks().contains(task);
                assert(all.to_set().contains(all[j]));
                let id = choose|id: ClientId| #[trigger]
                    clients@.contains_key(id) && clients@[id] == all[j];
                assert(before.clients.contains_key(id));
            }
            if before.serves_client(task) {
                let id = choose|id: ClientId| #[trigger]
                    before.clients.contains_key(id) && before.clients[id].tasks().contains(task);
                assert(clients@.contains_value(clients@[id]));
                assert(all.to_set().contains(clients@[id]));
                let j = choose|j: int| 0 <= j < all.len() && all[j] == clients@[id];
                assert(all[j].tasks().contains(task));
            }
        }
        let ghost after_clients = self@.ended;
        let mut i: usize = 0;
        while i < peers.len()
            invariant
                i <= peers.len(),
                self@ == (NetworkState { ended: self@.ended, ..emptied }),
                forall|task: JoinHandle<()>| #[trigger]
                    self@.ended.contains(task) <==> after_clients.contains(task) || exists|j: int|
                        0 <= j < i && (#[trigger] peers@[j]).tasks().contains(task),
            decreases peers.len() - i,
        {
            peers[i].close(&mut self.endings);
            i = i + 1;
        }
        proof {
            assert forall|task: JoinHandle<()>| #[trigger]
                self@.ended.contains(task) <==> after_clients.contains(task) || before.serves_peer(
                    task,
                ) by {
                lemma_present(before.links, task);
            }
            assert(self@.ended =~= before.shut_down().ended);
        }
    }
}

proof fn lemma_present<M>(links: Seq<Option<PeerConnection<M>>>, task: JoinHandle<()>)
    ensures
        (exists|j: int|
            0 <= j < present(links).len() && (#[trigger] present(links)[j]).tasks().contains(task))
            <==> exists|i: int|
            0 <= i < links.len() && (#[trigger] links[i]) is Some
                && links[i].unwrap().tasks().contains(task),
    decreases links.len(),
{
    if links.len() > 0 {
        let front = links.drop_last();
        lemma_present(front, task);
        let (all, before) = (present(links), present(front));
        assert(forall|j: int| 0 <= j < before.len() ==> all[j] == before[j]);
        assert(forall|i: int| 0 <= i < front.len() ==> links[i] == front[i]);
        if exists|j: int| 0 <= j < before.len() && (#[trigger] before[j]).tasks().contains(task) {
            let j = choose|j: int|
                0 <= j < before.len() && (#[trigger] before[j]).tasks().contains(task);
            assert(all[j].tasks().contains(task));
            let i = choose|i: int|
                0 <= i < front.len() && (#[trigger] front[i]) is Some
                    && front[i].unwrap().tasks().contains(task);
            assert(links[i].unwrap().tasks().contains(task));
        } else if links.last() is Some && links.last().unwrap().tasks().contains(task) {
            assert(all[all.len() - 1].tasks().contains(task));
            assert(links[links.len() - 1].unwrap().tasks().contains(task));
        } else {
            assert forall|i: int| 0 <= i < links.len() && (#[trigger] links[i]) is Some implies
                !links[i].unwrap().tasks().contains(task) by {
                if i < front.len() {
                    assert(front[i] is Some);
                }
            }
        }
    }
}

/// How a connection that was opened from outside begins.
#[derive(Debug, Clone, Copy)]
pub enum Handshake {
    /// With this message.
    Message(RegistrationMessage),
    /// With what could not be read as a message.
    Malformed,
    /// It was closed before any message.
    Closed,
}

/// Whom an incoming connection is from.
#[derive(Debug, Clone, Copy, PartialEq, Eq)]
pub enum Identified {
    /// This server of the cluster.
    Peer(NodeId),
    /// A client, known by this name from now on.
    Client(ClientId),
    /// It did not say, and is dropped.
    Nobody,
}

/// Whom a handshake identifies, where clients up to a number have been named before.
pub open spec fn identified(max_client_id: int, handshake: Handshake) -> Identified {
    match handshake {
        Handshake::Message(RegistrationMessage::NodeRegister(node_id)) => Identified::Peer(node_id),
        Handshake::Message(RegistrationMessage::ClientRegister) => Identified::Client(
            (max_client_id + 1) as ClientId,
        ),
        Handshake::Malformed => Identified::Nobody,
        Handshake::Closed => Identified::Nobody,
    }
}

/// Whether a handshake is that of a client.
pub open spec fn is_client(handshake: Handshake) -> bool {
    handshake == Handshake::Message(RegistrationMessage::ClientRegister)
}

/// The greatest client name given out after some handshakes.
pub open spec fn max_client_id_after(max_client_id: int, handshakes: Seq<Handshake>) -> int
    decreases handshakes.len(),
{
    if handshakes.len() == 0 {
        max_client_id
    } else {
        let before = max_client_id_after(max_client_id, handshakes.drop_last());
        if is_client(handshakes.last()) {
            before + 1
        } else {
            before
        }
    }
}

/// The names that clients have been given: all numbers from 1 up to the greatest.
pub struct ClientIds {
    max_client_id: ClientId,
}

impl View for ClientIds {
    type V = int;

    closed spec fn view(&self) -> int {
        self.max_client_id as int
    }
}

impl ClientIds {
    /// No client has a name.
    pub fn new() -> (r: Self)
        ensures
            r@ == 0,
    {
        ClientIds { max_client_id: 0 }
    }

    /// The greatest name that a client has been given; 0 where none has.
    pub fn max_client_id(&self) -> (r: ClientId)
        ensures
            r == self@,
    {
        self.max_client_id
    }

    /// Identifies the opener of a connection by its handshake, and names it where it is a
    /// client.
    pub fn handle_incoming_connection(&mut self, handshake: Handshake) -> (r: Identified)
        requires
            is_client(handshake) ==> old(self)@ < u64::MAX,
        ensures
            r == identified(old(self)@, handshake),
            final(self)@ == if is_client(handshake) {
                old(self)@ + 1
            } else {
                old(self)@
            },
    {
        match handshake {
            Handshake::Message(RegistrationMessage::NodeRegister(node_id)) => {
                Identified::Peer(node_id)
            },
            Handshake::Message(RegistrationMessage::ClientRegister) => {
                self.max_client_id = self.max_client_id + 1;
                Identified::Client(self.max_client_id)
            },
            Handshake::Malformed => Identified::Nobody,
            Handshake::Closed => Identified::Nobody,
        }
    }
}

/// How long a server tries to reach a peer to open a lost link again, in milliseconds.
pub const RECONNECT_TIMEOUT_MILLIS: u64 = 200;

/// How long a server waits before it tries again to open a first link, in milliseconds.
pub const RECONNECT_DELAY_MILLIS: u64 = 1000;

/// How an attempt to open a connection goes.
#[derive(Debug, Clone, Copy, PartialEq, Eq)]
pub enum ConnectEvent {
    /// The other side was not reached, or not in time.
    ConnectFailed,
    /// The other side was reached.
    Connected,
    /// The connection could not be set to send without delay.
    NodelayFailed,
    /// The connection sends without delay.
    NodelaySet,
    /// The handshake could not be sent.
    HandshakeFailed,
    /// The handshake was sent.
    HandshakeSent,
}

/// What to do next to open a connection.
#[derive(Debug, Clone, Copy)]
pub enum ConnectAction {
    /// Wait a while and try to reach the other side again.
    Retry,
    /// Set the connection to send without delay.
    SetNodelay,
    /// Send this handshake.
    SendHandshake(RegistrationMessage),
    /// Make a link of the connection.
    Install,
    /// Give the attempt up.
    GiveUp,
}

/// What follows an event when a lost link is opened again, with this handshake: whatever
/// fails, the attempt is given up.
pub open spec fn reconnect_action(
    handshake: RegistrationMessage,
    event: ConnectEvent,
) -> ConnectAction {
    match event {
        ConnectEvent::ConnectFailed => ConnectAction::GiveUp,
        ConnectEvent::Connected => ConnectAction::SetNodelay,
        ConnectEvent::NodelayFailed => ConnectAction::GiveUp,
        ConnectEvent::NodelaySet => ConnectAction::SendHandshake(handshake),
        ConnectEvent::HandshakeFailed => ConnectAction::GiveUp,
        ConnectEvent::HandshakeSent => ConnectAction::Install,
    }
}

/// What follows an event when a link is opened for the first time, with this handshake: whoever
/// is not reached is tried again.
pub open spec fn connect_action(
    handshake: RegistrationMessage,
    event: ConnectEvent,
) -> ConnectAction {
    if event == ConnectEvent::ConnectFailed {
        ConnectAction::Retry
    } else {
        reconnect_action(handshake, event)
    }
}

/// The next step of this server to open a lost link again.
pub fn reconnect_step(my_id: NodeId, event: ConnectEvent) -> (r: ConnectAction)
    ensures
        r == reconnect_action(RegistrationMessage::NodeRegister(my_id), event),
{
    match event {
        ConnectEvent::ConnectFailed => ConnectAction::GiveUp,
        ConnectEvent::Connected => ConnectAction::SetNodelay,
        ConnectEvent::NodelayFailed => ConnectAction::GiveUp,
        ConnectEvent::NodelaySet => {
            ConnectAction::SendHandshake(RegistrationMessage::NodeRegister(my_id))
        },
        ConnectEvent::HandshakeFailed => ConnectAction::GiveUp,
        ConnectEvent::HandshakeSent => ConnectAction::Install,
    }
}

/// The next step of this server to open a link for the first time. That a connection cannot be
/// set to send without delay is not to be handed over.
pub fn connect_step(my_id: NodeId, event: ConnectEvent) -> (r: ConnectAction)
    requires
        event != ConnectEvent::NodelayFailed,
    ensures
        r == connect_action(RegistrationMessage::NodeRegister(my_id), event),
{
    match event {
        ConnectEvent::ConnectFailed => ConnectAction::Retry,
        _ => reconnect_step(my_id, event),
    }
}

/// Of two servers exactly one opens the connection between them.
pub proof fn law_one_of_two_dials(a: NodeId, b: NodeId)
    requires
        a != b,
    ensures
        dials(a, b) != dials(b, a),
{
}

/// A server opens connections to peers with a smaller identifier, to all of those and to
/// no other.
pub proof fn law_only_smaller_peers_are_dialled<A>(my_id: NodeId, peers: Seq<(NodeId, A)>)
    ensures
        forall|i: int|
            0 <= i < peers.filter(dialled_by(my_id)).len() ==> (#[trigger] peers.filter(
                dialled_by(my_id),
            )[i]).0 < my_id,
        forall|i: int|
            0 <= i < peers.len() && (#[trigger] peers[i]).0 < my_id ==> peers.filter(
                dialled_by(my_id),
            ).contains(peers[i]),
{
    broadcast use vstd::seq_lib::group_filter_ensures;
    let keep = dialled_by::<A>(my_id);
    assert forall|i: int| 0 <= i < peers.filter(keep).len() implies (#[trigger] peers.filter(
        keep,
    )[i]).0 < my_id by {
        assert(keep(peers.filter(keep)[i]));
    }
    assert forall|i: int| 0 <= i < peers.len() && (#[trigger] peers[i]).0 < my_id implies peers.filter(
        keep,
    ).contains(peers[i]) by {
        assert(keep(peers[i]));
    }
}

/// The address book has an address of every peer that it was made from, one that the peer
/// was listed with.
pub proof fn law_every_peer_has_an_address<A>(peers: Seq<(NodeId, A)>, i: int)
    requires
        0 <= i < peers.len(),
    ensures
        address_book(peers).contains_key(peers[i].0),
        peers.contains((peers[i].0, address_book(peers)[peers[i].0])),
    decreases peers.len(),
{
    let last = peers.last();
    if peers[i].0 == last.0 {
        assert(peers[peers.len() - 1] == (peers[i].0, last.1));
    } else {
        let front = peers.drop_last();
        assert(front[i] == peers[i]);
        law_every_peer_has_an_address(front, i);
        let k = front.index_of((peers[i].0, address_book(front)[peers[i].0]));
        assert(peers[k] == front[k]);
    }
}

/// Once a message has failed on a link, it is noted as not taken, and further messages to that
/// peer go nowhere, while messages to others go where they went; the link is one to open again
/// where this server is the one to open it.
pub proof fn law_failed_link<A, M>(
    state: NetworkState<A, M>,
    to: NodeId,
    other: NodeId,
    msg: ClusterMessage<M>,
)
    requires
        state.wf(),
        state.may_become(to, Sent::Failed),
        other != to,
    ensures
        ({
            let index = state.index_of(to).unwrap();
            let after = state.after_sending(to, msg, Sent::Failed);
            &&& after.wf()
            &&& after.refused_by_peers == state.refused_by_peers + state.links[index].unwrap().refused().push(
                msg,
            )
            &&& after.peer_delivery(to, msg) == PeerDelivery::<ClusterMessage<M>>::NotConnected
            &&& after.peer_delivery(other, msg) == state.peer_delivery(other, msg)
            &&& dials(state.id, to) && state.addresses.contains_key(to) ==> after.to_reopen(index)
        }),
{
    state.peers.index_of_first_ensures(to);
    state.peers.index_of_first_ensures(other);
    state.links[state.index_of(to).unwrap()].unwrap().law_messages_line_up(msg);
}

/// Once a message has failed on the link to a client, it is noted as not taken, and further
/// messages to that client go nowhere, while messages to others go where they went.
pub proof fn law_failed_client_link<A, M>(
    state: NetworkState<A, M>,
    to: ClientId,
    other: ClientId,
    msg: ServerMessage,
)
    requires
        state.may_become_to_client(to, Sent::Failed),
        other != to,
    ensures
        ({
            let after = state.after_sending_to_client(to, msg, Sent::Failed);
            &&& after.refused_by_clients == state.refused_by_clients + state.clients[to].refused().push(
                msg,
            )
            &&& after.client_delivery(to, msg) == ClientDelivery::<ServerMessage>::NotConnected
            &&& after.client_delivery(other, msg) == state.client_delivery(other, msg)
        }),
{
    state.clients[to].law_messages_line_up(msg);
}

/// Those of the first `n` messages that are to one receiver, in order.
pub open spec fn messages_to<X>(to: u64, messages: Seq<(u64, X)>, n: int) -> Seq<X>
    decreases n,
{
    if n <= 0 {
        seq![]
    } else if messages[n - 1].0 == to {
        messages_to(to, messages, n - 1).push(messages[n - 1].1)
    } else {
        messages_to(to, messages, n - 1)
    }
}

/// Where a peer is connected and nothing fails on its link, the link is kept, and exactly the
/// messages to the peer have been queued on it, in the order in which they were sent.
pub proof fn law_messages_to_a_peer_are_queued<A, M>(
    state: NetworkState<A, M>,
    messages: Seq<(NodeId, ClusterMessage<M>)>,
    sent: Seq<(NodeId, Sent)>,
    to: NodeId,
    n: int,
)
    requires
        state.wf(),
        state.all_may_become(messages, sent),
        0 <= n <= messages.len(),
        state.peers.contains(to),
        state.links[state.index_of(to).unwrap()] is Some,
        forall|j: int| 0 <= j < n ==> #[trigger] sent[j] != (to, Sent::Failed),
    ensures
        ({
            let index = state.index_of(to).unwrap();
            let after = state.after_sending_first(messages, sent, n);
            &&& after.wf()
            &&& after.peers == state.peers
            &&& after.links[index] is Some
            &&& after.links[index].unwrap().id() == state.links[index].unwrap().id()
            &&& after.links[index].unwrap().queued() == state.links[index].unwrap().queued()
                + messages_to(to, messages, n)
        }),
    decreases n,
{
    state.peers.index_of_first_ensures(to);
    let index = state.index_of(to).unwrap();
    if n > 0 {
        law_messages_to_a_peer_are_queued(state, messages, sent, to, n - 1);
        let before = state.after_sending_first(messages, sent, n - 1);
        let (receiver, msg) = messages[n - 1];
        assert(recipients_of(messages).len() == messages.len());
        assert(recipients_of(sent).len() == sent.len());
        assert(recipients_of(messages)[n - 1] == receiver);
        assert(recipients_of(sent)[n - 1] == sent[n - 1].0);
        assert(before.may_become(sent[n - 1].0, sent[n - 1].1));
        state.peers.index_of_first_ensures(receiver);
        before.links[index].unwrap().law_messages_line_up(msg);
        let queued = state.after_sending_first(messages, sent, n).links[index].unwrap().queued();
        assert(queued =~= state.links[index].unwrap().queued() + messages_to(to, messages, n));
    } else {
        assert(state.links[index].unwrap().queued() + messages_to(to, messages, n)
            =~= state.links[index].unwrap().queued());
    }
}

/// Where a client is connected and nothing fails on its link, the link is kept, and exactly the
/// messages to the client have been queued on it, in the order in which they were sent.
pub proof fn law_messages_to_a_client_are_queued<A, M>(
    state: NetworkState<A, M>,
    messages: Seq<(ClientId, ServerMessage)>,
    sent: Seq<(ClientId, Sent)>,
    to: ClientId,
    n: int,
)
    requires
        state.all_may_become_to_clients(messages, sent),
        0 <= n <= messages.len(),
        state.clients.contains_key(to),
        forall|j: int| 0 <= j < n ==> #[trigger] sent[j] != (to, Sent::Failed),
    ensures
        ({
            let after = state.after_sending_first_to_clients(messages, sent, n);
            &&& after.clients.contains_key(to)
            &&& after.clients[to].id() == state.clients[to].id()
            &&& after.clients[to].queued() == state.clients[to].queued() + messages_to(
                to,
                messages,
                n,
            )
        }),
    decreases n,
{
    if n > 0 {
        law_messages_to_a_client_are_queued(state, messages, sent, to, n - 1);
        let before = state.after_sending_first_to_clients(messages, sent, n - 1);
        let (receiver, msg) = messages[n - 1];
        assert(recipients_of(messages).len() == messages.len());
        assert(recipients_of(sent).len() == sent.len());
        assert(recipients_of(messages)[n - 1] == receiver);
        assert(recipients_of(sent)[n - 1] == sent[n - 1].0);
        assert(before.may_become_to_client(sent[n - 1].0, sent[n - 1].1));
        before.clients[to].law_messages_line_up(msg);
        let after = state.after_sending_first_to_clients(messages, sent, n);
        assert(after.clients[to].queued() =~= state.clients[to].queued() + messages_to(
            to,
            messages,
            n,
        ));
    } else {
        assert(state.clients[to].queued() + messages_to(to, messages, n)
            =~= state.clients[to].queued());
    }
}

/// Once a link is in its place, messages to the server at its other end go out on it.
pub proof fn law_connected_link<A, M>(
    state: NetworkState<A, M>,
    link: PeerConnection<M>,
    msg: ClusterMessage<M>,
)
    requires
        state.wf(),
        state.peers.contains(link.id()),
    ensures
        ({
            let after = state.connected(NewConnection::ToPeer(link));
            let index = after.index_of(link.id()).unwrap();
            &&& after.wf()
            &&& after.peer_delivery(link.id(), msg) == PeerDelivery::Send(index as usize, msg)
            &&& after.links[index] == Some(link)
        }),
{
    state.peers.index_of_first_ensures(link.id());
}

/// Every link to a peer is and stays one to the peer that it stands for: a new link is taken up
/// for whoever is at its other end, one that was opened again was opened to the peer, and nothing
/// else changes whom a link is to. Without links that is so.
pub proof fn law_links_are_to_their_peers<A, M>(
    state: NetworkState<A, M>,
    link: PeerConnection<M>,
    index: int,
    to: NodeId,
    msg: ClusterMessage<M>,
    sent: Sent,
)
    requires
        state.wf(),
        state.peers_match(),
    ensures
        state.peers.contains(link.id()) ==> state.connected(
            NewConnection::ToPeer(link),
        ).peers_match(),
        0 <= index < state.peers.len() && link.id() == state.peers[index] ==> state.with_link(
            index,
            Some(link),
        ).peers_match(),
        state.may_become(to, sent) ==> state.after_sending(to, msg, sent).peers_match(),
        state.shut_down().peers_match(),
{
    state.peers.index_of_first_ensures(link.id());
    state.peers.index_of_first_ensures(to);
    if state.peers.contains(to) && state.links[state.index_of(to).unwrap()] is Some {
        state.links[state.index_of(to).unwrap()].unwrap().law_messages_line_up(msg);
    }
}

/// Every link to a client is and stays one to the client that it stands for: a new link is taken
/// up for whoever is at its other end, and nothing else changes whom a link is to. Without links
/// that is so.
pub proof fn law_links_are_to_their_clients<A, M>(
    state: NetworkState<A, M>,
    link: ClientConnection,
    to: ClientId,
    msg: ServerMessage,
    sent: Sent,
)
    requires
        state.clients_match(),
    ensures
        state.connected(NewConnection::ToClient(link)).clients_match(),
        state.may_become_to_client(to, sent) ==> state.after_sending_to_client(
            to,
            msg,
            sent,
        ).clients_match(),
        state.shut_down().clients_match(),
{
    if state.clients.contains_key(to) {
        state.clients[to].law_messages_line_up(msg);
    }
}

/// A network that was shut down sends nothing, all tasks of its links were asked to end, and
/// shutting it down again changes nothing.
pub proof fn law_shut_down_network<A, M>(
    state: NetworkState<A, M>,
    peer: NodeId,
    client: ClientId,
    msg: ClusterMessage<M>,
    answer: ServerMessage,
)
    requires
        state.wf(),
    ensures
        ({
            let after = state.shut_down();
            &&& after.wf()
            &&& !(after.peer_delivery(peer, msg) is Send)
            &&& !(after.client_delivery(client, answer) is Send)
            &&& forall|i: int|
                0 <= i < state.links.len() && (#[trigger] state.links[i]) is Some
                    ==> state.links[i].unwrap().tasks().subset_of(after.ended)
            &&& forall|id: ClientId| #[trigger]
                state.clients.contains_key(id) ==> state.clients[id].tasks().subset_of(after.ended)
            &&& after.shut_down() == after
        }),
{
    state.peers.index_of_first_ensures(peer);
    let after = state.shut_down();
    assert(after.tasks() =~= Set::<JoinHandle<()>>::empty());
    assert(after.shut_down().ended =~= after.ended);
    assert(after.shut_down() =~= after);
}

/// The names that clients are given by some handshakes, the first one first.
pub open spec fn names_given(max_client_id: int, handshakes: Seq<Handshake>) -> Seq<Identified>
    decreases handshakes.len(),
{
    if handshakes.len() == 0 {
        seq![]
    } else {
        let before = handshakes.drop_last();
        if is_client(handshakes.last()) {
            names_given(max_client_id, before).push(
                identified(max_client_id_after(max_client_id, before), handshakes.last()),
            )
        } else {
            names_given(max_client_id, before)
        }
    }
}

/// Clients are named in turn, from 1 on: the names that some handshakes give are exactly the
/// numbers up to how many of them are those of clients, which is then the greatest name.
pub proof fn law_clients_are_named_in_turn(handshakes: Seq<Handshake>)
    requires
        max_client_id_after(0, handshakes) <= u64::MAX,
    ensures
        max_client_id_after(0, handshakes) == names_given(0, handshakes).len(),
        names_given(0, handshakes) == Seq::new(
            names_given(0, handshakes).len(),
            |i: int| Identified::Client((i + 1) as ClientId),
        ),
    decreases handshakes.len(),
{
    if handshakes.len() > 0 {
        let before = handshakes.drop_last();
        assert(max_client_id_after(0, before) <= max_client_id_after(0, handshakes));
        law_clients_are_named_in_turn(before);
        let names = names_given(0, handshakes);
        assert(names =~= Seq::new(
            names.len(),
            |i: int| Identified::Client((i + 1) as ClientId),
        ));
    }
}

/// No two clients are given the same name.
pub proof fn law_client_names_differ(max_client_id: int, handshakes: Seq<Handshake>, i: int, j: int)
    requires
        0 <= i < j < handshakes.len(),
        is_client(handshakes[i]),
        is_client(handshakes[j]),
        0 <= max_client_id,
        max_client_id_after(max_client_id, handshakes) <= u64::MAX,
    ensures
        identified(max_client_id_after(max_client_id, handshakes.take(i)), handshakes[i])
            != identified(max_client_id_after(max_client_id, handshakes.take(j)), handshakes[j]),
{
    lemma_max_client_id_grows(max_client_id, handshakes.take(i), seq![]);
    assert(handshakes.take(i + 1).drop_last() =~= handshakes.take(i));
    assert(handshakes.take(j + 1).drop_last() =~= handshakes.take(j));
    lemma_max_client_id_grows(
        max_client_id,
        handshakes.take(i + 1),
        handshakes.subrange(i + 1, j),
    );
    assert(handshakes.take(i + 1) + handshakes.subrange(i + 1, j) =~= handshakes.take(j));
    lemma_max_client_id_grows(
        max_client_id,
        handshakes.take(j + 1),
        handshakes.subrange(j + 1, handshakes.len() as int),
    );
    assert(handshakes.take(j + 1) + handshakes.subrange(j + 1, handshakes.len() as int)
        =~= handshakes);
}

proof fn lemma_max_client_id_grows(
    max_client_id: int,
    first: Seq<Handshake>,
    second: Seq<Handshake>,
)
    ensures
        max_client_id <= max_client_id_after(max_client_id, first),
        max_client_id_after(max_client_id, first) <= max_client_id_after(
            max_client_id,
            first + second,
        ),
    decreases first.len() + second.len(),
{
    if second.len() > 0 {
        lemma_max_client_id_grows(max_client_id, first, second.drop_last());
        assert((first + second).drop_last() =~= first + second.drop_last());
    } else {
        assert(first + second =~= first);
        if first.len() > 0 {
            lemma_max_client_id_grows(max_client_id, first.drop_last(), seq![]);
        }
    }
}

/// Where a network is complete, a message to any of its peers has a link to go out on, and at
/// least so many clients have one; where every peer and enough clients have a link, it is
/// complete.
pub proof fn law_complete_network_reaches_everybody<A, M, X>(
    state: NetworkState<A, M>,
    num_clients: int,
    to: NodeId,
    msg: X,
)
    requires
        state.links.len() == state.peers.len(),
    ensures
        state.complete(num_clients) && state.peers.contains(to) ==> state.peer_delivery(to, msg) is Send,
        state.complete(num_clients) ==> state.clients.len() >= num_clients,
        state.complete(num_clients) ==> forall|i: int|
            0 <= i < state.peers.len() ==> (#[trigger] state.links[i]) is Some,
        state.clients.len() >= num_clients && (forall|i: int|
            0 <= i < state.links.len() ==> (#[trigger] state.links[i]) is Some) ==> state.complete(
            num_clients,
        ),
        state.peers.contains(to) && !(state.peer_delivery(to, msg) is Send) ==> !state.complete(
            num_clients,
        ),
{
    state.peers.index_of_first_ensures(to);
}

/// A message to a server goes out, as it is, on a link that stands for that server, where there is
/// one; a server that is a peer without a link is not connected, and any other is not expected.
pub proof fn law_messages_go_to_their_servers<A, M, X>(
    state: NetworkState<A, M>,
    to: NodeId,
    msg: X,
)
    requires
        state.links.len() == state.peers.len(),
        state.peers.len() <= usize::MAX,
    ensures
        match state.peer_delivery(to, msg) {
            PeerDelivery::Send(index, sent) => {
                &&& sent == msg
                &&& index < state.peers.len()
                &&& state.peers[index as int] == to
                &&& state.links[index as int] is Some
                &&& forall|i: int| 0 <= i < index ==> (#[trigger] state.peers[i]) != to
            },
            PeerDelivery::NotConnected => state.peers.contains(to) && exists|i: int|
                0 <= i < state.peers.len() && state.peers[i] == to && state.links[i] is None,
            PeerDelivery::UnexpectedNode => !state.peers.contains(to),
        },
{
    state.peers.index_of_first_ensures(to);
}

/// A message to a client goes out, as it is, to that client, where there is a link to it, and
/// nowhere where there is none.
pub proof fn law_messages_go_to_their_clients<A, M, X>(
    state: NetworkState<A, M>,
    to: ClientId,
    msg: X,
)
    ensures
        state.client_delivery(to, msg) == ClientDelivery::Send(to, msg)
            <==> state.clients.contains_key(to),
        state.client_delivery(to, msg) == ClientDelivery::<X>::NotConnected
            <==> !state.clients.contains_key(to),
{
}

/// What can become of a message follows from where it goes: where it goes out on a link it is
/// queued or fails, and otherwise it is neither.
pub proof fn law_outcomes_fit_deliveries<A, M, X>(
    state: NetworkState<A, M>,
    to: NodeId,
    client: ClientId,
    msg: X,
    sent: Sent,
)
    ensures
        state.may_become(to, sent) <==> match state.peer_delivery(to, msg) {
            PeerDelivery::Send(_, _) => sent == Sent::Queued || sent == Sent::Failed,
            PeerDelivery::NotConnected => sent == Sent::NotConnected,
            PeerDelivery::UnexpectedNode => sent == Sent::UnexpectedNode,
        },
        state.may_become_to_client(client, sent) <==> if state.clients.contains_key(client) {
            sent == Sent::Queued || sent == Sent::Failed
        } else {
            sent == Sent::NotConnected
        },
{
}

/// Sending a message to a server touches only the link that it goes out on: every other link, the
/// clients and what the network was told stay as they were.
pub proof fn law_sending_touches_one_link<A, M>(
    state: NetworkState<A, M>,
    to: NodeId,
    msg: ClusterMessage<M>,
    sent: Sent,
    i: int,
)
    requires
        state.links.len() == state.peers.len(),
        state.may_become(to, sent),
        0 <= i < state.links.len(),
    ensures
        ({
            let after = state.after_sending(to, msg, sent);
            let index = state.index_of(to).unwrap();
            &&& after.id == state.id
            &&& after.peers == state.peers
            &&& after.addresses == state.addresses
            &&& after.clients == state.clients
            &&& after.batch_size == state.batch_size
            &&& after.ended == state.ended
            &&& after.refused_by_clients == state.refused_by_clients
            &&& after.links.len() == state.links.len()
            &&& state.peers[i] != to ==> after.links[i] == state.links[i]
            &&& sent == Sent::Queued ==> after.links[index] == Some(
                state.links[index].unwrap().after_queueing(msg),
            ) && after.refused_by_peers == state.refused_by_peers
            &&& sent == Sent::Failed ==> after.links[index] is None
            &&& sent == Sent::NotConnected || sent == Sent::UnexpectedNode ==> after == state
        }),
{
    state.peers.index_of_first_ensures(to);
}

/// Sending a message to a client touches only the link to that client: every other link and what
/// the network was told stay as they were.
pub proof fn law_sending_touches_one_client<A, M>(
    state: NetworkState<A, M>,
    to: ClientId,
    msg: ServerMessage,
    sent: Sent,
    other: ClientId,
)
    requires
        state.may_become_to_client(to, sent),
        other != to,
    ensures
        ({
            let after = state.after_sending_to_client(to, msg, sent);
            &&& after.id == state.id
            &&& after.peers == state.peers
            &&& after.addresses == state.addresses
            &&& after.links == state.links
            &&& after.batch_size == state.batch_size
            &&& after.ended == state.ended
            &&& after.refused_by_peers == state.refused_by_peers
            &&& after.clients.contains_key(other) == state.clients.contains_key(other)
            &&& state.clients.contains_key(other) ==> after.clients[other] == state.clients[other]
            &&& sent == Sent::Queued ==> after.clients.contains_key(to) && after.clients[to]
                == state.clients[to].after_queueing(msg) && after.refused_by_clients
                == state.refused_by_clients
            &&& sent == Sent::Failed ==> !after.clients.contains_key(to)
            &&& sent == Sent::NotConnected ==> after == state
        }),
{
}

/// Giving up a link, or putting one in its place, touches no other link and nothing else, but for
/// the record of what the link had not taken.
pub proof fn law_links_change_one_at_a_time<A, M>(
    state: NetworkState<A, M>,
    index: int,
    link: PeerConnection<M>,
    i: int,
    client: ClientId,
    other: ClientId,
)
    requires
        state.links.len() == state.peers.len(),
        0 <= index < state.links.len(),
        0 <= i < state.links.len(),
        i != index,
        client != other,
    ensures
        state.with_link(index, Some(link)).links[index] == Some(link),
        state.with_link(index, Some(link)).links[i] == state.links[i],
        state.with_link(index, Some(link)) == (NetworkState {
            links: state.with_link(index, Some(link)).links,
            ..state
        }),
        state.without_link(index).links[index] is None,
        state.without_link(index).links[i] == state.links[i],
        state.without_link(index).refused_by_peers == state.refused_by_peers
            + match state.links[index] {
            Some(given_up) => given_up.refused(),
            None => seq![],
        },
        state.without_link(index) == (NetworkState {
            links: state.without_link(index).links,
            refused_by_peers: state.without_link(index).refused_by_peers,
            ..state
        }),
        !state.without_client(client).clients.contains_key(client),
        state.without_client(client).clients.contains_key(other) == state.clients.contains_key(
            other,
        ),
        state.clients.contains_key(other) ==> state.without_client(client).clients[other]
            == state.clients[other],
        state.clients.contains_key(client) ==> state.without_client(client).refused_by_clients
            == state.refused_by_clients + state.clients[client].refused(),
        !state.clients.contains_key(client) ==> state.without_client(client).refused_by_clients
            == state.refused_by_clients,
        state.without_client(client) == (NetworkState {
            clients: state.without_client(client).clients,
            refused_by_clients: state.without_client(client).refused_by_clients,
            ..state
        }),
{
    if state.links[index] is None {
        assert(state.refused_by_peers + Seq::<ClusterMessage<M>>::empty()
            =~= state.refused_by_peers);
    }
}

/// A new connection is the link to whoever is at its other end from then on, in place of one that
/// was there, and changes nothing else.
pub proof fn law_new_connections_replace_one_link<A, M>(
    state: NetworkState<A, M>,
    link: PeerConnection<M>,
    client_link: ClientConnection,
    other: ClientId,
    i: int,
)
    requires
        state.links.len() == state.peers.len(),
        state.peers.contains(link.id()),
        0 <= i < state.peers.len(),
        state.peers[i] != link.id(),
        other != client_link.id(),
    ensures
        ({
            let after = state.connected(NewConnection::ToPeer(link));
            &&& exists|j: int|
                0 <= j < after.links.len() && after.peers[j] == link.id() && after.links[j] == Some(
                    link,
                )
            &&& after.links[i] == state.links[i]
            &&& after == (NetworkState { links: after.links, ..state })
        }),
        ({
            let after = state.connected(NewConnection::ToClient(client_link));
            &&& after.clients.contains_key(client_link.id())
            &&& after.clients[client_link.id()] == client_link
            &&& after.clients.contains_key(other) == state.clients.contains_key(other)
            &&& state.clients.contains_key(other) ==> after.clients[other] == state.clients[other]
            &&& after == (NetworkState { clients: after.clients, ..state })
        }),
{
    state.peers.index_of_first_ensures(link.id());
    let j = state.index_of(link.id()).unwrap();
    let after = state.connected(NewConnection::ToPeer(link));
    assert(after.peers[j] == link.id());
    assert(after.links[j] == Some(link));
}

/// A link is to be opened again exactly where it is missing, its peer has a smaller identifier
/// than this server, and the peer's address is known.
pub proof fn law_links_to_open_again<A, M>(state: NetworkState<A, M>, index: int)
    ensures
        state.to_reopen(index) <==> 0 <= index < state.peers.len() && state.links[index] is None && state.peers[index] < state.id
            && state.addresses.contains_key(state.peers[index]),
{
}

/// The peers of a server are the other servers of the cluster, each with the address at the same
/// place of its list, in their order; what is left of the longer list plays no role.
pub proof fn law_peers_and_addresses_go_together<A>(
    id: NodeId,
    nodes: Seq<NodeId>,
    addresses: Seq<A>,
    node: NodeId,
    address: A,
    more_nodes: Seq<NodeId>,
    more_addresses: Seq<A>,
)
    requires
        nodes.len() == addresses.len(),
    ensures
        peers_of(id, Seq::<NodeId>::empty(), Seq::<A>::empty()).len() == 0,
        peers_of(id, nodes.push(node), addresses.push(address)) == if node == id {
            peers_of(id, nodes, addresses)
        } else {
            peers_of(id, nodes, addresses).push((node, address))
        },
        peers_of(id, nodes + more_nodes, addresses) == peers_of(id, nodes, addresses),
        peers_of(id, nodes, addresses + more_addresses) == peers_of(id, nodes, addresses),
{
    reveal(Seq::filter);
    let longer = zipped(nodes.push(node), addresses.push(address));
    assert(longer.drop_last() =~= zipped(nodes, addresses));
    assert(longer.last() == (node, address));
    assert(zipped(nodes + more_nodes, addresses) =~= zipped(nodes, addresses));
    assert(zipped(nodes, addresses + more_addresses) =~= zipped(nodes, addresses));
    assert(zipped(Seq::<NodeId>::empty(), Seq::<A>::empty()) =~= Seq::<(NodeId, A)>::empty());
}

/// The address of a server is the one that it was listed with last; listing one server changes
/// the address of no other.
pub proof fn law_last_listed_address_counts<A>(
    peers: Seq<(NodeId, A)>,
    node: NodeId,
    address: A,
    other: NodeId,
)
    requires
        other != node,
    ensures
        ({
            let (before, after) = (address_book(peers), address_book(peers.push((node, address))));
            &&& after.contains_key(node)
            &&& after[node] == address
            &&& after.contains_key(other) == before.contains_key(other)
            &&& before.contains_key(other) ==> after[other] == before[other]
        }),
        !address_book(Seq::<(NodeId, A)>::empty()).contains_key(node),
{
    assert(peers.push((node, address)).drop_last() =~= peers);
}

/// The links that there are, are found in their order, each once.
pub proof fn law_present_links_keep_their_order<P>(links: Seq<Option<P>>, link: P)
    ensures
        present(Seq::<Option<P>>::empty()).len() == 0,
        present(links.push(Some(link))) == present(links).push(link),
        present(links.push(None)) == present(links),
{
    assert(links.push(Some(link)).drop_last() =~= links);
    assert(links.push(None).drop_last() =~= links);
}

/// A network without links keeps what it was told, and has a place for a link to each peer.
pub proof fn law_emptied_network<A, M>(state: NetworkState<A, M>, i: int)
    requires
        0 <= i < state.peers.len(),
    ensures
        state.emptied().links.len() == state.peers.len(),
        state.emptied().links[i] is None,
        state.emptied().clients.len() == 0,
        state.emptied() == (NetworkState {
            links: state.emptied().links,
            clients: state.emptied().clients,
            ..state
        }),
        state.shut_down().links == state.emptied().links,
        state.shut_down().clients == state.emptied().clients,
        state.shut_down().peers == state.peers,
        state.shut_down().addresses == state.addresses,
        state.shut_down().id == state.id,
        state.ended.subset_of(state.shut_down().ended),
{
}

/// A server is identified as the one that it says it is, a client gets the next name, and whoever
/// does not say who it is, is nobody. Only a client uses up a name.
pub proof fn law_handshakes_identify(
    max_client_id: int,
    node: NodeId,
    handshake: Handshake,
    handshakes: Seq<Handshake>,
)
    requires
        0 <= max_client_id < u64::MAX,
    ensures
        identified(max_client_id, Handshake::Message(RegistrationMessage::NodeRegister(node)))
            == Identified::Peer(node),
        identified(max_client_id, Handshake::Message(RegistrationMessage::ClientRegister)) matches
            Identified::Client(name) && name == max_client_id + 1,
        identified(max_client_id, Handshake::Malformed) == Identified::Nobody,
        identified(max_client_id, Handshake::Closed) == Identified::Nobody,
        is_client(handshake) <==> identified(max_client_id, handshake) is Client,
        max_client_id_after(max_client_id, Seq::<Handshake>::empty()) == max_client_id,
        max_client_id_after(max_client_id, handshakes.push(handshake)) == max_client_id_after(
            max_client_id,
            handshakes,
        ) + if handshake == Handshake::Message(RegistrationMessage::ClientRegister) {
            1int
        } else {
            0int
        },
{
    assert(handshakes.push(handshake).drop_last() =~= handshakes);
}

/// A connection that is reached is set to send without delay, then the handshake is sent, as it
/// was given, and then it is a link. Whoever is not reached is tried again for a first link, and
/// given up for a lost one; any other failure gives the attempt up. Nothing else is ever sent.
pub proof fn law_connections_are_opened_in_order(
    handshake: RegistrationMessage,
    event: ConnectEvent,
    sent: RegistrationMessage,
)
    ensures
        connect_action(handshake, ConnectEvent::Connected) == ConnectAction::SetNodelay,
        connect_action(handshake, ConnectEvent::NodelaySet) == ConnectAction::SendHandshake(
            handshake,
        ),
        connect_action(handshake, ConnectEvent::HandshakeSent) == ConnectAction::Install,
        connect_action(handshake, ConnectEvent::ConnectFailed) == ConnectAction::Retry,
        connect_action(handshake, ConnectEvent::HandshakeFailed) == ConnectAction::GiveUp,
        reconnect_action(handshake, ConnectEvent::ConnectFailed) == ConnectAction::GiveUp,
        reconnect_action(handshake, ConnectEvent::NodelayFailed) == ConnectAction::GiveUp,
        reconnect_action(handshake, ConnectEvent::HandshakeFailed) == ConnectAction::GiveUp,
        event != ConnectEvent::ConnectFailed ==> reconnect_action(handshake, event)
            == connect_action(handshake, event),
        connect_action(handshake, event) == ConnectAction::SendHandshake(sent) ==> sent
            == handshake && event == ConnectEvent::NodelaySet,
        connect_action(handshake, event) == ConnectAction::Install ==> event
            == ConnectEvent::HandshakeSent,
{
}

/// Messages are to whom they are to, one by one.
pub proof fn law_recipients_are_those_of_the_messages<X>(messages: Seq<(u64, X)>, i: int)
    requires
        0 <= i < messages.len(),
    ensures
        recipients_of(messages).len() == messages.len(),
        recipients_of(messages)[i] == messages[i].0,
{
}

/// Messages to servers are sent one after another, each on the links that those before it leave:
/// what becomes of one is what can become of it then, and it is noted to whom each one was.
pub proof fn law_messages_to_servers_are_sent_in_order<A, M>(
    state: NetworkState<A, M>,
    messages: Seq<(NodeId, ClusterMessage<M>)>,
    sent: Seq<(NodeId, Sent)>,
    i: int,
)
    requires
        0 <= i < messages.len(),
    ensures
        state.after_sending_first(messages, sent, 0) == state,
        state.after_sending_first(messages, sent, i + 1) == state.after_sending_first(
            messages,
            sent,
            i,
        ).after_sending(messages[i].0, messages[i].1, sent[i].1),
        state.all_may_become(messages, sent) ==> {
            &&& sent.len() == messages.len()
            &&& sent[i].0 == messages[i].0
            &&& state.after_sending_first(messages, sent, i).may_become(messages[i].0, sent[i].1)
        },
{
    if state.all_may_become(messages, sent) {
        assert(recipients_of(sent).len() == recipients_of(messages).len());
        assert(recipients_of(sent)[i] == recipients_of(messages)[i]);
    }
}

/// Messages to clients are sent one after another, each on the links that those before it leave:
/// what becomes of one is what can become of it then, and it is noted to whom each one was.
pub proof fn law_messages_to_clients_are_sent_in_order<A, M>(
    state: NetworkState<A, M>,
    messages: Seq<(ClientId, ServerMessage)>,
    sent: Seq<(ClientId, Sent)>,
    i: int,
)
    requires
        0 <= i < messages.len(),
    ensures
        state.after_sending_first_to_clients(messages, sent, 0) == state,
        state.after_sending_first_to_clients(messages, sent, i + 1)
            == state.after_sending_first_to_clients(messages, sent, i).after_sending_to_client(
            messages[i].0,
            messages[i].1,
            sent[i].1,
        ),
        state.all_may_become_to_clients(messages, sent) ==> {
            &&& sent.len() == messages.len()
            &&& sent[i].0 == messages[i].0
            &&& state.after_sending_first_to_clients(messages, sent, i).may_become_to_client(
                messages[i].0,
                sent[i].1,
            )
        },
{
    if state.all_may_become_to_clients(messages, sent) {
        assert(recipients_of(sent).len() == recipients_of(messages).len());
        assert(recipients_of(sent)[i] == recipients_of(messages)[i]);
    }
}

/// Shutting a network down asks the tasks of its links to end, and no other task.
pub proof fn law_only_tasks_of_links_are_ended<A, M>(
    state: NetworkState<A, M>,
    task: JoinHandle<()>,
)
    ensures
        state.shut_down().ended.contains(task) <==> {
            ||| state.ended.contains(task)
            ||| exists|i: int|
                0 <= i < state.links.len() && (#[trigger] state.links[i]) is Some
                    && state.links[i].unwrap().tasks().contains(task)
            ||| exists|id: ClientId| #[trigger]
                state.clients.contains_key(id) && state.clients[id].tasks().contains(task)
        },
        state.shut_down().batch_size == state.batch_size,
        state.shut_down().refused_by_peers == state.refused_by_peers,
        state.shut_down().refused_by_clients == state.refused_by_clients,
{
}

/// A server opens connections to the servers with a smaller identifier, in the order in which
/// they are listed.
pub proof fn law_smaller_peers_are_dialled_in_order<A>(
    id: NodeId,
    peers: Seq<(NodeId, A)>,
    peer: (NodeId, A),
)
    ensures
        dials(id, peer.0) <==> peer.0 < id,
        Seq::<(NodeId, A)>::empty().filter(dialled_by(id)).len() == 0,
        peers.push(peer).filter(dialled_by(id)) == if peer.0 < id {
            peers.filter(dialled_by(id)).push(peer)
        } else {
            peers.filter(dialled_by(id))
        },
{
    reveal(Seq::filter);
    assert(peers.push(peer).drop_last() =~= peers);
}

} // verus!
