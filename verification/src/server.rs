//! A replica: it applies the commands that the cluster has decided on, in the order of the
//! log, and answers those that came in through it.

use std::collections::VecDeque;
use vstd::prelude::*;

use crate::config::OmniPaxosKVConfig;
use crate::database::{Database, Store};
use crate::kv::{ClientId, Command, CommandId, KVCommand, LogCommand, NodeId, Op, Timestamp};
use crate::messages::{Answer, ClientMessage, ClusterMessage, ServerMessage};
use crate::queue::queue_of;

verus! {

/// How many messages a server takes up at once.
pub const NETWORK_BATCH_SIZE: usize = 100;

/// How long after the leader is established clients start, in milliseconds.
pub const START_DELAY_MILLIS: i64 = 2000;

/// How long a server that is to lead first waits before it looks again at who leads, in
/// milliseconds.
pub const LEADER_WAIT_MILLIS: u64 = 1000;

/// How often a server sees to leader election, in milliseconds.
pub const ELECTION_TIMEOUT_MILLIS: u64 = 1000;

/// An entry that is read from the log.
#[derive(Debug)]
pub enum LogEntry {
    /// A command that the cluster has decided on.
    Decided(Command),
    /// Anything else.
    Other,
}

/// The commands of decided entries.
pub open spec fn commands_of(entries: Seq<LogEntry>) -> Seq<LogCommand> {
    entries.map_values(|e: LogEntry| e->Decided_0@)
}

/// What a server sends to its clients when it applies a part of the log to a store: the
/// answer to each command that came in through it, in the order of the log.
pub open spec fn responses(store: Store, id: NodeId, log: Seq<LogCommand>) -> Seq<
    (ClientId, Answer),
>
    decreases log.len(),
{
    if log.len() == 0 {
        seq![]
    } else {
        let before = log.drop_last();
        let command = log.last();
        if command.coordinator_id == id {
            responses(store, id, before).push(
                (command.client_id, answer_at(store, log, log.len() - 1)),
            )
        } else {
            responses(store, id, before)
        }
    }
}

/// The answer to the command at a position of a log: its outcome on the store that the
/// commands before it leave.
pub open spec fn answer_at(store: Store, log: Seq<LogCommand>, i: int) -> Answer {
    crate::messages::answer_to(
        log[i].id,
        crate::database::outcome(
            crate::database::replay(store, crate::kv::ops_of(log.take(i))),
            log[i].op,
        ),
    )
}

/// The store that a part of the log leaves.
pub open spec fn store_after(store: Store, log: Seq<LogCommand>) -> Store {
    crate::database::replay(store, crate::kv::ops_of(log))
}

/// The models of messages to clients.
pub open spec fn answers_of(messages: Seq<(ClientId, ServerMessage)>) -> Seq<(ClientId, Answer)> {
    messages.map_values(|m: (ClientId, ServerMessage)| (m.0, m.1@))
}

/// The log command that a client's message asks a server for.
pub open spec fn asked_for(id: NodeId, from: ClientId, message: ClientMessage) -> LogCommand {
    match message {
        ClientMessage::Append(command_id, kv_command) => LogCommand {
            client_id: from,
            coordinator_id: id,
            id: command_id,
            op: kv_command@,
        },
    }
}

/// The start signal to each client of a server; its clients are named from 1 on.
pub open spec fn client_signals(num_clients: nat, start_time: Timestamp) -> Seq<
    (ClientId, ServerMessage),
> {
    Seq::new(
        num_clients,
        |i: int| ((i + 1) as ClientId, ServerMessage::StartSignal(start_time)),
    )
}

/// The start signal to each peer of a server.
pub open spec fn cluster_signals<M>(peers: Seq<NodeId>, start_time: Timestamp) -> Seq<
    (NodeId, ClusterMessage<M>),
> {
    peers.map_values(|peer: NodeId| (peer, ClusterMessage::LeaderStartSignal(start_time)))
}

/// The mathematical model of an [`OmniPaxosServer`].
#[verifier::ext_equal]
pub struct ServerState {
    pub id: NodeId,
    pub store: Store,
    pub current_decided_idx: usize,
    pub peers: Seq<NodeId>,
    pub initial_leader: NodeId,
    pub num_clients: usize,
}

impl ServerState {
    /// The state after a part of the log was applied.
    pub open spec fn applied(self, log: Seq<LogCommand>) -> Self {
        ServerState { store: store_after(self.store, log), ..self }
    }
}

/// What happens while the initial leader is being established.
#[derive(Debug)]
pub enum StartEvent {
    /// It is time to look at who leads: nobody, or a server, which is ready to take commands
    /// or not yet.
    TakeoverTick(Option<(NodeId, bool)>),
    /// Messages of the cluster were handled, with a start signal among them or without.
    ClusterMessagesHandled(bool),
    /// Messages of clients were handled.
    ClientMessagesHandled,
}

/// What a server does while the initial leader is being established.
#[derive(Debug, Clone, Copy, PartialEq, Eq)]
pub enum StartAction {
    /// Tell peers and clients when to start, and go on to normal operation.
    Announce,
    /// Try to become the leader.
    TryBecomeLeader,
    /// Wait for what happens next.
    Wait,
    /// Go on to normal operation.
    Finish,
}

/// What follows an event while the initial leader is being established.
pub open spec fn start_action(id: NodeId, initial_leader: NodeId, event: StartEvent) -> StartAction {
    match event {
        StartEvent::TakeoverTick(leader) => if initial_leader != id {
            StartAction::Wait
        } else if leader == Some((id, true)) {
            StartAction::Announce
        } else {
            StartAction::TryBecomeLeader
        },
        StartEvent::ClusterMessagesHandled(received_start_signal) => if received_start_signal {
            StartAction::Finish
        } else {
            StartAction::Wait
        },
        StartEvent::ClientMessagesHandled => StartAction::Wait,
    }
}

/// What happens while a server is in normal operation.
#[derive(Debug, Clone, Copy, PartialEq, Eq)]
pub enum RunEvent {
    /// It is time to see to leader election.
    ElectionTimeout,
    /// Messages of the cluster have come in.
    ClusterMessages,
    /// Messages of clients have come in.
    ClientMessages,
}

/// What a server does in normal operation.
#[derive(Debug, Clone, Copy, PartialEq, Eq)]
pub enum RunStep {
    /// Let the consensus protocol know that time has passed.
    Tick,
    /// Open lost links again.
    ReconnectPeers,
    /// Work through the messages of the cluster.
    HandleClusterMessages,
    /// Append the commands of the clients to the log.
    HandleClientMessages,
    /// Send what the consensus protocol wants sent.
    SendOutgoing,
}

/// What a server does, in order, when something happens in normal operation.
pub open spec fn run_steps(event: RunEvent) -> Seq<RunStep> {
    match event {
        RunEvent::ElectionTimeout => seq![
            RunStep::Tick,
            RunStep::ReconnectPeers,
            RunStep::SendOutgoing,
        ],
        RunEvent::ClusterMessages => seq![RunStep::HandleClusterMessages, RunStep::SendOutgoing],
        RunEvent::ClientMessages => seq![RunStep::HandleClientMessages, RunStep::SendOutgoing],
    }
}

/// What a server does next with a batch of messages of the cluster.
#[derive(Debug, PartialEq, Eq)]
pub enum ClusterAction<M> {
    /// Hand this message to the consensus protocol, then apply what has been decided.
    HandleIncoming(M),
    /// Tell the clients to start at this time.
    SignalClients(Timestamp),
    /// The batch is done; there was a start signal in it or not.
    Finished(bool),
}

/// What a message of the cluster makes a server do.
pub open spec fn action_for<M>(message: ClusterMessage<M>) -> ClusterAction<M> {
    match message {
        ClusterMessage::OmniPaxosMessage(m) => ClusterAction::HandleIncoming(m),
        ClusterMessage::LeaderStartSignal(start_time) => ClusterAction::SignalClients(start_time),
    }
}

/// The mathematical model of a [`ClusterBatch`].
#[verifier::ext_equal]
pub struct BatchState<M> {
    /// What is left of the batch, each message with its sender.
    pub messages: Seq<(NodeId, ClusterMessage<M>)>,
    /// Whether a start signal has come up.
    pub received_start_signal: bool,
}

impl<M> BatchState<M> {
    /// The next action and the state after it.
    pub open spec fn next(self) -> (Self, ClusterAction<M>) {
        if self.messages.len() == 0 {
            (self, ClusterAction::Finished(self.received_start_signal))
        } else {
            (
                BatchState {
                    messages: self.messages.drop_first(),
                    received_start_signal: self.received_start_signal
                        || self.messages[0].1 is LeaderStartSignal,
                },
                action_for(self.messages[0].1),
            )
        }
    }

    /// All actions up to the one that ends the batch, and what that one says.
    pub open spec fn actions(self) -> (Seq<ClusterAction<M>>, bool)
        decreases self.messages.len(),
    {
        if self.messages.len() == 0 {
            (seq![], self.received_start_signal)
        } else {
            let (after, action) = self.next();
            (seq![action] + after.actions().0, after.actions().1)
        }
    }
}

/// A batch of messages of the cluster that a server works through.
pub struct ClusterBatch<M> {
    messages: VecDeque<(NodeId, ClusterMessage<M>)>,
    received_start_signal: bool,
}

impl<M> View for ClusterBatch<M> {
    type V = BatchState<M>;

    closed spec fn view(&self) -> BatchState<M> {
        BatchState {
            messages: self.messages@,
            received_start_signal: self.received_start_signal,
        }
    }
}

impl<M> ClusterBatch<M> {
    /// The next action.
    pub fn next(&mut self) -> (r: ClusterAction<M>)
        ensures
            (final(self)@, r) == old(self)@.next(),
    {
        match self.messages.pop_front() {
            Some((_, message)) => {
                assert(self.messages@ =~= old(self)@.messages.drop_first());
                match message {
                    ClusterMessage::OmniPaxosMessage(m) => ClusterAction::HandleIncoming(m),
                    ClusterMessage::LeaderStartSignal(start_time) => {
                        self.received_start_signal = true;
                        ClusterAction::SignalClients(start_time)
                    },
                }
            },
            None => ClusterAction::Finished(self.received_start_signal),
        }
    }
}

/// A replica of the store.
pub struct OmniPaxosServer {
    id: NodeId,
    database: Database,
    current_decided_idx: usize,
    peers: Vec<NodeId>,
    initial_leader: NodeId,
    num_clients: usize,
}

impl View for OmniPaxosServer {
    type V = ServerState;

    closed spec fn view(&self) -> ServerState {
        ServerState {
            id: self.id,
            store: self.database@,
            current_decided_idx: self.current_decided_idx,
            peers: self.peers@,
            initial_leader: self.initial_leader,
            num_clients: self.num_clients,
        }
    }
}

impl OmniPaxosServer {
    /// A server that has applied nothing yet.
    pub fn new(config: &OmniPaxosKVConfig) -> (r: Self)
        ensures
            r@ == (ServerState {
                id: config.local.server_id,
                store: Map::empty(),
                current_decided_idx: 0,
                peers: config.cluster.nodes@.filter(
                    crate::config::different_from(config.local.server_id),
                ),
                initial_leader: config.cluster.initial_leader,
                num_clients: config.local.num_clients,
            }),
    {
        OmniPaxosServer {
            id: config.local.server_id,
            database: Database::new(),
            current_decided_idx: 0,
            peers: config.get_peers(config.local.server_id),
            initial_leader: config.cluster.initial_leader,
            num_clients: config.local.num_clients,
        }
    }

    /// What to do next while the initial leader is being established.
    pub fn establish_initial_leader(&self, event: StartEvent) -> (r: StartAction)
        ensures
            r == start_action(self@.id, self@.initial_leader, event),
    {
        match event {
            StartEvent::TakeoverTick(leader) => {
                if self.initial_leader != self.id {
                    return StartAction::Wait;
                }
                if let Some((curr_leader, is_accept_phase)) = leader {
                    if curr_leader == self.id && is_accept_phase {
                        return StartAction::Announce;
                    }
                }
                StartAction::TryBecomeLeader
            },
            StartEvent::ClusterMessagesHandled(received_start_signal) => {
                if received_start_signal {
                    StartAction::Finish
                } else {
                    StartAction::Wait
                }
            },
            StartEvent::ClientMessagesHandled => StartAction::Wait,
        }
    }

    /// What to do, in order, when something happens in normal operation.
    pub fn run(event: RunEvent) -> (r: Vec<RunStep>)
        ensures
            r@ == run_steps(event),
    {
        match event {
            RunEvent::ElectionTimeout => vec![
                RunStep::Tick,
                RunStep::ReconnectPeers,
                RunStep::SendOutgoing,
            ],
            RunEvent::ClusterMessages => vec![
                RunStep::HandleClusterMessages,
                RunStep::SendOutgoing,
            ],
            RunEvent::ClientMessages => vec![
                RunStep::HandleClientMessages,
                RunStep::SendOutgoing,
            ],
        }
    }

    /// The time at which clients start, where the leader is established now.
    pub fn experiment_sync_start(now: Timestamp) -> (r: Timestamp)
        requires
            now <= i64::MAX - START_DELAY_MILLIS,
        ensures
            r == now + START_DELAY_MILLIS,
    {
        now + START_DELAY_MILLIS
    }

    /// The start signals to all peers and all clients, with one start time, where the leader is
    /// established now.
    pub fn announce<M>(&self, now: Timestamp) -> (r: (
        Vec<(NodeId, ClusterMessage<M>)>,
        Vec<(ClientId, ServerMessage)>,
    ))
        requires
            now <= i64::MAX - START_DELAY_MILLIS,
        ensures
            r.0@ == cluster_signals::<M>(self@.peers, (now + START_DELAY_MILLIS) as Timestamp),
            r.1@ == client_signals(
                self@.num_clients as nat,
                (now + START_DELAY_MILLIS) as Timestamp,
            ),
    {
        let start_time = OmniPaxosServer::experiment_sync_start(now);
        (self.send_cluster_start_signals(start_time), self.send_client_start_signals(start_time))
    }

    /// From where on the log is to be read, where entries up to an index have been decided;
    /// nowhere, where all of them were applied.
    pub fn unapplied_from(&self, new_decided_idx: usize) -> (r: Option<usize>)
        ensures
            r == if self@.current_decided_idx < new_decided_idx {
                Some(self@.current_decided_idx)
            } else {
                None
            },
    {
        if self.current_decided_idx < new_decided_idx {
            Some(self.current_decided_idx)
        } else {
            None
        }
    }

    /// Applies the entries that were decided since the last time, up to an index, and gives
    /// the messages that are to be sent to clients.
    pub fn handle_decided_entries(
        &mut self,
        new_decided_idx: usize,
        decided_entries: Vec<LogEntry>,
    ) -> (r: Vec<(ClientId, ServerMessage)>)
        requires
            old(self)@.current_decided_idx < new_decided_idx ==> forall|i: int|
                0 <= i < decided_entries@.len() ==> (#[trigger] decided_entries@[i]) is Decided,
        ensures
            old(self)@.current_decided_idx < new_decided_idx ==> {
                &&& final(self)@ == (ServerState {
                    current_decided_idx: new_decided_idx,
                    ..old(self)@.applied(commands_of(decided_entries@))
                })
                &&& answers_of(r@) == responses(
                    old(self)@.store,
                    old(self)@.id,
                    commands_of(decided_entries@),
                )
            },
            old(self)@.current_decided_idx >= new_decided_idx ==> {
                &&& final(self)@ == old(self)@
                &&& r@.len() == 0
            },
            old(self)@.current_decided_idx <= final(self)@.current_decided_idx,
    {
        if self.current_decided_idx < new_decided_idx {
            self.current_decided_idx = new_decided_idx;
            let ghost all = decided_entries@;
            let mut entries = queue_of(decided_entries);
            let mut decided_commands: Vec<Command> = Vec::new();
            assert(all.take(0) =~= Seq::<LogEntry>::empty());
            while entries.len() > 0
                invariant
                    decided_commands@.len() <= all.len(),
                    entries@ == all.skip(decided_commands@.len() as int),
                    forall|i: int| 0 <= i < all.len() ==> (#[trigger] all[i]) is Decided,
                    crate::kv::log_of(decided_commands@) == commands_of(
                        all.take(decided_commands@.len() as int),
                    ),
                decreases entries.len(),
            {
                let ghost done = decided_commands@.len() as int;
                let ghost before = decided_commands@;
                if let Some(entry) = entries.pop_front() {
                    assert(entry == all[done]);
                    if let LogEntry::Decided(command) = entry {
                        decided_commands.push(command);
                        assert(all.take(done + 1) =~= all.take(done).push(entry));
                        assert(crate::kv::log_of(decided_commands@) =~= crate::kv::log_of(
                            before,
                        ).push(command@));
                        assert(commands_of(all.take(done + 1)) =~= commands_of(
                            all.take(done),
                        ).push(command@));
                    }
                    assert(entries@ =~= all.skip(done + 1));
                }
            }
            assert(all.take(decided_commands@.len() as int) =~= all);
            self.update_database_and_respond(decided_commands)
        } else {
            Vec::new()
        }
    }

    /// Applies commands and gives the messages that are to be sent to clients: the answers to
    /// the commands that came in through this server.
    pub fn update_database_and_respond(&mut self, commands: Vec<Command>) -> (r: Vec<
        (ClientId, ServerMessage),
    >)
        ensures
            final(self)@ == old(self)@.applied(crate::kv::log_of(commands@)),
            answers_of(r@) == responses(
                old(self)@.store,
                old(self)@.id,
                crate::kv::log_of(commands@),
            ),
    {
        let ghost log = crate::kv::log_of(commands@);
        let ghost mut done: int = 0;
        let mut rest = queue_of(commands);
        let mut r: Vec<(ClientId, ServerMessage)> = Vec::new();
        assert(answers_of(r@) =~= responses(self@.store, self@.id, log.take(0)));
        while rest.len() > 0
            invariant
                0 <= done <= log.len(),
                crate::kv::log_of(rest@) == log.skip(done),
                self@ == old(self)@.applied(log.take(done)),
                answers_of(r@) == responses(old(self)@.store, old(self)@.id, log.take(done)),
            decreases rest.len(),
        {
            let ghost before = rest@;
            let ghost sent = r@;
            if let Some(command) = rest.pop_front() {
                proof {
                    assert(crate::kv::log_of(before).len() == log.len() - done);
                    assert(command@ == crate::kv::log_of(before)[0]);
                    assert(command@ == log[done]);
                    assert(crate::kv::log_of(rest@) =~= crate::kv::log_of(before).skip(1));
                    assert(log.skip(done).skip(1) =~= log.skip(done + 1));
                    assert(log.take(done + 1).drop_last() =~= log.take(done));
                    assert(log.take(done + 1).take(done) =~= log.take(done));
                    assert(crate::kv::ops_of(log.take(done + 1)).drop_last() =~= crate::kv::ops_of(
                        log.take(done),
                    ));
                }
                let result = self.database.handle_command(command.kv_cmd);
                if command.coordinator_id == self.id {
                    let response = ServerMessage::answer(command.id, result);
                    r.push((command.client_id, response));
                    assert(answers_of(r@) =~= answers_of(sent).push(
                        (command.client_id, response@),
                    ));
                }
                proof {
                    done = done + 1;
                }
            }
        }
        assert(log.take(done) =~= log);
        r
    }

    /// The messages that carry what the consensus protocol wants sent, each to its receiver.
    pub fn send_outgoing_msgs<M>(outgoing: Vec<(NodeId, M)>) -> (r: Vec<
        (NodeId, ClusterMessage<M>),
    >)
        ensures
            r@ == outgoing@.map_values(
                |m: (NodeId, M)| (m.0, ClusterMessage::OmniPaxosMessage(m.1)),
            ),
    {
        let ghost all = outgoing@;
        let mut rest = queue_of(outgoing);
        let mut r: Vec<(NodeId, ClusterMessage<M>)> = Vec::new();
        while rest.len() > 0
            invariant
                r@.len() <= all.len(),
                rest@ == all.skip(r@.len() as int),
                r@ == all.take(r@.len() as int).map_values(
                    |m: (NodeId, M)| (m.0, ClusterMessage::OmniPaxosMessage(m.1)),
                ),
            decreases rest.len(),
        {
            let ghost done = r@.len() as int;
            if let Some((to, msg)) = rest.pop_front() {
                assert((to, msg) == all[done]);
                r.push((to, ClusterMessage::OmniPaxosMessage(msg)));
                assert(all.take(done + 1) =~= all.take(done).push((to, msg)));
                assert(rest@ =~= all.skip(done + 1));
            }
        }
        assert(all.take(r@.len() as int) =~= all);
        r
    }

    /// The commands that clients ask for, in order, as entries for the log.
    pub fn handle_client_messages(&self, messages: Vec<(ClientId, ClientMessage)>) -> (r: Vec<
        Command,
    >)
        ensures
            crate::kv::log_of(r@) == messages@.map_values(
                |m: (ClientId, ClientMessage)| asked_for(self@.id, m.0, m.1),
            ),
            r@.len() == messages@.len(),
            forall|i: int|
                0 <= i < r@.len() ==> {
                    &&& (#[trigger] r@[i]).client_id == messages@[i].0
                    &&& r@[i].coordinator_id == self@.id
                    &&& messages@[i].1 == ClientMessage::Append(r@[i].id, r@[i].kv_cmd)
                },
    {
        let ghost all = messages@;
        let ghost asked = all.map_values(
            |m: (ClientId, ClientMessage)| asked_for(self@.id, m.0, m.1),
        );
        let mut rest = queue_of(messages);
        let mut r: Vec<Command> = Vec::new();
        while rest.len() > 0
            invariant
                r@.len() <= all.len(),
                rest@ == all.skip(r@.len() as int),
                asked == all.map_values(
                    |m: (ClientId, ClientMessage)| asked_for(self@.id, m.0, m.1),
                ),
                crate::kv::log_of(r@) == asked.take(r@.len() as int),
                forall|i: int|
                    0 <= i < r@.len() ==> {
                        &&& (#[trigger] r@[i]).client_id == all[i].0
                        &&& r@[i].coordinator_id == self@.id
                        &&& all[i].1 == ClientMessage::Append(r@[i].id, r@[i].kv_cmd)
                    },
            decreases rest.len(),
        {
            let ghost done = r@.len() as int;
            let ghost before = r@;
            if let Some((from, message)) = rest.pop_front() {
                assert((from, message) == all[done]);
                match message {
                    ClientMessage::Append(command_id, kv_command) => {
                        let command = self.append_to_log(from, command_id, kv_command);
                        r.push(command);
                        assert(crate::kv::log_of(r@) =~= crate::kv::log_of(before).push(command@));
                    },
                }
                assert(asked.take(done + 1) =~= asked.take(done).push(asked[done]));
                assert(rest@ =~= all.skip(done + 1));
            }
        }
        assert(asked.take(r@.len() as int) =~= asked);
        r
    }

    /// Begins to work through a batch of messages of the cluster.
    pub fn handle_cluster_messages<M>(messages: Vec<(NodeId, ClusterMessage<M>)>) -> (r:
        ClusterBatch<M>)
        ensures
            r@ == (BatchState { messages: messages@, received_start_signal: false }),
    {
        ClusterBatch { messages: queue_of(messages), received_start_signal: false }
    }

    /// The entry for the log that a client asks for through this server.
    pub fn append_to_log(&self, from: ClientId, command_id: CommandId, kv_command: KVCommand) -> (r:
        Command)
        ensures
            r@ == (LogCommand {
                client_id: from,
                coordinator_id: self@.id,
                id: command_id,
                op: kv_command@,
            }),
            r.kv_cmd == kv_command,
            r.client_id == from,
            r.coordinator_id == self@.id,
            r.id == command_id,
    {
        Command { client_id: from, coordinator_id: self.id, id: command_id, kv_cmd: kv_command }
    }

    /// The start signal to each peer.
    pub fn send_cluster_start_signals<M>(&self, start_time: Timestamp) -> (r: Vec<
        (NodeId, ClusterMessage<M>),
    >)
        ensures
            r@ == cluster_signals::<M>(self@.peers, start_time),
    {
        let mut r: Vec<(NodeId, ClusterMessage<M>)> = Vec::new();
        let mut i: usize = 0;
        while i < self.peers.len()
            invariant
                i <= self.peers.len(),
                r@ == cluster_signals::<M>(self.peers@.take(i as int), start_time),
            decreases self.peers.len() - i,
        {
            r.push((self.peers[i], ClusterMessage::LeaderStartSignal(start_time)));
            assert(self.peers@.take(i as int + 1) =~= self.peers@.take(i as int).push(
                self.peers@[i as int],
            ));
            i = i + 1;
        }
        assert(self.peers@.take(i as int) =~= self.peers@);
        r
    }

    /// The start signal to each client.
    pub fn send_client_start_signals(&self, start_time: Timestamp) -> (r: Vec<
        (ClientId, ServerMessage),
    >)
        ensures
            r@ == client_signals(self@.num_clients as nat, start_time),
    {
        let mut r: Vec<(ClientId, ServerMessage)> = Vec::new();
        let mut i: usize = 0;
        while i < self.num_clients
            invariant
                i <= self.num_clients,
                r@ == client_signals(i as nat, start_time),
            decreases self.num_clients - i,
        {
            r.push((i as ClientId + 1, ServerMessage::StartSignal(start_time)));
            i = i + 1;
        }
        r
    }
}

/// How many commands of a log came in through a server.
pub open spec fn own_commands(id: NodeId, log: Seq<LogCommand>) -> nat
    decreases log.len(),
{
    if log.len() == 0 {
        0
    } else if log.last().coordinator_id == id {
        own_commands(id, log.drop_last()) + 1
    } else {
        own_commands(id, log.drop_last())
    }
}

/// Several parts of a log as one.
pub open spec fn joined(parts: Seq<Seq<LogCommand>>) -> Seq<LogCommand>
    decreases parts.len(),
{
    if parts.len() == 0 {
        seq![]
    } else {
        joined(parts.drop_last()) + parts.last()
    }
}

/// The state after several parts of the log were applied, one after another.
pub open spec fn applied_in_parts(state: ServerState, parts: Seq<Seq<LogCommand>>) -> ServerState
    decreases parts.len(),
{
    if parts.len() == 0 {
        state
    } else {
        applied_in_parts(state, parts.drop_last()).applied(parts.last())
    }
}

/// Applying a log in two parts leaves the store, and sends the answers in the order, that
/// applying it at once does.
pub proof fn law_log_in_parts(
    store: Store,
    id: NodeId,
    first: Seq<LogCommand>,
    second: Seq<LogCommand>,
)
    ensures
        store_after(store, first + second) == store_after(store_after(store, first), second),
        responses(store, id, first + second) == responses(store, id, first) + responses(
            store_after(store, first),
            id,
            second,
        ),
    decreases second.len(),
{
    assert(crate::kv::ops_of(first + second) =~= crate::kv::ops_of(first) + crate::kv::ops_of(
        second,
    ));
    crate::database::law_replay_in_parts(
        store,
        crate::kv::ops_of(first),
        crate::kv::ops_of(second),
    );
    if second.len() == 0 {
        assert(first + second =~= first);
        assert(responses(store, id, first) + responses(store_after(store, first), id, second)
            =~= responses(store, id, first));
    } else {
        let before = second.drop_last();
        law_log_in_parts(store, id, first, before);
        let all = first + second;
        assert(all.drop_last() =~= first + before);
        assert(all.take(all.len() - 1) =~= first + before);
        assert(second.take(second.len() - 1) =~= before);
        assert(all.last() == second.last());
    }
}

/// However the log is cut into parts, a server ends up with the store that it would have
/// after applying it at once.
pub proof fn law_log_in_many_parts(state: ServerState, parts: Seq<Seq<LogCommand>>)
    ensures
        applied_in_parts(state, parts) == state.applied(joined(parts)),
    decreases parts.len(),
{
    if parts.len() > 0 {
        law_log_in_many_parts(state, parts.drop_last());
        law_log_in_parts(state.store, state.id, joined(parts.drop_last()), parts.last());
    }
}

/// Whether a server has applied exactly those commands of a log that it counts as applied.
pub open spec fn in_step(state: ServerState, log: Seq<LogCommand>) -> bool {
    &&& state.current_decided_idx <= log.len()
    &&& state.store == store_after(Map::empty(), log.take(state.current_decided_idx as int))
}

/// The commands of a log that a server has not applied yet, up to an index.
pub open spec fn unapplied(state: ServerState, log: Seq<LogCommand>, upto: usize) -> Seq<
    LogCommand,
> {
    log.subrange(state.current_decided_idx as int, upto as int)
}

/// The state of a server once it has applied what it had not applied of a log, up to an index.
pub open spec fn caught_up(state: ServerState, log: Seq<LogCommand>, upto: usize) -> ServerState {
    ServerState { current_decided_idx: upto, ..state.applied(unapplied(state, log, upto)) }
}

/// A server that starts with an empty store is in step with the log, and stays so whenever it
/// applies what has been decided since. It then sends the answers that follow those it has
/// sent, were the log applied at once.
pub proof fn law_server_stays_in_step(
    state: ServerState,
    fresh: ServerState,
    log: Seq<LogCommand>,
    upto: usize,
)
    requires
        fresh.store == Map::<Seq<char>, Seq<char>>::empty(),
        fresh.current_decided_idx == 0,
        in_step(state, log),
        state.current_decided_idx <= upto <= log.len(),
    ensures
        in_step(fresh, log),
        in_step(caught_up(state, log, upto), log),
        responses(Map::empty(), state.id, log.take(upto as int)) == responses(
            Map::empty(),
            state.id,
            log.take(state.current_decided_idx as int),
        ) + responses(state.store, state.id, unapplied(state, log, upto)),
{
    let before = log.take(state.current_decided_idx as int);
    let since = unapplied(state, log, upto);
    assert(before + since =~= log.take(upto as int));
    law_log_in_parts(Map::empty(), state.id, before, since);
    assert(crate::kv::ops_of(log.take(0)) =~= Seq::<Op>::empty());
}

/// Servers that are in step with the same log, and have applied as much of it, hold the same
/// store: replicas agree, and one that starts over and catches up has again what it had.
pub proof fn law_servers_in_step_agree(a: ServerState, b: ServerState, log: Seq<LogCommand>)
    requires
        in_step(a, log),
        in_step(b, log),
        a.current_decided_idx == b.current_decided_idx,
    ensures
        a.store == b.store,
{
}

/// A server answers each command that came in through it, once, in the order of the log, to
/// the client that asked, under the client's name for it, with the command's outcome at its
/// place in the log.
pub proof fn law_own_commands_are_answered(
    store: Store,
    id: NodeId,
    log: Seq<LogCommand>,
    i: int,
)
    requires
        0 <= i < log.len(),
        log[i].coordinator_id == id,
    ensures
        responses(store, id, log).len() == own_commands(id, log),
        own_commands(id, log.take(i)) < own_commands(id, log),
        responses(store, id, log)[own_commands(id, log.take(i)) as int] == (
            log[i].client_id,
            answer_at(store, log, i),
        ),
        answer_at(store, log, i).command_id() == Some(log[i].id),
    decreases log.len(),
{
    lemma_responses_len(store, id, log);
    let before = log.drop_last();
    lemma_responses_len(store, id, before);
    if i == log.len() - 1 {
        assert(log.take(i) =~= before);
    } else {
        assert(before[i] == log[i]);
        assert(before.take(i) =~= log.take(i));
        law_own_commands_are_answered(store, id, before, i);
    }
}

proof fn lemma_responses_len(store: Store, id: NodeId, log: Seq<LogCommand>)
    ensures
        responses(store, id, log).len() == own_commands(id, log),
    decreases log.len(),
{
    if log.len() > 0 {
        lemma_responses_len(store, id, log.drop_last());
    }
}

/// A server answers no command that came in through another.
pub proof fn law_other_commands_are_not_answered(store: Store, id: NodeId, log: Seq<LogCommand>)
    requires
        forall|i: int| 0 <= i < log.len() ==> (#[trigger] log[i]).coordinator_id != id,
    ensures
        responses(store, id, log).len() == 0,
    decreases log.len(),
{
    if log.len() > 0 {
        law_other_commands_are_not_answered(store, id, log.drop_last());
    }
}

/// Whatever happens, a server ends with sending what the consensus protocol wants sent.
pub proof fn law_outgoing_messages_are_sent(event: RunEvent)
    ensures
        run_steps(event).last() == RunStep::SendOutgoing,
{
}

/// A read is answered with what the last write of its key before it in the log left there.
pub proof fn law_reads_are_linearizable(
    store: Store,
    log: Seq<LogCommand>,
    write: int,
    read: int,
    key: Seq<char>,
)
    requires
        0 <= write < read < log.len(),
        log[write].op.key() == key,
        log[read].op == Op::Get(key),
        forall|j: int|
            write < j < read ==> (#[trigger] log[j]).op.key() != key || log[j].op is Get,
    ensures
        answer_at(store, log, read) == Answer::Read(
            log[read].id,
            crate::database::lookup(store_after(store, log.take(write + 1)), key),
        ),
        log[write].op matches Op::Put(_, value) ==> answer_at(store, log, read) == Answer::Read(
            log[read].id,
            Some(value),
        ),
{
    let ops = crate::kv::ops_of(log.take(read));
    assert forall|j: int| write < j < ops.len() implies (#[trigger] ops[j]).key()
        != ops[write].key() || ops[j] is Get by {
        assert(ops[j] == log[j].op);
    }
    crate::database::law_last_write_wins(store, ops, write);
    assert(ops.take(write) =~= crate::kv::ops_of(log.take(write)));
    let upto = crate::kv::ops_of(log.take(write + 1));
    assert(upto.drop_last() =~= crate::kv::ops_of(log.take(write)));
    assert(upto.last() == log[write].op);
}

/// A read of a key that nothing before it in the log has written is answered with what the store
/// held there.
pub proof fn law_read_of_an_untouched_key(
    store: Store,
    log: Seq<LogCommand>,
    read: int,
    key: Seq<char>,
)
    requires
        0 <= read < log.len(),
        log[read].op == Op::Get(key),
        forall|j: int| 0 <= j < read ==> (#[trigger] log[j]).op.key() != key || log[j].op is Get,
    ensures
        answer_at(store, log, read) == Answer::Read(
            log[read].id,
            crate::database::lookup(store, key),
        ),
{
    let ops = crate::kv::ops_of(log.take(read));
    assert forall|j: int| 0 <= j < ops.len() implies (#[trigger] ops[j]).key() != key
        || ops[j] is Get by {
        assert(ops[j] == log[j].op);
    }
    crate::database::law_untouched_key(store, ops, key);
}

/// A compare-and-set is answered with success exactly where a read in its place in the log would
/// have been answered with the expected value. It then sets the key to the new value, and changes
/// nothing otherwise.
pub proof fn law_compare_and_set_in_the_log(
    store: Store,
    log: Seq<LogCommand>,
    i: int,
    key: Seq<char>,
    from: Seq<char>,
    to: Seq<char>,
)
    requires
        0 <= i < log.len(),
        log[i].op == Op::Cas(key, from, to),
    ensures
        ({
            let before = store_after(store, log.take(i));
            let after = store_after(store, log.take(i + 1));
            let expected = crate::database::lookup(before, key) == Some(from);
            &&& answer_at(store, log, i) == if expected {
                Answer::CasOk(log[i].id)
            } else {
                Answer::CasFail(log[i].id)
            }
            &&& after == if expected {
                before.insert(key, to)
            } else {
                before
            }
        }),
{
    let ops = crate::kv::ops_of(log.take(i + 1));
    assert(ops.drop_last() =~= crate::kv::ops_of(log.take(i)));
    assert(ops.last() == log[i].op);
}

/// A server works through a batch in order: each message of the consensus protocol is handed
/// over, each start signal is passed on to the clients, and the batch counts as one with a
/// start signal exactly where it holds one.
pub proof fn law_batch_is_worked_through<M>(state: BatchState<M>)
    ensures
        state.actions().0 == state.messages.map_values(
            |m: (NodeId, ClusterMessage<M>)| action_for(m.1),
        ),
        state.actions().1 == (state.received_start_signal || exists|i: int|
            0 <= i < state.messages.len() && (#[trigger] state.messages[i]).1 is LeaderStartSignal),
    decreases state.messages.len(),
{
    let all = state.messages.map_values(|m: (NodeId, ClusterMessage<M>)| action_for(m.1));
    if state.messages.len() == 0 {
        assert(state.actions().0 =~= all);
    } else {
        let (after, action) = state.next();
        law_batch_is_worked_through(after);
        assert(state.actions().0 =~= all);
        if state.actions().1 && !state.received_start_signal && !(
        state.messages[0].1 is LeaderStartSignal) {
            let i = choose|i: int|
                0 <= i < after.messages.len() && (
                #[trigger] after.messages[i]).1 is LeaderStartSignal;
            assert(state.messages[i + 1] == after.messages[i]);
        }
        assert forall|i: int|
            0 <= i < state.messages.len() && (
            #[trigger] state.messages[i]).1 is LeaderStartSignal implies state.actions().1 by {
            if i > 0 {
                assert(after.messages[i - 1] == state.messages[i]);
            }
        }
    }
}

/// A put or a delete is answered as a write, under the client's name for it, whatever the commands
/// before it have left in the store.
pub proof fn law_writes_are_answered_as_writes(store: Store, log: Seq<LogCommand>, i: int)
    requires
        0 <= i < log.len(),
        log[i].op is Put || log[i].op is Delete,
    ensures
        answer_at(store, log, i) == Answer::Write(log[i].id),
{
}

/// A read is answered with what the commands before it have left at its key.
pub proof fn law_reads_are_answered_from_the_store(
    store: Store,
    log: Seq<LogCommand>,
    i: int,
    key: Seq<char>,
    value: Seq<char>,
)
    requires
        0 <= i < log.len(),
        log[i].op == Op::Get(key),
    ensures
        ({
            let before = store_after(store, log.take(i));
            &&& answer_at(store, log, i) == Answer::Read(log[i].id, Some(value))
                <==> before.contains_key(key) && before[key] == value
            &&& answer_at(store, log, i) == Answer::Read(log[i].id, None) <==> !before.contains_key(
                key,
            )
        }),
{
}

/// A log of one command leaves the store that its operation leaves, and sends one answer, to the
/// client that asked, where the command came in through this server, and none where it did not:
/// a write for a put or a delete, what is held for a read, and for a compare-and-set whether the
/// expected value is held. An empty log does nothing.
pub proof fn law_log_of_one_command(
    store: Store,
    id: NodeId,
    command: LogCommand,
    key: Seq<char>,
    from: Seq<char>,
    to: Seq<char>,
)
    ensures
        responses(store, id, seq![]).len() == 0,
        store_after(store, seq![]) == store,
        store_after(store, seq![command]) == crate::database::next_store(store, command.op),
        command.coordinator_id != id ==> responses(store, id, seq![command]).len() == 0,
        command.coordinator_id == id ==> {
            let sent = responses(store, id, seq![command]);
            let held = store.contains_key(key);
            &&& sent.len() == 1
            &&& sent[0].0 == command.client_id
            &&& sent[0].1.command_id() == Some(command.id)
            &&& command.op is Put || command.op is Delete ==> sent[0].1 == Answer::Write(command.id)
            &&& command.op == Op::Get(key) && held ==> sent[0].1 == Answer::Read(
                command.id,
                Some(store[key]),
            )
            &&& command.op == Op::Get(key) && !held ==> sent[0].1 == Answer::Read(command.id, None)
            &&& command.op == Op::Cas(key, from, to) && held && store[key] == from ==> sent[0].1
                == Answer::CasOk(command.id)
            &&& command.op == Op::Cas(key, from, to) && !(held && store[key] == from) ==> sent[0].1
                == Answer::CasFail(command.id)
        },
{
    let log = seq![command];
    assert(log.drop_last() =~= Seq::<LogCommand>::empty());
    assert(log.take(0) =~= Seq::<LogCommand>::empty());
    assert(crate::kv::ops_of(Seq::<LogCommand>::empty()) =~= Seq::<Op>::empty());
    assert(crate::kv::ops_of(log) =~= seq![command.op]);
    crate::database::law_replay_of_one(store, command.op);
    assert(responses(store, id, log.drop_last()) =~= seq![]);
}

/// What a client asks for is logged as it was asked: the operation with its key and its values in
/// their roles, under the client's name for it, as that client's, to be answered by this server.
pub proof fn law_commands_are_logged_as_asked(
    id: NodeId,
    from: ClientId,
    command_id: CommandId,
    command: KVCommand,
    key: String,
    value: String,
    expected: String,
)
    ensures
        ({
            let logged = asked_for(id, from, ClientMessage::Append(command_id, command));
            &&& logged.client_id == from
            &&& logged.coordinator_id == id
            &&& logged.id == command_id
            &&& logged.op == command@
            &&& command == KVCommand::Put(key, value) ==> logged.op == Op::Put(key@, value@)
            &&& command == KVCommand::Delete(key) ==> logged.op == Op::Delete(key@)
            &&& command == KVCommand::Get(key) ==> logged.op == Op::Get(key@)
            &&& command == KVCommand::Cas(key, expected, value) ==> logged.op == Op::Cas(
                key@,
                expected@,
                value@,
            )
        }),
{
}

/// What a client asks for through a server is answered by that server, once it is decided, to that
/// client, under the client's name for it; no other server answers it.
pub proof fn law_asked_commands_are_answered_here(
    store: Store,
    id: NodeId,
    other: NodeId,
    from: ClientId,
    command_id: CommandId,
    command: KVCommand,
)
    requires
        other != id,
    ensures
        ({
            let log = seq![asked_for(id, from, ClientMessage::Append(command_id, command))];
            &&& responses(store, id, log).len() == 1
            &&& responses(store, id, log)[0].0 == from
            &&& responses(store, id, log)[0].1.command_id() == Some(command_id)
            &&& responses(store, other, log).len() == 0
        }),
{
    let logged = asked_for(id, from, ClientMessage::Append(command_id, command));
    law_log_of_one_command(store, id, logged, seq![], seq![], seq![]);
    law_log_of_one_command(store, other, logged, seq![], seq![], seq![]);
}

/// The commands of decided entries are those commands, each once and in order; the messages to
/// clients are those messages, each to its client.
pub proof fn law_entries_and_messages_keep_their_order(
    entries: Seq<LogEntry>,
    messages: Seq<(ClientId, ServerMessage)>,
    i: int,
    command: Command,
)
    ensures
        commands_of(entries).len() == entries.len(),
        0 <= i < entries.len() && entries[i] == LogEntry::Decided(command) ==> commands_of(
            entries,
        )[i] == command@,
        answers_of(messages).len() == messages.len(),
        0 <= i < messages.len() ==> answers_of(messages)[i].0 == messages[i].0 && answers_of(
            messages,
        )[i].1 == messages[i].1@,
{
}

/// Every client of a server, named from 1 on, and every peer is told to start once, at the time
/// that is given, and nobody else is.
pub proof fn law_everybody_is_told_to_start<M>(
    num_clients: usize,
    peers: Seq<NodeId>,
    start_time: Timestamp,
    i: int,
)
    ensures
        client_signals(num_clients as nat, start_time).len() == num_clients,
        0 <= i < num_clients ==> {
            &&& client_signals(num_clients as nat, start_time)[i].0 == i + 1
            &&& client_signals(num_clients as nat, start_time)[i].1 == ServerMessage::StartSignal(
                start_time,
            )
        },
        cluster_signals::<M>(peers, start_time).len() == peers.len(),
        0 <= i < peers.len() ==> {
            &&& cluster_signals::<M>(peers, start_time)[i].0 == peers[i]
            &&& cluster_signals::<M>(peers, start_time)[i].1
                == ClusterMessage::<M>::LeaderStartSignal(start_time)
        },
{
}

/// Only the server that is to lead first announces the start, and only once it leads and takes
/// commands; until then it tries to become the leader whenever it looks. Other servers wait until
/// a start signal comes in, and then go on. Messages of clients do not end the wait.
pub proof fn law_start_up(
    id: NodeId,
    initial_leader: NodeId,
    leader: Option<(NodeId, bool)>,
    received: bool,
    event: StartEvent,
)
    ensures
        ({
            let at_tick = start_action(id, initial_leader, StartEvent::TakeoverTick(leader));
            let leads = leader matches Some((who, ready)) && who == id && ready;
            &&& at_tick == StartAction::Announce <==> initial_leader == id && leads
            &&& at_tick == StartAction::TryBecomeLeader <==> initial_leader == id && !leads
            &&& at_tick == StartAction::Wait <==> initial_leader != id
        }),
        start_action(id, initial_leader, StartEvent::ClusterMessagesHandled(received)) == if received {
            StartAction::Finish
        } else {
            StartAction::Wait
        },
        start_action(id, initial_leader, StartEvent::ClientMessagesHandled) == StartAction::Wait,
        start_action(id, initial_leader, event) == StartAction::Finish ==> event
            == StartEvent::ClusterMessagesHandled(true),
        start_action(id, initial_leader, event) == StartAction::Announce ==> event is TakeoverTick,
{
}

/// Time passes for the consensus protocol, and lost links are opened again, exactly when it is
/// time to see to leader election; messages of the cluster are worked through, and commands of
/// clients appended, exactly when there are some; each of these comes before what is to be sent
/// is sent, and is done once.
pub proof fn law_every_event_is_seen_to(event: RunEvent)
    ensures
        event == RunEvent::ElectionTimeout ==> {
            &&& run_steps(event).len() == 3
            &&& run_steps(event)[0] == RunStep::Tick
            &&& run_steps(event)[1] == RunStep::ReconnectPeers
        },
        event == RunEvent::ClusterMessages ==> {
            &&& run_steps(event).len() == 2
            &&& run_steps(event)[0] == RunStep::HandleClusterMessages
        },
        event == RunEvent::ClientMessages ==> {
            &&& run_steps(event).len() == 2
            &&& run_steps(event)[0] == RunStep::HandleClientMessages
        },
        run_steps(event).last() == RunStep::SendOutgoing,
{
}

/// The next message of a batch is handed to the consensus protocol where it is one of its
/// messages, and passed on to the clients with its time where it is a start signal; the rest of
/// the batch is left. A batch with nothing left says whether a start signal came up.
pub proof fn law_batch_takes_its_first_message<M>(
    state: BatchState<M>,
    message: M,
    start_time: Timestamp,
)
    ensures
        state.messages.len() > 0 ==> state.next().0.messages == state.messages.skip(1),
        state.messages.len() > 0 && state.messages[0].1 == ClusterMessage::OmniPaxosMessage(message)
            ==> {
            &&& state.next().1 == ClusterAction::HandleIncoming(message)
            &&& state.next().0.received_start_signal == state.received_start_signal
        },
        state.messages.len() > 0 && state.messages[0].1
            == ClusterMessage::<M>::LeaderStartSignal(start_time) ==> {
            &&& state.next().1 == ClusterAction::<M>::SignalClients(start_time)
            &&& state.next().0.received_start_signal
        },
        state.messages.len() == 0 ==> state.next() == (
            state,
            ClusterAction::<M>::Finished(state.received_start_signal),
        ),
{
    if state.messages.len() > 0 {
        assert(state.messages.skip(1) =~= state.messages.drop_first());
    }
}

/// Applying a part of the log changes nothing of a server but its store.
pub proof fn law_applying_changes_only_the_store(state: ServerState, log: Seq<LogCommand>)
    ensures
        state.applied(log).store == store_after(state.store, log),
        state.applied(log).id == state.id,
        state.applied(log).current_decided_idx == state.current_decided_idx,
        state.applied(log).peers == state.peers,
        state.applied(log).initial_leader == state.initial_leader,
        state.applied(log).num_clients == state.num_clients,
{
}

} // verus!
