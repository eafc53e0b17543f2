//! Commands of the key-value store and what a replica's log carries.

use vstd::prelude::*;

verus! {

/// Identifies a command among those of one client.
pub type CommandId = usize;

/// Identifies a client of one server.
pub type ClientId = u64;

/// Identifies a server of the cluster.
pub type NodeId = u64;

/// Milliseconds since the Unix epoch.
pub type Timestamp = i64;

/// An operation on the store.
#[derive(Debug)]
pub enum KVCommand {
    /// Sets a key to a value.
    Put(String, String),
    /// Removes a key.
    Delete(String),
    /// Reads a key.
    Get(String),
    /// Sets a key from one value to another, if it holds the first.
    Cas(String, String, String),
}

/// The mathematical model of a [`KVCommand`].
pub enum Op {
    Put(Seq<char>, Seq<char>),
    Delete(Seq<char>),
    Get(Seq<char>),
    Cas(Seq<char>, Seq<char>, Seq<char>),
}

impl View for KVCommand {
    type V = Op;

    open spec fn view(&self) -> Op {
        match self {
            KVCommand::Put(key, value) => Op::Put(key@, value@),
            KVCommand::Delete(key) => Op::Delete(key@),
            KVCommand::Get(key) => Op::Get(key@),
            KVCommand::Cas(key, from, to) => Op::Cas(key@, from@, to@),
        }
    }
}

impl Op {
    /// The key that the operation names.
    pub open spec fn key(self) -> Seq<char> {
        match self {
            Op::Put(key, _) => key,
            Op::Delete(key) => key,
            Op::Get(key) => key,
            Op::Cas(key, _, _) => key,
        }
    }
}

/// An entry of the replicated log: an operation with its origin.
#[derive(Debug)]
pub struct Command {
    /// The client that asked for the operation.
    pub client_id: ClientId,
    /// The server that the client is connected to, which answers it.
    pub coordinator_id: NodeId,
    /// The client's name for the command.
    pub id: CommandId,
    /// The operation.
    pub kv_cmd: KVCommand,
}

/// The mathematical model of a [`Command`].
pub struct LogCommand {
    pub client_id: ClientId,
    pub coordinator_id: NodeId,
    pub id: CommandId,
    pub op: Op,
}

impl View for Command {
    type V = LogCommand;

    open spec fn view(&self) -> LogCommand {
        LogCommand {
            client_id: self.client_id,
            coordinator_id: self.coordinator_id,
            id: self.id,
            op: self.kv_cmd@,
        }
    }
}

/// The models of a sequence of commands.
pub open spec fn log_of(commands: Seq<Command>) -> Seq<LogCommand> {
    commands.map_values(|c: Command| c@)
}

/// The operations of a sequence of log commands.
pub open spec fn ops_of(log: Seq<LogCommand>) -> Seq<Op> {
    log.map_values(|c: LogCommand| c.op)
}

/// A command stands for the operation that it spells out, with its key, its values and their
/// roles, and for no other.
pub proof fn law_commands_stand_for_their_operations(
    command: KVCommand,
    key: String,
    value: String,
    from: String,
    to: String,
)
    ensures
        KVCommand::Put(key, value)@ == Op::Put(key@, value@),
        KVCommand::Delete(key)@ == Op::Delete(key@),
        KVCommand::Get(key)@ == Op::Get(key@),
        KVCommand::Cas(key, from, to)@ == Op::Cas(key@, from@, to@),
        command is Put <==> command@ is Put,
        command is Delete <==> command@ is Delete,
        command is Get <==> command@ is Get,
        command is Cas <==> command@ is Cas,
{
}

/// Every operation names the key that comes first in it.
pub proof fn law_operations_name_their_keys(
    key: Seq<char>,
    a: Seq<char>,
    b: Seq<char>,
)
    ensures
        Op::Put(key, a).key() == key,
        Op::Delete(key).key() == key,
        Op::Get(key).key() == key,
        Op::Cas(key, a, b).key() == key,
{
}

/// A log holds each command once, in order, with its origin, its name and its operation.
pub proof fn law_logs_hold_every_command(commands: Seq<Command>, i: int)
    requires
        0 <= i < commands.len(),
    ensures
        log_of(commands).len() == commands.len(),
        log_of(commands)[i].client_id == commands[i].client_id,
        log_of(commands)[i].coordinator_id == commands[i].coordinator_id,
        log_of(commands)[i].id == commands[i].id,
        log_of(commands)[i].op == commands[i].kv_cmd@,
        ops_of(log_of(commands)).len() == commands.len(),
        ops_of(log_of(commands))[i] == commands[i].kv_cmd@,
{
}

} // verus!
