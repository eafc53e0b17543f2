//! What clients, servers and peers say to each other.

use vstd::prelude::*;
use vstd::string::*;

use crate::database::{CommandResult, Outcome};
use crate::kv::{CommandId, KVCommand, NodeId, Timestamp};
use crate::text;

verus! {

/// What the opener of a connection says first.
#[derive(Debug, Clone, Copy)]
pub enum RegistrationMessage {
    /// The opener is this server of the cluster.
    NodeRegister(NodeId),
    /// The opener is a client.
    ClientRegister,
}

/// What a client asks of a server.
#[derive(Debug)]
pub enum ClientMessage {
    /// Carry out an operation, under the client's name for it.
    Append(CommandId, KVCommand),
}

/// What one server of the cluster tells another. `M` is a message of the consensus protocol.
#[derive(Debug)]
pub enum ClusterMessage<M> {
    /// A message of the consensus protocol.
    OmniPaxosMessage(M),
    /// The initial leader is established; clients start at this time.
    LeaderStartSignal(Timestamp),
}

/// What a server tells a client.
#[derive(Debug)]
pub enum ServerMessage {
    /// A write took place.
    Write(CommandId),
    /// A read found this.
    Read(CommandId, Option<String>),
    /// A compare-and-set took place.
    CasOk(CommandId),
    /// A compare-and-set did not take place.
    CasFail(CommandId),
    /// Clients start at this time.
    StartSignal(Timestamp),
}

/// The mathematical model of a [`ServerMessage`].
pub enum Answer {
    Write(CommandId),
    Read(CommandId, Option<Seq<char>>),
    CasOk(CommandId),
    CasFail(CommandId),
    StartSignal(Timestamp),
}

impl View for ServerMessage {
    type V = Answer;

    open spec fn view(&self) -> Answer {
        match self {
            ServerMessage::Write(id) => Answer::Write(*id),
            ServerMessage::Read(id, value) => Answer::Read(*id, crate::database::text_of(*value)),
            ServerMessage::CasOk(id) => Answer::CasOk(*id),
            ServerMessage::CasFail(id) => Answer::CasFail(*id),
            ServerMessage::StartSignal(time) => Answer::StartSignal(*time),
        }
    }
}

/// The answer that a client gets for a command with this outcome.
pub open spec fn answer_to(id: CommandId, outcome: Outcome) -> Answer {
    match outcome {
        Outcome::Write => Answer::Write(id),
        Outcome::Read(value) => Answer::Read(id, value),
        Outcome::Cas(true) => Answer::CasOk(id),
        Outcome::Cas(false) => Answer::CasFail(id),
    }
}

impl Answer {
    /// The command that the message answers, if it answers one.
    pub open spec fn command_id(self) -> Option<CommandId> {
        match self {
            Answer::Write(id) => Some(id),
            Answer::Read(id, _) => Some(id),
            Answer::CasOk(id) => Some(id),
            Answer::CasFail(id) => Some(id),
            Answer::StartSignal(_) => None,
        }
    }

    /// The message as a diagnostic shows it.
    pub open spec fn shown(self) -> Seq<char> {
        match self {
            Answer::Write(id) => "Write("@ + text::decimal(id as nat) + ")"@,
            Answer::Read(id, None) => read_shown(id, None),
            Answer::Read(id, Some(value)) => read_shown(id, Some(text::quoted(value))),
            Answer::CasOk(id) => "CasOk("@ + text::decimal(id as nat) + ")"@,
            Answer::CasFail(id) => "CasFail("@ + text::decimal(id as nat) + ")"@,
            Answer::StartSignal(time) => "StartSignal("@ + text::signed_decimal(time as int)
                + ")"@,
        }
    }
}

/// What a read found, as a diagnostic shows it; the value is given as it is shown.
pub open spec fn read_shown(id: CommandId, quoted: Option<Seq<char>>) -> Seq<char> {
    match quoted {
        None => "Read("@ + text::decimal(id as nat) + ", None)"@,
        Some(quoted) => "Read("@ + text::decimal(id as nat) + ", Some("@ + quoted + "))"@,
    }
}

/// What a read found, as a diagnostic shows it; the value is given as it is shown.
pub fn show_read(id: CommandId, quoted: Option<String>) -> (r: String)
    ensures
        r@ == read_shown(id, crate::database::text_of(quoted)),
{
    match quoted {
        None => text::wrap("Read(", text::decimal_usize(id).as_str(), ", None)"),
        Some(quoted) => {
            let head = text::wrap("Read(", text::decimal_usize(id).as_str(), ", Some(");
            text::wrap(head.as_str(), quoted.as_str(), "))")
        },
    }
}

impl ServerMessage {
    /// The answer to a command with this result.
    pub fn answer(id: CommandId, result: CommandResult) -> (r: Self)
        ensures
            r@ == answer_to(id, result@),
    {
        match result {
            CommandResult::Write => ServerMessage::Write(id),
            CommandResult::Read(value) => ServerMessage::Read(id, value),
            CommandResult::Cas(true) => ServerMessage::CasOk(id),
            CommandResult::Cas(false) => ServerMessage::CasFail(id),
        }
    }

    /// The command that the message answers. A start signal answers none.
    pub fn command_id(&self) -> (r: CommandId)
        requires
            !(self is StartSignal),
        ensures
            self@.command_id() == Some(r),
    {
        match self {
            ServerMessage::Write(id) => *id,
            ServerMessage::Read(id, _) => *id,
            ServerMessage::CasOk(id) => *id,
            ServerMessage::CasFail(id) => *id,
            ServerMessage::StartSignal(_) => 0,
        }
    }

    /// The message as a diagnostic shows it.
    pub fn debug_text(&self) -> (r: String)
        ensures
            r@ == self@.shown(),
    {
        match self {
            ServerMessage::Write(id) => text::wrap("Write(", text::decimal_usize(*id).as_str(), ")"),
            ServerMessage::Read(id, None) => show_read(*id, None),
            ServerMessage::Read(id, Some(value)) => {
                show_read(*id, Some(text::quote(value.as_str())))
            },
            ServerMessage::CasOk(id) => text::wrap("CasOk(", text::decimal_usize(*id).as_str(), ")"),
            ServerMessage::CasFail(id) => {
                text::wrap("CasFail(", text::decimal_usize(*id).as_str(), ")")
            },
            ServerMessage::StartSignal(time) => {
                text::wrap("StartSignal(", text::decimal_i64(*time).as_str(), ")")
            },
        }
    }
}

/// A message to a client stands for what it says, with the command that it answers.
pub proof fn law_messages_stand_for_their_answers(id: CommandId, value: String, time: Timestamp)
    ensures
        ServerMessage::Write(id)@ == Answer::Write(id),
        ServerMessage::Read(id, Some(value))@ == Answer::Read(id, Some(value@)),
        ServerMessage::Read(id, None)@ == Answer::Read(id, None),
        ServerMessage::CasOk(id)@ == Answer::CasOk(id),
        ServerMessage::CasFail(id)@ == Answer::CasFail(id),
        ServerMessage::StartSignal(time)@ == Answer::StartSignal(time),
{
}

/// The answer to a command is a write where it wrote, a read of what it found where it read, and
/// success or failure as its compare-and-set took place or not; it answers that command.
pub proof fn law_answers_fit_outcomes(id: CommandId, found: Option<Seq<char>>, outcome: Outcome)
    ensures
        answer_to(id, Outcome::Write) == Answer::Write(id),
        answer_to(id, Outcome::Read(found)) == Answer::Read(id, found),
        answer_to(id, Outcome::Cas(true)) == Answer::CasOk(id),
        answer_to(id, Outcome::Cas(false)) == Answer::CasFail(id),
        answer_to(id, outcome).command_id() == Some(id),
{
}

/// Every message but a start signal answers the command that it names.
pub proof fn law_messages_answer_the_command_they_name(
    id: CommandId,
    found: Option<Seq<char>>,
    time: Timestamp,
)
    ensures
        Answer::Write(id).command_id() == Some(id),
        Answer::Read(id, found).command_id() == Some(id),
        Answer::CasOk(id).command_id() == Some(id),
        Answer::CasFail(id).command_id() == Some(id),
        Answer::StartSignal(time).command_id() is None,
{
}

/// A diagnostic shows the sort of a message and, between brackets, the command that it answers, in
/// decimal, or the start time; of a read it also shows what was found, as it is shown.
pub proof fn law_diagnostics_name_sort_and_command(
    id: CommandId,
    found: Seq<char>,
    quoted: Seq<char>,
    time: Timestamp,
)
    ensures
        Answer::Write(id).shown() == "Write("@ + text::decimal(id as nat) + ")"@,
        Answer::CasOk(id).shown() == "CasOk("@ + text::decimal(id as nat) + ")"@,
        Answer::CasFail(id).shown() == "CasFail("@ + text::decimal(id as nat) + ")"@,
        Answer::StartSignal(time).shown() == "StartSignal("@ + text::signed_decimal(time as int)
            + ")"@,
        Answer::Read(id, None).shown() == "Read("@ + text::decimal(id as nat) + ", None)"@,
        Answer::Read(id, Some(found)).shown() == "Read("@ + text::decimal(id as nat) + ", Some("@
            + text::quoted(found) + "))"@,
        read_shown(id, None) == "Read("@ + text::decimal(id as nat) + ", None)"@,
        read_shown(id, Some(quoted)) == "Read("@ + text::decimal(id as nat) + ", Some("@ + quoted
            + "))"@,
{
}

} // verus!
