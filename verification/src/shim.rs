//! The gateway that turns HTTP requests into commands and the answers into HTTP replies.
//! `T` is the type of the means by which a waiting request is handed its answer.

use std::collections::HashMap;
use tokio::sync::oneshot;
use vstd::prelude::*;
use vstd::string::*;

use crate::database::{Outcome, Store};
use crate::deliveries::Deliveries;
use crate::kv::{CommandId, KVCommand, NodeId, Op};
use crate::messages::{Answer, ClientMessage, RegistrationMessage, ServerMessage};
use crate::network::{ConnectAction, ConnectEvent};
use crate::text;

verus! {

broadcast use vstd::std_specs::hash::group_hash_axioms;

/// HTTP: the request succeeded.
pub const STATUS_OK: u16 = 200;

/// HTTP: the server behind the gateway answered what was not expected.
pub const STATUS_BAD_GATEWAY: u16 = 502;

/// HTTP: the server behind the gateway is not there.
pub const STATUS_SERVICE_UNAVAILABLE: u16 = 503;

/// HTTP: the server behind the gateway did not answer in time.
pub const STATUS_GATEWAY_TIMEOUT: u16 = 504;

/// How long the gateway waits before it tries again to reach the server, in milliseconds.
pub const RETRY_DELAY_MILLIS: u64 = 500;

/// Why a command has no answer. Either way it may have taken place or not.
#[derive(Debug, Clone, Copy, PartialEq, Eq, Structural)]
pub enum ShimError {
    /// It did not come in time.
    Timeout,
    /// The connection to the server was lost.
    Disconnected,
}

/// The reply to a write.
#[derive(Debug, PartialEq, Eq)]
pub struct PutResponse {
    pub ok: bool,
}

/// The reply to a read.
#[derive(Debug, PartialEq, Eq)]
pub struct GetResponse {
    pub ok: bool,
    pub value: Option<String>,
}

/// The reply to a compare-and-set.
#[derive(Debug, PartialEq, Eq)]
pub struct CasResponse {
    pub ok: bool,
    pub applied: bool,
}

/// The reply to a request that failed.
#[derive(Debug, PartialEq, Eq)]
pub struct ErrorResponse {
    pub ok: bool,
    /// Whether the operation may have taken place.
    pub indeterminate: bool,
    pub error: String,
}

/// The body of an HTTP reply.
#[derive(Debug, PartialEq, Eq)]
pub enum ShimBody {
    Put(PutResponse),
    Get(GetResponse),
    Cas(CasResponse),
    Error(ErrorResponse),
}

/// An HTTP reply.
#[derive(Debug, PartialEq, Eq)]
pub struct ShimReply {
    pub status: u16,
    pub body: ShimBody,
}

/// The mathematical model of a [`ShimBody`].
pub enum BodyModel {
    Put { ok: bool },
    Get { ok: bool, value: Option<Seq<char>> },
    Cas { ok: bool, applied: bool },
    Error { ok: bool, indeterminate: bool, error: Seq<char> },
}

/// The mathematical model of a [`ShimReply`].
pub struct ReplyModel {
    pub status: u16,
    pub body: BodyModel,
}

impl View for ShimReply {
    type V = ReplyModel;

    open spec fn view(&self) -> ReplyModel {
        ReplyModel {
            status: self.status,
            body: match self.body {
                ShimBody::Put(r) => BodyModel::Put { ok: r.ok },
                ShimBody::Get(r) => BodyModel::Get {
                    ok: r.ok,
                    value: crate::database::text_of(r.value),
                },
                ShimBody::Cas(r) => BodyModel::Cas { ok: r.ok, applied: r.applied },
                ShimBody::Error(r) => BodyModel::Error {
                    ok: r.ok,
                    indeterminate: r.indeterminate,
                    error: r.error@,
                },
            },
        }
    }
}

/// The model of what a command gave.
pub open spec fn result_of(result: Result<ServerMessage, ShimError>) -> Result<Answer, ShimError> {
    match result {
        Ok(message) => Ok(message@),
        Err(err) => Err(err),
    }
}

/// The reply to a command without an answer.
pub open spec fn error_reply(err: ShimError) -> ReplyModel {
    match err {
        ShimError::Timeout => ReplyModel {
            status: STATUS_GATEWAY_TIMEOUT,
            body: BodyModel::Error {
                ok: false,
                indeterminate: true,
                error: "request timed out; operation may or may not have succeeded"@,
            },
        },
        ShimError::Disconnected => ReplyModel {
            status: STATUS_SERVICE_UNAVAILABLE,
            body: BodyModel::Error {
                ok: false,
                indeterminate: true,
                error: "connection to server lost"@,
            },
        },
    }
}

/// The reply to a command with an answer of the wrong sort, which is given as it is shown.
pub open spec fn unexpected_reply(what: Seq<char>, shown: Seq<char>) -> ReplyModel {
    ReplyModel {
        status: STATUS_BAD_GATEWAY,
        body: BodyModel::Error {
            ok: false,
            indeterminate: false,
            error: what + shown,
        },
    }
}

/// The reply to a write.
pub open spec fn put_reply(result: Result<Answer, ShimError>) -> ReplyModel {
    match result {
        Ok(Answer::Write(_)) => ReplyModel { status: STATUS_OK, body: BodyModel::Put { ok: true } },
        Ok(other) => unexpected_reply("unexpected response for put: "@, other.shown()),
        Err(err) => error_reply(err),
    }
}

/// The reply to a read.
pub open spec fn get_reply(result: Result<Answer, ShimError>) -> ReplyModel {
    match result {
        Ok(Answer::Read(_, value)) => ReplyModel {
            status: STATUS_OK,
            body: BodyModel::Get { ok: true, value },
        },
        Ok(other) => unexpected_reply("unexpected response for get: "@, other.shown()),
        Err(err) => error_reply(err),
    }
}

/// The reply to a compare-and-set.
pub open spec fn cas_reply(result: Result<Answer, ShimError>) -> ReplyModel {
    match result {
        Ok(Answer::CasOk(_)) => ReplyModel {
            status: STATUS_OK,
            body: BodyModel::Cas { ok: true, applied: true },
        },
        Ok(Answer::CasFail(_)) => ReplyModel {
            status: STATUS_OK,
            body: BodyModel::Cas { ok: true, applied: false },
        },
        Ok(other) => unexpected_reply("unexpected response for cas: "@, other.shown()),
        Err(err) => error_reply(err),
    }
}

/// The command that a write asks for.
pub fn put_command(key: String, value: String) -> (r: KVCommand)
    ensures
        r@ == Op::Put(key@, value@),
{
    KVCommand::Put(key, value)
}

/// The command that a read asks for.
pub fn get_command(key: String) -> (r: KVCommand)
    ensures
        r@ == Op::Get(key@),
{
    KVCommand::Get(key)
}

/// The command that a compare-and-set asks for.
pub fn cas_command(key: String, from: String, to: String) -> (r: KVCommand)
    ensures
        r@ == Op::Cas(key@, from@, to@),
{
    KVCommand::Cas(key, from, to)
}

/// The reply to a command with an answer of the wrong sort, which is given as it is shown.
pub fn unexpected_response(what: &str, shown: &str) -> (r: ShimReply)
    ensures
        r@ == unexpected_reply(what@, shown@),
{
    let mut error = what.to_owned();
    error.append(shown);
    ShimReply {
        status: STATUS_BAD_GATEWAY,
        body: ShimBody::Error(ErrorResponse { ok: false, indeterminate: false, error }),
    }
}

/// The reply to a write.
pub fn put_value(result: Result<ServerMessage, ShimError>) -> (r: ShimReply)
    ensures
        r@ == put_reply(result_of(result)),
{
    match result {
        Ok(ServerMessage::Write(_)) => ShimReply {
            status: STATUS_OK,
            body: ShimBody::Put(PutResponse { ok: true }),
        },
        Ok(other) => unexpected_response(
            "unexpected response for put: ",
            other.debug_text().as_str(),
        ),
        Err(err) => shim_error_response(err),
    }
}

/// The reply to a read.
pub fn get_value(result: Result<ServerMessage, ShimError>) -> (r: ShimReply)
    ensures
        r@ == get_reply(result_of(result)),
{
    match result {
        Ok(ServerMessage::Read(_, value)) => ShimReply {
            status: STATUS_OK,
            body: ShimBody::Get(GetResponse { ok: true, value }),
        },
        Ok(other) => unexpected_response(
            "unexpected response for get: ",
            other.debug_text().as_str(),
        ),
        Err(err) => shim_error_response(err),
    }
}

/// The reply to a compare-and-set.
pub fn cas_value(result: Result<ServerMessage, ShimError>) -> (r: ShimReply)
    ensures
        r@ == cas_reply(result_of(result)),
{
    match result {
        Ok(ServerMessage::CasOk(_)) => ShimReply {
            status: STATUS_OK,
            body: ShimBody::Cas(CasResponse { ok: true, applied: true }),
        },
        Ok(ServerMessage::CasFail(_)) => ShimReply {
            status: STATUS_OK,
            body: ShimBody::Cas(CasResponse { ok: true, applied: false }),
        },
        Ok(other) => unexpected_response(
            "unexpected response for cas: ",
            other.debug_text().as_str(),
        ),
        Err(err) => shim_error_response(err),
    }
}

/// The reply to a command without an answer.
pub fn shim_error_response(err: ShimError) -> (r: ShimReply)
    ensures
        r@ == error_reply(err),
{
    match err {
        ShimError::Timeout => ShimReply {
            status: STATUS_GATEWAY_TIMEOUT,
            body: ShimBody::Error(
                ErrorResponse {
                    ok: false,
                    indeterminate: true,
                    error: "request timed out; operation may or may not have succeeded".to_owned(),
                },
            ),
        },
        ShimError::Disconnected => ShimReply {
            status: STATUS_SERVICE_UNAVAILABLE,
            body: ShimBody::Error(
                ErrorResponse {
                    ok: false,
                    indeterminate: true,
                    error: "connection to server lost".to_owned(),
                },
            ),
        },
    }
}

/// What becomes of something that arrives from the server.
#[derive(Debug)]
pub enum Arrival<T> {
    /// It is a start signal, which the gateway has no use for.
    Ignored,
    /// It is the answer that this request waits for.
    Deliver(T, ServerMessage),
    /// It answers a command that no request waits for.
    NoPendingRequest(CommandId),
    /// It could not be read.
    Malformed,
}

/// The mathematical model of an [`Arrival`].
pub enum ArrivalModel<T> {
    Ignored,
    Deliver(T, Answer),
    NoPendingRequest(CommandId),
    Malformed,
}

impl<T> View for Arrival<T> {
    type V = ArrivalModel<T>;

    open spec fn view(&self) -> ArrivalModel<T> {
        match self {
            Arrival::Ignored => ArrivalModel::Ignored,
            Arrival::Deliver(reply_to, message) => ArrivalModel::Deliver(*reply_to, message@),
            Arrival::NoPendingRequest(id) => ArrivalModel::NoPendingRequest(*id),
            Arrival::Malformed => ArrivalModel::Malformed,
        }
    }
}

/// How the wait for an answer ends.
#[derive(Debug)]
pub enum Waited {
    /// The answer came.
    Replied(ServerMessage),
    /// Nobody can hand an answer over any more.
    Abandoned,
    /// The answer did not come in time.
    TimedOut,
}

/// The mathematical model of a [`ShimClient`].
#[verifier::ext_equal]
pub struct ShimState<T> {
    /// The name of the next command.
    pub next_command_id: CommandId,
    /// Which request waits for the answer to which command.
    pub pending: Map<CommandId, T>,
    /// What was handed to which request so far, the first one first.
    pub delivered: Seq<(T, Answer)>,
    /// What was offered to which request that was gone, the first one first.
    pub unclaimed: Seq<(T, Answer)>,
}

/// The command name that follows another; the last one is followed by 0.
pub open spec fn id_after(id: CommandId) -> CommandId {
    if id == CommandId::MAX {
        0
    } else {
        (id + 1) as CommandId
    }
}

impl<T> ShimState<T> {
    /// No command was sent yet; the first one is named 1.
    pub open spec fn fresh() -> Self {
        ShimState {
            next_command_id: 1,
            pending: Map::empty(),
            delivered: seq![],
            unclaimed: seq![],
        }
    }

    /// Every request that waits has a name that was given out before the next one.
    pub open spec fn names_used(self) -> bool {
        forall|id: CommandId| #[trigger]
            self.pending.contains_key(id) ==> id < self.next_command_id
    }

    /// The state once a request waits for the answer to a new command.
    pub open spec fn waiting(self, reply_to: T) -> Self {
        ShimState {
            next_command_id: id_after(self.next_command_id),
            pending: self.pending.insert(self.next_command_id, reply_to),
            ..self
        }
    }

    /// The state once no request waits for the answer to a command.
    pub open spec fn without(self, id: CommandId) -> Self {
        ShimState { pending: self.pending.remove(id), ..self }
    }

    /// The state once an answer was handed to a request.
    pub open spec fn after_delivery(self, reply_to: T, answer: Answer) -> Self {
        ShimState { delivered: self.delivered.push((reply_to, answer)), ..self }
    }

    /// The state once an answer was offered to a request that was gone.
    pub open spec fn after_refusal(self, reply_to: T, answer: Answer) -> Self {
        ShimState { unclaimed: self.unclaimed.push((reply_to, answer)), ..self }
    }

    /// What becomes of something that arrives, `None` standing for what could not be read,
    /// and the state after it.
    pub open spec fn arrived(self, message: Option<Answer>) -> (Self, ArrivalModel<T>) {
        match message {
            None => (self, ArrivalModel::Malformed),
            Some(answer) => match answer.command_id() {
                None => (self, ArrivalModel::Ignored),
                Some(id) => if self.pending.contains_key(id) {
                    (self.without(id), ArrivalModel::Deliver(self.pending[id], answer))
                } else {
                    (self, ArrivalModel::NoPendingRequest(id))
                },
            },
        }
    }
}

/// The client's end of the gateway: which requests wait for which answers.
#[verifier::reject_recursive_types(T)]
pub struct ShimClient<T> {
    next_command_id: CommandId,
    pending: HashMap<CommandId, T>,
    delivered: Deliveries<T>,
}

impl<T> View for ShimClient<T> {
    type V = ShimState<T>;

    closed spec fn view(&self) -> ShimState<T> {
        ShimState {
            next_command_id: self.next_command_id,
            pending: self.pending@,
            delivered: self.delivered.made(),
            unclaimed: self.delivered.refused(),
        }
    }
}

/// The next step of the gateway to open its connection to the server. That the connection
/// cannot be set to send without delay, or that the handshake cannot be sent, is not to be
/// handed over.
pub fn connect_step(event: ConnectEvent) -> (r: ConnectAction)
    requires
        event != ConnectEvent::NodelayFailed,
        event != ConnectEvent::HandshakeFailed,
    ensures
        r == crate::network::connect_action(RegistrationMessage::ClientRegister, event),
{
    match event {
        ConnectEvent::ConnectFailed => ConnectAction::Retry,
        ConnectEvent::Connected => ConnectAction::SetNodelay,
        ConnectEvent::NodelayFailed => ConnectAction::GiveUp,
        ConnectEvent::NodelaySet => {
            ConnectAction::SendHandshake(RegistrationMessage::ClientRegister)
        },
        ConnectEvent::HandshakeFailed => ConnectAction::GiveUp,
        ConnectEvent::HandshakeSent => ConnectAction::Install,
    }
}

impl<T> ShimClient<T> {
    /// A client that is connected and has sent nothing yet. Its first command is named 1.
    pub fn connect() -> (r: Self)
        ensures
            r@ == ShimState::<T>::fresh(),
    {
        ShimClient {
            next_command_id: 1,
            pending: HashMap::new(),
            delivered: Deliveries::new(),
        }
    }

    /// Names a new command, notes who waits for its answer, and gives the message that is to
    /// be sent to the server.
    pub fn send_command(&mut self, command: KVCommand, reply_to: T) -> (r: (
        CommandId,
        ClientMessage,
    ))
        ensures
            final(self)@ == old(self)@.waiting(reply_to),
            r.0 == old(self)@.next_command_id,
            r.1 == ClientMessage::Append(r.0, command),
    {
        let command_id = self.next_command_id;
        self.next_command_id = if command_id == CommandId::MAX {
            0
        } else {
            command_id + 1
        };
        self.pending.insert(command_id, reply_to);
        (command_id, ClientMessage::Append(command_id, command))
    }

    /// A command could not be sent to the server.
    pub fn send_command_failed(&mut self, command_id: CommandId) -> (r: ShimError)
        ensures
            final(self)@ == old(self)@.without(command_id),
            r == ShimError::Disconnected,
    {
        self.pending.remove(&command_id);
        ShimError::Disconnected
    }

    /// The wait for the answer to a command is over. After a timeout nobody waits any more.
    pub fn send_command_finished(&mut self, command_id: CommandId, waited: Waited) -> (r: Result<
        ServerMessage,
        ShimError,
    >)
        ensures
            match waited {
                Waited::Replied(response) => {
                    &&& r == Ok::<ServerMessage, ShimError>(response)
                    &&& final(self)@ == old(self)@
                },
                Waited::Abandoned => {
                    &&& r == Err::<ServerMessage, ShimError>(ShimError::Disconnected)
                    &&& final(self)@ == old(self)@
                },
                Waited::TimedOut => {
                    &&& r == Err::<ServerMessage, ShimError>(ShimError::Timeout)
                    &&& final(self)@ == old(self)@.without(command_id)
                },
            },
    {
        match waited {
            Waited::Replied(response) => Ok(response),
            Waited::Abandoned => Err(ShimError::Disconnected),
            Waited::TimedOut => {
                self.pending.remove(&command_id);
                Err(ShimError::Timeout)
            },
        }
    }

    /// Something arrived from the server; `None` stands for what could not be read.
    pub fn arrived(&mut self, message: Option<ServerMessage>) -> (r: Arrival<T>)
        ensures
            (final(self)@, r@) == old(self)@.arrived(
                match message {
                    Some(message) => Some(message@),
                    None => None,
                },
            ),
    {
        match message {
            None => Arrival::Malformed,
            Some(ServerMessage::StartSignal(_)) => Arrival::Ignored,
            Some(server_msg) => {
                let cmd_id = server_msg.command_id();
                match self.pending.remove(&cmd_id) {
                    Some(reply_to) => Arrival::Deliver(reply_to, server_msg),
                    None => {
                        assert(self.pending@ =~= old(self)@.pending);
                        Arrival::NoPendingRequest(cmd_id)
                    },
                }
            },
        }
    }
}

/// What became of something that arrived from the server.
#[derive(Debug, Clone, Copy, PartialEq, Eq)]
pub enum Dispatched {
    /// It was a start signal.
    Ignored,
    /// It was handed to the request that waited for it.
    Delivered,
    /// The request that waited for it is gone.
    Unclaimed,
    /// No request waits for the answer to this command.
    NoPendingRequest(CommandId),
    /// It could not be read.
    Malformed,
}

impl ShimClient<oneshot::Sender<ServerMessage>> {
    /// Something arrived from the server; `None` stands for what could not be read. An answer
    /// is handed to the request that waits for it.
    pub fn dispatch(&mut self, message: Option<ServerMessage>) -> (r: Dispatched)
        ensures
            ({
                let (after, arrival) = old(self)@.arrived(
                    match message {
                        Some(message) => Some(message@),
                        None => None,
                    },
                );
                match arrival {
                    ArrivalModel::Ignored => r == Dispatched::Ignored && final(self)@ == after,
                    ArrivalModel::Deliver(reply_to, answer) => {
                        ||| r == Dispatched::Delivered && final(self)@ == after.after_delivery(
                            reply_to,
                            answer,
                        )
                        ||| r == Dispatched::Unclaimed && final(self)@ == after.after_refusal(
                            reply_to,
                            answer,
                        )
                    },
                    ArrivalModel::NoPendingRequest(id) => r == Dispatched::NoPendingRequest(id)
                        && final(self)@ == after,
                    ArrivalModel::Malformed => r == Dispatched::Malformed && final(self)@ == after,
                }
            }),
    {
        match self.arrived(message) {
            Arrival::Ignored => Dispatched::Ignored,
            Arrival::Deliver(reply_to, server_msg) => {
                match self.delivered.hand(reply_to, server_msg) {
                    Ok(_) => Dispatched::Delivered,
                    Err(_) => Dispatched::Unclaimed,
                }
            },
            Arrival::NoPendingRequest(id) => Dispatched::NoPendingRequest(id),
            Arrival::Malformed => Dispatched::Malformed,
        }
    }
}

/// What the gateway is told.
#[derive(Debug, PartialEq, Eq)]
pub struct ShimSettings {
    /// The server behind the gateway.
    pub server_id: NodeId,
    /// Its address.
    pub server_address: String,
    /// The address that the gateway listens on.
    pub bind_address: String,
    /// How long a request waits for its answer, in milliseconds.
    pub timeout_ms: u64,
}

/// A number that may be given as text; the default where it is not given, or is no number.
pub open spec fn number_or(given: Option<String>, default: u64) -> u64 {
    match given {
        Some(s) => match text::parsed(s@) {
            Some(n) => n,
            None => default,
        },
        None => default,
    }
}

/// A text that may be given; the default where it is not.
pub open spec fn text_or(given: Option<String>, default: Seq<char>) -> Seq<char> {
    match given {
        Some(s) => s@,
        None => default,
    }
}

/// A number that may be given as text; the default where it is not given, or is no number.
pub fn parse_or(given: Option<String>, default: u64) -> (r: u64)
    ensures
        r == number_or(given, default),
{
    match given {
        Some(s) => match text::parse_u64(s.as_str()) {
            Some(n) => n,
            None => default,
        },
        None => default,
    }
}

impl ShimSettings {
    /// The settings that are given, with defaults for those that are not.
    pub fn new(
        server_id: Option<String>,
        server_address: Option<String>,
        bind_address: Option<String>,
        timeout_ms: Option<String>,
    ) -> (r: Self)
        ensures
            r.server_id == number_or(server_id, 1),
            r.server_address@ == text_or(server_address, "127.0.0.1:8001"@),
            r.bind_address@ == text_or(bind_address, "127.0.0.1:3000"@),
            r.timeout_ms == number_or(timeout_ms, 3000),
    {
        ShimSettings {
            server_id: parse_or(server_id, 1),
            server_address: match server_address {
                Some(s) => s,
                None => "127.0.0.1:8001".to_owned(),
            },
            bind_address: match bind_address {
                Some(s) => s,
                None => "127.0.0.1:3000".to_owned(),
            },
            timeout_ms: parse_or(timeout_ms, 3000),
        }
    }
}

/// What happens to the client's end of the gateway.
pub enum ShimEvent<T> {
    /// A request sends a command and waits for its answer.
    Sent(T),
    /// The request for a command waits no more: it was not sent, or was not answered in time.
    GivenUp(CommandId),
    /// Something arrived; `None` stands for what could not be read.
    Arrived(Option<Answer>),
}

impl<T> ShimState<T> {
    /// The state after an event.
    pub open spec fn after(self, event: ShimEvent<T>) -> Self {
        match event {
            ShimEvent::Sent(reply_to) => self.waiting(reply_to),
            ShimEvent::GivenUp(id) => self.without(id),
            ShimEvent::Arrived(message) => self.arrived(message).0,
        }
    }

    /// The state after some events, the first one first.
    pub open spec fn after_all(self, events: Seq<ShimEvent<T>>) -> Self
        decreases events.len(),
    {
        if events.len() == 0 {
            self
        } else {
            self.after_all(events.drop_last()).after(events.last())
        }
    }
}

/// Whether an event concerns the request for a command: it is given up, or an answer to it
/// arrives.
pub open spec fn concerns<T>(event: ShimEvent<T>, id: CommandId) -> bool {
    match event {
        ShimEvent::Sent(_) => false,
        ShimEvent::GivenUp(given_up) => given_up == id,
        ShimEvent::Arrived(message) => message matches Some(answer) && answer.command_id() == Some(
            id,
        ),
    }
}

/// The answer to a command reaches the request that waits for it, whatever else was sent, was
/// given up or arrived since, as long as names last, and reaches it once.
pub proof fn law_answer_reaches_its_request<T>(
    state: ShimState<T>,
    reply_to: T,
    others: Seq<ShimEvent<T>>,
    answer: Answer,
)
    requires
        state.names_used(),
        state.next_command_id + 1 + others.len() <= CommandId::MAX,
        forall|i: int|
            0 <= i < others.len() ==> !concerns(#[trigger] others[i], state.next_command_id),
        answer.command_id() == Some(state.next_command_id),
    ensures
        ({
            let (after, arrival) = state.waiting(reply_to).after_all(others).arrived(Some(answer));
            &&& arrival == ArrivalModel::Deliver(reply_to, answer)
            &&& after.arrived(Some(answer)).1 == ArrivalModel::<T>::NoPendingRequest(
                state.next_command_id,
            )
        }),
{
    lemma_still_waiting(state.waiting(reply_to), others, state.next_command_id);
}

proof fn lemma_still_waiting<T>(state: ShimState<T>, others: Seq<ShimEvent<T>>, id: CommandId)
    requires
        state.pending.contains_key(id),
        id < state.next_command_id,
        state.next_command_id + others.len() <= CommandId::MAX,
        forall|i: int| 0 <= i < others.len() ==> !concerns(#[trigger] others[i], id),
    ensures
        state.next_command_id <= state.after_all(others).next_command_id
            <= state.next_command_id + others.len(),
        state.after_all(others).pending.contains_key(id),
        state.after_all(others).pending[id] == state.pending[id],
    decreases others.len(),
{
    if others.len() > 0 {
        let before = others.drop_last();
        assert forall|i: int| 0 <= i < before.len() implies !concerns(#[trigger] before[i], id) by {
            assert(before[i] == others[i]);
        }
        lemma_still_waiting(state, before, id);
        assert(!concerns(others[others.len() - 1], id));
    }
}

/// As long as names last, a new command gets a name that no waiting request has, and every
/// change keeps it so.
pub proof fn law_names_are_fresh<T>(
    state: ShimState<T>,
    reply_to: T,
    id: CommandId,
    message: Option<Answer>,
)
    requires
        state.names_used(),
    ensures
        !state.pending.contains_key(state.next_command_id),
        state.next_command_id < CommandId::MAX ==> state.waiting(reply_to).names_used(),
        state.without(id).names_used(),
        state.arrived(message).0.names_used(),
        ShimState::<T>::fresh().names_used(),
{
}

/// A reply says that an operation may or may not have taken place exactly where there was no
/// answer to its command.
pub proof fn law_indeterminate_replies(result: Result<Answer, ShimError>)
    ensures
        says_indeterminate(put_reply(result)) == (result is Err),
        says_indeterminate(get_reply(result)) == (result is Err),
        says_indeterminate(cas_reply(result)) == (result is Err),
{
}

/// Whether a reply says that the operation may or may not have taken place.
pub open spec fn says_indeterminate(reply: ReplyModel) -> bool {
    match reply.body {
        BodyModel::Error { indeterminate, .. } => indeterminate,
        _ => false,
    }
}

/// The reply of the gateway to an operation that takes place on a store.
pub open spec fn reply_to_op(store: Store, id: CommandId, op: Op) -> ReplyModel {
    let answer = Ok(crate::messages::answer_to(id, crate::database::outcome(store, op)));
    match op {
        Op::Get(_) => get_reply(answer),
        Op::Cas(_, _, _) => cas_reply(answer),
        _ => put_reply(answer),
    }
}

/// Through the gateway, a write succeeds; a read then succeeds and gives what was written; a
/// compare-and-set from that value then takes place, and a read gives the new value; one from
/// any other value does not, and a read gives the value as it was.
pub proof fn law_put_get_cas(
    store: Store,
    id: CommandId,
    key: Seq<char>,
    value: Seq<char>,
    from: Seq<char>,
    to: Seq<char>,
)
    ensures
        ({
            let put = crate::database::next_store(store, Op::Put(key, value));
            let cas = crate::database::next_store(put, Op::Cas(key, from, to));
            let now = if from == value {
                to
            } else {
                value
            };
            &&& reply_to_op(store, id, Op::Put(key, value)) == ReplyModel {
                status: STATUS_OK,
                body: BodyModel::Put { ok: true },
            }
            &&& reply_to_op(put, id, Op::Get(key)) == ReplyModel {
                status: STATUS_OK,
                body: BodyModel::Get { ok: true, value: Some(value) },
            }
            &&& reply_to_op(put, id, Op::Cas(key, from, to)) == ReplyModel {
                status: STATUS_OK,
                body: BodyModel::Cas { ok: true, applied: from == value },
            }
            &&& reply_to_op(cas, id, Op::Get(key)) == ReplyModel {
                status: STATUS_OK,
                body: BodyModel::Get { ok: true, value: Some(now) },
            }
        }),
{
}

/// A reply stands for its status and its body, with each part in its place.
pub proof fn law_replies_stand_for_their_bodies(
    status: u16,
    ok: bool,
    flag: bool,
    value: String,
    error: String,
)
    ensures
        (ShimReply { status, body: ShimBody::Put(PutResponse { ok }) })@ == (ReplyModel {
            status,
            body: BodyModel::Put { ok },
        }),
        (ShimReply { status, body: ShimBody::Get(GetResponse { ok, value: Some(value) }) })@ == (
        ReplyModel { status, body: BodyModel::Get { ok, value: Some(value@) } }),
        (ShimReply { status, body: ShimBody::Get(GetResponse { ok, value: None }) })@ == (
        ReplyModel { status, body: BodyModel::Get { ok, value: None } }),
        (ShimReply { status, body: ShimBody::Cas(CasResponse { ok, applied: flag }) })@ == (
        ReplyModel { status, body: BodyModel::Cas { ok, applied: flag } }),
        (ShimReply {
            status,
            body: ShimBody::Error(ErrorResponse { ok, indeterminate: flag, error }),
        })@ == (ReplyModel {
            status,
            body: BodyModel::Error { ok, indeterminate: flag, error: error@ },
        }),
{
}

/// What a command gave stands for the answer, or for the reason why there is none.
pub proof fn law_results_stand_for_their_answers(
    id: CommandId,
    value: String,
    message: ServerMessage,
    err: ShimError,
)
    ensures
        result_of(Ok(message)) == Ok::<Answer, ShimError>(message@),
        result_of(Ok(ServerMessage::Write(id))) == Ok::<Answer, ShimError>(Answer::Write(id)),
        result_of(Ok(ServerMessage::Read(id, Some(value)))) == Ok::<Answer, ShimError>(
            Answer::Read(id, Some(value@)),
        ),
        result_of(Ok(ServerMessage::Read(id, None))) == Ok::<Answer, ShimError>(
            Answer::Read(id, None),
        ),
        result_of(Ok(ServerMessage::CasOk(id))) == Ok::<Answer, ShimError>(Answer::CasOk(id)),
        result_of(Ok(ServerMessage::CasFail(id))) == Ok::<Answer, ShimError>(Answer::CasFail(id)),
        result_of(Err(err)) == Err::<Answer, ShimError>(err),
{
}

/// A request whose command has an answer of the right sort succeeds: a write as it is, a read
/// with the value that the answer gives, a compare-and-set with whether it took place.
pub proof fn law_right_answers_are_passed_on(id: CommandId, value: Option<Seq<char>>)
    ensures
        put_reply(Ok(Answer::Write(id))) == (ReplyModel {
            status: 200,
            body: BodyModel::Put { ok: true },
        }),
        get_reply(Ok(Answer::Read(id, value))) == (ReplyModel {
            status: 200,
            body: BodyModel::Get { ok: true, value },
        }),
        cas_reply(Ok(Answer::CasOk(id))) == (ReplyModel {
            status: 200,
            body: BodyModel::Cas { ok: true, applied: true },
        }),
        cas_reply(Ok(Answer::CasFail(id))) == (ReplyModel {
            status: 200,
            body: BodyModel::Cas { ok: true, applied: false },
        }),
{
}

/// A request whose command has an answer of the wrong sort fails, and did not take place; the
/// reply says what was asked and shows the answer.
pub proof fn law_wrong_answers_are_shown(answer: Answer, what: Seq<char>, shown: Seq<char>)
    ensures
        unexpected_reply(what, shown) == (ReplyModel {
            status: 502,
            body: BodyModel::Error { ok: false, indeterminate: false, error: what + shown },
        }),
        !(answer is Write) ==> put_reply(Ok(answer)) == (ReplyModel {
            status: 502,
            body: BodyModel::Error {
                ok: false,
                indeterminate: false,
                error: "unexpected response for put: "@ + answer.shown(),
            },
        }),
        !(answer is Read) ==> get_reply(Ok(answer)) == (ReplyModel {
            status: 502,
            body: BodyModel::Error {
                ok: false,
                indeterminate: false,
                error: "unexpected response for get: "@ + answer.shown(),
            },
        }),
        !(answer is CasOk) && !(answer is CasFail) ==> cas_reply(Ok(answer)) == (ReplyModel {
            status: 502,
            body: BodyModel::Error {
                ok: false,
                indeterminate: false,
                error: "unexpected response for cas: "@ + answer.shown(),
            },
        }),
{
}

/// A request whose command has no answer fails, and may have taken place, whatever was asked; the
/// reply says whether the answer did not come in time or the connection was lost.
pub proof fn law_missing_answers_are_told_apart(err: ShimError)
    ensures
        error_reply(ShimError::Timeout) == (ReplyModel {
            status: 504,
            body: BodyModel::Error {
                ok: false,
                indeterminate: true,
                error: "request timed out; operation may or may not have succeeded"@,
            },
        }),
        error_reply(ShimError::Disconnected) == (ReplyModel {
            status: 503,
            body: BodyModel::Error {
                ok: false,
                indeterminate: true,
                error: "connection to server lost"@,
            },
        }),
        put_reply(Err(err)) == error_reply(err),
        get_reply(Err(err)) == error_reply(err),
        cas_reply(Err(err)) == error_reply(err),
{
}

/// A reply says that an operation may have taken place exactly where its body says so.
pub proof fn law_only_errors_are_indeterminate(
    status: u16,
    ok: bool,
    flag: bool,
    value: Option<Seq<char>>,
    error: Seq<char>,
)
    ensures
        says_indeterminate(
            ReplyModel { status, body: BodyModel::Error { ok, indeterminate: flag, error } },
        ) == flag,
        !says_indeterminate(ReplyModel { status, body: BodyModel::Put { ok } }),
        !says_indeterminate(ReplyModel { status, body: BodyModel::Get { ok, value } }),
        !says_indeterminate(ReplyModel { status, body: BodyModel::Cas { ok, applied: flag } }),
{
}

/// An operation that takes place on a store is replied to with what the store holds: a write or a
/// delete succeeds, a read gives the value at its key, and a compare-and-set says whether the
/// expected value is held.
pub proof fn law_operations_are_replied_to(
    store: Store,
    id: CommandId,
    key: Seq<char>,
    from: Seq<char>,
    to: Seq<char>,
)
    ensures
        reply_to_op(store, id, Op::Put(key, to)) == (ReplyModel {
            status: 200,
            body: BodyModel::Put { ok: true },
        }),
        reply_to_op(store, id, Op::Delete(key)) == (ReplyModel {
            status: 200,
            body: BodyModel::Put { ok: true },
        }),
        reply_to_op(store, id, Op::Get(key)) == (ReplyModel {
            status: 200,
            body: BodyModel::Get {
                ok: true,
                value: if store.contains_key(key) {
                    Some(store[key])
                } else {
                    None
                },
            },
        }),
        reply_to_op(store, id, Op::Cas(key, from, to)) == (ReplyModel {
            status: 200,
            body: BodyModel::Cas {
                ok: true,
                applied: store.contains_key(key) && store[key] == from,
            },
        }),
{
}

/// Commands are named in turn, from 1 on; after the last name comes 0.
pub proof fn law_commands_are_named_in_turn<T>(state: ShimState<T>, reply_to: T)
    ensures
        ShimState::<T>::fresh().next_command_id == 1,
        state.next_command_id < usize::MAX ==> state.waiting(reply_to).next_command_id
            == state.next_command_id + 1,
        state.next_command_id == usize::MAX ==> state.waiting(reply_to).next_command_id
            == 0,
        state.waiting(reply_to).next_command_id == id_after(state.next_command_id),
{
}

/// At first nobody waits and nothing was handed over. A request that sends a command waits for
/// the answer to it, and a command that is given up is waited for no more; either way the other
/// requests wait as they did, and nothing is handed over.
pub proof fn law_requests_wait_for_their_commands<T>(
    state: ShimState<T>,
    reply_to: T,
    id: CommandId,
    other: CommandId,
)
    ensures
        !ShimState::<T>::fresh().pending.contains_key(id),
        ShimState::<T>::fresh().delivered.len() == 0,
        ShimState::<T>::fresh().unclaimed.len() == 0,
        ({
            let after = state.waiting(reply_to);
            let name = state.next_command_id;
            &&& after.pending.contains_key(name)
            &&& after.pending[name] == reply_to
            &&& other != name ==> after.pending.contains_key(other) == state.pending.contains_key(
                other,
            )
            &&& other != name && state.pending.contains_key(other) ==> after.pending[other]
                == state.pending[other]
            &&& after.delivered == state.delivered
            &&& after.unclaimed == state.unclaimed
        }),
        ({
            let after = state.without(id);
            &&& !after.pending.contains_key(id)
            &&& other != id ==> after.pending.contains_key(other) == state.pending.contains_key(
                other,
            )
            &&& other != id && state.pending.contains_key(other) ==> after.pending[other]
                == state.pending[other]
            &&& after.next_command_id == state.next_command_id
            &&& after.delivered == state.delivered
            &&& after.unclaimed == state.unclaimed
        }),
{
}

/// An answer goes to the request that waits for it, as it is, and that request waits no more; an
/// answer that nobody waits for goes nowhere; a start signal is ignored, and what cannot be read is
/// reported. Nothing else changes.
pub proof fn law_arrivals_go_to_waiting_requests<T>(
    state: ShimState<T>,
    id: CommandId,
    value: Option<Seq<char>>,
    time: crate::kv::Timestamp,
    answer: Answer,
    other: CommandId,
)
    requires
        answer == Answer::Write(id) || answer == Answer::Read(id, value) || answer == Answer::CasOk(
            id,
        ) || answer == Answer::CasFail(id),
        other != id,
    ensures
        state.arrived(None) == (state, ArrivalModel::<T>::Malformed),
        state.arrived(Some(Answer::StartSignal(time))) == (state, ArrivalModel::<T>::Ignored),
        !state.pending.contains_key(id) ==> state.arrived(Some(answer)) == (
            state,
            ArrivalModel::<T>::NoPendingRequest(id),
        ),
        state.pending.contains_key(id) ==> {
            let (after, arrival) = state.arrived(Some(answer));
            &&& arrival == ArrivalModel::Deliver(state.pending[id], answer)
            &&& !after.pending.contains_key(id)
            &&& after.pending.contains_key(other) == state.pending.contains_key(other)
            &&& state.pending.contains_key(other) ==> after.pending[other] == state.pending[other]
            &&& after.next_command_id == state.next_command_id
            &&& after.delivered == state.delivered
            &&& after.unclaimed == state.unclaimed
        },
{
}

/// An arrival stands for what becomes of it.
pub proof fn law_arrivals_stand_for_what_becomes_of_them<T>(
    reply_to: T,
    message: ServerMessage,
    id: CommandId,
)
    ensures
        Arrival::<T>::Ignored@ == ArrivalModel::<T>::Ignored,
        Arrival::<T>::Malformed@ == ArrivalModel::<T>::Malformed,
        Arrival::<T>::NoPendingRequest(id)@ == ArrivalModel::<T>::NoPendingRequest(id),
        Arrival::Deliver(reply_to, message)@ == ArrivalModel::Deliver(reply_to, message@),
{
}

/// What was handed over, and what was offered to a request that was gone, is noted behind what
/// was before it, and nothing else changes.
pub proof fn law_deliveries_are_noted<T>(state: ShimState<T>, reply_to: T, answer: Answer)
    ensures
        state.after_delivery(reply_to, answer).delivered == state.delivered.push((reply_to, answer)),
        state.after_delivery(reply_to, answer).unclaimed == state.unclaimed,
        state.after_delivery(reply_to, answer).pending == state.pending,
        state.after_delivery(reply_to, answer).next_command_id == state.next_command_id,
        state.after_refusal(reply_to, answer).unclaimed == state.unclaimed.push((reply_to, answer)),
        state.after_refusal(reply_to, answer).delivered == state.delivered,
        state.after_refusal(reply_to, answer).pending == state.pending,
        state.after_refusal(reply_to, answer).next_command_id == state.next_command_id,
{
}

/// A setting that is given as text is that text; a number that is given in decimal is that
/// number; the default counts where nothing is given, or no number.
pub proof fn law_settings_are_taken_as_given(
    given: String,
    number: u64,
    default: u64,
    default_text: Seq<char>,
)
    ensures
        text_or(Some(given), default_text) == given@,
        text_or(None, default_text) == default_text,
        number_or(None, default) == default,
        given@ == text::decimal(number as nat) ==> number_or(Some(given), default) == number,
        text::parsed(given@) is None ==> number_or(Some(given), default) == default,
{
    text::law_numbers_are_read_from_their_texts(number, seq![]);
}

} // verus!
