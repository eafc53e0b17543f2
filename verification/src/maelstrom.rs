//! A node of the Maelstrom test harness, which carries out each request through the gateway.
//!
//! A request is either replied to at once or needs an exchange with the gateway; what comes
//! back then gives the reply, or one more exchange.

use vstd::prelude::*;
use vstd::string::*;

use crate::database::Store;
use crate::json::{decode_json, encode_json, Json, MemberTexts, Members};
use crate::kv::{CommandId, Op};
use crate::shim::{BodyModel, ReplyModel, ShimError};
use crate::url::url_encode;

verus! {

/// Error code: the request is of a type that is not supported.
pub const NOT_SUPPORTED: i64 = 10;

/// Error code: the request failed, and did not take place.
pub const CRASH: i64 = 13;

/// Error code: the request may have taken place or not.
pub const INDETERMINATE: i64 = 14;

/// Error code: the key is not set.
pub const KEY_DOES_NOT_EXIST: i64 = 20;

/// Error code: the key does not hold the expected value.
pub const PRECONDITION_FAILED: i64 = 22;

/// A request as it arrives.
pub struct Envelope {
    /// Who asks.
    pub src: String,
    /// Who is asked.
    pub dest: String,
    /// What is asked.
    pub body: Json,
}

/// What a node looks at in a request.
pub struct Message {
    /// Who asks.
    pub src: String,
    /// The type of the request.
    pub msg_type: Option<String>,
    /// The number of the request.
    pub msg_id: Option<i64>,
    /// The name that the node is given.
    pub node_id: Option<String>,
    /// The key, as JSON text.
    pub key: Option<String>,
    /// The value to write, as JSON text.
    pub value: Option<String>,
    /// The value that a key is expected to hold, as JSON text.
    pub from: Option<String>,
    /// The value to set the key to, as JSON text.
    pub to: Option<String>,
    /// The value that a key is expected to hold.
    pub expected: Option<Json>,
}

/// The mathematical model of a [`Message`].
pub struct Request {
    pub src: Seq<char>,
    pub msg_type: Option<Seq<char>>,
    pub msg_id: Option<i64>,
    pub node_id: Option<Seq<char>>,
    pub key: Option<Seq<char>>,
    pub value: Option<Seq<char>>,
    pub from: Option<Seq<char>>,
    pub to: Option<Seq<char>>,
    pub expected: Option<Seq<char>>,
}

impl View for Message {
    type V = Request;

    open spec fn view(&self) -> Request {
        Request {
            src: self.src@,
            msg_type: crate::database::text_of(self.msg_type),
            msg_id: self.msg_id,
            node_id: crate::database::text_of(self.node_id),
            key: crate::database::text_of(self.key),
            value: crate::database::text_of(self.value),
            from: crate::database::text_of(self.from),
            to: crate::database::text_of(self.to),
            expected: crate::json::texts_of(self.expected),
        }
    }
}

/// The string that a member of a JSON object is, where it is one.
pub open spec fn member_str(body: Seq<char>, name: Seq<char>) -> Option<Seq<char>> {
    match crate::json::json_member(body, name) {
        Some(member) => crate::json::json_as_str(member),
        None => None,
    }
}

/// The integer that a member of a JSON object is, where it is one that fits.
pub open spec fn member_i64(body: Seq<char>, name: Seq<char>) -> Option<i64> {
    match crate::json::json_member(body, name) {
        Some(member) => crate::json::json_as_i64(member),
        None => None,
    }
}

/// What a node looks at in a request with this sender and body. What the request is addressed
/// to plays no role.
pub open spec fn request_of(src: Seq<char>, body: Seq<char>) -> Request {
    Request {
        src,
        msg_type: member_str(body, "type"@),
        msg_id: member_i64(body, "msg_id"@),
        node_id: member_str(body, "node_id"@),
        key: crate::json::json_member(body, "key"@),
        value: crate::json::json_member(body, "value"@),
        from: crate::json::json_member(body, "from"@),
        to: crate::json::json_member(body, "to"@),
        expected: crate::json::json_member(body, "from"@),
    }
}

impl Message {
    /// Reads what a node looks at in a request. The texts of its values stand for these values
    /// where they are plain.
    pub fn read(req: Envelope) -> (r: Self)
        ensures
            r@ == request_of(req.src@, req.body@),
            r@.key matches Some(key) ==> crate::json::faithful(key),
            r@.value matches Some(value) ==> crate::json::faithful(value),
            r@.from matches Some(from) ==> crate::json::faithful(from),
            r@.to matches Some(to) ==> crate::json::faithful(to),
    {
        let expected = req.body.get("from");
        Message {
            src: req.src,
            msg_type: Message::member_string(&req.body, "type"),
            msg_id: match req.body.get("msg_id") {
                Some(member) => member.as_i64(),
                None => None,
            },
            node_id: Message::member_string(&req.body, "node_id"),
            key: Message::member_text(&req.body, "key"),
            value: Message::member_text(&req.body, "value"),
            from: Message::member_text(&req.body, "from"),
            to: Message::member_text(&req.body, "to"),
            expected,
        }
    }

    /// The string that a member of a JSON object is, where it is one.
    fn member_string(body: &Json, name: &str) -> (r: Option<String>)
        ensures
            crate::database::text_of(r) == member_str(body@, name@),
    {
        match body.get(name) {
            Some(member) => member.as_str(),
            None => None,
        }
    }

    /// A member of a JSON object, as text.
    fn member_text(body: &Json, name: &str) -> (r: Option<String>)
        ensures
            crate::database::text_of(r) == crate::json::json_member(body@, name@),
            r matches Some(text) ==> crate::json::faithful(text@),
    {
        match body.get(name) {
            Some(member) => Some(encode_json(&member)),
            None => None,
        }
    }
}

/// What a reply says.
pub enum ReplyBody {
    InitOk,
    /// The value that was read.
    ReadOk(Json),
    WriteOk,
    CasOk,
    /// A code and an explanation.
    Error(i64, String),
}

/// The mathematical model of a [`ReplyBody`].
pub enum Said {
    InitOk,
    ReadOk(Seq<char>),
    WriteOk,
    CasOk,
    Error(i64, Seq<char>),
}

impl Said {
    /// The type by which a reply says this.
    pub open spec fn reply_type(self) -> Seq<char> {
        match self {
            Said::InitOk => "init_ok"@,
            Said::ReadOk(_) => "read_ok"@,
            Said::WriteOk => "write_ok"@,
            Said::CasOk => "cas_ok"@,
            Said::Error(_, _) => "error"@,
        }
    }
}

impl ReplyBody {
    /// The type of the reply.
    pub fn reply_type(&self) -> (r: String)
        ensures
            r@ == self@.reply_type(),
    {
        match self {
            ReplyBody::InitOk => "init_ok".to_owned(),
            ReplyBody::ReadOk(_) => "read_ok".to_owned(),
            ReplyBody::WriteOk => "write_ok".to_owned(),
            ReplyBody::CasOk => "cas_ok".to_owned(),
            ReplyBody::Error(_, _) => "error".to_owned(),
        }
    }
}

impl View for ReplyBody {
    type V = Said;

    open spec fn view(&self) -> Said {
        match self {
            ReplyBody::InitOk => Said::InitOk,
            ReplyBody::ReadOk(value) => Said::ReadOk(value@),
            ReplyBody::WriteOk => Said::WriteOk,
            ReplyBody::CasOk => Said::CasOk,
            ReplyBody::Error(code, text) => Said::Error(*code, text@),
        }
    }
}

/// A reply.
pub struct Reply {
    /// Who replies.
    pub src: String,
    /// Who is replied to.
    pub dest: String,
    /// The number of the request.
    pub in_reply_to: i64,
    /// The number of the reply.
    pub msg_id: u64,
    /// What it says.
    pub body: ReplyBody,
}

/// The mathematical model of a [`Reply`].
pub struct Replied {
    pub src: Seq<char>,
    pub dest: Seq<char>,
    pub in_reply_to: i64,
    pub msg_id: u64,
    pub body: Said,
}

impl View for Reply {
    type V = Replied;

    open spec fn view(&self) -> Replied {
        Replied {
            src: self.src@,
            dest: self.dest@,
            in_reply_to: self.in_reply_to,
            msg_id: self.msg_id,
            body: self.body@,
        }
    }
}

impl Replied {
    /// The members of the body of a reply.
    pub open spec fn body_members(self) -> MemberTexts {
        let common = MemberTexts::empty().insert(
            "type"@,
            crate::json::json_of_string(self.body.reply_type()),
        ).insert("in_reply_to"@, crate::text::signed_decimal(self.in_reply_to as int)).insert(
            "msg_id"@,
            crate::text::decimal(self.msg_id as nat),
        );
        match self.body {
            Said::ReadOk(value) => common.insert("value"@, value),
            Said::Error(code, text) => common.insert(
                "code"@,
                crate::text::signed_decimal(code as int),
            ).insert("text"@, crate::json::json_of_string(text)),
            _ => common,
        }
    }

    /// The members of a reply with a body that has this text.
    pub open spec fn members(self, body: Seq<char>) -> MemberTexts {
        MemberTexts::empty().insert("src"@, crate::json::json_of_string(self.src)).insert(
            "dest"@,
            crate::json::json_of_string(self.dest),
        ).insert("body"@, body)
    }
}

impl Reply {
    /// The reply as a JSON object.
    pub fn to_json(self) -> (r: Json)
        ensures
            crate::json::json_member(r@, "body"@) matches Some(body) && {
                &&& crate::json::has_members(r@, self@.members(body))
                &&& crate::json::has_members(body, self@.body_members())
            },
    {
        let ghost reply = self@;
        let mut body = Members::new();
        body.insert("type", Json::string(self.body.reply_type()));
        body.insert("in_reply_to", Json::signed(self.in_reply_to));
        body.insert("msg_id", Json::unsigned(self.msg_id));
        match self.body {
            ReplyBody::ReadOk(value) => {
                body.insert("value", value);
            },
            ReplyBody::Error(code, text) => {
                body.insert("code", Json::signed(code));
                body.insert("text", Json::string(text));
            },
            ReplyBody::InitOk => {},
            ReplyBody::WriteOk => {},
            ReplyBody::CasOk => {},
        }
        assert(body@ == reply.body_members());
        let body = body.into_json();
        let ghost text = body@;
        let mut r = Members::new();
        r.insert("src", Json::string(self.src));
        r.insert("dest", Json::string(self.dest));
        r.insert("body", body);
        assert(r@ == reply.members(text));
        r.into_json()
    }
}

/// What a node does next about a request.
pub enum Step {
    /// Send this reply.
    Reply(Reply),
    /// Get `url` from the gateway; what comes back goes to [`Node::read_finished`].
    Read { url: String, req: Message },
    /// Put `value` to `url` at the gateway; what comes back goes to [`Node::write_finished`].
    Write { url: String, value: String, req: Message },
    /// Post `key`, `from` and `to` to `url` at the gateway; what comes back goes to
    /// [`Node::cas_finished`].
    Cas { url: String, key: String, from: String, to: String, req: Message },
    /// Get `url` from the gateway; what comes back goes to [`Node::classify_cas_failure`].
    Classify { url: String, req: Message },
}

/// The mathematical model of a [`Step`].
pub enum Next {
    Reply(Replied),
    Read { url: Seq<char>, req: Request },
    Write { url: Seq<char>, value: Seq<char>, req: Request },
    Cas {
        url: Seq<char>,
        key: Seq<char>,
        from: Seq<char>,
        to: Seq<char>,
        req: Request,
    },
    Classify { url: Seq<char>, req: Request },
}

impl View for Step {
    type V = Next;

    open spec fn view(&self) -> Next {
        match self {
            Step::Reply(reply) => Next::Reply(reply@),
            Step::Read { url, req } => Next::Read { url: url@, req: req@ },
            Step::Write { url, value, req } => Next::Write { url: url@, value: value@, req: req@ },
            Step::Cas { url, key, from, to, req } => Next::Cas {
                url: url@,
                key: key@,
                from: from@,
                to: to@,
                req: req@,
            },
            Step::Classify { url, req } => Next::Classify { url: url@, req: req@ },
        }
    }
}

/// What an exchange with the gateway gave. `B` is the type of the body that a reply to a
/// successful request has; `None` stands for a body that could not be read.
pub enum ShimResponse<B> {
    /// There was no reply.
    Failed,
    /// The request succeeded.
    Success(Option<B>),
    /// The request did not succeed.
    Failure(Option<ShimErrorBody>),
}

/// What the gateway replies to a read.
pub struct GetBody {
    pub ok: bool,
    pub value: Option<String>,
}

/// The mathematical model of a [`GetBody`].
pub struct GetModel {
    pub ok: bool,
    pub value: Option<Seq<char>>,
}

impl View for GetBody {
    type V = GetModel;

    open spec fn view(&self) -> GetModel {
        GetModel { ok: self.ok, value: crate::database::text_of(self.value) }
    }
}

/// What the gateway replies to a compare-and-set.
pub struct CasBody {
    pub applied: bool,
}

/// What the gateway replies to a request that did not succeed.
pub struct ShimErrorBody {
    pub indeterminate: Option<bool>,
}

/// Whether a status says that a request succeeded.
pub open spec fn is_success(status: u16) -> bool {
    200 <= status < 300
}

/// What a node sees of a reply of the gateway with this status, from what its body is read as.
pub open spec fn response_seen<B>(
    status: u16,
    body: Option<B>,
    err: Option<ShimErrorBody>,
) -> ShimResponse<B> {
    if is_success(status) {
        ShimResponse::Success(body)
    } else {
        ShimResponse::Failure(err)
    }
}

/// What a node sees of a reply of the gateway with this status, from what its body is read as:
/// as that of a request that succeeded, and as that of one that did not.
pub fn seen<B>(status: u16, body: Option<B>, err: Option<ShimErrorBody>) -> (r: ShimResponse<B>)
    ensures
        r == response_seen(status, body, err),
{
    if 200 <= status && status < 300 {
        ShimResponse::Success(body)
    } else {
        ShimResponse::Failure(err)
    }
}

/// The model of what a read at the gateway gave.
pub open spec fn get_response_of(response: ShimResponse<GetBody>) -> ShimResponse<GetModel> {
    match response {
        ShimResponse::Failed => ShimResponse::Failed,
        ShimResponse::Success(Some(body)) => ShimResponse::Success(Some(body@)),
        ShimResponse::Success(None) => ShimResponse::Success(None),
        ShimResponse::Failure(err) => ShimResponse::Failure(err),
    }
}

/// The model of what a read at the gateway gave, with the value that it stands for.
pub open spec fn read_response_of(response: ShimResponse<GetModel>) -> ShimResponse<
    (bool, Seq<char>),
> {
    match response {
        ShimResponse::Failed => ShimResponse::Failed,
        ShimResponse::Success(Some(body)) => ShimResponse::Success(
            Some((body.ok, value_read(body.value))),
        ),
        ShimResponse::Success(None) => ShimResponse::Success(None),
        ShimResponse::Failure(err) => ShimResponse::Failure(err),
    }
}

/// The model of what a read gave.
pub open spec fn value_response_of(response: ShimResponse<(bool, Json)>) -> ShimResponse<
    (bool, Seq<char>),
> {
    match response {
        ShimResponse::Failed => ShimResponse::Failed,
        ShimResponse::Success(Some((ok, value))) => ShimResponse::Success(Some((ok, value@))),
        ShimResponse::Success(None) => ShimResponse::Success(None),
        ShimResponse::Failure(err) => ShimResponse::Failure(err),
    }
}

/// Whether the gateway says that an operation may or may not have taken place.
pub open spec fn is_indeterminate(err: Option<ShimErrorBody>) -> bool {
    err matches Some(body) && body.indeterminate == Some(true)
}

/// The number that follows another; the last one is followed by 0.
pub open spec fn number_after(n: u64) -> u64 {
    if n == u64::MAX {
        0
    } else {
        (n + 1) as u64
    }
}

/// The mathematical model of a [`Node`].
#[verifier::ext_equal]
pub struct NodeState {
    pub node_id: Seq<char>,
    pub shim_url: Seq<char>,
    pub next_msg_id: u64,
}

impl NodeState {
    /// The address of a key at the gateway.
    pub open spec fn key_url(self, key: Seq<char>) -> Seq<char> {
        self.shim_url + "/kv/"@ + crate::url::url_encoded(key)
    }

    /// The address of the gateway's compare-and-set.
    pub open spec fn cas_url(self) -> Seq<char> {
        self.shim_url + "/kv/cas"@
    }

    /// The reply to a request and the state after it.
    pub open spec fn reply(self, req: Request, body: Said) -> (Self, Replied) {
        (
            NodeState { next_msg_id: number_after(self.next_msg_id), ..self },
            Replied {
                src: self.node_id,
                dest: req.src,
                in_reply_to: match req.msg_id {
                    Some(id) => id,
                    None => 0,
                },
                msg_id: self.next_msg_id,
                body,
            },
        )
    }

    /// The same, as a step.
    pub open spec fn replying(self, req: Request, body: Said) -> (Self, Next) {
        let (after, reply) = self.reply(req, body);
        (after, Next::Reply(reply))
    }

    /// What is done about a request to take up a name.
    pub open spec fn init(self, req: Request) -> (Self, Next) {
        let node_id = match req.node_id {
            Some(node_id) => node_id,
            None => "n0"@,
        };
        NodeState { node_id, ..self }.replying(req, Said::InitOk)
    }

    /// What is done about a request to read.
    pub open spec fn read(self, req: Request) -> (Self, Next) {
        match req.key {
            Some(key) => (self, Next::Read { url: self.key_url(key), req }),
            None => self.replying(req, Said::Error(CRASH, "read missing key"@)),
        }
    }

    /// What is done about a request to write.
    pub open spec fn write(self, req: Request) -> (Self, Next) {
        match req.key {
            Some(key) => match req.value {
                Some(value) => (self, Next::Write { url: self.key_url(key), value, req }),
                None => self.replying(req, Said::Error(CRASH, "write missing value"@)),
            },
            None => self.replying(req, Said::Error(CRASH, "write missing key"@)),
        }
    }

    /// What is done about a request to compare and set.
    pub open spec fn cas(self, req: Request) -> (Self, Next) {
        match req.key {
            Some(key) => match req.from {
                Some(from) => match req.to {
                    Some(to) => (self, Next::Cas { url: self.cas_url(), key, from, to, req }),
                    None => self.replying(req, Said::Error(CRASH, "cas missing to"@)),
                },
                None => self.replying(req, Said::Error(CRASH, "cas missing from"@)),
            },
            None => self.replying(req, Said::Error(CRASH, "cas missing key"@)),
        }
    }

    /// What is done about a request, by its type.
    pub open spec fn handle(self, req: Request) -> (Self, Next) {
        let msg_type = match req.msg_type {
            Some(msg_type) => msg_type,
            None => ""@,
        };
        if msg_type == "init"@ {
            self.init(req)
        } else if msg_type == "read"@ {
            self.read(req)
        } else if msg_type == "write"@ {
            self.write(req)
        } else if msg_type == "cas"@ {
            self.cas(req)
        } else {
            self.replying(req, Said::Error(NOT_SUPPORTED, "unsupported request type"@))
        }
    }
}

/// The value that a read gives, as JSON text: what a stored text stands for, or null where the
/// key is not set.
pub open spec fn value_read(stored: Option<Seq<char>>) -> Seq<char> {
    match stored {
        Some(stored) => crate::json::decoded(stored),
        None => "null"@,
    }
}

/// What is said about a read once the gateway has replied, or has not. A reply says whether
/// the read went well, and gives the value.
pub open spec fn said_of_read(response: ShimResponse<(bool, Seq<char>)>) -> Said {
    match response {
        ShimResponse::Success(Some((ok, value))) => if ok {
            Said::ReadOk(value)
        } else {
            Said::Error(CRASH, "shim returned unsuccessful read"@)
        },
        ShimResponse::Success(None) => Said::Error(
            INDETERMINATE,
            "invalid read response from shim"@,
        ),
        ShimResponse::Failure(err) => if is_indeterminate(err) {
            Said::Error(INDETERMINATE, "indeterminate read"@)
        } else {
            Said::Error(CRASH, "read failed"@)
        },
        ShimResponse::Failed => Said::Error(INDETERMINATE, "read request failed"@),
    }
}

/// What is said about a write once the gateway has replied, or has not.
pub open spec fn said_of_write(response: ShimResponse<()>) -> Said {
    match response {
        ShimResponse::Success(_) => Said::WriteOk,
        ShimResponse::Failure(err) => if is_indeterminate(err) {
            Said::Error(INDETERMINATE, "indeterminate write"@)
        } else {
            Said::Error(CRASH, "write failed"@)
        },
        ShimResponse::Failed => Said::Error(INDETERMINATE, "write request failed"@),
    }
}

/// What is said about a compare-and-set once the gateway has replied, or has not; `None` where
/// it did not take place and the reason is still to be found.
pub open spec fn said_of_cas(response: ShimResponse<CasBody>) -> Option<Said> {
    match response {
        ShimResponse::Success(Some(body)) => if body.applied {
            Some(Said::CasOk)
        } else {
            None
        },
        ShimResponse::Success(None) => Some(
            Said::Error(INDETERMINATE, "invalid cas response from shim"@),
        ),
        ShimResponse::Failure(err) => if is_indeterminate(err) {
            Some(Said::Error(INDETERMINATE, "indeterminate cas"@))
        } else {
            Some(Said::Error(CRASH, "cas failed"@))
        },
        ShimResponse::Failed => Some(Said::Error(INDETERMINATE, "cas request failed"@)),
    }
}

/// What was found at the key of a compare-and-set that did not take place.
#[derive(Debug, Clone, Copy, PartialEq, Eq)]
pub enum Found {
    /// That could not be found out.
    Unknown,
    /// The key is not set.
    Nothing,
    /// The key holds another value than the expected one.
    Other,
    /// The key holds the expected value by now.
    Expected,
}

/// What is found at a key, from what the gateway gave.
pub open spec fn found(response: ShimResponse<GetModel>, expected: Option<Seq<char>>) -> Found {
    match response {
        ShimResponse::Success(Some(body)) => match body.value {
            None => Found::Nothing,
            Some(stored) => match expected {
                Some(expected) => if crate::json::json_equal(
                    crate::json::decoded(stored),
                    expected,
                ) {
                    Found::Expected
                } else {
                    Found::Other
                },
                None => Found::Other,
            },
        },
        _ => Found::Unknown,
    }
}

/// What is said about a compare-and-set that did not take place.
pub open spec fn said_of_failed_cas(found: Found) -> Said {
    match found {
        Found::Unknown => Said::Error(CRASH, "unable to classify cas failure"@),
        Found::Nothing => Said::Error(KEY_DOES_NOT_EXIST, "key does not exist"@),
        Found::Other => Said::Error(PRECONDITION_FAILED, "cas from mismatch"@),
        Found::Expected => Said::Error(PRECONDITION_FAILED, "cas failed"@),
    }
}

/// A node.
pub struct Node {
    node_id: String,
    shim_url: String,
    next_msg_id: u64,
}

impl View for Node {
    type V = NodeState;

    closed spec fn view(&self) -> NodeState {
        NodeState {
            node_id: self.node_id@,
            shim_url: self.shim_url@,
            next_msg_id: self.next_msg_id,
        }
    }
}

/// How long an exchange with the gateway may take, in milliseconds.
pub fn request_timeout_ms(given: Option<String>) -> (r: u64)
    ensures
        r == crate::shim::number_or(given, 4000),
{
    crate::shim::parse_or(given, 4000)
}

impl Node {
    /// A node without a name yet, for the gateway that is given, or for the one on this
    /// machine. Its first reply is numbered 1.
    pub fn new(shim_url: Option<String>) -> (r: Self)
        ensures
            r@ == (NodeState {
                node_id: ""@,
                shim_url: crate::shim::text_or(shim_url, "http://127.0.0.1:3000"@),
                next_msg_id: 1,
            }),
    {
        let shim_url = match shim_url {
            Some(s) => s,
            None => "http://127.0.0.1:3000".to_owned(),
        };
        Node { node_id: "".to_owned(), shim_url, next_msg_id: 1 }
    }

    /// The address of a key at the gateway.
    fn key_url(&self, key: &str) -> (r: String)
        ensures
            r@ == self@.key_url(key@),
    {
        crate::text::wrap(self.shim_url.as_str(), "/kv/", url_encode(key).as_str())
    }

    /// Takes up a request. The texts that the gateway is asked to store, or to compare with what
    /// it has stored, stand for the values in the request where they are plain.
    pub fn handle(&mut self, req: Envelope) -> (r: Step)
        ensures
            (final(self)@, r@) == old(self)@.handle(request_of(req.src@, req.body@)),
            r matches Step::Write { value, .. } ==> crate::json::faithful(value@),
            r matches Step::Cas { key, from, to, .. } ==> crate::json::faithful(key@)
                && crate::json::faithful(from@) && crate::json::faithful(to@),
    {
        self.handle_message(Message::read(req))
    }

    /// Takes up a request, by its type.
    pub fn handle_message(&mut self, req: Message) -> (r: Step)
        ensures
            (final(self)@, r@) == old(self)@.handle(req@),
    {
        let msg_type = match &req.msg_type {
            Some(msg_type) => msg_type.clone(),
            None => "".to_owned(),
        };
        if msg_type == "init".to_owned() {
            self.handle_init(req)
        } else if msg_type == "read".to_owned() {
            self.handle_read(req)
        } else if msg_type == "write".to_owned() {
            self.handle_write(req)
        } else if msg_type == "cas".to_owned() {
            self.handle_cas(req)
        } else {
            Step::Reply(self.error_reply(req, NOT_SUPPORTED, "unsupported request type"))
        }
    }

    /// Takes up the name that the node is given.
    pub fn handle_init(&mut self, req: Message) -> (r: Step)
        ensures
            (final(self)@, r@) == old(self)@.init(req@),
    {
        self.node_id = match &req.node_id {
            Some(node_id) => node_id.clone(),
            None => "n0".to_owned(),
        };
        Step::Reply(self.reply(req, ReplyBody::InitOk))
    }

    /// Takes up a request to read.
    pub fn handle_read(&mut self, req: Message) -> (r: Step)
        ensures
            (final(self)@, r@) == old(self)@.read(req@),
            req.key matches Some(key) ==> (r matches Step::Read { url, req: kept } && url@
                == old(self)@.shim_url + "/kv/"@ + crate::url::url_encoded(key@) && kept == req),
    {
        match &req.key {
            Some(key) => {
                let url = self.key_url(key.as_str());
                Step::Read { url, req }
            },
            None => Step::Reply(self.error_reply(req, CRASH, "read missing key")),
        }
    }

    /// Takes up a request to write.
    pub fn handle_write(&mut self, req: Message) -> (r: Step)
        ensures
            (final(self)@, r@) == old(self)@.write(req@),
            req.key matches Some(key) ==> req.value matches Some(given) ==> (r matches Step::Write {
                url,
                value,
                req: kept,
            } && url@ == old(self)@.shim_url + "/kv/"@ + crate::url::url_encoded(key@) && value@
                == given@ && kept == req),
    {
        let url = match &req.key {
            Some(key) => self.key_url(key.as_str()),
            None => {
                return Step::Reply(self.error_reply(req, CRASH, "write missing key"));
            },
        };
        let value = match &req.value {
            Some(value) => value.clone(),
            None => {
                return Step::Reply(self.error_reply(req, CRASH, "write missing value"));
            },
        };
        Step::Write { url, value, req }
    }

    /// Takes up a request to compare and set.
    pub fn handle_cas(&mut self, req: Message) -> (r: Step)
        ensures
            (final(self)@, r@) == old(self)@.cas(req@),
            req.key matches Some(given_key) ==> req.from matches Some(given_from) ==> req.to matches
                Some(given_to) ==> (r matches Step::Cas { url, key, from, to, req: kept } && url@
                == old(self)@.shim_url + "/kv/cas"@ && key@ == given_key@ && from@ == given_from@
                && to@ == given_to@ && kept == req),
    {
        let key = match &req.key {
            Some(key) => key.clone(),
            None => {
                return Step::Reply(self.error_reply(req, CRASH, "cas missing key"));
            },
        };
        let from = match &req.from {
            Some(from) => from.clone(),
            None => {
                return Step::Reply(self.error_reply(req, CRASH, "cas missing from"));
            },
        };
        let to = match &req.to {
            Some(to) => to.clone(),
            None => {
                return Step::Reply(self.error_reply(req, CRASH, "cas missing to"));
            },
        };
        let mut url = self.shim_url.clone();
        url.append("/kv/cas");
        Step::Cas { url, key, from, to, req }
    }

    /// Replies to a read, from what the gateway gave.
    pub fn read_finished(&mut self, req: Message, response: ShimResponse<GetBody>) -> (r: Reply)
        ensures
            (final(self)@, r@) == old(self)@.reply(
                req@,
                said_of_read(read_response_of(get_response_of(response))),
            ),
    {
        let read = match response {
            ShimResponse::Success(Some(body)) => {
                let value = match body.value {
                    Some(s) => decode_json(s.as_str()),
                    None => Json::null(),
                };
                ShimResponse::Success(Some((body.ok, value)))
            },
            ShimResponse::Success(None) => ShimResponse::Success(None),
            ShimResponse::Failure(err) => ShimResponse::Failure(err),
            ShimResponse::Failed => ShimResponse::Failed,
        };
        self.reply_to_read(req, read)
    }

    /// Replies to a read that gave a value, or none.
    pub fn reply_to_read(&mut self, req: Message, response: ShimResponse<(bool, Json)>) -> (r:
        Reply)
        ensures
            (final(self)@, r@) == old(self)@.reply(
                req@,
                said_of_read(value_response_of(response)),
            ),
    {
        match response {
            ShimResponse::Success(Some((ok, value))) => {
                if ok {
                    self.reply(req, ReplyBody::ReadOk(value))
                } else {
                    self.error_reply(req, CRASH, "shim returned unsuccessful read")
                }
            },
            ShimResponse::Success(None) => {
                self.indeterminate_reply(req, "invalid read response from shim")
            },
            ShimResponse::Failure(err) => {
                if Node::says_indeterminate(&err) {
                    self.indeterminate_reply(req, "indeterminate read")
                } else {
                    self.error_reply(req, CRASH, "read failed")
                }
            },
            ShimResponse::Failed => self.indeterminate_reply(req, "read request failed"),
        }
    }

    /// Replies to a write, from what the gateway gave.
    pub fn write_finished(&mut self, req: Message, response: ShimResponse<()>) -> (r: Reply)
        ensures
            (final(self)@, r@) == old(self)@.reply(req@, said_of_write(response)),
    {
        match response {
            ShimResponse::Success(_) => self.reply(req, ReplyBody::WriteOk),
            ShimResponse::Failure(err) => {
                if Node::says_indeterminate(&err) {
                    self.indeterminate_reply(req, "indeterminate write")
                } else {
                    self.error_reply(req, CRASH, "write failed")
                }
            },
            ShimResponse::Failed => self.indeterminate_reply(req, "write request failed"),
        }
    }

    /// Replies to a compare-and-set, from what the gateway gave, or goes on to find out why it
    /// did not take place.
    pub fn cas_finished(
        &mut self,
        req: Message,
        key: String,
        response: ShimResponse<CasBody>,
    ) -> (r: Step)
        ensures
            (final(self)@, r@) == match said_of_cas(response) {
                Some(said) => old(self)@.replying(req@, said),
                None => (
                    old(self)@,
                    Next::Classify { url: old(self)@.key_url(key@), req: req@ },
                ),
            },
    {
        match response {
            ShimResponse::Success(Some(body)) => {
                if body.applied {
                    Step::Reply(self.reply(req, ReplyBody::CasOk))
                } else {
                    let url = self.key_url(key.as_str());
                    Step::Classify { url, req }
                }
            },
            ShimResponse::Success(None) => {
                Step::Reply(self.indeterminate_reply(req, "invalid cas response from shim"))
            },
            ShimResponse::Failure(err) => {
                if Node::says_indeterminate(&err) {
                    Step::Reply(self.indeterminate_reply(req, "indeterminate cas"))
                } else {
                    Step::Reply(self.error_reply(req, CRASH, "cas failed"))
                }
            },
            ShimResponse::Failed => {
                Step::Reply(self.indeterminate_reply(req, "cas request failed"))
            },
        }
    }

    /// Replies to a compare-and-set that did not take place, from what the gateway gave for
    /// its key.
    pub fn classify_cas_failure(&mut self, req: Message, response: ShimResponse<GetBody>) -> (r:
        Reply)
        ensures
            (final(self)@, r@) == old(self)@.reply(
                req@,
                said_of_failed_cas(found(get_response_of(response), req@.expected)),
            ),
    {
        let found = match response {
            ShimResponse::Success(Some(body)) => match body.value {
                None => Found::Nothing,
                Some(v) => match &req.expected {
                    Some(expected) => if decode_json(v.as_str()).equals(expected) {
                        Found::Expected
                    } else {
                        Found::Other
                    },
                    None => Found::Other,
                },
            },
            _ => Found::Unknown,
        };
        self.reply_to_failed_cas(req, found)
    }

    /// Replies to a compare-and-set that did not take place, from what was found at its key.
    pub fn reply_to_failed_cas(&mut self, req: Message, found: Found) -> (r: Reply)
        ensures
            (final(self)@, r@) == old(self)@.reply(req@, said_of_failed_cas(found)),
    {
        match found {
            Found::Unknown => self.error_reply(req, CRASH, "unable to classify cas failure"),
            Found::Nothing => self.error_reply(req, KEY_DOES_NOT_EXIST, "key does not exist"),
            Found::Other => self.error_reply(req, PRECONDITION_FAILED, "cas from mismatch"),
            Found::Expected => self.error_reply(req, PRECONDITION_FAILED, "cas failed"),
        }
    }

    /// Whether the gateway says that an operation may or may not have taken place.
    fn says_indeterminate(err: &Option<ShimErrorBody>) -> (r: bool)
        ensures
            r == is_indeterminate(*err),
    {
        match err {
            Some(body) => match body.indeterminate {
                Some(indeterminate) => indeterminate,
                None => false,
            },
            None => false,
        }
    }

    /// Replies that a request may have taken place or not.
    fn indeterminate_reply(&mut self, req: Message, text: &str) -> (r: Reply)
        ensures
            (final(self)@, r@) == old(self)@.reply(req@, Said::Error(INDETERMINATE, text@)),
    {
        self.error_reply(req, INDETERMINATE, text)
    }

    /// Replies with an error.
    fn error_reply(&mut self, req: Message, code: i64, text: &str) -> (r: Reply)
        ensures
            (final(self)@, r@) == old(self)@.reply(req@, Said::Error(code, text@)),
    {
        self.reply(req, ReplyBody::Error(code, text.to_owned()))
    }

    /// Replies to a request.
    fn reply(&mut self, req: Message, body: ReplyBody) -> (r: Reply)
        ensures
            (final(self)@, r@) == old(self)@.reply(req@, body@),
    {
        let in_reply_to = match req.msg_id {
            Some(id) => id,
            None => 0,
        };
        let msg_id = self.next_msg_id;
        self.next_msg_id = if msg_id == u64::MAX {
            0
        } else {
            msg_id + 1
        };
        Reply { src: self.node_id.clone(), dest: req.src, in_reply_to, msg_id, body }
    }
}

/// A reply goes to whoever asked, from the node, under the number of the request; it says what
/// it is to say, and the next reply has the next number.
pub proof fn law_replies_are_addressed(
    state: NodeState,
    req: Request,
    said: Said,
    next_req: Request,
    next_said: Said,
)
    ensures
        ({
            let (after, reply) = state.reply(req, said);
            let (_, next_reply) = after.reply(next_req, next_said);
            &&& reply.src == state.node_id
            &&& reply.dest == req.src
            &&& req.msg_id matches Some(id) ==> reply.in_reply_to == id
            &&& reply.body == said
            &&& reply.msg_id < u64::MAX ==> next_reply.msg_id == reply.msg_id + 1
            &&& next_reply.msg_id != reply.msg_id
        }),
{
}

/// Whatever the request, a node replies to it at once, with the next number, or asks the
/// gateway first, and then nothing of the node has changed. Only a request to take up a name
/// changes the node's name, and nothing changes the gateway.
pub proof fn law_requests_are_taken_up(state: NodeState, req: Request)
    ensures
        ({
            let (after, next) = state.handle(req);
            &&& next matches Next::Reply(reply) ==> reply.msg_id == state.next_msg_id
                && after.next_msg_id == number_after(state.next_msg_id)
            &&& !(next is Reply) ==> after == state
            &&& !(next is Classify)
            &&& req.msg_type != Some("init"@) ==> after.node_id == state.node_id
            &&& after.shim_url == state.shim_url
        }),
{
    reveal_strlit("");
    reveal_strlit("init");
    assert(""@.len() != "init"@.len());
}

/// A node that has taken up its name replies under it.
pub proof fn law_node_takes_up_its_name(state: NodeState, init: Request, req: Request, said: Said)
    requires
        init.msg_type == Some("init"@),
        init.node_id is Some,
    ensures
        ({
            let (after, next) = state.handle(init);
            &&& after.node_id == init.node_id.unwrap()
            &&& next matches Next::Reply(reply) && reply.src == after.node_id && reply.body
                == Said::InitOk
            &&& after.reply(req, said).1.src == init.node_id.unwrap()
        }),
{
}

/// Reads and writes of keys ask the gateway at the same address exactly where the keys are the
/// same.
pub proof fn law_addresses_tell_keys_apart(
    state: NodeState,
    read: Request,
    read_key: Seq<char>,
    write: Request,
    write_key: Seq<char>,
    value: Seq<char>,
)
    requires
        read.key == Some(read_key),
        write.key == Some(write_key),
        write.value == Some(value),
    ensures
        (state.read(read).1->Read_url == state.write(write).1->Write_url) <==> read_key
            == write_key,
{
    let head = state.shim_url + "/kv/"@;
    let a = crate::url::url_encoded(read_key);
    let b = crate::url::url_encoded(write_key);
    if head + a == head + b {
        assert(a =~= (head + a).skip(head.len() as int));
        assert(b =~= (head + b).skip(head.len() as int));
        crate::url::law_segments_tell_keys_apart(read_key, write_key);
    }
}

/// What the body of a reply of the gateway is read as, where the request did not succeed.
pub open spec fn error_body(reply: ReplyModel) -> Option<ShimErrorBody> {
    Some(
        ShimErrorBody {
            indeterminate: match reply.body {
                BodyModel::Error { indeterminate, .. } => Some(indeterminate),
                _ => None,
            },
        },
    )
}

/// What a node sees of the gateway's reply to a read.
pub open spec fn get_seen(reply: ReplyModel) -> ShimResponse<GetModel> {
    response_seen(
        reply.status,
        match reply.body {
            BodyModel::Get { ok, value } => Some(GetModel { ok, value }),
            _ => None,
        },
        error_body(reply),
    )
}

/// What a node sees of the gateway's reply to a write.
pub open spec fn put_seen(reply: ReplyModel) -> ShimResponse<()> {
    response_seen(reply.status, None, error_body(reply))
}

/// What a node sees of the gateway's reply to a compare-and-set.
pub open spec fn cas_seen(reply: ReplyModel) -> ShimResponse<CasBody> {
    response_seen(
        reply.status,
        match reply.body {
            BodyModel::Cas { applied, .. } => Some(CasBody { applied }),
            _ => None,
        },
        error_body(reply),
    )
}

/// Whether a reply says that the request may have taken place or not.
pub open spec fn says_maybe(said: Said) -> bool {
    said matches Said::Error(code, _) && code == INDETERMINATE
}

/// Where the gateway has no answer to a command, or does not reply to the node at all, the
/// node says that the request may have taken place or not.
pub proof fn law_no_answer_is_indeterminate(err: ShimError)
    ensures
        says_maybe(said_of_read(read_response_of(get_seen(crate::shim::get_reply(Err(err)))))),
        says_maybe(said_of_write(put_seen(crate::shim::put_reply(Err(err))))),
        said_of_cas(cas_seen(crate::shim::cas_reply(Err(err)))) matches Some(said) && says_maybe(
            said,
        ),
        says_maybe(said_of_read(ShimResponse::Failed)),
        says_maybe(said_of_write(ShimResponse::Failed)),
        said_of_cas(ShimResponse::Failed) matches Some(said) && says_maybe(said),
{
}

/// Where the gateway has an answer that makes no sense for a command, the node says that the
/// request failed, and not that it may have taken place.
pub proof fn law_wrong_answer_is_a_failure(answer: crate::messages::Answer)
    ensures
        !(answer is Read) ==> said_of_read(
            read_response_of(get_seen(crate::shim::get_reply(Ok(answer)))),
        ) == Said::Error(CRASH, "read failed"@),
        !(answer is Write) ==> said_of_write(put_seen(crate::shim::put_reply(Ok(answer))))
            == Said::Error(CRASH, "write failed"@),
        !(answer is CasOk) && !(answer is CasFail) ==> said_of_cas(
            cas_seen(crate::shim::cas_reply(Ok(answer))),
        ) == Some(Said::Error(CRASH, "cas failed"@)),
{
}

/// From the node through the gateway to the store and back: a write succeeds, and a read of
/// the same key then gives the value that the written text stands for. That is the value itself
/// where its text is plain, and where its text is read back as it is.
pub proof fn law_read_gives_back_what_was_written(
    store: Store,
    write_id: CommandId,
    read_id: CommandId,
    key: Seq<char>,
    value: Seq<char>,
)
    ensures
        ({
            let after = crate::database::next_store(store, Op::Put(key, value));
            let written = said_of_write(
                put_seen(crate::shim::reply_to_op(store, write_id, Op::Put(key, value))),
            );
            let read = said_of_read(
                read_response_of(
                    get_seen(crate::shim::reply_to_op(after, read_id, Op::Get(key))),
                ),
            );
            &&& written == Said::WriteOk
            &&& read == Said::ReadOk(crate::json::decoded(value))
            &&& crate::json::faithful(value) && crate::json::plain(value) ==> read == Said::ReadOk(
                value,
            )
            &&& crate::json::json_parse(value) == Some(value) ==> read == Said::ReadOk(value)
        }),
{
}

/// From the node through the gateway to the store and back: where a key holds the expected text, a
/// compare-and-set succeeds, and a read of the key then gives the value that the new text stands
/// for. That is the new value itself where its text is plain, and where its text is read back as
/// it is.
pub proof fn law_read_after_compare_and_set(
    store: Store,
    cas_id: CommandId,
    read_id: CommandId,
    key: Seq<char>,
    from: Seq<char>,
    to: Seq<char>,
)
    requires
        crate::database::lookup(store, key) == Some(from),
    ensures
        ({
            let op = Op::Cas(key, from, to);
            let after = crate::database::next_store(store, op);
            let cas = said_of_cas(cas_seen(crate::shim::reply_to_op(store, cas_id, op)));
            let read = said_of_read(
                read_response_of(
                    get_seen(crate::shim::reply_to_op(after, read_id, Op::Get(key))),
                ),
            );
            &&& cas == Some(Said::CasOk)
            &&& read == Said::ReadOk(crate::json::decoded(to))
            &&& crate::json::faithful(to) && crate::json::plain(to) ==> read == Said::ReadOk(to)
            &&& crate::json::json_parse(to) == Some(to) ==> read == Said::ReadOk(to)
        }),
{
}

/// A read of a key that is not set gives null.
pub proof fn law_read_of_an_unset_key(store: Store, id: CommandId, key: Seq<char>)
    requires
        !store.contains_key(key),
    ensures
        said_of_read(
            read_response_of(get_seen(crate::shim::reply_to_op(store, id, Op::Get(key)))),
        ) == Said::ReadOk("null"@),
{
}

/// A compare-and-set succeeds exactly where the key holds the expected text. Where it does not,
/// a look at the key gives the reason: the key is not set, or it holds something else.
pub proof fn law_compare_and_set_is_explained(
    store: Store,
    id: CommandId,
    key: Seq<char>,
    from: Seq<char>,
    to: Seq<char>,
)
    ensures
        ({
            let held = crate::database::lookup(store, key);
            let cas = said_of_cas(
                cas_seen(crate::shim::reply_to_op(store, id, Op::Cas(key, from, to))),
            );
            let why = said_of_failed_cas(
                found(get_seen(crate::shim::reply_to_op(store, id, Op::Get(key))), Some(from)),
            );
            &&& held == Some(from) ==> cas == Some(Said::CasOk)
            &&& held != Some(from) ==> cas is None
            &&& held is None ==> why == Said::Error(KEY_DOES_NOT_EXIST, "key does not exist"@)
            &&& held is Some ==> (why matches Said::Error(code, _) && code == PRECONDITION_FAILED)
        }),
{
}

/// What a node looks at in a request stands for itself, each part in its place.
pub proof fn law_messages_stand_for_their_parts(message: Message, text: String, value: Json)
    ensures
        message@.src == message.src@,
        message@.msg_id == message.msg_id,
        message.msg_type == Some(text) ==> message@.msg_type == Some(text@),
        message.msg_type is None ==> message@.msg_type is None,
        message.node_id == Some(text) ==> message@.node_id == Some(text@),
        message.node_id is None ==> message@.node_id is None,
        message.key == Some(text) ==> message@.key == Some(text@),
        message.key is None ==> message@.key is None,
        message.value == Some(text) ==> message@.value == Some(text@),
        message.value is None ==> message@.value is None,
        message.from == Some(text) ==> message@.from == Some(text@),
        message.from is None ==> message@.from is None,
        message.to == Some(text) ==> message@.to == Some(text@),
        message.to is None ==> message@.to is None,
        message.expected == Some(value) ==> message@.expected == Some(value@),
        message.expected is None ==> message@.expected is None,
{
}

/// A reply stands for itself, each part in its place.
pub proof fn law_replies_stand_for_what_they_say(
    reply: Reply,
    value: Json,
    code: i64,
    text: String,
)
    ensures
        reply@.src == reply.src@,
        reply@.dest == reply.dest@,
        reply@.in_reply_to == reply.in_reply_to,
        reply@.msg_id == reply.msg_id,
        reply@.body == reply.body@,
        ReplyBody::InitOk@ == Said::InitOk,
        ReplyBody::ReadOk(value)@ == Said::ReadOk(value@),
        ReplyBody::WriteOk@ == Said::WriteOk,
        ReplyBody::CasOk@ == Said::CasOk,
        ReplyBody::Error(code, text)@ == Said::Error(code, text@),
{
}

/// A step stands for what it asks for, each part in its place.
pub proof fn law_steps_stand_for_what_they_ask(
    reply: Reply,
    url: String,
    key: String,
    from: String,
    to: String,
    req: Message,
)
    ensures
        Step::Reply(reply)@ == Next::Reply(reply@),
        (Step::Read { url, req })@ == (Next::Read { url: url@, req: req@ }),
        (Step::Write { url, value: to, req })@ == (Next::Write { url: url@, value: to@, req: req@ }),
        (Step::Cas { url, key, from, to, req })@ == (Next::Cas {
            url: url@,
            key: key@,
            from: from@,
            to: to@,
            req: req@,
        }),
        (Step::Classify { url, req })@ == (Next::Classify { url: url@, req: req@ }),
{
}

/// A request is read from the members of its body: its type and the name it gives where they are
/// strings, its number where it is an integer that fits, and its key and values as they are.
pub proof fn law_requests_are_read_from_their_bodies(
    src: Seq<char>,
    body: Seq<char>,
    text: Seq<char>,
    n: i64,
)
    ensures
        ({
            let req = request_of(src, body);
            let (msg_type, msg_id, node_id) = (
                crate::json::json_member(body, "type"@),
                crate::json::json_member(body, "msg_id"@),
                crate::json::json_member(body, "node_id"@),
            );
            &&& req.src == src
            &&& req.msg_type == Some(text) <==> msg_type == Some(crate::json::json_of_string(text))
            &&& req.msg_id == Some(n) <==> msg_id == Some(crate::text::signed_decimal(n as int))
            &&& req.node_id == Some(text) <==> node_id == Some(crate::json::json_of_string(text))
            &&& req.key == crate::json::json_member(body, "key"@)
            &&& req.value == crate::json::json_member(body, "value"@)
            &&& req.from == crate::json::json_member(body, "from"@)
            &&& req.to == crate::json::json_member(body, "to"@)
            &&& req.expected == crate::json::json_member(body, "from"@)
        }),
{
    crate::json::law_strings_are_read_as_themselves(text);
    crate::json::law_integers_are_read_as_themselves(n);
}

proof fn lemma_types_differ()
    ensures
        "init"@ != "read"@,
        "init"@ != "write"@,
        "init"@ != "cas"@,
        "read"@ != "write"@,
        "read"@ != "cas"@,
        "write"@ != "cas"@,
        ""@ != "init"@,
        ""@ != "read"@,
        ""@ != "write"@,
        ""@ != "cas"@,
{
    reveal_strlit("");
    reveal_strlit("init");
    reveal_strlit("read");
    reveal_strlit("write");
    reveal_strlit("cas");
    assert("init"@[0] != "read"@[0]);
    assert("init"@.len() == 4 && "read"@.len() == 4 && "write"@.len() == 5 && "cas"@.len() == 3);
    assert(""@.len() == 0);
}

/// From a request to write, through the gateway to the store and back: the gateway is asked to put
/// the value of the request at the address of its key, the key then holds that value and other
/// keys what they held, the write is replied to as done, and a request to read the key is replied
/// to with what the written text stands for.
pub proof fn law_write_requests_reach_the_store(
    state: NodeState,
    src: Seq<char>,
    body: Seq<char>,
    read_src: Seq<char>,
    read_body: Seq<char>,
    key: Seq<char>,
    value: Seq<char>,
    store: Store,
    write_id: CommandId,
    read_id: CommandId,
    other: Seq<char>,
)
    requires
        crate::json::json_member(body, "type"@) == Some(crate::json::json_of_string("write"@)),
        crate::json::json_member(body, "key"@) == Some(key),
        crate::json::json_member(body, "value"@) == Some(value),
        crate::json::json_member(read_body, "type"@) == Some(crate::json::json_of_string("read"@)),
        crate::json::json_member(read_body, "key"@) == Some(key),
        other != key,
    ensures
        ({
            let req = request_of(src, body);
            let (after, next) = state.handle(req);
            let read_req = request_of(read_src, read_body);
            let url = state.shim_url + "/kv/"@ + crate::url::url_encoded(key);
            let put = Op::Put(key, next->Write_value);
            let written = crate::database::next_store(store, put);
            let said = said_of_write(put_seen(crate::shim::reply_to_op(store, write_id, put)));
            let read = said_of_read(
                read_response_of(
                    get_seen(crate::shim::reply_to_op(written, read_id, Op::Get(key))),
                ),
            );
            &&& after == state
            &&& next == (Next::Write { url, value, req })
            &&& written.contains_key(key)
            &&& written[key] == value
            &&& written.contains_key(other) == store.contains_key(other)
            &&& store.contains_key(other) ==> written[other] == store[other]
            &&& said == Said::WriteOk
            &&& state.handle(read_req) == (state, Next::Read { url, req: read_req })
            &&& read == Said::ReadOk(crate::json::decoded(value))
            &&& crate::json::json_parse(value) == Some(value) ==> read == Said::ReadOk(value)
        }),
{
    lemma_types_differ();
    crate::json::law_strings_are_read_as_themselves("write"@);
    crate::json::law_strings_are_read_as_themselves("read"@);
}

/// From a request to compare and set, through the gateway to the store and back: the gateway is
/// asked to compare what the key holds with the `from` of the request and to set it to the `to`. A
/// key that holds `from` holds `to` afterwards, and a read gives what that stands for; any other
/// key, and a key that holds anything else or nothing, is left as it is.
pub proof fn law_compare_and_set_requests_reach_the_store(
    state: NodeState,
    src: Seq<char>,
    body: Seq<char>,
    key: Seq<char>,
    from: Seq<char>,
    to: Seq<char>,
    store: Store,
    cas_id: CommandId,
    read_id: CommandId,
    other: Seq<char>,
)
    requires
        crate::json::json_member(body, "type"@) == Some(crate::json::json_of_string("cas"@)),
        crate::json::json_member(body, "key"@) == Some(key),
        crate::json::json_member(body, "from"@) == Some(from),
        crate::json::json_member(body, "to"@) == Some(to),
        other != key,
    ensures
        ({
            let req = request_of(src, body);
            let (after, next) = state.handle(req);
            let op = Op::Cas(next->Cas_key, next->Cas_from, next->Cas_to);
            let set = crate::database::next_store(store, op);
            let said = said_of_cas(cas_seen(crate::shim::reply_to_op(store, cas_id, op)));
            let read = said_of_read(
                read_response_of(get_seen(crate::shim::reply_to_op(set, read_id, Op::Get(key)))),
            );
            let holds = store.contains_key(key) && store[key] == from;
            &&& after == state
            &&& next == (Next::Cas { url: state.shim_url + "/kv/cas"@, key, from, to, req })
            &&& holds ==> set.contains_key(key) && set[key] == to
            &&& holds ==> said == Some(Said::CasOk)
            &&& holds ==> read == Said::ReadOk(crate::json::decoded(to))
            &&& !holds ==> set == store
            &&& !holds ==> said is None
            &&& set.contains_key(other) == store.contains_key(other)
            &&& store.contains_key(other) ==> set[other] == store[other]
        }),
{
    lemma_types_differ();
    crate::json::law_strings_are_read_as_themselves("cas"@);
}

/// A request to take up a name is replied to under that name, which the node then has; without a
/// name in it, the name is `n0`. A request of a type that is none of the four is not supported,
/// nor is one without a type.
pub proof fn law_names_and_other_requests(
    state: NodeState,
    src: Seq<char>,
    body: Seq<char>,
    name: Seq<char>,
)
    ensures
        ({
            let req = request_of(src, body);
            let (after, next) = state.handle(req);
            let msg_type = crate::json::json_member(body, "type"@);
            let node_id = crate::json::json_member(body, "node_id"@);
            let is_init = msg_type == Some(crate::json::json_of_string("init"@));
            let takes_name = is_init && node_id == Some(crate::json::json_of_string(name));
            let is_other = {
                &&& msg_type != Some(crate::json::json_of_string("init"@))
                &&& msg_type != Some(crate::json::json_of_string("read"@))
                &&& msg_type != Some(crate::json::json_of_string("write"@))
                &&& msg_type != Some(crate::json::json_of_string("cas"@))
            };
            &&& is_init ==> next is Reply && next->Reply_0.body == Said::InitOk
            &&& is_init ==> next->Reply_0.src == after.node_id && next->Reply_0.dest == src
            &&& takes_name ==> after.node_id == name
            &&& is_init && node_id is None ==> after.node_id == "n0"@
            &&& is_other ==> next is Reply && next->Reply_0.body == Said::Error(
                10,
                "unsupported request type"@,
            )
            &&& is_other ==> next->Reply_0.dest == src && after.node_id == state.node_id
        }),
{
    lemma_types_differ();
    crate::json::law_strings_are_read_as_themselves("init"@);
    crate::json::law_strings_are_read_as_themselves("read"@);
    crate::json::law_strings_are_read_as_themselves("write"@);
    crate::json::law_strings_are_read_as_themselves("cas"@);
    crate::json::law_strings_are_read_as_themselves(name);
}

/// A request that lacks a member that it needs is replied to at once; the reply names what lacks,
/// the first of key, value, `from` and `to`.
pub proof fn law_incomplete_requests_fail(state: NodeState, src: Seq<char>, body: Seq<char>)
    ensures
        ({
            let (_, next) = state.handle(request_of(src, body));
            let msg_type = crate::json::json_member(body, "type"@);
            let is_read = msg_type == Some(crate::json::json_of_string("read"@));
            let is_write = msg_type == Some(crate::json::json_of_string("write"@));
            let is_cas = msg_type == Some(crate::json::json_of_string("cas"@));
            let key = crate::json::json_member(body, "key"@);
            let value = crate::json::json_member(body, "value"@);
            let from = crate::json::json_member(body, "from"@);
            let to = crate::json::json_member(body, "to"@);
            let said = next->Reply_0.body;
            &&& is_read && key is None ==> next is Reply && said == Said::Error(
                13,
                "read missing key"@,
            )
            &&& is_write && key is None ==> next is Reply && said == Said::Error(
                13,
                "write missing key"@,
            )
            &&& is_write && key is Some && value is None ==> next is Reply && said == Said::Error(
                13,
                "write missing value"@,
            )
            &&& is_cas && key is None ==> next is Reply && said == Said::Error(
                13,
                "cas missing key"@,
            )
            &&& is_cas && key is Some && from is None ==> next is Reply && said == Said::Error(
                13,
                "cas missing from"@,
            )
            &&& is_cas && key is Some && from is Some && to is None ==> next is Reply && said
                == Said::Error(13, "cas missing to"@)
            &&& next is Reply ==> next->Reply_0.dest == src
        }),
{
    lemma_types_differ();
    crate::json::law_strings_are_read_as_themselves("read"@);
    crate::json::law_strings_are_read_as_themselves("write"@);
    crate::json::law_strings_are_read_as_themselves("cas"@);
}

/// A reply goes to whoever asked, under the number that the request gives, or 0 where it gives
/// none; it has the node's next number, and after the last number comes 0. Nothing else of the
/// node changes.
pub proof fn law_replies_answer_their_requests(
    state: NodeState,
    src: Seq<char>,
    body: Seq<char>,
    said: Said,
    n: i64,
)
    ensures
        ({
            let req = request_of(src, body);
            let (after, reply) = state.reply(req, said);
            let msg_id = crate::json::json_member(body, "msg_id"@);
            &&& reply.src == state.node_id
            &&& reply.dest == src
            &&& msg_id == Some(crate::text::signed_decimal(n as int)) ==> reply.in_reply_to == n
            &&& msg_id is None ==> reply.in_reply_to == 0
            &&& reply.msg_id == state.next_msg_id
            &&& reply.body == said
            &&& state.next_msg_id < 0xffff_ffff_ffff_ffff ==> after.next_msg_id
                == state.next_msg_id + 1
            &&& state.next_msg_id == 0xffff_ffff_ffff_ffff ==> after.next_msg_id == 0
            &&& after.next_msg_id == number_after(state.next_msg_id)
            &&& after.node_id == state.node_id
            &&& after.shim_url == state.shim_url
            &&& state.replying(req, said) == (after, Next::Reply(reply))
        }),
{
    crate::json::law_integers_are_read_as_themselves(n);
}

/// What is said about a read: the value where there is one and the read went well, and otherwise
/// an error that tells a read that failed from one that may have taken place.
pub proof fn law_what_is_said_about_reads(value: Seq<char>, maybe: Option<bool>)
    requires
        maybe != Some(true),
    ensures
        said_of_read(ShimResponse::Success(Some((true, value)))) == Said::ReadOk(value),
        said_of_read(ShimResponse::Success(Some((false, value)))) == Said::Error(
            13,
            "shim returned unsuccessful read"@,
        ),
        said_of_read(ShimResponse::Success(None)) == Said::Error(
            14,
            "invalid read response from shim"@,
        ),
        said_of_read(
            ShimResponse::Failure(Some(ShimErrorBody { indeterminate: Some(true) })),
        ) == Said::Error(14, "indeterminate read"@),
        said_of_read(ShimResponse::Failure(Some(ShimErrorBody { indeterminate: maybe })))
            == Said::Error(13, "read failed"@),
        said_of_read(ShimResponse::Failure(None)) == Said::Error(13, "read failed"@),
        said_of_read(ShimResponse::Failed) == Said::Error(14, "read request failed"@),
{
}

/// What is said about a write: that it is done where it succeeded, whatever came back with it,
/// and otherwise an error that tells a write that failed from one that may have taken place.
pub proof fn law_what_is_said_about_writes(body: Option<()>, maybe: Option<bool>)
    requires
        maybe != Some(true),
    ensures
        said_of_write(ShimResponse::Success(body)) == Said::WriteOk,
        said_of_write(
            ShimResponse::Failure(Some(ShimErrorBody { indeterminate: Some(true) })),
        ) == Said::Error(14, "indeterminate write"@),
        said_of_write(ShimResponse::Failure(Some(ShimErrorBody { indeterminate: maybe })))
            == Said::Error(13, "write failed"@),
        said_of_write(ShimResponse::Failure(None)) == Said::Error(13, "write failed"@),
        said_of_write(ShimResponse::Failed) == Said::Error(14, "write request failed"@),
{
}

/// What is said about a compare-and-set: that it is done where it took place, nothing yet where it
/// did not, and otherwise an error that tells one that failed from one that may have taken place.
pub proof fn law_what_is_said_about_compare_and_sets(maybe: Option<bool>)
    requires
        maybe != Some(true),
    ensures
        said_of_cas(ShimResponse::Success(Some(CasBody { applied: true }))) == Some(Said::CasOk),
        said_of_cas(ShimResponse::Success(Some(CasBody { applied: false }))) is None,
        said_of_cas(ShimResponse::Success(None)) == Some(
            Said::Error(14, "invalid cas response from shim"@),
        ),
        said_of_cas(
            ShimResponse::Failure(Some(ShimErrorBody { indeterminate: Some(true) })),
        ) == Some(Said::Error(14, "indeterminate cas"@)),
        said_of_cas(ShimResponse::Failure(Some(ShimErrorBody { indeterminate: maybe }))) == Some(
            Said::Error(13, "cas failed"@),
        ),
        said_of_cas(ShimResponse::Failure(None)) == Some(Said::Error(13, "cas failed"@)),
        said_of_cas(ShimResponse::Failed) == Some(Said::Error(14, "cas request failed"@)),
{
}

/// Why a compare-and-set did not take place is told from what its key is found to hold: nothing,
/// the expected value by now, or anything else; where the key could not be read, that is said.
pub proof fn law_failed_compare_and_sets_are_explained(
    ok: bool,
    stored: Seq<char>,
    expected: Seq<char>,
    err: Option<ShimErrorBody>,
)
    ensures
        ({
            let holds = ShimResponse::Success(Some(GetModel { ok, value: Some(stored) }));
            let unset = ShimResponse::Success(Some(GetModel { ok, value: None }));
            let equal = crate::json::json_equal(crate::json::decoded(stored), expected);
            let why = said_of_failed_cas(found(holds, Some(expected)));
            &&& equal ==> why == Said::Error(22, "cas failed"@)
            &&& !equal ==> why == Said::Error(22, "cas from mismatch"@)
            &&& said_of_failed_cas(found(holds, None)) == Said::Error(22, "cas from mismatch"@)
            &&& said_of_failed_cas(found(unset, Some(expected))) == Said::Error(
                20,
                "key does not exist"@,
            )
            &&& said_of_failed_cas(found(unset, None)) == Said::Error(20, "key does not exist"@)
            &&& said_of_failed_cas(found(ShimResponse::Success(None), Some(expected)))
                == Said::Error(13, "unable to classify cas failure"@)
            &&& said_of_failed_cas(found(ShimResponse::Failure(err), Some(expected)))
                == Said::Error(13, "unable to classify cas failure"@)
            &&& said_of_failed_cas(found(ShimResponse::Failed, Some(expected))) == Said::Error(
                13,
                "unable to classify cas failure"@,
            )
        }),
{
}

/// Each thing that can be found at the key of a compare-and-set has its own error.
pub proof fn law_findings_have_their_errors()
    ensures
        said_of_failed_cas(Found::Unknown) == Said::Error(13, "unable to classify cas failure"@),
        said_of_failed_cas(Found::Nothing) == Said::Error(20, "key does not exist"@),
        said_of_failed_cas(Found::Other) == Said::Error(22, "cas from mismatch"@),
        said_of_failed_cas(Found::Expected) == Said::Error(22, "cas failed"@),
{
}

/// A reply of the gateway counts as a success exactly where its status is 200 or above and below
/// 300, and then what its body is read as counts; otherwise what it is read as an error counts.
pub proof fn law_status_decides<B>(status: u16, body: Option<B>, err: Option<ShimErrorBody>)
    ensures
        200 <= status <= 299 ==> response_seen(status, body, err) == ShimResponse::Success(body),
        status < 200 || status > 299 ==> response_seen(status, body, err)
            == ShimResponse::<B>::Failure(err),
{
}

/// What a read at the gateway gave stands for the value that the stored text stands for, or for
/// null where the key is not set; a failed exchange stays one, with its error.
pub proof fn law_reads_stand_for_their_values(
    ok: bool,
    stored: String,
    value: Json,
    err: Option<ShimErrorBody>,
)
    ensures
        ({
            let holds = ShimResponse::Success(Some(GetBody { ok, value: Some(stored) }));
            let unset = ShimResponse::Success(Some(GetBody { ok, value: None }));
            let unread = ShimResponse::<GetBody>::Success(None);
            let failure = ShimResponse::<GetBody>::Failure(err);
            let failed = ShimResponse::<GetBody>::Failed;
            &&& get_response_of(holds) == ShimResponse::Success(
                Some(GetModel { ok, value: Some(stored@) }),
            )
            &&& get_response_of(unset) == ShimResponse::Success(Some(GetModel { ok, value: None }))
            &&& get_response_of(unread) == ShimResponse::<GetModel>::Success(None)
            &&& get_response_of(failure) == ShimResponse::<GetModel>::Failure(err)
            &&& get_response_of(failed) == ShimResponse::<GetModel>::Failed
            &&& read_response_of(get_response_of(holds)) == ShimResponse::Success(
                Some((ok, crate::json::decoded(stored@))),
            )
            &&& read_response_of(get_response_of(unset)) == ShimResponse::Success(
                Some((ok, "null"@)),
            )
            &&& read_response_of(get_response_of(unread)) == ShimResponse::<
                (bool, Seq<char>),
            >::Success(None)
            &&& read_response_of(get_response_of(failure)) == ShimResponse::<
                (bool, Seq<char>),
            >::Failure(err)
            &&& read_response_of(get_response_of(failed)) == ShimResponse::<
                (bool, Seq<char>),
            >::Failed
        }),
        value_response_of(ShimResponse::Success(Some((ok, value)))) == ShimResponse::Success(
            Some((ok, value@)),
        ),
        value_response_of(ShimResponse::Success(None)) == ShimResponse::<
            (bool, Seq<char>),
        >::Success(None),
        value_response_of(ShimResponse::Failure(err)) == ShimResponse::<
            (bool, Seq<char>),
        >::Failure(err),
        value_response_of(ShimResponse::Failed) == ShimResponse::<(bool, Seq<char>)>::Failed,
{
}

/// A reply as a JSON object says from whom to whom it goes, what type it is of, which request it
/// answers and which number it has; one to a read gives the value, and an error its code and
/// explanation, and no other gives those.
pub proof fn law_replies_are_written_out(
    reply: Replied,
    text: Seq<char>,
    body: Seq<char>,
    value: Seq<char>,
    code: i64,
    explanation: Seq<char>,
)
    requires
        crate::json::has_members(text, reply.members(body)),
        crate::json::has_members(body, reply.body_members()),
    ensures
        crate::json::json_member(text, "src"@) == Some(crate::json::json_of_string(reply.src)),
        crate::json::json_member(text, "dest"@) == Some(crate::json::json_of_string(reply.dest)),
        crate::json::json_member(text, "body"@) == Some(body),
        crate::json::json_member(body, "in_reply_to"@) == Some(
            crate::text::signed_decimal(reply.in_reply_to as int),
        ),
        crate::json::json_member(body, "msg_id"@) == Some(
            crate::text::decimal(reply.msg_id as nat),
        ),
        ({
            let msg_type = crate::json::json_member(body, "type"@);
            &&& reply.body is InitOk ==> msg_type == Some(crate::json::json_of_string("init_ok"@))
            &&& reply.body is ReadOk ==> msg_type == Some(crate::json::json_of_string("read_ok"@))
            &&& reply.body is WriteOk ==> msg_type == Some(
                crate::json::json_of_string("write_ok"@),
            )
            &&& reply.body is CasOk ==> msg_type == Some(crate::json::json_of_string("cas_ok"@))
            &&& reply.body is Error ==> msg_type == Some(crate::json::json_of_string("error"@))
        }),
        reply.body == Said::ReadOk(value) ==> crate::json::json_member(body, "value"@) == Some(
            value,
        ),
        !(reply.body is ReadOk) ==> crate::json::json_member(body, "value"@) is None,
        reply.body == Said::Error(code, explanation) ==> {
            &&& crate::json::json_member(body, "code"@) == Some(
                crate::text::signed_decimal(code as int),
            )
            &&& crate::json::json_member(body, "text"@) == Some(
                crate::json::json_of_string(explanation),
            )
        },
        !(reply.body is Error) ==> {
            &&& crate::json::json_member(body, "code"@) is None
            &&& crate::json::json_member(body, "text"@) is None
        },
{
    reveal_strlit("src");
    reveal_strlit("dest");
    reveal_strlit("body");
    reveal_strlit("type");
    reveal_strlit("in_reply_to");
    reveal_strlit("msg_id");
    reveal_strlit("value");
    reveal_strlit("code");
    reveal_strlit("text");
    assert("src"@.len() == 3 && "dest"@[0] == 'd' && "body"@[0] == 'b');
    assert("type"@.len() == 4 && "code"@.len() == 4 && "text"@.len() == 4);
    assert("type"@[1] == 'y' && "code"@[1] == 'o' && "text"@[1] == 'e');
    assert("in_reply_to"@.len() == 11 && "msg_id"@.len() == 6 && "value"@.len() == 5);
}

/// What a node sees of a reply of the gateway is what the reply says, where the sort of its body
/// fits the request.
pub proof fn law_replies_of_the_gateway_are_seen(
    ok: bool,
    applied: bool,
    maybe: bool,
    value: Option<Seq<char>>,
    error: Seq<char>,
    status: u16,
)
    requires
        status < 200 || status > 299,
    ensures
        get_seen(ReplyModel { status: 200, body: BodyModel::Get { ok, value } })
            == ShimResponse::Success(Some(GetModel { ok, value })),
        put_seen(ReplyModel { status: 200, body: BodyModel::Put { ok } }) is Success,
        cas_seen(ReplyModel { status: 200, body: BodyModel::Cas { ok, applied } })
            == ShimResponse::Success(Some(CasBody { applied })),
        ({
            let failed = ReplyModel {
                status,
                body: BodyModel::Error { ok, indeterminate: maybe, error },
            };
            let err = Some(ShimErrorBody { indeterminate: Some(maybe) });
            &&& get_seen(failed) == ShimResponse::<GetModel>::Failure(err)
            &&& put_seen(failed) == ShimResponse::<()>::Failure(err)
            &&& cas_seen(failed) == ShimResponse::<CasBody>::Failure(err)
        }),
{
}

/// Whatever else a request holds, a read asks for its key, a write for its value at its key, and a
/// compare-and-set for its key, its `from` and its `to`, in these roles; nothing of the node
/// changes then. One that lacks a part is replied to with an error that names the part.
pub proof fn law_operations_ask_for_their_parts(
    state: NodeState,
    req: Request,
    key: Seq<char>,
    value: Seq<char>,
    from: Seq<char>,
    to: Seq<char>,
)
    ensures
        ({
            let url = state.shim_url + "/kv/"@ + crate::url::url_encoded(key);
            let cas_url = state.shim_url + "/kv/cas"@;
            &&& state.key_url(key) == url
            &&& state.cas_url() == cas_url
            &&& req.key == Some(key) ==> state.read(req) == (state, Next::Read { url, req })
            &&& req.key == Some(key) && req.value == Some(value) ==> state.write(req) == (
                state,
                Next::Write { url, value, req },
            )
            &&& req.key == Some(key) && req.from == Some(from) && req.to == Some(to) ==> state.cas(
                req,
            ) == (state, Next::Cas { url: cas_url, key, from, to, req })
        }),
        req.key is None ==> {
            &&& state.read(req) == state.replying(req, Said::Error(13, "read missing key"@))
            &&& state.write(req) == state.replying(req, Said::Error(13, "write missing key"@))
            &&& state.cas(req) == state.replying(req, Said::Error(13, "cas missing key"@))
        },
        req.key is Some && req.value is None ==> state.write(req) == state.replying(
            req,
            Said::Error(13, "write missing value"@),
        ),
        req.key is Some && req.from is None ==> state.cas(req) == state.replying(
            req,
            Said::Error(13, "cas missing from"@),
        ),
        req.key is Some && req.from is Some && req.to is None ==> state.cas(req) == state.replying(
            req,
            Said::Error(13, "cas missing to"@),
        ),
{
}

/// Whatever else a request holds, taking up a name gives the node the name in the request, or
/// `n0`, and replies under it; each reply carries the number of the request, or 0, and goes to
/// whoever asked.
pub proof fn law_names_and_numbers_come_from_requests(
    state: NodeState,
    req: Request,
    name: Seq<char>,
    said: Said,
)
    ensures
        ({
            let (after, next) = state.init(req);
            &&& req.node_id == Some(name) ==> after.node_id == name
            &&& req.node_id is None ==> after.node_id == "n0"@
            &&& after.shim_url == state.shim_url
            &&& next == Next::Reply(
                Replied {
                    src: after.node_id,
                    dest: req.src,
                    in_reply_to: if req.msg_id is Some {
                        req.msg_id.unwrap()
                    } else {
                        0
                    },
                    msg_id: state.next_msg_id,
                    body: Said::InitOk,
                },
            )
            &&& after.next_msg_id == state.reply(req, said).0.next_msg_id
        }),
        ({
            let (after, reply) = state.reply(req, said);
            &&& reply.src == state.node_id
            &&& reply.dest == req.src
            &&& req.msg_id is None ==> reply.in_reply_to == 0
            &&& req.msg_id is Some ==> reply.in_reply_to == req.msg_id.unwrap()
            &&& reply.msg_id == state.next_msg_id
            &&& reply.body == said
            &&& state.next_msg_id < 0xffff_ffff_ffff_ffff ==> after.next_msg_id
                == state.next_msg_id + 1
            &&& state.next_msg_id == 0xffff_ffff_ffff_ffff ==> after.next_msg_id == 0
            &&& after.node_id == state.node_id
            &&& after.shim_url == state.shim_url
        }),
{
}

/// A request is carried out as its type says, whatever else it holds, and one of another type or
/// of none is not supported.
pub proof fn law_types_decide(state: NodeState, req: Request)
    ensures
        req.msg_type == Some("init"@) ==> state.handle(req) == state.init(req),
        req.msg_type == Some("read"@) ==> state.handle(req) == state.read(req),
        req.msg_type == Some("write"@) ==> state.handle(req) == state.write(req),
        req.msg_type == Some("cas"@) ==> state.handle(req) == state.cas(req),
        req.msg_type != Some("init"@) && req.msg_type != Some("read"@) && req.msg_type != Some(
            "write"@,
        ) && req.msg_type != Some("cas"@) ==> state.handle(req) == state.replying(
            req,
            Said::Error(10, "unsupported request type"@),
        ),
{
    lemma_types_differ();
}

} // verus!
