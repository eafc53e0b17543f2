use omnipaxos_kv::database::{CommandResult, Database};
use omnipaxos_kv::kv::KVCommand;
use omnipaxos_kv::messages::{ClientMessage, RegistrationMessage, ServerMessage};
use omnipaxos_kv::network::{ConnectAction, ConnectEvent};
use omnipaxos_kv::shim::{
    cas_command, cas_value, connect_step, get_command, get_value, parse_or, put_command,
    put_value, shim_error_response, Arrival, CasResponse, Dispatched, ErrorResponse, GetResponse,
    PutResponse, ShimBody, ShimClient, ShimError, ShimReply, ShimSettings, Waited,
};
use tokio::sync::oneshot;

fn reply(status: u16, body: ShimBody) -> ShimReply {
    ShimReply { status, body }
}

fn error(status: u16, indeterminate: bool, error: &str) -> ShimReply {
    let error = error.to_string();
    reply(status, ShimBody::Error(ErrorResponse { ok: false, indeterminate, error }))
}

#[test]
fn replies_to_a_write() {
    let ok = reply(200, ShimBody::Put(PutResponse { ok: true }));
    assert_eq!(put_value(Ok(ServerMessage::Write(3))), ok);
    assert_eq!(
        put_value(Ok(ServerMessage::CasOk(3))),
        error(502, false, "unexpected response for put: CasOk(3)")
    );
    assert_eq!(
        put_value(Ok(ServerMessage::Read(3, Some("x\"y".to_string())))),
        error(502, false, "unexpected response for put: Read(3, Some(\"x\\\"y\"))")
    );
    assert_eq!(put_value(Err(ShimError::Timeout)), shim_error_response(ShimError::Timeout));
}

#[test]
fn replies_to_a_read() {
    let found = GetResponse { ok: true, value: Some("v".to_string()) };
    assert_eq!(
        get_value(Ok(ServerMessage::Read(3, Some("v".to_string())))),
        reply(200, ShimBody::Get(found))
    );
    assert_eq!(
        get_value(Ok(ServerMessage::Read(3, None))),
        reply(200, ShimBody::Get(GetResponse { ok: true, value: None }))
    );
    assert_eq!(
        get_value(Ok(ServerMessage::Write(4))),
        error(502, false, "unexpected response for get: Write(4)")
    );
    assert_eq!(
        get_value(Err(ShimError::Disconnected)),
        shim_error_response(ShimError::Disconnected)
    );
}

#[test]
fn replies_to_a_compare_and_set() {
    let applied = reply(200, ShimBody::Cas(CasResponse { ok: true, applied: true }));
    let refused = reply(200, ShimBody::Cas(CasResponse { ok: true, applied: false }));
    assert_eq!(cas_value(Ok(ServerMessage::CasOk(3))), applied);
    assert_eq!(cas_value(Ok(ServerMessage::CasFail(3))), refused);
    assert_eq!(
        cas_value(Ok(ServerMessage::StartSignal(-5))),
        error(502, false, "unexpected response for cas: StartSignal(-5)")
    );
    assert_eq!(cas_value(Err(ShimError::Timeout)), shim_error_response(ShimError::Timeout));
}

#[test]
fn replies_without_an_answer() {
    assert_eq!(
        shim_error_response(ShimError::Timeout),
        error(504, true, "request timed out; operation may or may not have succeeded")
    );
    assert_eq!(
        shim_error_response(ShimError::Disconnected),
        error(503, true, "connection to server lost")
    );
}

#[test]
fn commands_of_requests() {
    let s = |text: &str| text.to_string();
    assert!(matches!(put_command(s("k"), s("v")), KVCommand::Put(k, v) if k == "k" && v == "v"));
    assert!(matches!(get_command(s("k")), KVCommand::Get(k) if k == "k"));
    assert!(matches!(
        cas_command(s("k"), s("a"), s("b")),
        KVCommand::Cas(k, a, b) if k == "k" && a == "a" && b == "b"
    ));
}

fn run(db: &mut Database, command: KVCommand) -> Result<ServerMessage, ShimError> {
    let result: CommandResult = db.handle_command(command);
    Ok(ServerMessage::answer(1, result))
}

#[test]
fn put_get_and_cas_through_the_gateway() {
    let s = |text: &str| text.to_string();
    let mut db = Database::new();
    let put = put_value(run(&mut db, put_command(s("foo"), s("bar"))));
    assert_eq!(put, reply(200, ShimBody::Put(PutResponse { ok: true })));
    let get = get_value(run(&mut db, get_command(s("foo"))));
    assert_eq!(get, reply(200, ShimBody::Get(GetResponse { ok: true, value: Some(s("bar")) })));
    let cas = cas_value(run(&mut db, cas_command(s("foo"), s("bar"), s("baz"))));
    assert_eq!(cas, reply(200, ShimBody::Cas(CasResponse { ok: true, applied: true })));
    let get = get_value(run(&mut db, get_command(s("foo"))));
    assert_eq!(get, reply(200, ShimBody::Get(GetResponse { ok: true, value: Some(s("baz")) })));
    let cas = cas_value(run(&mut db, cas_command(s("foo"), s("bar"), s("qux"))));
    assert_eq!(cas, reply(200, ShimBody::Cas(CasResponse { ok: true, applied: false })));
}

#[test]
fn commands_are_named_in_turn() {
    let mut client = ShimClient::connect();
    let (id, message) = client.send_command(get_command("k".to_string()), "first");
    assert_eq!(id, 1);
    assert!(matches!(message, ClientMessage::Append(1, KVCommand::Get(k)) if k == "k"));
    let (id, _) = client.send_command(get_command("k".to_string()), "second");
    assert_eq!(id, 2);
}

#[test]
fn answers_reach_their_requests_once() {
    let mut client = ShimClient::connect();
    let (first, _) = client.send_command(get_command("k".to_string()), "first");
    let (second, _) = client.send_command(get_command("k".to_string()), "second");
    let arrival = client.arrived(Some(ServerMessage::Write(second)));
    assert!(matches!(arrival, Arrival::Deliver("second", ServerMessage::Write(2))));
    let arrival = client.arrived(Some(ServerMessage::Write(second)));
    assert!(matches!(arrival, Arrival::NoPendingRequest(2)));
    let arrival = client.arrived(Some(ServerMessage::CasFail(first)));
    assert!(matches!(arrival, Arrival::Deliver("first", ServerMessage::CasFail(1))));
    assert!(matches!(client.arrived(Some(ServerMessage::StartSignal(1))), Arrival::Ignored));
    assert!(matches!(client.arrived(None), Arrival::Malformed));
}

#[test]
fn requests_that_end_without_an_answer() {
    let mut client = ShimClient::connect();
    let (first, _) = client.send_command(get_command("k".to_string()), "first");
    assert_eq!(client.send_command_failed(first), ShimError::Disconnected);
    let arrival = client.arrived(Some(ServerMessage::Write(first)));
    assert!(matches!(arrival, Arrival::NoPendingRequest(1)));

    let (second, _) = client.send_command(get_command("k".to_string()), "second");
    let result = client.send_command_finished(second, Waited::TimedOut);
    assert!(matches!(result, Err(ShimError::Timeout)));
    let arrival = client.arrived(Some(ServerMessage::Write(second)));
    assert!(matches!(arrival, Arrival::NoPendingRequest(2)));

    let (third, _) = client.send_command(get_command("k".to_string()), "third");
    let result = client.send_command_finished(third, Waited::Abandoned);
    assert!(matches!(result, Err(ShimError::Disconnected)));
    let arrival = client.arrived(Some(ServerMessage::Write(third)));
    assert!(matches!(arrival, Arrival::Deliver("third", _)));

    let replied = Waited::Replied(ServerMessage::Write(3));
    let result = client.send_command_finished(third, replied);
    assert!(matches!(result, Ok(ServerMessage::Write(3))));
}

#[test]
fn answers_are_handed_over() {
    let mut client = ShimClient::connect();
    let (tx, mut rx) = oneshot::channel();
    let (id, _) = client.send_command(get_command("k".to_string()), tx);
    let answer = ServerMessage::Read(id, Some("v".to_string()));
    assert_eq!(client.dispatch(Some(answer)), Dispatched::Delivered);
    assert!(matches!(rx.try_recv(), Ok(ServerMessage::Read(1, Some(v))) if v == "v"));

    let (tx, rx) = oneshot::channel();
    let (id, _) = client.send_command(get_command("k".to_string()), tx);
    drop(rx);
    assert_eq!(client.dispatch(Some(ServerMessage::Write(id))), Dispatched::Unclaimed);
    let again = client.dispatch(Some(ServerMessage::Write(id)));
    assert_eq!(again, Dispatched::NoPendingRequest(2));
    assert_eq!(client.dispatch(Some(ServerMessage::StartSignal(0))), Dispatched::Ignored);
    assert_eq!(client.dispatch(None), Dispatched::Malformed);
}

#[test]
fn gateway_connects_as_a_client() {
    assert!(matches!(connect_step(ConnectEvent::ConnectFailed), ConnectAction::Retry));
    assert!(matches!(connect_step(ConnectEvent::Connected), ConnectAction::SetNodelay));
    assert!(matches!(
        connect_step(ConnectEvent::NodelaySet),
        ConnectAction::SendHandshake(RegistrationMessage::ClientRegister)
    ));
    assert!(matches!(connect_step(ConnectEvent::HandshakeSent), ConnectAction::Install));
}

#[test]
fn settings_have_defaults() {
    let settings = ShimSettings::new(None, None, None, None);
    assert_eq!(settings.server_id, 1);
    assert_eq!(settings.server_address, "127.0.0.1:8001");
    assert_eq!(settings.bind_address, "127.0.0.1:3000");
    assert_eq!(settings.timeout_ms, 3000);
    let s = |text: &str| Some(text.to_string());
    let settings = ShimSettings::new(s("2"), s("s2:8002"), s("0.0.0.0:80"), s("x"));
    assert_eq!(settings.server_id, 2);
    assert_eq!(settings.server_address, "s2:8002");
    assert_eq!(settings.bind_address, "0.0.0.0:80");
    assert_eq!(settings.timeout_ms, 3000);
}

#[test]
fn numbers_are_read_as_decimal() {
    let read = |text: &str| parse_or(Some(text.to_string()), 7);
    assert_eq!(read("0"), 0);
    assert_eq!(read("+42"), 42);
    assert_eq!(read("0042"), 42);
    assert_eq!(read("18446744073709551615"), u64::MAX);
    for bad in ["", "+", "-1", " 1", "1 ", "1_000", "0x10", "18446744073709551616", "++1", "1.0"] {
        assert_eq!(read(bad), 7);
    }
    assert_eq!(parse_or(None, 7), 7);
}
