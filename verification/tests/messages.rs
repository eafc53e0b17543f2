use omnipaxos_kv::database::CommandResult;
use omnipaxos_kv::messages::{show_read, ServerMessage};

#[test]
fn answers_match_results() {
    assert!(matches!(ServerMessage::answer(7, CommandResult::Write), ServerMessage::Write(7)));
    let read = ServerMessage::answer(7, CommandResult::Read(Some("v".to_string())));
    assert!(matches!(read, ServerMessage::Read(7, Some(v)) if v == "v"));
    assert!(matches!(
        ServerMessage::answer(7, CommandResult::Read(None)),
        ServerMessage::Read(7, None)
    ));
    assert!(matches!(ServerMessage::answer(7, CommandResult::Cas(true)), ServerMessage::CasOk(7)));
    assert!(matches!(ServerMessage::answer(7, CommandResult::Cas(false)), ServerMessage::CasFail(7)));
}

#[test]
fn command_ids() {
    assert_eq!(ServerMessage::Write(1).command_id(), 1);
    assert_eq!(ServerMessage::Read(2, None).command_id(), 2);
    assert_eq!(ServerMessage::CasOk(3).command_id(), 3);
    assert_eq!(ServerMessage::CasFail(usize::MAX).command_id(), usize::MAX);
}

#[test]
fn diagnostic_text_is_that_of_debug() {
    let all = vec![
        ServerMessage::Write(0),
        ServerMessage::Write(usize::MAX),
        ServerMessage::Read(10, None),
        ServerMessage::Read(11, Some("say \"hi\"\n\u{1F600} \\ \t\u{0}".to_string())),
        ServerMessage::CasOk(12),
        ServerMessage::CasFail(13),
        ServerMessage::StartSignal(-1700000000123),
        ServerMessage::StartSignal(0),
        ServerMessage::StartSignal(i64::MIN),
        ServerMessage::StartSignal(i64::MAX),
    ];
    for message in &all {
        assert_eq!(message.debug_text(), format!("{:?}", message));
    }
}

#[test]
fn diagnostic_text_of_a_read() {
    assert_eq!(show_read(5, None), "Read(5, None)");
    assert_eq!(show_read(5, Some("\"x\"".to_string())), "Read(5, Some(\"x\"))");
    assert_eq!(
        ServerMessage::Read(5, Some("x".to_string())).debug_text(),
        "Read(5, Some(\"x\"))"
    );
}
