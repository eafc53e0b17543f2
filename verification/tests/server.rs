use omnipaxos_kv::config::{ClusterConfig, LocalConfig, OmniPaxosKVConfig};
use omnipaxos_kv::kv::{Command, KVCommand};
use omnipaxos_kv::messages::{ClientMessage, ClusterMessage, ServerMessage};
use omnipaxos_kv::server::{
    ClusterAction, LogEntry, OmniPaxosServer, RunEvent, RunStep, StartAction, StartEvent,
};

fn server(id: u64, num_clients: usize) -> OmniPaxosServer {
    OmniPaxosServer::new(&OmniPaxosKVConfig {
        local: LocalConfig {
            server_id: id,
            listen_address: "0.0.0.0".to_string(),
            listen_port: 8000,
            num_clients,
            output_filepath: "out.json".to_string(),
        },
        cluster: ClusterConfig {
            nodes: vec![1, 2, 3],
            node_addrs: vec!["s1:8000".to_string(), "s2:8000".to_string(), "s3:8000".to_string()],
            initial_leader: 1,
        },
    })
}

fn command(client_id: u64, coordinator_id: u64, id: usize, kv_cmd: KVCommand) -> Command {
    Command { client_id, coordinator_id, id, kv_cmd }
}

fn put(key: &str, value: &str) -> KVCommand {
    KVCommand::Put(key.to_string(), value.to_string())
}

fn get(key: &str) -> KVCommand {
    KVCommand::Get(key.to_string())
}

fn cas(key: &str, from: &str, to: &str) -> KVCommand {
    KVCommand::Cas(key.to_string(), from.to_string(), to.to_string())
}

fn log() -> Vec<Command> {
    vec![
        command(1, 1, 1, put("foo", "bar")),
        command(4, 2, 1, get("foo")),
        command(1, 1, 2, cas("foo", "bar", "baz")),
        command(2, 1, 1, cas("foo", "bar", "qux")),
        command(4, 2, 2, KVCommand::Delete("other".to_string())),
        command(1, 1, 3, get("foo")),
    ]
}

fn shown(messages: Vec<(u64, ServerMessage)>) -> Vec<(u64, String)> {
    messages.iter().map(|(to, m)| (*to, m.debug_text())).collect()
}

fn entry(to: u64, text: &str) -> (u64, String) {
    (to, text.to_string())
}

#[test]
fn own_commands_are_answered_in_log_order() {
    let responses = server(1, 1).update_database_and_respond(log());
    assert_eq!(
        shown(responses),
        vec![
            entry(1, "Write(1)"),
            entry(1, "CasOk(2)"),
            entry(2, "CasFail(1)"),
            entry(1, "Read(3, Some(\"baz\"))"),
        ]
    );
    let responses = server(2, 1).update_database_and_respond(log());
    assert_eq!(
        shown(responses),
        vec![entry(4, "Read(1, Some(\"bar\"))"), entry(4, "Write(2)")]
    );
}

#[test]
fn commands_of_others_are_applied_but_not_answered() {
    let mut replica = server(3, 1);
    assert!(replica.update_database_and_respond(log()).is_empty());
    let responses = replica.update_database_and_respond(vec![command(9, 3, 5, get("foo"))]);
    assert_eq!(shown(responses), vec![entry(9, "Read(5, Some(\"baz\"))")]);
}

#[test]
fn reads_see_the_last_write_before_them() {
    let log = vec![
        command(1, 1, 1, get("k")),
        command(1, 1, 2, cas("k", "a", "b")),
        command(1, 1, 3, put("k", "a")),
        command(1, 1, 4, get("k")),
        command(1, 1, 5, cas("k", "a", "b")),
        command(1, 1, 6, put("other", "c")),
        command(1, 1, 7, get("k")),
        command(1, 1, 8, KVCommand::Delete("k".to_string())),
        command(1, 1, 9, get("k")),
    ];
    assert_eq!(
        shown(server(1, 1).update_database_and_respond(log)),
        vec![
            entry(1, "Read(1, None)"),
            entry(1, "CasFail(2)"),
            entry(1, "Write(3)"),
            entry(1, "Read(4, Some(\"a\"))"),
            entry(1, "CasOk(5)"),
            entry(1, "Write(6)"),
            entry(1, "Read(7, Some(\"b\"))"),
            entry(1, "Write(8)"),
            entry(1, "Read(9, None)"),
        ]
    );
}

#[test]
fn log_in_parts_gives_the_same_answers() {
    let whole = shown(server(1, 1).update_database_and_respond(log()));
    for cut in 0..log().len() + 1 {
        let mut replica = server(1, 1);
        let mut first = log();
        let second = first.split_off(cut);
        let mut parts = shown(replica.update_database_and_respond(first));
        parts.extend(shown(replica.update_database_and_respond(second)));
        assert_eq!(parts, whole);
    }
}

#[test]
fn restarted_replica_has_what_it_had() {
    let mut before = server(1, 1);
    before.update_database_and_respond(log());
    let mut after = server(1, 1);
    let entries: Vec<LogEntry> = log().into_iter().map(LogEntry::Decided).collect();
    after.handle_decided_entries(6, entries);
    let a = before.update_database_and_respond(vec![command(1, 1, 9, get("foo"))]);
    let b = after.update_database_and_respond(vec![command(1, 1, 9, get("foo"))]);
    assert_eq!(shown(a), vec![entry(1, "Read(9, Some(\"baz\"))")]);
    assert_eq!(shown(b), vec![entry(1, "Read(9, Some(\"baz\"))")]);
}

#[test]
fn decided_entries_are_applied_once() {
    let mut replica = server(1, 1);
    assert_eq!(replica.unapplied_from(0), None);
    assert_eq!(replica.unapplied_from(2), Some(0));
    let entries = vec![
        LogEntry::Decided(command(1, 1, 1, put("k", "v"))),
        LogEntry::Decided(command(1, 1, 2, get("k"))),
    ];
    let responses = replica.handle_decided_entries(2, entries);
    assert_eq!(shown(responses), vec![entry(1, "Write(1)"), entry(1, "Read(2, Some(\"v\"))")]);
    assert_eq!(replica.unapplied_from(2), None);
    assert_eq!(replica.unapplied_from(1), None);
    assert_eq!(replica.unapplied_from(3), Some(2));
    let stale = vec![LogEntry::Decided(command(1, 1, 3, put("k", "w"))), LogEntry::Other];
    assert!(replica.handle_decided_entries(2, stale).is_empty());
    let read = vec![LogEntry::Decided(command(1, 1, 4, get("k")))];
    assert_eq!(
        shown(replica.handle_decided_entries(3, read)),
        vec![entry(1, "Read(4, Some(\"v\"))")]
    );
}

#[test]
fn client_messages_become_commands_of_this_server() {
    let messages = vec![
        (7, ClientMessage::Append(1, put("a", "1"))),
        (8, ClientMessage::Append(1, get("a"))),
    ];
    let commands = server(2, 2).handle_client_messages(messages);
    assert_eq!(commands.len(), 2);
    assert_eq!((commands[0].client_id, commands[0].coordinator_id, commands[0].id), (7, 2, 1));
    assert!(matches!(&commands[0].kv_cmd, KVCommand::Put(k, v) if k == "a" && v == "1"));
    assert_eq!((commands[1].client_id, commands[1].coordinator_id, commands[1].id), (8, 2, 1));
    assert!(matches!(&commands[1].kv_cmd, KVCommand::Get(k) if k == "a"));
}

#[test]
fn cluster_batch_with_a_start_signal() {
    let mut batch = OmniPaxosServer::handle_cluster_messages(vec![
        (1, ClusterMessage::OmniPaxosMessage("x")),
        (1, ClusterMessage::LeaderStartSignal(99)),
        (3, ClusterMessage::OmniPaxosMessage("y")),
    ]);
    assert_eq!(batch.next(), ClusterAction::HandleIncoming("x"));
    assert_eq!(batch.next(), ClusterAction::SignalClients(99));
    assert_eq!(batch.next(), ClusterAction::HandleIncoming("y"));
    assert_eq!(batch.next(), ClusterAction::Finished(true));
    assert_eq!(batch.next(), ClusterAction::Finished(true));
}

#[test]
fn cluster_batch_without_a_start_signal() {
    let mut batch =
        OmniPaxosServer::handle_cluster_messages(vec![(1, ClusterMessage::OmniPaxosMessage(5))]);
    assert_eq!(batch.next(), ClusterAction::HandleIncoming(5));
    assert_eq!(batch.next(), ClusterAction::Finished(false));
    let mut empty = OmniPaxosServer::handle_cluster_messages(Vec::<(u64, ClusterMessage<u8>)>::new());
    assert_eq!(empty.next(), ClusterAction::Finished(false));
}

#[test]
fn initial_leader_takes_over() {
    let leader = server(1, 1);
    let tick = |who| leader.establish_initial_leader(StartEvent::TakeoverTick(who));
    assert_eq!(tick(None), StartAction::TryBecomeLeader);
    assert_eq!(tick(Some((1, false))), StartAction::TryBecomeLeader);
    assert_eq!(tick(Some((2, true))), StartAction::TryBecomeLeader);
    assert_eq!(tick(Some((1, true))), StartAction::Announce);
}

#[test]
fn other_servers_wait_for_the_start_signal() {
    let follower = server(2, 1);
    let next = |event| follower.establish_initial_leader(event);
    assert_eq!(next(StartEvent::TakeoverTick(Some((2, true)))), StartAction::Wait);
    assert_eq!(next(StartEvent::ClientMessagesHandled), StartAction::Wait);
    assert_eq!(next(StartEvent::ClusterMessagesHandled(false)), StartAction::Wait);
    assert_eq!(next(StartEvent::ClusterMessagesHandled(true)), StartAction::Finish);
}

#[test]
fn start_signals() {
    let start = OmniPaxosServer::experiment_sync_start(1_000);
    assert_eq!(start, 3_000);
    let to_cluster: Vec<(u64, ClusterMessage<u8>)> = server(1, 2).send_cluster_start_signals(start);
    assert_eq!(to_cluster.len(), 2);
    assert!(matches!(to_cluster[0], (2, ClusterMessage::LeaderStartSignal(3_000))));
    assert!(matches!(to_cluster[1], (3, ClusterMessage::LeaderStartSignal(3_000))));
    let to_clients = shown(server(1, 2).send_client_start_signals(start));
    assert_eq!(to_clients, vec![entry(1, "StartSignal(3000)"), entry(2, "StartSignal(3000)")]);
    assert!(server(1, 0).send_client_start_signals(start).is_empty());

    let (to_cluster, to_clients) = server(1, 2).announce::<u8>(5_000);
    assert_eq!(to_cluster.len(), 2);
    assert!(matches!(to_cluster[0], (2, ClusterMessage::LeaderStartSignal(7_000))));
    assert!(matches!(to_cluster[1], (3, ClusterMessage::LeaderStartSignal(7_000))));
    assert_eq!(
        shown(to_clients),
        vec![entry(1, "StartSignal(7000)"), entry(2, "StartSignal(7000)")]
    );
}

#[test]
fn outgoing_messages_keep_order_and_receivers() {
    let sent = OmniPaxosServer::send_outgoing_msgs(vec![(3, "a"), (2, "b"), (3, "c")]);
    let seen: Vec<(u64, &str)> = sent
        .iter()
        .map(|(to, m)| match m {
            ClusterMessage::OmniPaxosMessage(m) => (*to, *m),
            ClusterMessage::LeaderStartSignal(_) => panic!("unexpected start signal"),
        })
        .collect();
    assert_eq!(seen, vec![(3, "a"), (2, "b"), (3, "c")]);
}

#[test]
fn normal_operation() {
    assert_eq!(
        OmniPaxosServer::run(RunEvent::ElectionTimeout),
        vec![RunStep::Tick, RunStep::ReconnectPeers, RunStep::SendOutgoing]
    );
    assert_eq!(
        OmniPaxosServer::run(RunEvent::ClusterMessages),
        vec![RunStep::HandleClusterMessages, RunStep::SendOutgoing]
    );
    assert_eq!(
        OmniPaxosServer::run(RunEvent::ClientMessages),
        vec![RunStep::HandleClientMessages, RunStep::SendOutgoing]
    );
}
