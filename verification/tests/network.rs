use omnipaxos_kv::link::{ClientConnection, PeerConnection};
use omnipaxos_kv::messages::{ClusterMessage, RegistrationMessage, ServerMessage};
use omnipaxos_kv::network::{
    connect_step, peer_addresses, peers_to_connect_to, reconnect_step, ClientDelivery, ClientIds,
    ConnectAction, ConnectEvent, Handshake, Identified, Network, NewConnection, PeerDelivery,
    ReconnectTarget, Sent,
};
use tokio::runtime::{Builder, Runtime};
use tokio::sync::mpsc;

type Links = Network<u16, &'static str>;
type FromPeer = mpsc::UnboundedReceiver<ClusterMessage<&'static str>>;
type FromClient = mpsc::UnboundedReceiver<ServerMessage>;

fn peers() -> Vec<(u64, u16)> {
    peer_addresses(2, &vec![1, 2, 3], &vec![8001, 8002, 8003])
}

fn network() -> Links {
    Network::new(2, &peers(), 100)
}

fn runtime() -> Runtime {
    Builder::new_current_thread().build().unwrap()
}

fn peer(runtime: &Runtime, id: u64) -> (PeerConnection<&'static str>, FromPeer) {
    let (tx, rx) = mpsc::unbounded_channel();
    let reader_task = runtime.spawn(std::future::pending());
    let writer_task = runtime.spawn(std::future::pending());
    (PeerConnection::new(id, reader_task, writer_task, tx), rx)
}

fn client(runtime: &Runtime, id: u64) -> (ClientConnection, FromClient) {
    let (tx, rx) = mpsc::unbounded_channel();
    let reader_task = runtime.spawn(std::future::pending());
    let writer_task = runtime.spawn(std::future::pending());
    (ClientConnection::new(id, reader_task, writer_task, tx), rx)
}

#[test]
fn peers_come_with_their_addresses() {
    assert_eq!(peers(), vec![(1, 8001), (3, 8003)]);
    assert_eq!(peer_addresses(9, &vec![1, 2, 3], &vec![8001]), vec![(1, 8001)]);
    assert_eq!(peer_addresses(1, &vec![1], &vec![8001, 8002]), vec![]);
}

#[test]
fn smaller_peers_are_dialled() {
    assert_eq!(peers_to_connect_to(2, &peers()), vec![(1, 8001)]);
    assert_eq!(peers_to_connect_to(1, &peers()), vec![]);
    assert_eq!(peers_to_connect_to(4, &peers()), peers());
}

#[test]
fn missing_links_are_found() {
    let runtime = runtime();
    let mut net = network();
    assert_eq!(net.batch_size(), 100);
    let target = ReconnectTarget { index: 0, peer_id: 1, address: 8001 };
    assert_eq!(net.try_reconnect_peers(0), Some(target));
    assert_eq!(net.try_reconnect_peers(1), None);
    assert_eq!(net.try_reconnect_peers(usize::MAX), None);
    let (link, mut from_one) = peer(&runtime, 1);
    net.reconnected(0, link);
    assert_eq!(net.try_reconnect_peers(0), None);
    assert_eq!(net.send_to_cluster(1, ClusterMessage::OmniPaxosMessage("m")), Sent::Queued);
    assert!(matches!(from_one.try_recv(), Ok(ClusterMessage::OmniPaxosMessage("m"))));
}

#[test]
fn last_address_of_a_server_counts() {
    let net: Links = Network::new(5, &vec![(1, 10), (1, 11)], 1);
    assert_eq!(net.try_reconnect_peers(0).map(|t| t.address), Some(11));
    assert_eq!(net.try_reconnect_peers(1).map(|t| t.index), Some(1));
}

#[test]
fn connections_are_complete_when_all_are_there() {
    let runtime = runtime();
    let mut net = network();
    assert!(net.is_peer(1) && net.is_peer(3) && !net.is_peer(2));
    let (three, mut from_three) = peer(&runtime, 3);
    let (one, mut from_one) = peer(&runtime, 1);
    let (c1, mut from_c1) = client(&runtime, 1);
    let (again, mut from_again) = client(&runtime, 1);
    let (c2, _from_c2) = client(&runtime, 2);
    assert!(!net.initialize_connections(NewConnection::ToPeer(three), 1));
    assert!(!net.initialize_connections(NewConnection::ToClient(c1), 1));
    assert!(net.initialize_connections(NewConnection::ToPeer(one), 1));
    assert!(net.is_complete(1) && !net.is_complete(2));
    assert!(!net.initialize_connections(NewConnection::ToClient(again), 2));
    assert!(net.initialize_connections(NewConnection::ToClient(c2), 2));
    net.send_to_cluster(1, ClusterMessage::OmniPaxosMessage("to one"));
    net.send_to_cluster(3, ClusterMessage::OmniPaxosMessage("to three"));
    net.send_to_client(1, ServerMessage::Write(1));
    assert!(matches!(from_one.try_recv(), Ok(ClusterMessage::OmniPaxosMessage("to one"))));
    assert!(matches!(from_three.try_recv(), Ok(ClusterMessage::OmniPaxosMessage("to three"))));
    assert!(from_c1.try_recv().is_err());
    assert!(matches!(from_again.try_recv(), Ok(ServerMessage::Write(1))));
}

#[test]
fn network_with_nobody_to_wait_for_is_complete() {
    let alone = peer_addresses(1, &vec![1], &vec![8001]);
    let net: Links = Network::new(1, &alone, 100);
    assert!(net.is_complete(0));
    assert!(!net.is_complete(1));
    assert!(!network().is_complete(0));
}

#[test]
fn messages_to_peers_go_where_they_belong() {
    let runtime = runtime();
    let mut net = network();
    assert_eq!(net.cluster_delivery(1, "m"), PeerDelivery::NotConnected);
    assert_eq!(net.cluster_delivery(2, "m"), PeerDelivery::UnexpectedNode);
    net.initialize_connections(NewConnection::ToPeer(peer(&runtime, 1).0), 0);
    net.initialize_connections(NewConnection::ToPeer(peer(&runtime, 3).0), 0);
    assert_eq!(net.cluster_delivery(3, "m"), PeerDelivery::Send(1, "m"));
    assert_eq!(net.sent_to_cluster(1, true), Sent::Queued);
    assert_eq!(net.cluster_delivery(3, "m"), PeerDelivery::Send(1, "m"));
    assert_eq!(net.sent_to_cluster(1, false), Sent::Failed);
    assert_eq!(net.cluster_delivery(3, "m"), PeerDelivery::NotConnected);
    assert_eq!(net.cluster_delivery(1, "m"), PeerDelivery::Send(0, "m"));
    assert_eq!(net.try_reconnect_peers(0), None);
    assert_eq!(net.sent_to_cluster(0, false), Sent::Failed);
    assert_eq!(net.try_reconnect_peers(0).map(|t| t.peer_id), Some(1));
}

#[test]
fn messages_to_clients_go_where_they_belong() {
    let runtime = runtime();
    let mut net = network();
    assert_eq!(net.client_delivery(1, "m"), ClientDelivery::NotConnected);
    net.initialize_connections(NewConnection::ToClient(client(&runtime, 1).0), 0);
    assert_eq!(net.client_delivery(1, "m"), ClientDelivery::Send(1, "m"));
    assert_eq!(net.sent_to_client(1, true), Sent::Queued);
    assert_eq!(net.client_delivery(1, "m"), ClientDelivery::Send(1, "m"));
    assert_eq!(net.sent_to_client(1, false), Sent::Failed);
    assert_eq!(net.client_delivery(1, "m"), ClientDelivery::NotConnected);
}

#[test]
fn handshakes_identify_the_opener() {
    let mut ids = ClientIds::new();
    assert_eq!(ids.max_client_id(), 0);
    let client = Handshake::Message(RegistrationMessage::ClientRegister);
    let peer = Handshake::Message(RegistrationMessage::NodeRegister(3));
    assert_eq!(ids.handle_incoming_connection(client), Identified::Client(1));
    assert_eq!(ids.handle_incoming_connection(peer), Identified::Peer(3));
    assert_eq!(ids.handle_incoming_connection(Handshake::Malformed), Identified::Nobody);
    assert_eq!(ids.handle_incoming_connection(Handshake::Closed), Identified::Nobody);
    assert_eq!(ids.handle_incoming_connection(client), Identified::Client(2));
    assert_eq!(ids.max_client_id(), 2);
}

#[test]
fn steps_to_open_a_lost_link() {
    assert!(matches!(reconnect_step(2, ConnectEvent::ConnectFailed), ConnectAction::GiveUp));
    assert!(matches!(reconnect_step(2, ConnectEvent::Connected), ConnectAction::SetNodelay));
    assert!(matches!(reconnect_step(2, ConnectEvent::NodelayFailed), ConnectAction::GiveUp));
    assert!(matches!(
        reconnect_step(2, ConnectEvent::NodelaySet),
        ConnectAction::SendHandshake(RegistrationMessage::NodeRegister(2))
    ));
    assert!(matches!(reconnect_step(2, ConnectEvent::HandshakeFailed), ConnectAction::GiveUp));
    assert!(matches!(reconnect_step(2, ConnectEvent::HandshakeSent), ConnectAction::Install));
}

#[test]
fn steps_to_open_a_first_link() {
    assert!(matches!(connect_step(2, ConnectEvent::ConnectFailed), ConnectAction::Retry));
    assert!(matches!(connect_step(2, ConnectEvent::Connected), ConnectAction::SetNodelay));
    assert!(matches!(
        connect_step(2, ConnectEvent::NodelaySet),
        ConnectAction::SendHandshake(RegistrationMessage::NodeRegister(2))
    ));
    assert!(matches!(connect_step(2, ConnectEvent::HandshakeFailed), ConnectAction::GiveUp));
    assert!(matches!(connect_step(2, ConnectEvent::HandshakeSent), ConnectAction::Install));
}

#[test]
fn clients_are_named_in_turn() {
    let mut ids = ClientIds::new();
    let client = Handshake::Message(RegistrationMessage::ClientRegister);
    for expected in 1..6 {
        assert_eq!(ids.handle_incoming_connection(Handshake::Closed), Identified::Nobody);
        assert_eq!(ids.handle_incoming_connection(client), Identified::Client(expected));
        assert_eq!(ids.max_client_id(), expected);
    }
}

#[test]
fn messages_are_queued_on_links() {
    let runtime = runtime();
    let mut net = network();
    let (to_peer, mut peer_rx) = peer(&runtime, 1);
    let (to_client, mut client_rx) = client(&runtime, 4);
    assert_eq!(to_peer.peer_id(), 1);
    assert_eq!(to_client.client_id(), 4);
    net.initialize_connections(NewConnection::ToPeer(to_peer), 0);
    net.initialize_connections(NewConnection::ToClient(to_client), 0);

    let first = ClusterMessage::OmniPaxosMessage("first");
    assert_eq!(net.send_to_cluster(1, first), Sent::Queued);
    assert!(matches!(peer_rx.try_recv(), Ok(ClusterMessage::OmniPaxosMessage("first"))));
    let sent = net.send_each_to_cluster(vec![
        (1, ClusterMessage::LeaderStartSignal(5)),
        (3, ClusterMessage::LeaderStartSignal(6)),
        (2, ClusterMessage::LeaderStartSignal(7)),
        (1, ClusterMessage::OmniPaxosMessage("last")),
    ]);
    assert_eq!(
        sent,
        vec![(1, Sent::Queued), (3, Sent::NotConnected), (2, Sent::UnexpectedNode), (1, Sent::Queued)]
    );
    assert!(matches!(peer_rx.try_recv(), Ok(ClusterMessage::LeaderStartSignal(5))));
    assert!(matches!(peer_rx.try_recv(), Ok(ClusterMessage::OmniPaxosMessage("last"))));
    assert!(peer_rx.try_recv().is_err());
    let message = ClusterMessage::OmniPaxosMessage("m");
    assert_eq!(net.send_to_cluster(3, message), Sent::NotConnected);
    let message = ClusterMessage::OmniPaxosMessage("m");
    assert_eq!(net.send_to_cluster(7, message), Sent::UnexpectedNode);

    assert_eq!(net.send_to_client(4, ServerMessage::Write(1)), Sent::Queued);
    assert!(matches!(client_rx.try_recv(), Ok(ServerMessage::Write(1))));
    let messages = vec![(4, ServerMessage::CasOk(2)), (5, ServerMessage::CasOk(3))];
    let sent = net.send_each_to_client(messages);
    assert_eq!(sent, vec![(4, Sent::Queued), (5, Sent::NotConnected)]);
    assert!(matches!(client_rx.try_recv(), Ok(ServerMessage::CasOk(2))));
    assert_eq!(net.send_to_client(5, ServerMessage::Write(1)), Sent::NotConnected);

    drop(peer_rx);
    drop(client_rx);
    let message = ClusterMessage::OmniPaxosMessage("m");
    assert_eq!(net.send_to_cluster(1, message), Sent::Failed);
    let message = ClusterMessage::OmniPaxosMessage("m");
    assert_eq!(net.send_to_cluster(1, message), Sent::NotConnected);
    assert_eq!(net.send_to_client(4, ServerMessage::Write(1)), Sent::Failed);
    assert_eq!(net.send_to_client(4, ServerMessage::Write(1)), Sent::NotConnected);
    assert_eq!(net.try_reconnect_peers(0).map(|t| t.peer_id), Some(1));
}

#[test]
fn batch_on_a_closed_link_fails_once() {
    let runtime = runtime();
    let mut net = network();
    let (link, rx) = peer(&runtime, 1);
    net.initialize_connections(NewConnection::ToPeer(link), 0);
    drop(rx);
    let sent = net.send_each_to_cluster(vec![
        (1, ClusterMessage::LeaderStartSignal(1)),
        (1, ClusterMessage::LeaderStartSignal(1)),
    ]);
    assert_eq!(sent, vec![(1, Sent::Failed), (1, Sent::NotConnected)]);
}

#[test]
fn closed_links_hand_messages_back() {
    let runtime = runtime();
    let (mut link, rx) = peer(&runtime, 1);
    drop(rx);
    let back = link.send(ClusterMessage::OmniPaxosMessage("m"));
    assert!(matches!(back, Err(ClusterMessage::OmniPaxosMessage("m"))));
    let (mut link, rx) = client(&runtime, 1);
    drop(rx);
    assert!(matches!(link.send(ServerMessage::CasOk(9)), Err(ServerMessage::CasOk(9))));
}

#[test]
fn shutdown_ends_the_tasks() {
    let runtime = runtime();
    let mut net = network();
    let (peer_tx, mut peer_rx) = mpsc::unbounded_channel::<ClusterMessage<&'static str>>();
    let (client_tx, mut client_rx) = mpsc::unbounded_channel::<ServerMessage>();
    let (peer_ended, peer_end) = tokio::sync::oneshot::channel::<()>();
    let (client_ended, client_end) = tokio::sync::oneshot::channel::<()>();
    let peer = PeerConnection::new(
        1,
        runtime.spawn(std::future::pending()),
        runtime.spawn(async move {
            let _held = peer_ended;
            peer_rx.recv().await;
        }),
        peer_tx,
    );
    let client = ClientConnection::new(
        4,
        runtime.spawn(async move {
            let _held = client_ended;
            client_rx.recv().await;
        }),
        runtime.spawn(std::future::pending()),
        client_tx,
    );
    net.initialize_connections(NewConnection::ToPeer(peer), 0);
    net.initialize_connections(NewConnection::ToClient(client), 0);
    net.shutdown();
    assert!(runtime.block_on(peer_end).is_err());
    assert!(runtime.block_on(client_end).is_err());
    assert_eq!(net.send_to_client(4, ServerMessage::Write(1)), Sent::NotConnected);
    let message = ClusterMessage::OmniPaxosMessage("m");
    assert_eq!(net.send_to_cluster(1, message), Sent::NotConnected);
    net.shutdown();
    assert_eq!(net.try_reconnect_peers(0).map(|t| t.peer_id), Some(1));
}
