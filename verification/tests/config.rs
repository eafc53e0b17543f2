use omnipaxos_kv::config::{storage_path, ClusterConfig, LocalConfig, OmniPaxosKVConfig};

fn config() -> OmniPaxosKVConfig {
    OmniPaxosKVConfig {
        local: LocalConfig {
            server_id: 2,
            listen_address: "0.0.0.0".to_string(),
            listen_port: 8000,
            num_clients: 1,
            output_filepath: "out.json".to_string(),
        },
        cluster: ClusterConfig {
            nodes: vec![1, 2, 3],
            node_addrs: vec!["s1:8000".to_string(), "s2:8000".to_string(), "s3:8000".to_string()],
            initial_leader: 1,
        },
    }
}

#[test]
fn peers_are_the_other_servers() {
    assert_eq!(config().get_peers(2), vec![1, 3]);
    assert_eq!(config().get_peers(9), vec![1, 2, 3]);
}

#[test]
fn listen_address_has_host_and_port() {
    assert_eq!(config().listen_address(), "0.0.0.0:8000");
    let mut other = config();
    other.local.listen_port = 0;
    assert_eq!(other.listen_address(), "0.0.0.0:0");
    other.local.listen_port = u16::MAX;
    assert_eq!(other.listen_address(), "0.0.0.0:65535");
}

#[test]
fn storage_paths() {
    assert_eq!(storage_path(None, 3), "/tmp/omnipaxos/server-3");
    assert_eq!(
        storage_path(Some("/data/omnipaxos".to_string()), 18446744073709551615),
        "/data/omnipaxos/server-18446744073709551615"
    );
}
