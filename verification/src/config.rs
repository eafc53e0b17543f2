//! What a server is told about itself and its cluster.

use vstd::prelude::*;
use vstd::string::*;

use crate::kv::NodeId;
use crate::text;

verus! {

/// What all servers of a cluster are told.
#[derive(Debug)]
pub struct ClusterConfig {
    /// The servers of the cluster.
    pub nodes: Vec<NodeId>,
    /// Their addresses, in the same order.
    pub node_addrs: Vec<String>,
    /// The server that is to lead first.
    pub initial_leader: NodeId,
}

/// What one server is told.
#[derive(Debug)]
pub struct LocalConfig {
    /// Which server it is.
    pub server_id: NodeId,
    /// The host that it listens on.
    pub listen_address: String,
    /// The port that it listens on.
    pub listen_port: u16,
    /// How many clients it waits for.
    pub num_clients: usize,
    /// Where it saves what it was told.
    pub output_filepath: String,
}

/// The configuration of a server.
#[derive(Debug)]
pub struct OmniPaxosKVConfig {
    /// What this server is told.
    pub local: LocalConfig,
    /// What all servers are told.
    pub cluster: ClusterConfig,
}

/// Holds of every server but this one.
pub open spec fn different_from(node: NodeId) -> spec_fn(NodeId) -> bool {
    |id: NodeId| id != node
}

impl OmniPaxosKVConfig {
    /// The servers of the cluster but this one.
    pub fn get_peers(&self, node: NodeId) -> (r: Vec<NodeId>)
        ensures
            r@ == self.cluster.nodes@.filter(different_from(node)),
    {
        let nodes = &self.cluster.nodes;
        let mut r: Vec<NodeId> = Vec::new();
        let mut i: usize = 0;
        proof {
            reveal(Seq::filter);
            assert(nodes@.take(0) =~= Seq::<NodeId>::empty());
        }
        while i < nodes.len()
            invariant
                i <= nodes.len(),
                r@ == nodes@.take(i as int).filter(different_from(node)),
            decreases nodes.len() - i,
        {
            proof {
                reveal(Seq::filter);
                assert(nodes@.take(i as int + 1).drop_last() =~= nodes@.take(i as int));
            }
            if nodes[i] != node {
                r.push(nodes[i]);
            }
            i = i + 1;
        }
        assert(nodes@.take(i as int) =~= nodes@);
        r
    }

    /// The address that the server listens on, as `host:port`.
    pub fn listen_address(&self) -> (r: String)
        ensures
            r@ == self.local.listen_address@ + ":"@ + text::decimal(self.local.listen_port as nat),
    {
        text::wrap(
            self.local.listen_address.as_str(),
            ":",
            text::decimal_u64(self.local.listen_port as u64).as_str(),
        )
    }
}

/// The directory under which servers keep their logs, where none is given.
pub open spec fn default_storage_base() -> Seq<char> {
    "/tmp/omnipaxos"@
}

/// The directory that a server keeps its log in: one of its own below the base directory, or
/// below `/tmp/omnipaxos` where none is given.
pub fn storage_path(base_path: Option<String>, server_id: NodeId) -> (r: String)
    ensures
        r@ == (match base_path {
            Some(base) => base@,
            None => default_storage_base(),
        }) + "/server-"@ + text::decimal(server_id as nat),
{
    let base = match base_path {
        Some(base) => base,
        None => "/tmp/omnipaxos".to_owned(),
    };
    text::wrap(base.as_str(), "/server-", text::decimal_u64(server_id).as_str())
}

/// The peers of a server are the servers of the cluster but itself, all of them, in their order.
pub proof fn law_peers_are_the_other_servers(
    nodes: Seq<NodeId>,
    last: NodeId,
    node: NodeId,
    id: NodeId,
)
    ensures
        nodes.filter(different_from(node)).contains(id) <==> nodes.contains(id) && id != node,
        nodes.push(last).filter(different_from(node)) == if last == node {
            nodes.filter(different_from(node))
        } else {
            nodes.filter(different_from(node)).push(last)
        },
        Seq::<NodeId>::empty().filter(different_from(node)).len() == 0,
    decreases nodes.len(),
{
    reveal(Seq::filter);
    assert(nodes.push(last).drop_last() =~= nodes);
    if nodes.len() > 0 {
        let (front, end) = (nodes.drop_last(), nodes.last());
        law_peers_are_the_other_servers(front, last, node, id);
        let before = front.filter(different_from(node));
        assert(nodes =~= front.push(end));
        if nodes.contains(id) {
            let i = nodes.index_of(id);
            if i < front.len() {
                assert(front[i] == id);
            }
        }
        if front.contains(id) {
            let i = front.index_of(id);
            assert(nodes[i] == id);
        }
        assert(nodes[nodes.len() - 1] == end);
        if end != node {
            let after = before.push(end);
            assert(after[after.len() - 1] == end);
            if before.contains(id) {
                let i = before.index_of(id);
                assert(after[i] == id);
            }
            if after.contains(id) {
                let i = after.index_of(id);
                if i < before.len() {
                    assert(before[i] == id);
                }
            }
        }
    }
}

/// Where no base directory is given, logs are kept below `/tmp/omnipaxos`.
pub proof fn law_default_storage_base()
    ensures
        default_storage_base() == "/tmp/omnipaxos"@,
{
}

} // verus!
