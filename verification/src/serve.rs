//! The configuration of a serving node, and how it starts its cluster.
use vstd::prelude::*;

use crate::text::{chars_of, find_char, parse_u64, parse_u64_spec, string_of, sub_chars, trim, trim_chars, first_index_of};

verus! {

/// A socket address: the text of its IP address and its port.
#[derive(Clone, Debug, PartialEq, Eq)]
pub struct BindAddr {
    pub ip: String,
    pub port: u16,
}

/// Why a serve configuration could not be built.
#[derive(Clone, Debug, PartialEq, Eq)]
pub enum ServeConfigError {
    /// A required field was not set.
    MissingField(String),
}

impl ServeConfigError {
    /// The error's message.
    pub fn message(&self) -> (m: String)
        ensures
            match self {
                ServeConfigError::MissingField(f) => m@ == "Missing required field: "@ + f@,
            },
    {
        match self {
            ServeConfigError::MissingField(f) => String::from_str("Missing required field: ").concat(
                f.as_str(),
            ),
        }
    }
}

/// The resolved configuration of a serving node.
#[derive(Clone, Debug)]
pub struct ServeConfig {
    /// This node's Raft node ID.
    pub node_id: u64,
    /// Where the gRPC API listens.
    pub grpc_bind: BindAddr,
    /// Where `/health` and `/metrics` are served.
    pub http_bind: BindAddr,
    /// Where Raft RPCs are received.
    pub raft_bind: BindAddr,
    /// Where persistent state would be kept (unused: state is in memory).
    pub data_path: Option<String>,
    /// The Raft peers, each `id=host:port`.
    pub peers: Vec<String>,
    /// Whether to start a new cluster.
    pub bootstrap: bool,
}

/// Collects the settings of a serving node.
#[derive(Clone, Debug, Default)]
pub struct ServeConfigBuilder {
    pub node_id: Option<u64>,
    pub grpc_bind: Option<BindAddr>,
    pub http_bind: Option<BindAddr>,
    pub raft_bind: Option<BindAddr>,
    pub data_path: Option<String>,
    pub peers: Vec<String>,
    pub bootstrap: bool,
}

impl ServeConfigBuilder {
    /// Nothing set: no peers, no bootstrap.
    pub fn new() -> (b: ServeConfigBuilder)
        ensures
            b.node_id is None,
            b.grpc_bind is None,
            b.http_bind is None,
            b.raft_bind is None,
            b.data_path is None,
            b.peers@.len() == 0,
            !b.bootstrap,
    {
        ServeConfigBuilder {
            node_id: None,
            grpc_bind: None,
            http_bind: None,
            raft_bind: None,
            data_path: None,
            peers: Vec::new(),
            bootstrap: false,
        }
    }

    /// Sets the node ID.
    pub fn with_node_id(self, id: u64) -> (b: ServeConfigBuilder)
        ensures
            b == (ServeConfigBuilder { node_id: Some(id), ..self }),
    {
        ServeConfigBuilder { node_id: Some(id), ..self }
    }

    /// Sets where the gRPC API listens.
    pub fn with_grpc_bind(self, a: BindAddr) -> (b: ServeConfigBuilder)
        ensures
            b == (ServeConfigBuilder { grpc_bind: Some(a), ..self }),
    {
        ServeConfigBuilder { grpc_bind: Some(a), ..self }
    }

    /// Sets where `/health` and `/metrics` are served.
    pub fn with_http_bind(self, a: BindAddr) -> (b: ServeConfigBuilder)
        ensures
            b == (ServeConfigBuilder { http_bind: Some(a), ..self }),
    {
        ServeConfigBuilder { http_bind: Some(a), ..self }
    }

    /// Sets where Raft RPCs are received.
    pub fn with_raft_bind(self, a: BindAddr) -> (b: ServeConfigBuilder)
        ensures
            b == (ServeConfigBuilder { raft_bind: Some(a), ..self }),
    {
        ServeConfigBuilder { raft_bind: Some(a), ..self }
    }

    /// Sets the data path.
    pub fn with_data_path(self, p: Option<String>) -> (b: ServeConfigBuilder)
        ensures
            b == (ServeConfigBuilder { data_path: p, ..self }),
    {
        ServeConfigBuilder { data_path: p, ..self }
    }

    /// Sets the Raft peers.
    pub fn with_peers(self, p: Vec<String>) -> (b: ServeConfigBuilder)
        ensures
            b == (ServeConfigBuilder { peers: p, ..self }),
    {
        ServeConfigBuilder { peers: p, ..self }
    }

    /// Sets whether to start a new cluster.
    pub fn with_bootstrap(self, v: bool) -> (b: ServeConfigBuilder)
        ensures
            b == (ServeConfigBuilder { bootstrap: v, ..self }),
    {
        ServeConfigBuilder { bootstrap: v, ..self }
    }

    /// The configuration, when the node ID and the three addresses are set;
    /// else the first of them (in that order) that is missing.
    pub fn build(self) -> (r: Result<ServeConfig, ServeConfigError>)
        ensures
            match r {
                Ok(c) => {
                    &&& self.node_id == Some(c.node_id)
                    &&& self.grpc_bind == Some(c.grpc_bind)
                    &&& self.http_bind == Some(c.http_bind)
                    &&& self.raft_bind == Some(c.raft_bind)
                    &&& c.data_path == self.data_path
                    &&& c.peers == self.peers
                    &&& c.bootstrap == self.bootstrap
                },
                Err(ServeConfigError::MissingField(f)) => {
                    if self.node_id is None {
                        f@ == "node_id"@
                    } else if self.grpc_bind is None {
                        f@ == "grpc_bind"@
                    } else if self.http_bind is None {
                        f@ == "http_bind"@
                    } else {
                        self.raft_bind is None && f@ == "raft_bind"@
                    }
                },
            },
    {
        let node_id = match self.node_id {
            Some(v) => v,
            None => {
                return Err(ServeConfigError::MissingField(String::from_str("node_id")));
            },
        };
        let grpc_bind = match self.grpc_bind {
            Some(v) => v,
            None => {
                return Err(ServeConfigError::MissingField(String::from_str("grpc_bind")));
            },
        };
        let http_bind = match self.http_bind {
            Some(v) => v,
            None => {
                return Err(ServeConfigError::MissingField(String::from_str("http_bind")));
            },
        };
        let raft_bind = match self.raft_bind {
            Some(v) => v,
            None => {
                return Err(ServeConfigError::MissingField(String::from_str("raft_bind")));
            },
        };
        Ok(
            ServeConfig {
                node_id,
                grpc_bind,
                http_bind,
                raft_bind,
                data_path: self.data_path,
                peers: self.peers,
                bootstrap: self.bootstrap,
            },
        )
    }
}

// ---------------------------------------------------------------------
// Starting the cluster
// ---------------------------------------------------------------------

/// Why a node could not start or join its cluster.
#[derive(Clone, Debug, PartialEq, Eq)]
pub enum BootstrapError {
    /// A peer is not written `id=addr`; the peer as given (trimmed).
    InvalidPeers(String),
    /// This node's own ID appears among the peers.
    DuplicateNodeId(u64),
    /// Raft refused to initialize; the text of its error.
    Raft(String),
}

impl BootstrapError {
    /// The error's message.
    pub fn message(&self) -> (m: String)
        ensures
            match self {
                BootstrapError::InvalidPeers(p) => m@ == "invalid peers (expected id=addr): "@ + p@,
                BootstrapError::DuplicateNodeId(id) => m@ == "node_id "@ + crate::text::decimal(
                    *id as nat,
                ) + " appears in peers"@,
                BootstrapError::Raft(e) => m@ == "raft initialize: "@ + e@,
            },
    {
        match self {
            BootstrapError::InvalidPeers(p) => String::from_str(
                "invalid peers (expected id=addr): ",
            ).concat(p.as_str()),
            BootstrapError::DuplicateNodeId(id) => {
                let d = string_of(&crate::text::u64_to_decimal(*id));
                String::from_str("node_id ").concat(d.as_str()).concat(" appears in peers")
            },
            BootstrapError::Raft(e) => String::from_str("raft initialize: ").concat(e.as_str()),
        }
    }
}

/// How a node starts.
#[derive(Debug)]
pub enum BootstrapPlan {
    /// Start a cluster of this node alone.
    SingleNode,
    /// Wait to be added to a cluster.
    Join,
    /// Start a cluster of these members (ID and Raft address), this node
    /// first.
    Cluster(Vec<(u64, String)>),
}

/// A peer entry read from `id=addr`: the ID and the trimmed address, if the
/// text has an `=` and the part before it reads as a number.
pub open spec fn peer_entry(s: Seq<char>) -> Option<(u64, Seq<char>)> {
    match first_index_of(s, '=') {
        Some(i) => match parse_u64_spec(trim(s.subrange(0, i))) {
            Ok(id) => Some((id, trim(s.subrange(i + 1, s.len() as int)))),
            Err(_) => None,
        },
        None => None,
    }
}

/// The members that the peers name, in order, skipping blank ones; or the
/// first error: a peer that is not `id=addr` (given trimmed), or one with
/// this node's ID.
pub open spec fn peer_entries(peers: Seq<String>, self_id: u64) -> Result<Seq<(u64, Seq<char>)>, BootstrapError>
    decreases peers.len(),
{
    if peers.len() == 0 {
        Ok(Seq::empty())
    } else {
        match peer_entries(peers.drop_last(), self_id) {
            Err(e) => Err(e),
            Ok(es) => {
                let s = trim(peers.last()@);
                if s.len() == 0 {
                    Ok(es)
                } else {
                    match peer_entry(s) {
                        None => Err(BootstrapError::InvalidPeers(arbitrary())),
                        Some((id, addr)) => if id == self_id {
                            Err(BootstrapError::DuplicateNodeId(self_id))
                        } else {
                            Ok(es.push((id, addr)))
                        },
                    }
                }
            },
        }
    }
}

/// The text of the first peer that is not `id=addr`, trimmed, once the
/// peers before it were read.
pub open spec fn first_invalid_peer(peers: Seq<String>, self_id: u64) -> Seq<char>
    decreases peers.len(),
{
    if peers.len() == 0 {
        Seq::empty()
    } else {
        match peer_entries(peers.drop_last(), self_id) {
            Err(_) => first_invalid_peer(peers.drop_last(), self_id),
            Ok(_) => trim(peers.last()@),
        }
    }
}

/// The Raft address of this node: `ip:port` of its Raft bind address.
pub open spec fn self_raft_addr(c: ServeConfig) -> Seq<char> {
    c.raft_bind.ip@ + ":"@ + crate::text::decimal(c.raft_bind.port as nat)
}

/// The members as views.
pub open spec fn members_view(v: Seq<(u64, String)>) -> Seq<(u64, Seq<char>)> {
    v.map_values(|e: (u64, String)| (e.0, e.1@))
}

/// Reads one peer entry.
fn read_peer(s: &Vec<char>) -> (r: Option<(u64, String)>)
    ensures
        match r {
            Some((id, addr)) => peer_entry(s@) == Some((id, addr@)),
            None => peer_entry(s@) is None,
        },
{
    match find_char(s, '=') {
        Some(i) => {
            let head = trim_chars(&sub_chars(s, 0, i));
            match parse_u64(&head) {
                Ok(id) => {
                    let tail = trim_chars(&sub_chars(s, i + 1, s.len()));
                    Some((id, string_of(&tail)))
                },
                Err(_) => None,
            }
        },
        None => None,
    }
}

/// Decides how a node starts: with no peers, alone when bootstrapping and
/// else by waiting to be added; with peers, as the first member of the
/// cluster they name.
pub fn plan_bootstrap(config: &ServeConfig) -> (r: Result<BootstrapPlan, BootstrapError>)
    ensures
        config.peers@.len() == 0 ==> (if config.bootstrap {
            r matches Ok(BootstrapPlan::SingleNode)
        } else {
            r matches Ok(BootstrapPlan::Join)
        }),
        config.peers@.len() > 0 ==> match peer_entries(config.peers@, config.node_id) {
            Ok(es) => r matches Ok(BootstrapPlan::Cluster(v)) && members_view(v@) == seq![
                (config.node_id, self_raft_addr(*config)),
            ] + es,
            Err(BootstrapError::InvalidPeers(_)) => r matches Err(BootstrapError::InvalidPeers(p))
                && p@ == first_invalid_peer(config.peers@, config.node_id),
            Err(e) => r == Err::<BootstrapPlan, BootstrapError>(e),
        },
{
    if config.peers.len() == 0 {
        if config.bootstrap {
            return Ok(BootstrapPlan::SingleNode);
        }
        return Ok(BootstrapPlan::Join);
    }
    let port = string_of(&crate::text::u64_to_decimal(config.raft_bind.port as u64));
    let self_addr = config.raft_bind.ip.clone().concat(":").concat(port.as_str());
    let mut entries: Vec<(u64, String)> = Vec::new();
    entries.push((config.node_id, self_addr));
    let ghost head = seq![(config.node_id, self_raft_addr(*config))];
    proof {
        assert(members_view(entries@) =~= head);
    }
    for k in 0..config.peers.len()
        invariant
            peer_entries(config.peers@.take(k as int), config.node_id) matches Ok(es)
                && members_view(entries@) == head + es,
    {
        proof {
            assert(config.peers@.take(k + 1).drop_last() =~= config.peers@.take(k as int));
            assert(config.peers@.take(k + 1).last() == config.peers@[k as int]);
        }
        let s = trim_chars(&chars_of(config.peers[k].as_str()));
        if s.len() > 0 {
            match read_peer(&s) {
                None => {
                    proof {
                        lemma_peer_error_stays(config.peers@, config.node_id, k + 1);
                    }
                    return Err(BootstrapError::InvalidPeers(string_of(&s)));
                },
                Some((id, addr)) => {
                    if id == config.node_id {
                        proof {
                            lemma_peer_error_stays(config.peers@, config.node_id, k + 1);
                        }
                        return Err(BootstrapError::DuplicateNodeId(config.node_id));
                    }
                    let ghost before = entries@;
                    entries.push((id, addr));
                    proof {
                        assert(members_view(entries@) =~= members_view(before).push((id, addr@)));
                    }
                },
            }
        }
    }
    proof {
        assert(config.peers@.take(config.peers@.len() as int) =~= config.peers@);
    }
    Ok(BootstrapPlan::Cluster(entries))
}

/// Once a prefix of the peers fails, every longer prefix fails the same
/// way, naming the same peer.
proof fn lemma_peer_error_stays(peers: Seq<String>, self_id: u64, n: int)
    requires
        0 < n <= peers.len(),
        peer_entries(peers.take(n), self_id) is Err,
    ensures
        peer_entries(peers, self_id) == peer_entries(peers.take(n), self_id),
        first_invalid_peer(peers, self_id) == first_invalid_peer(peers.take(n), self_id),
    decreases peers.len() - n,
{
    if n < peers.len() {
        assert(peers.take(n + 1).drop_last() =~= peers.take(n));
        lemma_peer_error_stays(peers, self_id, n + 1);
    } else {
        assert(peers.take(n) =~= peers);
    }
}

/// The port `/metrics` is served on: that of the HTTP bind address.
pub fn http_port(config: &ServeConfig) -> (p: u16)
    ensures
        p == config.http_bind.port,
{
    config.http_bind.port
}

/// Runs a node: builds its parts, starts or joins its cluster, and serves
/// gRPC and HTTP until stopped.
#[derive(Clone, Copy, Debug)]
pub struct NodeServer;

} // verus!
