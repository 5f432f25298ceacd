//! Node configuration and the command line's arguments.
use vstd::prelude::*;

use std::collections::BTreeSet;

use crate::text::{chars_of, parse_u64, parse_u64_spec, split_chars, split_on, string_of, trim, trim_chars};

verus! {

broadcast use vstd::std_specs::btree::group_btree_axioms;

// ---------------------------------------------------------------------
// Raft timings
// ---------------------------------------------------------------------

/// The Raft timings a node runs with, in milliseconds; every other Raft
/// setting keeps its default.
#[derive(Clone, Copy, Debug, PartialEq, Eq, Structural)]
pub struct RaftConfig {
    pub heartbeat_interval: u64,
    pub election_timeout_min: u64,
    pub election_timeout_max: u64,
}

/// The timings of a production cluster: heartbeat every 500 ms, elections
/// after 1500 to 3000 ms.
pub fn default_config() -> (c: RaftConfig)
    ensures
        c.heartbeat_interval == 500,
        c.election_timeout_min == 1500,
        c.election_timeout_max == 3000,
{
    RaftConfig { heartbeat_interval: 500, election_timeout_min: 1500, election_timeout_max: 3000 }
}

/// The timings of a test cluster: heartbeat every 100 ms, elections after
/// 300 to 500 ms.
pub fn fast_config() -> (c: RaftConfig)
    ensures
        c.heartbeat_interval == 100,
        c.election_timeout_min == 300,
        c.election_timeout_max == 500,
{
    RaftConfig { heartbeat_interval: 100, election_timeout_min: 300, election_timeout_max: 500 }
}

/// Whether Raft accepts the timings: an election timeout range that is not
/// empty and starts above the heartbeat interval.
pub open spec fn timings_valid(c: RaftConfig) -> bool {
    c.election_timeout_min < c.election_timeout_max && c.election_timeout_min > c.heartbeat_interval
}

impl RaftConfig {
    /// Whether Raft accepts the timings.
    pub fn is_valid(&self) -> (b: bool)
        ensures
            b == timings_valid(*self),
    {
        self.election_timeout_min < self.election_timeout_max && self.election_timeout_min
            > self.heartbeat_interval
    }
}

/// Both preset timings are accepted.
pub proof fn lemma_presets_valid()
    ensures
        timings_valid(RaftConfig { heartbeat_interval: 500, election_timeout_min: 1500, election_timeout_max: 3000 }),
        timings_valid(RaftConfig { heartbeat_interval: 100, election_timeout_min: 300, election_timeout_max: 500 }),
{
}

// ---------------------------------------------------------------------
// Node configuration
// ---------------------------------------------------------------------

/// How a node joins its cluster.
#[derive(Clone, Copy, Debug, PartialEq, Eq, Structural)]
pub enum NodeMode {
    /// Start a new cluster and lead it.
    Leader,
    /// Join an existing cluster.
    Follower,
    /// Decide from the cluster's state.
    Auto,
}

/// Where a node listens, when set.
#[derive(Clone, Debug, PartialEq, Eq, Default)]
pub struct NetworkConfig {
    pub address: Option<String>,
    pub port: Option<u16>,
}

/// The configuration of one node.
#[derive(Clone, Debug)]
pub struct NodeConfig {
    pub node_id: u64,
    pub mode: NodeMode,
    pub raft_config: RaftConfig,
    pub network_config: NetworkConfig,
    /// Where to keep persistent state; in memory when unset.
    pub storage_path: Option<String>,
}

impl NodeConfig {
    /// A node with the default timings, no network settings and in-memory
    /// storage.
    pub fn new(node_id: u64, mode: NodeMode) -> (c: NodeConfig)
        ensures
            c.node_id == node_id,
            c.mode == mode,
            c.raft_config.heartbeat_interval == 500,
            c.raft_config.election_timeout_min == 1500,
            c.raft_config.election_timeout_max == 3000,
            c.network_config.address is None,
            c.network_config.port is None,
            c.storage_path is None,
    {
        NodeConfig {
            node_id,
            mode,
            raft_config: default_config(),
            network_config: NetworkConfig { address: None, port: None },
            storage_path: None,
        }
    }

    /// The same configuration with other Raft timings.
    pub fn with_raft_config(self, raft_config: RaftConfig) -> (c: NodeConfig)
        ensures
            c.raft_config == raft_config,
            c.node_id == self.node_id,
            c.mode == self.mode,
            c.network_config == self.network_config,
            c.storage_path == self.storage_path,
    {
        NodeConfig { raft_config, ..self }
    }

    /// The same configuration with other network settings.
    pub fn with_network_config(self, network_config: NetworkConfig) -> (c: NodeConfig)
        ensures
            c.network_config == network_config,
            c.node_id == self.node_id,
            c.mode == self.mode,
            c.raft_config == self.raft_config,
            c.storage_path == self.storage_path,
    {
        NodeConfig { network_config, ..self }
    }

    /// The same configuration with persistent storage at `path`.
    pub fn with_storage_path(self, path: String) -> (c: NodeConfig)
        ensures
            c.storage_path == Some(path),
            c.node_id == self.node_id,
            c.mode == self.mode,
            c.raft_config == self.raft_config,
            c.network_config == self.network_config,
    {
        NodeConfig { storage_path: Some(path), ..self }
    }
}

// ---------------------------------------------------------------------
// Parsing the command line's values
// ---------------------------------------------------------------------

/// The lower-case form of a text, as `str::to_lowercase` gives it.
pub uninterp spec fn lowercase(s: Seq<char>) -> Seq<char>;

/// `str::to_lowercase`: the text with every character in lower case.
#[verifier::external_body]
fn to_lowercase(s: &str) -> (r: String)
    ensures
        r@ == lowercase(s@),
{
    s.to_lowercase()
}

/// The mode a lower-case mode name denotes.
pub open spec fn mode_named(s: Seq<char>) -> Option<NodeMode> {
    if s == "leader"@ {
        Some(NodeMode::Leader)
    } else if s == "follower"@ {
        Some(NodeMode::Follower)
    } else if s == "auto"@ {
        Some(NodeMode::Auto)
    } else {
        None
    }
}

/// The error message of an unknown mode name.
pub open spec fn invalid_mode_message(mode: Seq<char>) -> Seq<char> {
    "Invalid node mode: "@ + mode + ". Must be 'leader', 'follower', or 'auto'"@
}

/// The mode that the lower-case name `lower` denotes; the error names
/// `given`, the name as it was given.
pub fn mode_from_lowercase(lower: &String, given: &str) -> (r: Result<NodeMode, String>)
    ensures
        match r {
            Ok(m) => mode_named(lower@) == Some(m),
            Err(e) => mode_named(lower@) is None && e@ == invalid_mode_message(given@),
        },
{
    let leader = String::from_str("leader");
    let follower = String::from_str("follower");
    let auto = String::from_str("auto");
    if *lower == leader {
        Ok(NodeMode::Leader)
    } else if *lower == follower {
        Ok(NodeMode::Follower)
    } else if *lower == auto {
        Ok(NodeMode::Auto)
    } else {
        Err(
            String::from_str("Invalid node mode: ").concat(given).concat(
                ". Must be 'leader', 'follower', or 'auto'",
            ),
        )
    }
}

/// Reads a node mode, in any case: `leader`, `follower` or `auto`.
pub fn parse_node_mode(mode: &str) -> (r: Result<NodeMode, String>)
    ensures
        match r {
            Ok(m) => mode_named(lowercase(mode@)) == Some(m),
            Err(e) => mode_named(lowercase(mode@)) is None && e@ == invalid_mode_message(mode@),
        },
{
    let lower = to_lowercase(mode);
    mode_from_lowercase(&lower, mode)
}

/// The error message of a node ID that does not read as a number.
pub open spec fn invalid_node_id_message(piece: Seq<char>, e: crate::text::IntParseError) -> Seq<char> {
    "Invalid node ID '"@ + piece + "': "@ + e.spec_message()
}

/// The node IDs a list of comma-separated pieces gives (each trimmed and
/// read as a number), or the message about the first that is not one.
pub open spec fn cluster_nodes(pieces: Seq<Seq<char>>) -> Result<Set<u64>, Seq<char>>
    decreases pieces.len(),
{
    if pieces.len() == 0 {
        Ok(Set::empty())
    } else {
        match cluster_nodes(pieces.drop_last()) {
            Err(e) => Err(e),
            Ok(s) => match parse_u64_spec(trim(pieces.last())) {
                Ok(n) => Ok(s.insert(n)),
                Err(e) => Err(invalid_node_id_message(pieces.last(), e)),
            },
        }
    }
}

/// Reads a comma-separated list of node IDs, such as `1,2,3`.
pub fn parse_cluster_nodes(cluster: &str) -> (r: Result<BTreeSet<u64>, String>)
    ensures
        match r {
            Ok(s) => cluster_nodes(split_on(cluster@, ',')) == Ok::<Set<u64>, Seq<char>>(s@),
            Err(e) => cluster_nodes(split_on(cluster@, ',')) matches Err(m) && m == e@,
        },
{
    let pieces = split_chars(&chars_of(cluster), ',');
    let ghost all = split_on(cluster@, ',');
    let mut nodes: BTreeSet<u64> = BTreeSet::new();
    for i in 0..pieces.len()
        invariant
            all == split_on(cluster@, ','),
            pieces@.len() == all.len(),
            forall|k: int| 0 <= k < pieces@.len() ==> #[trigger] pieces@[k]@ == all[k],
            cluster_nodes(all.take(i as int)) == Ok::<Set<u64>, Seq<char>>(nodes@),
    {
        proof {
            assert(all.take(i + 1).drop_last() =~= all.take(i as int));
            assert(all.take(i + 1).last() == all[i as int]);
            assert(pieces@[i as int]@ == all[i as int]);
        }
        match parse_u64(&trim_chars(&pieces[i])) {
            Ok(n) => {
                nodes.insert(n);
            },
            Err(e) => {
                let piece = string_of(&pieces[i]);
                let m = String::from_str("Invalid node ID '").concat(piece.as_str()).concat("': ").concat(
                    e.message().as_str(),
                );
                proof {
                    lemma_cluster_error_stays(all, i + 1);
                }
                return Err(m);
            },
        }
    }
    proof {
        assert(all.take(all.len() as int) =~= all);
    }
    Ok(nodes)
}

/// Once a prefix of the pieces fails, every longer prefix fails with the
/// same message.
proof fn lemma_cluster_error_stays(pieces: Seq<Seq<char>>, n: int)
    requires
        0 < n <= pieces.len(),
        cluster_nodes(pieces.take(n)) is Err,
    ensures
        cluster_nodes(pieces) == cluster_nodes(pieces.take(n)),
    decreases pieces.len() - n,
{
    if n < pieces.len() {
        assert(pieces.take(n + 1).drop_last() =~= pieces.take(n));
        lemma_cluster_error_stays(pieces, n + 1);
    } else {
        assert(pieces.take(n) =~= pieces);
    }
}

// ---------------------------------------------------------------------
// The command line
// ---------------------------------------------------------------------

/// The command line: one command.
#[derive(Debug)]
pub struct Cli {
    pub command: Commands,
}

/// The command groups.
#[derive(Debug)]
pub enum Commands {
    /// Node management.
    Node { command: NodeCommands },
    /// Workflow management.
    Workflow { command: WorkflowCommands },
}

/// Node management commands.
#[derive(Debug)]
pub enum NodeCommands {
    /// Start a node in the given mode (`auto` by default), with persistent
    /// storage when a path is given.
    Start { node_id: u64, mode: String, storage_path: Option<String> },
    /// Join a node to the cluster of the given comma-separated node IDs.
    Join { node_id: u64, cluster: String },
}

/// Workflow management commands.
#[derive(Debug)]
pub enum WorkflowCommands {
    /// Define a workflow from a definition file.
    Define { file: String },
    /// Trigger a workflow, with inputs given inline or in a file.
    Trigger { workflow_id: String, input: Option<String> },
}

/// Where the inputs of a triggered workflow come from.
#[derive(Debug)]
pub enum InputSource {
    /// The argument is the JSON text itself.
    Inline(String),
    /// The argument names a file holding the JSON text.
    File(String),
    /// No argument: the empty object `{}`.
    Empty,
}

/// Whether an input argument is JSON text rather than a file name: it
/// starts with `{` or `[`.
pub open spec fn is_inline_json(s: Seq<char>) -> bool {
    s.len() > 0 && (s[0] == '{' || s[0] == '[')
}

/// Decides where a triggered workflow's inputs come from.
pub fn input_source(input: Option<String>) -> (r: InputSource)
    ensures
        match input {
            Some(s) => if is_inline_json(s@) {
                r == InputSource::Inline(s)
            } else {
                r == InputSource::File(s)
            },
            None => r is Empty,
        },
{
    match input {
        Some(s) => {
            let v = chars_of(s.as_str());
            if v.len() > 0 && (v[0] == '{' || v[0] == '[') {
                InputSource::Inline(s)
            } else {
                InputSource::File(s)
            }
        },
        None => InputSource::Empty,
    }
}

/// The name a workflow definition is registered under: its `name` member
/// when that is a string, else the definition file's stem, else
/// `workflow`.
pub fn definition_name(
    definition: Option<&crate::json::JsonValue>,
    file_stem: Option<String>,
) -> (r: String)
    ensures
        match definition {
            Some(d) => match d@.get("name"@) {
                Some(crate::json::JsonModel::Str(n)) => r@ == n,
                _ => match file_stem {
                    Some(f) => r == f,
                    None => r@ == "workflow"@,
                },
            },
            None => match file_stem {
                Some(f) => r == f,
                None => r@ == "workflow"@,
            },
        },
{
    match definition {
        Some(d) => {
            let key = String::from_str("name");
            match d.get(&key) {
                Some(crate::json::JsonValue::Str(n)) => {
                    return n.clone();
                },
                _ => {},
            }
        },
        None => {},
    }
    match file_stem {
        Some(f) => f,
        None => String::from_str("workflow"),
    }
}

} // verus!
