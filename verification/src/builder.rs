//! Building an application node: the settings a builder collects, what a
//! build starts from them, and the checks of a cluster launch.
use vstd::prelude::*;

use std::collections::BTreeSet;

use crate::ids::NodeId;
use crate::node::{default_config, RaftConfig};

verus! {

broadcast use vstd::std_specs::btree::group_btree_axioms;

/// Why an application could not be built.
#[derive(Clone, Debug, PartialEq, Eq)]
pub enum AppBuilderError {
    /// A required setting was not given.
    MissingField(String),
    /// Raft failed; the text of its error.
    Raft(String),
    /// The cluster failed; the text of its error.
    Cluster(String),
}

impl AppBuilderError {
    /// The error's message.
    pub fn message(&self) -> (m: String)
        ensures
            match self {
                AppBuilderError::MissingField(f) => m@ == "Missing required field: "@ + f@,
                AppBuilderError::Raft(e) => m@ == "Raft error: "@ + e@,
                AppBuilderError::Cluster(e) => m@ == "Cluster error: "@ + e@,
            },
    {
        match self {
            AppBuilderError::MissingField(f) => String::from_str("Missing required field: ").concat(
                f.as_str(),
            ),
            AppBuilderError::Raft(e) => String::from_str("Raft error: ").concat(e.as_str()),
            AppBuilderError::Cluster(e) => String::from_str("Cluster error: ").concat(e.as_str()),
        }
    }
}

/// The settings of an application node: its ID, its Raft timings, the
/// workflow definitions (`W`) to register, metrics, storage and tracing
/// (`T`, the kind of exporter).
#[derive(Debug)]
pub struct FlowRaftAppBuilder<W, T> {
    pub node_id: Option<NodeId>,
    pub config: Option<RaftConfig>,
    pub workflows: Vec<W>,
    pub enable_metrics: bool,
    pub storage_path: Option<String>,
    pub metrics_port: Option<u16>,
    pub tracing_exporter: Option<T>,
    pub tracing_endpoint: Option<String>,
}

impl<W, T> FlowRaftAppBuilder<W, T> {
    /// Nothing set: no workflows, metrics off.
    pub fn new() -> (b: Self)
        ensures
            b.node_id is None,
            b.config is None,
            b.workflows@.len() == 0,
            !b.enable_metrics,
            b.storage_path is None,
            b.metrics_port is None,
            b.tracing_exporter is None,
            b.tracing_endpoint is None,
    {
        FlowRaftAppBuilder {
            node_id: None,
            config: None,
            workflows: Vec::new(),
            enable_metrics: false,
            storage_path: None,
            metrics_port: None,
            tracing_exporter: None,
            tracing_endpoint: None,
        }
    }

    /// Sets the node ID.
    pub fn with_node_id(self, node_id: NodeId) -> (b: Self)
        ensures
            b == (FlowRaftAppBuilder { node_id: Some(node_id), ..self }),
    {
        FlowRaftAppBuilder { node_id: Some(node_id), ..self }
    }

    /// Sets the Raft timings.
    pub fn with_config(self, config: RaftConfig) -> (b: Self)
        ensures
            b == (FlowRaftAppBuilder { config: Some(config), ..self }),
    {
        FlowRaftAppBuilder { config: Some(config), ..self }
    }

    /// Sets the workflow definitions to register.
    pub fn with_workflows(self, workflows: Vec<W>) -> (b: Self)
        ensures
            b == (FlowRaftAppBuilder { workflows, ..self }),
    {
        FlowRaftAppBuilder { workflows, ..self }
    }

    /// Turns metrics on or off.
    pub fn enable_metrics(self, enable: bool) -> (b: Self)
        ensures
            b == (FlowRaftAppBuilder { enable_metrics: enable, ..self }),
    {
        FlowRaftAppBuilder { enable_metrics: enable, ..self }
    }

    /// Sets the storage path (kept for persistent storage; state is in
    /// memory).
    pub fn with_storage(self, path: String) -> (b: Self)
        ensures
            b == (FlowRaftAppBuilder { storage_path: Some(path), ..self }),
    {
        FlowRaftAppBuilder { storage_path: Some(path), ..self }
    }

    /// Sets the port of the metrics endpoint.
    pub fn with_metrics_port(self, port: u16) -> (b: Self)
        ensures
            b == (FlowRaftAppBuilder { metrics_port: Some(port), ..self }),
    {
        FlowRaftAppBuilder { metrics_port: Some(port), ..self }
    }

    /// Turns tracing on with `exporter`, sending to `endpoint` when given.
    pub fn with_tracing(self, exporter: T, endpoint: Option<String>) -> (b: Self)
        ensures
            b == (FlowRaftAppBuilder { tracing_exporter: Some(exporter), tracing_endpoint: endpoint, ..self }),
    {
        FlowRaftAppBuilder { tracing_exporter: Some(exporter), tracing_endpoint: endpoint, ..self }
    }

    /// Adds one workflow definition.
    pub fn add_workflow(self, workflow: W) -> (b: Self)
        ensures
            b.workflows@ == self.workflows@.push(workflow),
            b.node_id == self.node_id,
            b.config == self.config,
            b.enable_metrics == self.enable_metrics,
            b.storage_path == self.storage_path,
            b.metrics_port == self.metrics_port,
            b.tracing_exporter == self.tracing_exporter,
            b.tracing_endpoint == self.tracing_endpoint,
    {
        let mut b = self;
        b.workflows.push(workflow);
        b
    }

    /// Adds workflow definitions, in order.
    pub fn add_workflows(self, workflows: Vec<W>) -> (b: Self)
        ensures
            b.workflows@ == self.workflows@ + workflows@,
            b.node_id == self.node_id,
            b.config == self.config,
            b.enable_metrics == self.enable_metrics,
            b.storage_path == self.storage_path,
            b.metrics_port == self.metrics_port,
            b.tracing_exporter == self.tracing_exporter,
            b.tracing_endpoint == self.tracing_endpoint,
    {
        let mut b = self;
        let mut more = workflows;
        b.workflows.append(&mut more);
        b
    }

    /// What a single-node build starts: the node (its ID is required), its
    /// timings (the defaults unless set), the workflows to register, the
    /// tracing service, and the metrics port (9090 unless set) when
    /// metrics are on.
    pub fn build_plan(self) -> (r: Result<BuildPlan<W, T>, AppBuilderError>)
        ensures
            match r {
                Ok(p) => {
                    &&& self.node_id == Some(p.node_id)
                    &&& p.config == match self.config {
                        Some(c) => c,
                        None => RaftConfig {
                            heartbeat_interval: 500,
                            election_timeout_min: 1500,
                            election_timeout_max: 3000,
                        },
                    }
                    &&& p.workflows == self.workflows
                    &&& match self.tracing_exporter {
                        Some(x) => p.tracing matches Some((e, name, ep)) && e == x && ep
                            == self.tracing_endpoint && name@ == service_name(p.node_id),
                        None => p.tracing is None,
                    }
                    &&& p.metrics_port == if self.enable_metrics {
                        Some(
                            match self.metrics_port {
                                Some(port) => port,
                                None => 9090u16,
                            },
                        )
                    } else {
                        None
                    }
                },
                Err(e) => self.node_id is None && (e matches AppBuilderError::MissingField(f) && f@
                    == "node_id"@),
            },
    {
        let node_id = match self.node_id {
            Some(id) => id,
            None => {
                return Err(AppBuilderError::MissingField(String::from_str("node_id")));
            },
        };
        let config = match self.config {
            Some(c) => c,
            None => default_config(),
        };
        let tracing = match self.tracing_exporter {
            Some(x) => {
                let d = crate::text::string_of(&crate::text::u64_to_decimal(node_id));
                Some((x, String::from_str("flow-raft-node-").concat(d.as_str()), self.tracing_endpoint))
            },
            None => None,
        };
        let metrics_port = if self.enable_metrics {
            Some(
                match self.metrics_port {
                    Some(p) => p,
                    None => 9090u16,
                },
            )
        } else {
            None
        };
        Ok(BuildPlan { node_id, config, workflows: self.workflows, tracing, metrics_port })
    }
}

impl<W, T> Default for FlowRaftAppBuilder<W, T> {
    fn default() -> (b: Self)
        ensures
            b.node_id is None,
            b.config is None,
            b.workflows@.len() == 0,
            !b.enable_metrics,
            b.storage_path is None,
            b.metrics_port is None,
            b.tracing_exporter is None,
            b.tracing_endpoint is None,
    {
        Self::new()
    }
}

/// The tracing service name of a node: `flow-raft-node-<id>`.
pub open spec fn service_name(id: NodeId) -> Seq<char> {
    "flow-raft-node-"@ + crate::text::decimal(id as nat)
}

/// What a single-node build starts.
#[derive(Debug)]
pub struct BuildPlan<W, T> {
    pub node_id: NodeId,
    pub config: RaftConfig,
    /// The workflow definitions to register, in order.
    pub workflows: Vec<W>,
    /// The tracing exporter, service name and endpoint, when tracing is on.
    pub tracing: Option<(T, String, Option<String>)>,
    /// The port to serve metrics on, when metrics are on.
    pub metrics_port: Option<u16>,
}

/// Whether `needle` occurs in `hay` at position `i`.
pub open spec fn occurs_at(hay: Seq<char>, needle: Seq<char>, i: int) -> bool {
    0 <= i && i + needle.len() <= hay.len() && hay.subrange(i, i + needle.len()) == needle
}

/// Whether `needle` occurs in `hay`.
pub open spec fn occurs_in(hay: Seq<char>, needle: Seq<char>) -> bool {
    exists|i: int| #[trigger] occurs_at(hay, needle, i)
}

/// Whether `needle` occurs in `hay`.
pub fn contains_text(hay: &Vec<char>, needle: &Vec<char>) -> (b: bool)
    ensures
        b == occurs_in(hay@, needle@),
{
    if needle.len() > hay.len() {
        assert forall|i: int| !#[trigger] occurs_at(hay@, needle@, i) by {}
        return false;
    }
    let last = hay.len() - needle.len();
    assert(hay@.len() == hay.len());
    let mut i: usize = 0;
    while i <= last
        invariant
            hay@.len() <= usize::MAX,
            needle@.len() <= hay@.len(),
            last == hay@.len() - needle@.len(),
            forall|j: int| 0 <= j < i ==> !#[trigger] occurs_at(hay@, needle@, j),
        decreases last + 1 - i,
    {
        let mut k: usize = 0;
        let mut same = true;
        while k < needle.len()
            invariant
                i <= last,
                hay@.len() <= usize::MAX,
                needle@.len() <= hay@.len(),
                last == hay@.len() - needle@.len(),
                k <= needle@.len(),
                same == (forall|m: int| 0 <= m < k ==> hay@[i + m] == needle@[m]),
            decreases needle@.len() - k,
        {
            if hay[i + k] != needle[k] {
                same = false;
            }
            k = k + 1;
        }
        if same {
            assert(hay@.subrange(i as int, i + needle@.len()) =~= needle@);
            assert(occurs_at(hay@, needle@, i as int));
            return true;
        }
        proof {
            assert(!occurs_at(hay@, needle@, i as int)) by {
                if occurs_at(hay@, needle@, i as int) {
                    let m = choose|m: int| 0 <= m < needle@.len() && hay@[i + m] != needle@[m];
                    assert(hay@.subrange(i as int, i + needle@.len())[m] == hay@[i + m]);
                }
            }
        }
        if i == last {
            assert forall|j: int| !#[trigger] occurs_at(hay@, needle@, j) by {
                if 0 <= j < i {
                }
            }
            return false;
        }
        i = i + 1;
    }
    assert forall|j: int| !#[trigger] occurs_at(hay@, needle@, j) by {
        if 0 <= j < i {
        }
    }
    false
}

/// Whether a failure to start the metrics server says its port is taken.
pub fn is_address_in_use(error: &str) -> (b: bool)
    ensures
        b == (occurs_in(error@, "Address already in use"@) || occurs_in(
            error@,
            "address already in use"@,
        )),
{
    let e = crate::text::chars_of(error);
    let a = crate::text::chars_of("Address already in use");
    let b = crate::text::chars_of("address already in use");
    contains_text(&e, &a) || contains_text(&e, &b)
}

/// The ports tried, in order, when the metrics port is taken: 9091 to
/// 9100.
pub fn fallback_metrics_ports() -> (r: Vec<u16>)
    ensures
        r@.len() == 10,
        forall|i: int| 0 <= i < 10 ==> #[trigger] r@[i] == 9091 + i,
{
    let mut r: Vec<u16> = Vec::new();
    let mut p: u16 = 9091;
    while p <= 9100
        invariant
            9091 <= p <= 9101,
            r@.len() == p - 9091,
            forall|i: int| 0 <= i < r@.len() ==> #[trigger] r@[i] == 9091 + i,
        decreases 9101 - p,
    {
        r.push(p);
        p = p + 1;
    }
    r
}

// ---------------------------------------------------------------------
// Launching a cluster
// ---------------------------------------------------------------------

/// Why a node or a cluster could not be launched.
#[derive(Clone, Debug, PartialEq, Eq)]
pub enum NodeLaunchError {
    /// Raft failed to start; the text of its error.
    RaftError(String),
    /// Raft failed to initialize the cluster; the text of its error.
    InitializeError(String),
    /// The launch was asked for something impossible.
    Config(String),
}

impl NodeLaunchError {
    /// The error's message.
    pub fn message(&self) -> (m: String)
        ensures
            match self {
                NodeLaunchError::RaftError(e) => m@ == "Raft error: "@ + e@,
                NodeLaunchError::InitializeError(e) => m@ == "Initialization error: "@ + e@,
                NodeLaunchError::Config(e) => m@ == "Configuration error: "@ + e@,
            },
    {
        match self {
            NodeLaunchError::RaftError(e) => String::from_str("Raft error: ").concat(e.as_str()),
            NodeLaunchError::InitializeError(e) => String::from_str("Initialization error: ").concat(
                e.as_str(),
            ),
            NodeLaunchError::Config(e) => String::from_str("Configuration error: ").concat(e.as_str()),
        }
    }
}

/// The members a cluster launch initializes: every given node ID, when at
/// least one is given.
pub fn launch_members(node_ids: &Vec<NodeId>) -> (r: Result<BTreeSet<NodeId>, NodeLaunchError>)
    ensures
        node_ids@.len() == 0 ==> (r matches Err(NodeLaunchError::Config(m)) && m@
            == "launch_raft_cluster requires at least one node"@),
        node_ids@.len() > 0 ==> (r matches Ok(s) && s@ == node_ids@.to_set()),
{
    if node_ids.len() == 0 {
        return Err(
            NodeLaunchError::Config(String::from_str("launch_raft_cluster requires at least one node")),
        );
    }
    let mut s: BTreeSet<NodeId> = BTreeSet::new();
    for i in 0..node_ids.len()
        invariant
            s@ == node_ids@.take(i as int).to_set(),
    {
        s.insert(node_ids[i]);
        proof {
            assert(node_ids@.take(i + 1) =~= node_ids@.take(i as int).push(node_ids@[i as int]));
            node_ids@.take(i as int).lemma_push_to_set_commute(node_ids@[i as int]);
        }
    }
    proof {
        assert(node_ids@.take(node_ids@.len() as int) =~= node_ids@);
    }
    Ok(s)
}

/// The members left once node `id` is dropped, in order.
pub fn without_node<T>(nodes: Vec<(NodeId, T)>, id: NodeId) -> (r: Vec<(NodeId, T)>)
    ensures
        r@ == nodes@.filter(|e: (NodeId, T)| e.0 != id),
{
    let ghost keep = |e: (NodeId, T)| e.0 != id;
    let mut rest = nodes;
    let ghost all = rest@;
    let total = rest.len();
    let mut out: Vec<(NodeId, T)> = Vec::new();
    let mut n: usize = 0;
    while rest.len() > 0
        invariant
            keep == (|e: (NodeId, T)| e.0 != id),
            all.len() == total,
            n + rest@.len() == all.len(),
            rest@ == all.subrange(n as int, all.len() as int),
            out@ == all.take(n as int).filter(keep),
        decreases rest@.len(),
    {
        let e = rest.remove(0);
        proof {
            assert(rest@ =~= all.subrange(n + 1, all.len() as int));
            assert(all.take(n + 1).drop_last() =~= all.take(n as int));
            assert(all.take(n + 1).last() == all[n as int]);
            reveal(Seq::filter);
        }
        if e.0 != id {
            out.push(e);
        }
        n = n + 1;
    }
    proof {
        assert(all.take(n as int) =~= all);
    }
    out
}

} // verus!
