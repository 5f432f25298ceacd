//! A node's view of its cluster, the workflows registered on it, and how
//! it stops.
use vstd::prelude::*;

use std::collections::{BTreeSet, HashMap};

use vstd::std_specs::iter::IteratorSpec;

use crate::ids::{NodeId, WorkflowId};
use crate::state_machine::Membership;

verus! {

broadcast use {vstd::std_specs::btree::group_btree_axioms, vstd::std_specs::hash::group_hash_axioms};

/// A node's role in its cluster.
#[derive(Clone, Copy, Debug, PartialEq, Eq, Structural)]
pub enum NodeRole {
    /// The node leads the cluster.
    Leader,
    /// The node follows the leader.
    Follower,
}

/// What a node knows of its cluster.
#[derive(Clone, Debug)]
pub struct ClusterStatus {
    /// The current leader, if one is known.
    pub leader: Option<NodeId>,
    /// Every node of the cluster.
    pub nodes: BTreeSet<NodeId>,
    /// This node's role.
    pub role: NodeRole,
    /// This node's ID.
    pub node_id: NodeId,
}

/// The role of node `me` when `leader` leads.
pub open spec fn role_of(me: NodeId, leader: Option<NodeId>) -> NodeRole {
    if leader == Some(me) {
        NodeRole::Leader
    } else {
        NodeRole::Follower
    }
}

/// The IDs of a membership's nodes.
pub open spec fn member_ids(m: Seq<(NodeId, Seq<char>)>) -> Set<NodeId> {
    Set::new(|id: NodeId| exists|i: int| 0 <= i < m.len() && #[trigger] m[i].0 == id)
}

/// The status of node `me`: the leader Raft reports, the nodes of the
/// applied membership (this node alone when none could be read), and the
/// role that follows.
pub fn cluster_status(me: NodeId, leader: Option<NodeId>, membership: Option<&Membership>) -> (s: ClusterStatus)
    ensures
        s.leader == leader,
        s.node_id == me,
        s.role == role_of(me, leader),
        s.nodes@ == match membership {
            Some(m) => member_ids(m@.nodes),
            None => set![me],
        },
{
    let mut nodes: BTreeSet<NodeId> = BTreeSet::new();
    match membership {
        Some(m) => {
            for i in 0..m.nodes.len()
                invariant
                    nodes@ == member_ids(m@.nodes.take(i as int)),
            {
                nodes.insert(m.nodes[i].0);
                proof {
                    let a = m@.nodes.take(i + 1);
                    let b = m@.nodes.take(i as int);
                    assert(a[i as int] == m@.nodes[i as int]);
                    assert(m@.nodes[i as int].0 == m.nodes@[i as int].0);
                    assert forall|id: NodeId| #[trigger] member_ids(a).contains(id) == (member_ids(b).contains(id) || id == m.nodes@[i as int].0) by {
                        if member_ids(a).contains(id) {
                            let j = choose|j: int| 0 <= j < a.len() && #[trigger] a[j].0 == id;
                            if j < i {
                                assert(b[j].0 == id);
                            }
                        }
                        if member_ids(b).contains(id) {
                            let j = choose|j: int| 0 <= j < b.len() && #[trigger] b[j].0 == id;
                            assert(a[j].0 == id);
                        }
                        if id == m.nodes@[i as int].0 {
                            assert(a[i as int].0 == id);
                        }
                    }
                    assert(nodes@ =~= member_ids(a));
                }
            }
            proof {
                assert(m@.nodes.take(m@.nodes.len() as int) =~= m@.nodes);
            }
        },
        None => {
            nodes.insert(me);
            assert(nodes@ =~= set![me]);
        },
    }
    let role = if leader == Some(me) {
        NodeRole::Leader
    } else {
        NodeRole::Follower
    };
    ClusterStatus { leader, nodes, role, node_id: me }
}

/// Why a cluster operation failed.
#[derive(Clone, Debug)]
pub enum ClusterError {
    /// Raft failed; the text of its error.
    Raft(String),
    /// No such workflow.
    WorkflowNotFound(WorkflowId),
    /// The request or the node's state does not allow the operation.
    InvalidConfig(String),
}

impl ClusterError {
    /// The error's message.
    pub fn message(&self) -> (m: String)
        ensures
            match self {
                ClusterError::Raft(e) => m@ == "Raft error: "@ + e@,
                ClusterError::WorkflowNotFound(w) => m@ == "Workflow not found: "@ + w.spec_display(),
                ClusterError::InvalidConfig(e) => m@ == "Invalid configuration: "@ + e@,
            },
    {
        match self {
            ClusterError::Raft(e) => String::from_str("Raft error: ").concat(e.as_str()),
            ClusterError::WorkflowNotFound(w) => String::from_str("Workflow not found: ").concat(
                w.to_display().as_str(),
            ),
            ClusterError::InvalidConfig(e) => String::from_str("Invalid configuration: ").concat(
                e.as_str(),
            ),
        }
    }
}

/// The workflow definitions registered on a node, keyed by the workflow's
/// UUID.
#[derive(Debug)]
pub struct WorkflowCatalog<D> {
    defs: HashMap<u128, D>,
}

impl<D> WorkflowCatalog<D> {
    /// The definition registered for workflow `k`, if any.
    pub closed spec fn lookup(&self, k: u128) -> Option<D> {
        if self.defs@.contains_key(k) {
            Some(self.defs@[k])
        } else {
            None
        }
    }

    /// The registered workflows.
    pub closed spec fn ids(&self) -> Set<u128> {
        self.defs@.dom()
    }

    /// No workflows.
    pub fn new() -> (c: WorkflowCatalog<D>)
        ensures
            forall|k: u128| #[trigger] c.lookup(k) is None,
    {
        WorkflowCatalog { defs: HashMap::new() }
    }

    /// Registers `def` for workflow `id`, replacing an earlier definition;
    /// returns `id`.
    pub fn register(&mut self, id: WorkflowId, def: D) -> (r: WorkflowId)
        ensures
            r == id,
            final(self).lookup(id.uuid) == Some(def),
            forall|k: u128| k != id.uuid ==> #[trigger] final(self).lookup(k) == old(self).lookup(k),
    {
        let _ = self.defs.insert(id.uuid, def);
        id
    }

    /// Forgets workflow `id`.
    pub fn unregister(&mut self, id: WorkflowId)
        ensures
            final(self).lookup(id.uuid) is None,
            forall|k: u128| k != id.uuid ==> #[trigger] final(self).lookup(k) == old(self).lookup(k),
    {
        let _ = self.defs.remove(&id.uuid);
    }

    /// The registered workflows, each once.
    pub fn list(&self) -> (r: Vec<WorkflowId>)
        ensures
            forall|k: u128| self.lookup(k) is Some <==> exists|i: int| 0 <= i < r@.len() && #[trigger] r@[i].uuid == k,
            forall|i: int, j: int| 0 <= i < j < r@.len() ==> r@[i].uuid != r@[j].uuid,
    {
        let mut r: Vec<WorkflowId> = Vec::new();
        let keys = self.defs.keys();
        let ghost all = keys.remaining().unref();
        proof {
            assert(all.to_set() == self.defs@.dom());
            assert(all.no_duplicates());
        }
        for k in it: keys
            invariant
                it.seq().unref() == all,
                r@.len() == it.index(),
                forall|j: int| 0 <= j < r@.len() ==> #[trigger] r@[j].uuid == all[j],
        {
            r.push(WorkflowId::from_u128(*k));
        }
        proof {
            assert forall|k: u128| self.lookup(k) is Some <==> exists|i: int| 0 <= i < r@.len() && #[trigger] r@[i].uuid == k by {
                if self.lookup(k) is Some {
                    assert(all.to_set().contains(k));
                    let j = choose|j: int| 0 <= j < all.len() && all[j] == k;
                    assert(r@[j].uuid == k);
                }
                if exists|i: int| 0 <= i < r@.len() && #[trigger] r@[i].uuid == k {
                    let j = choose|i: int| 0 <= i < r@.len() && #[trigger] r@[i].uuid == k;
                    assert(all.contains(k));
                    assert(all.to_set().contains(k));
                }
            }
        }
        r
    }
}

/// A node that is stopping accepts no new workflow.
pub fn check_accepting(shutting_down: bool) -> (r: Result<(), ClusterError>)
    ensures
        shutting_down ==> (r matches Err(ClusterError::InvalidConfig(m)) && m@ == "Node is shutting down"@),
        !shutting_down ==> r is Ok,
{
    if shutting_down {
        Err(ClusterError::InvalidConfig(String::from_str("Node is shutting down")))
    } else {
        Ok(())
    }
}

/// How a stop ends once the wait for running workflows is over: cleanly
/// when none is left, else with the number still running.
pub fn shutdown_outcome(active: u64) -> (r: Result<(), ClusterError>)
    ensures
        active == 0 ==> r is Ok,
        active > 0 ==> (r matches Err(ClusterError::InvalidConfig(m)) && m@ == "Timeout waiting for "@
            + crate::text::decimal(active as nat) + " workflows to complete"@),
{
    if active == 0 {
        Ok(())
    } else {
        let n = crate::text::string_of(&crate::text::u64_to_decimal(active));
        Err(
            ClusterError::InvalidConfig(
                String::from_str("Timeout waiting for ").concat(n.as_str()).concat(
                    " workflows to complete",
                ),
            ),
        )
    }
}

} // verus!
