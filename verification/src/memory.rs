//! The in-memory transport used by single-process clusters: a table from
//! node ID to the node that receives its RPCs.
use std::collections::BTreeMap;

use vstd::prelude::*;

use crate::ids::NodeId;

verus! {

broadcast use vstd::laws_cmp::group_laws_cmp;

/// The nodes reachable in memory, by ID; `R` is the receiving node.
#[derive(Debug)]
pub struct MemoryNetworkFactory<R> {
    nodes: BTreeMap<NodeId, R>,
}

impl<R> View for MemoryNetworkFactory<R> {
    type V = Map<NodeId, R>;

    closed spec fn view(&self) -> Map<NodeId, R> {
        self.nodes@
    }
}

impl<R> MemoryNetworkFactory<R> {
    /// No node reachable.
    pub fn new() -> (f: MemoryNetworkFactory<R>)
        ensures
            f@ == Map::<NodeId, R>::empty(),
    {
        MemoryNetworkFactory { nodes: BTreeMap::new() }
    }

    /// Makes node `id` reachable as `node`, replacing an earlier one.
    pub fn register_raft(&mut self, id: NodeId, node: R)
        ensures
            final(self)@ == old(self)@.insert(id, node),
    {
        self.nodes.insert(id, node);
    }

    /// Makes node `id` unreachable.
    pub fn unregister_raft(&mut self, id: NodeId)
        ensures
            final(self)@ == old(self)@.remove(id),
    {
        self.nodes.remove(&id);
    }

    /// The node that receives the RPCs sent to `id`, if it is reachable.
    pub fn target(&self, id: NodeId) -> (r: Option<&R>)
        ensures
            match r {
                Some(n) => self@.contains_key(id) && self@[id] == *n,
                None => !self@.contains_key(id),
            },
    {
        self.nodes.get(&id)
    }

    /// The connection to node `target`.
    pub fn new_client(&self, target: NodeId) -> (n: MemoryNetwork)
        ensures
            n.target == target,
    {
        MemoryNetwork { target }
    }
}

/// A connection to one node of the in-memory transport.
#[derive(Clone, Copy, Debug, PartialEq, Eq, Structural)]
pub struct MemoryNetwork {
    pub target: NodeId,
}

/// A node registered on the network receives what is sent to its ID until
/// it is unregistered; registering or unregistering one node leaves the
/// others reachable as before.
pub proof fn lemma_register_then_target<R>(m: Map<NodeId, R>, id: NodeId, node: R, other: NodeId)
    requires
        other != id,
    ensures
        m.insert(id, node).contains_key(id) && m.insert(id, node)[id] == node,
        !m.remove(id).contains_key(id),
        m.insert(id, node).contains_key(other) == m.contains_key(other),
        m.remove(id).contains_key(other) == m.contains_key(other),
        m.contains_key(other) ==> m.insert(id, node)[other] == m[other] && m.remove(id)[other] == m[other],
{
}

} // verus!
