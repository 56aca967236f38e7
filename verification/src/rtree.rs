//! The compiled runtime tree: dense node identifiers, flow nodes with
//! ordered children, and leaves resolved by name.

use crate::rtargs::RtArgs;
use vstd::prelude::*;

verus! {

/// A dense identifier of a node, stable within one run.
pub type RNodeId = usize;

/// The kind of a composite flow node.
#[derive(Debug, Clone, Copy, PartialEq, Eq, Structural)]
pub enum FlowType {
    Root,
    Sequence,
    MSequence,
    RSequence,
    Fallback,
    RFallback,
    Parallel,
}

/// A node of the compiled tree.
#[derive(Debug)]
pub enum RNode {
    /// A composite with its kind, static parameters and ordered children.
    Flow(FlowType, RtArgs, Vec<RNodeId>),
    /// A leaf action or condition with its name and static parameters.
    Leaf(String, RtArgs),
}

/// The compiled tree: nodes indexed by their identifier, plus the root.
#[derive(Debug)]
pub struct RTree {
    pub nodes: Vec<RNode>,
    pub root_id: RNodeId,
}

impl RTree {
    pub fn new(nodes: Vec<RNode>, root_id: RNodeId) -> (r: RTree)
        ensures
            r.nodes == nodes,
            r.root_id == root_id,
    {
        RTree { nodes, root_id }
    }

    /// The node under `id`, if the tree holds one.
    pub fn node(&self, id: RNodeId) -> (r: Option<&RNode>)
        ensures
            match r {
                Some(n) => id < self.nodes@.len() && *n == self.nodes@[id as int],
                None => id >= self.nodes@.len(),
            },
    {
        if id < self.nodes.len() {
            Some(&self.nodes[id])
        } else {
            None
        }
    }

    /// How many nodes the tree holds.
    pub fn len(&self) -> (r: usize)
        ensures
            r == self.nodes@.len(),
    {
        self.nodes.len()
    }
}

} // verus!
