//! The lifecycle tag attached to every stored node.

use crate::types::CertifiedNode;
use std::sync::Arc;
use vstd::prelude::*;

verus! {

/// The three lifecycle stages of a stored node, in the order they are passed.
#[derive(Clone, Copy, Debug, PartialEq, Eq, Structural)]
pub enum StatusTag {
    Unordered,
    Ordered,
    Committed,
}

impl StatusTag {
    /// Position of the tag in the lifecycle.
    pub open spec fn rank(self) -> nat {
        match self {
            StatusTag::Unordered => 0,
            StatusTag::Ordered => 1,
            StatusTag::Committed => 2,
        }
    }

    fn level(self) -> (l: u8)
        ensures
            l == self.rank(),
    {
        match self {
            StatusTag::Unordered => 0,
            StatusTag::Ordered => 1,
            StatusTag::Committed => 2,
        }
    }

    /// Whether `self` comes strictly before `target` in the lifecycle.
    pub fn precedes(self, target: StatusTag) -> (r: bool)
        ensures
            r == (self.rank() < target.rank()),
    {
        self.level() < target.level()
    }
}

/// A stored node under its lifecycle tag.
#[derive(Clone)]
pub enum NodeStatus {
    Unordered(Arc<CertifiedNode>),
    Ordered(Arc<CertifiedNode>),
    Committed(Arc<CertifiedNode>),
}

impl View for NodeStatus {
    type V = (StatusTag, CertifiedNode);

    open spec fn view(&self) -> (StatusTag, CertifiedNode) {
        match *self {
            NodeStatus::Unordered(n) => (StatusTag::Unordered, *n),
            NodeStatus::Ordered(n) => (StatusTag::Ordered, *n),
            NodeStatus::Committed(n) => (StatusTag::Committed, *n),
        }
    }
}

/// Hands out a second owner of a shared node.
///
/// Wraps `Arc::clone`, which returns a pointer to the same allocation: the
/// value behind the result is the value behind the argument.
#[verifier::external_body]
pub(crate) fn share(node: &Arc<CertifiedNode>) -> (r: Arc<CertifiedNode>)
    ensures
        *r == **node,
{
    Arc::clone(node)
}

impl NodeStatus {
    /// Wraps a shared node under the given tag.
    pub fn with_tag(tag: StatusTag, node: Arc<CertifiedNode>) -> (s: NodeStatus)
        ensures
            s@ == (tag, *node),
    {
        match tag {
            StatusTag::Unordered => NodeStatus::Unordered(node),
            StatusTag::Ordered => NodeStatus::Ordered(node),
            StatusTag::Committed => NodeStatus::Committed(node),
        }
    }

    /// The node, whatever its tag.
    pub fn as_node(&self) -> (node: &Arc<CertifiedNode>)
        ensures
            **node == self@.1,
    {
        match self {
            NodeStatus::Unordered(node) => node,
            NodeStatus::Ordered(node) => node,
            NodeStatus::Committed(node) => node,
        }
    }

    /// The tag, without the node.
    pub fn tag(&self) -> (t: StatusTag)
        ensures
            t == self@.0,
    {
        match self {
            NodeStatus::Unordered(_) => StatusTag::Unordered,
            NodeStatus::Ordered(_) => StatusTag::Ordered,
            NodeStatus::Committed(_) => StatusTag::Committed,
        }
    }
}

} // verus!
