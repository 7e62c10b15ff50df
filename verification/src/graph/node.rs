//! Nodes and edges of the constant graph.

use vstd::prelude::*;

verus! {

/// One node of a constant graph, at a fixed position.
pub struct Node<T> {
    pub id: usize,
    pub data: T,
}

impl<T> Node<T> {
    /// The node's position in its graph.
    pub open spec fn spec_id(&self) -> usize {
        self.id
    }

    /// The node's payload.
    pub open spec fn spec_data(&self) -> T {
        self.data
    }

    /// The node's payload.
    pub fn data(&self) -> (r: &T)
        ensures
            *r == self.spec_data(),
    {
        &self.data
    }
}

/// One directed edge of a constant graph, at a fixed position.
pub struct Edge<E> {
    pub id: usize,
    pub source: usize,
    pub target: usize,
    pub data: E,
}

impl<E> Edge<E> {
    /// The edge's position in its graph.
    pub open spec fn spec_id(&self) -> usize {
        self.id
    }

    /// The node the edge leaves.
    pub open spec fn spec_source(&self) -> usize {
        self.source
    }

    /// The node the edge enters.
    pub open spec fn spec_target(&self) -> usize {
        self.target
    }

    /// The edge's payload.
    pub open spec fn spec_data(&self) -> E {
        self.data
    }

    /// The edge's payload.
    pub fn data(&self) -> (r: &E)
        ensures
            *r == self.spec_data(),
    {
        &self.data
    }
}

} // verus!
