use vstd::prelude::*;

verus! {

/// A directed connection record. An edge is owned by exactly one vertex and
/// stored in either that vertex's outgoing list or its incoming list; it
/// carries no identity of its own.
#[derive(Clone, Copy, PartialEq, Eq, Structural, Debug)]
pub struct Edge {
    /// The weight of the edge. The weight is 0 for unweighted edges; negative
    /// weights are permitted and carry no special meaning at this layer.
    pub wt: i32,
    /// The id of the other, non-owning endpoint: the destination for an edge
    /// in an outgoing list, the source for an edge in an incoming list.
    pub other_id: usize,
}

} // verus!
