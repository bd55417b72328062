use vstd::prelude::*;

use crate::edge::Edge;

verus! {

/// The mathematical value of a [`Vertex`]: the payload, the id, and the two
/// edge lists as sequences.
#[verifier::ext_equal]
pub ghost struct VertexModel<T> {
    pub data: T,
    pub id: usize,
    pub out_edges: Seq<Edge>,
    pub in_edges: Seq<Edge>,
}

/// A vertex of the graph: a caller-supplied payload, the vertex's own id, and
/// two independent edge lists. Other vertices are referenced by id only, never
/// by direct reference, so the storage has no cyclic ownership even when the
/// logical graph has cycles.
pub struct Vertex<T> {
    /// The data item this vertex stores; opaque to the graph.
    pub data: T,
    /// The id of this vertex. It equals the vertex's position in the owning
    /// pool, and it is the id — not a reference — that other records use to
    /// point at this vertex.
    pub id: usize,
    /// The edges emanating out of this vertex.
    pub out_edges: Vec<Edge>,
    /// The edges coming into this vertex.
    pub in_edges: Vec<Edge>,
}

impl<T> View for Vertex<T> {
    type V = VertexModel<T>;

    open spec fn view(&self) -> VertexModel<T> {
        VertexModel {
            data: self.data,
            id: self.id,
            out_edges: self.out_edges@,
            in_edges: self.in_edges@,
        }
    }
}

impl<T> Vertex<T> {
    /// Makes a fresh vertex with the given id and payload and empty edge lists.
    pub fn new(id: usize, data: T) -> (v: Self)
        ensures
            v@.id == id,
            v@.data == data,
            v@.out_edges == Seq::<Edge>::empty(),
            v@.in_edges == Seq::<Edge>::empty(),
    {
        Self { data, id, out_edges: Vec::new(), in_edges: Vec::new() }
    }

    /// Appends an outgoing edge towards `id` with weight `wt`; nothing else of
    /// the vertex changes.
    pub fn add_out(&mut self, id: usize, wt: i32)
        ensures
            final(self)@.out_edges == old(self)@.out_edges.push(Edge { wt, other_id: id }),
            final(self)@.in_edges == old(self)@.in_edges,
            final(self)@.id == old(self)@.id,
            final(self)@.data == old(self)@.data,
    {
        self.out_edges.push(Edge { wt, other_id: id });
    }

    /// Appends an incoming edge from `id` with weight `wt`; nothing else of
    /// the vertex changes.
    pub fn add_in(&mut self, id: usize, wt: i32)
        ensures
            final(self)@.in_edges == old(self)@.in_edges.push(Edge { wt, other_id: id }),
            final(self)@.out_edges == old(self)@.out_edges,
            final(self)@.id == old(self)@.id,
            final(self)@.data == old(self)@.data,
    {
        self.in_edges.push(Edge { wt, other_id: id });
    }
}

} // verus!
