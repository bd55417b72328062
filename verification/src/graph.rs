use vstd::prelude::*;

use crate::edge::Edge;
use crate::vertex::Vertex;
use crate::vertex::VertexModel;

verus! {

/// The mathematical value of a vertex pool: each vertex replaced by its model.
pub open spec fn pool_view<T>(vs: Seq<Vertex<T>>) -> Seq<VertexModel<T>> {
    vs.map(|i: int, v: Vertex<T>| v@)
}

/// A pool is well formed when every vertex's stored id equals its position,
/// so that ids can serve as references into the pool.
pub open spec fn pool_wf<T>(m: Seq<VertexModel<T>>) -> bool {
    forall|i: int| 0 <= i < m.len() ==> (#[trigger] m[i].id) == i
}

/// The pool after one creation: a vertex with the next sequential id, the
/// given payload, and empty edge lists is appended.
pub open spec fn spec_create<T>(m: Seq<VertexModel<T>>, data: T) -> Seq<VertexModel<T>> {
    m.push(
        VertexModel {
            data,
            id: m.len() as usize,
            out_edges: Seq::<Edge>::empty(),
            in_edges: Seq::<Edge>::empty(),
        },
    )
}

/// The pool after one edge insertion: when `from_id` is in bounds, that
/// vertex's outgoing list gains one record and nothing else changes; when it
/// is out of bounds, the pool is left exactly as it was. The destination is
/// never validated and its incoming list is never touched.
pub open spec fn spec_add_weighted_edge<T>(
    m: Seq<VertexModel<T>>,
    from_id: usize,
    to_id: usize,
    weight: i32,
) -> Seq<VertexModel<T>> {
    if from_id < m.len() {
        m.update(
            from_id as int,
            VertexModel {
                data: m[from_id as int].data,
                id: m[from_id as int].id,
                out_edges: m[from_id as int].out_edges.push(Edge { wt: weight, other_id: to_id }),
                in_edges: m[from_id as int].in_edges,
            },
        )
    } else {
        m
    }
}

/// The pool after one payload replacement: the vertex keeps its id and edge
/// lists and only its data changes.
pub open spec fn spec_set_data<T>(m: Seq<VertexModel<T>>, id: usize, data: T) -> Seq<
    VertexModel<T>,
>
    recommends
        id < m.len(),
{
    m.update(
        id as int,
        VertexModel {
            data,
            id: m[id as int].id,
            out_edges: m[id as int].out_edges,
            in_edges: m[id as int].in_edges,
        },
    )
}

/// The `(source, destination)` pairs contributed by one vertex, in
/// outgoing-list insertion order.
pub open spec fn vertex_out_pairs<T>(v: VertexModel<T>) -> Seq<(usize, usize)> {
    v.out_edges.map(|j: int, e: Edge| (v.id, e.other_id))
}

/// The per-vertex pair lists, in pool order.
pub open spec fn pool_pair_lists<T>(m: Seq<VertexModel<T>>) -> Seq<Seq<(usize, usize)>> {
    m.map(|i: int, v: VertexModel<T>| vertex_out_pairs(v))
}

/// The exported topology: every vertex's outgoing edges flattened into one
/// sequence of `(source, destination)` pairs, in pool order and, within one
/// vertex, in insertion order. Weights and payloads are deliberately absent.
pub open spec fn spec_edge_pairs<T>(m: Seq<VertexModel<T>>) -> Seq<(usize, usize)> {
    pool_pair_lists(m).flatten()
}

/// An append-only pool of vertices connected by weighted directed edges.
/// A vertex is referenced by its index in the pool, which doubles as its id;
/// the pool only ever grows, so every issued id stays valid for the life of
/// the graph.
pub struct Graph<T> {
    /// The pool of all vertices. As new vertices are created they are
    /// appended here; no operation removes or reorders elements.
    vertices: Vec<Vertex<T>>,
}

impl<T> View for Graph<T> {
    type V = Seq<VertexModel<T>>;

    closed spec fn view(&self) -> Seq<VertexModel<T>> {
        pool_view(self.vertices@)
    }
}

proof fn lemma_pool_view_push<T>(vs: Seq<Vertex<T>>, w: Vertex<T>)
    ensures
        pool_view(vs.push(w)) == pool_view(vs).push(w@),
{
    assert(pool_view(vs.push(w)) =~= pool_view(vs).push(w@));
}

proof fn lemma_pool_view_update<T>(vs: Seq<Vertex<T>>, i: int, w: Vertex<T>)
    requires
        0 <= i < vs.len(),
    ensures
        pool_view(vs.update(i, w)) == pool_view(vs).update(i, w@),
{
    assert(pool_view(vs.update(i, w)) =~= pool_view(vs).update(i, w@));
}

impl<T> Graph<T> {
    /// Every vertex's stored id equals its position in the pool. Constructors
    /// establish this and every operation preserves it.
    pub open spec fn wf(&self) -> bool {
        pool_wf(self@)
    }

    /// Makes an empty graph.
    pub fn new() -> (g: Self)
        ensures
            g@ == Seq::<VertexModel<T>>::empty(),
            g.wf(),
    {
        let g = Self { vertices: Vec::new() };
        proof {
            assert(g@ =~= Seq::<VertexModel<T>>::empty());
        }
        g
    }

    /// Creates a vertex holding `data` and returns its id, which equals the
    /// pool length just before the call. Creation always succeeds; ids are
    /// issued sequentially and the id should be used to reach the vertex
    /// afterwards.
    pub fn create_node(&mut self, data: T) -> (id: usize)
        ensures
            id == old(self)@.len(),
            final(self)@ == spec_create(old(self)@, data),
            old(self).wf() ==> final(self).wf(),
    {
        let next_idx = self.vertices.len();
        let vx = Vertex::new(next_idx, data);
        let ghost gv = vx;
        self.vertices.push(vx);
        proof {
            lemma_pool_view_push(old(self).vertices@, gv);
        }
        next_idx
    }

    /// Returns a mutable handle to the payload of the vertex `id`, or `None`
    /// when `id` is outside the current pool bounds. Nothing of the graph
    /// changes beyond what the caller writes through the handle.
    pub fn get_mut_data(&mut self, id: usize) -> (r: Option<&mut T>)
        ensures
            id >= old(self)@.len() ==> r.is_none() && final(self)@ == old(self)@,
            id < old(self)@.len() ==> r.is_some() && *r.unwrap() == old(self)@[id as int].data
                && final(self)@ == spec_set_data(old(self)@, id, *final(r.unwrap())),
            old(self).wf() ==> final(self).wf(),
    {
        if id < self.vertices.len() {
            let vx = &mut self.vertices[id];
            proof {
                lemma_pool_view_update(old(self).vertices@, id as int, *final(vx));
            }
            Some(&mut vx.data)
        } else {
            None
        }
    }

    /// Appends the record `{ weight, other_id: to_id }` to the outgoing list
    /// of the vertex `from_id` and reports whether anything happened: when
    /// `from_id` is out of bounds the call is a no-op and returns false. The
    /// destination is not validated — dangling forward references are
    /// permitted — and its incoming list is not touched.
    pub fn add_weighted_edge(&mut self, from_id: usize, to_id: usize, weight: i32) -> (linked:
        bool)
        ensures
            final(self)@ == spec_add_weighted_edge(old(self)@, from_id, to_id, weight),
            linked == (from_id < old(self)@.len()),
            old(self).wf() ==> final(self).wf(),
    {
        if from_id < self.vertices.len() {
            let vx = &mut self.vertices[from_id];
            vx.add_out(to_id, weight);
            proof {
                lemma_pool_view_update(old(self).vertices@, from_id as int, *final(vx));
            }
            true
        } else {
            false
        }
    }

    /// Convenience for [`Self::add_weighted_edge`] with weight 0, the weight
    /// that stands for "unweighted": the contract is the same with the weight
    /// fixed to 0.
    pub fn add_edge(&mut self, from_id: usize, to_id: usize) -> (linked: bool)
        ensures
            final(self)@ == spec_add_weighted_edge(old(self)@, from_id, to_id, 0i32),
            linked == (from_id < old(self)@.len()),
            old(self).wf() ==> final(self).wf(),
    {
        self.add_weighted_edge(from_id, to_id, 0)
    }

    /// The number of vertices created so far, which is also the next id to be
    /// issued. The exported pair list omits isolated vertices, so a renderer
    /// that must show them needs this count as well.
    pub fn node_count(&self) -> (n: usize)
        ensures
            n == self@.len(),
    {
        self.vertices.len()
    }

    /// Flattens every vertex's outgoing edges into a list of
    /// `(source, destination)` pairs, in pool order and, within one vertex, in
    /// insertion order. This list is the whole boundary handed to an outside
    /// renderer; isolated vertices do not appear in it.
    #[verifier::loop_isolation(false)]
    pub fn export_edge_list(&self) -> (r: Vec<(usize, usize)>)
        ensures
            r@ == spec_edge_pairs(self@),
    {
        let ghost lists = pool_pair_lists(self@);
        let mut r: Vec<(usize, usize)> = Vec::new();
        let mut i: usize = 0;
        proof {
            assert(lists.take(0).flatten() =~= Seq::<(usize, usize)>::empty());
        }
        while i < self.vertices.len()
            invariant
                i <= self.vertices@.len(),
                r@ == lists.take(i as int).flatten(),
            decreases self.vertices@.len() - i,
        {
            let vx = &self.vertices[i];
            let ghost pairs = vertex_out_pairs(vx@);
            let mut j: usize = 0;
            proof {
                assert(r@ =~= lists.take(i as int).flatten() + pairs.take(0));
            }
            while j < vx.out_edges.len()
                invariant
                    j <= vx.out_edges@.len(),
                    r@ == lists.take(i as int).flatten() + pairs.take(j as int),
                decreases vx.out_edges@.len() - j,
            {
                let e = vx.out_edges[j];
                r.push((vx.id, e.other_id));
                proof {
                    assert(pairs[j as int] == (vx@.id, vx@.out_edges[j as int].other_id));
                    assert(pairs.take(j as int + 1) =~= pairs.take(j as int).push(
                        pairs[j as int],
                    ));
                    assert(r@ =~= lists.take(i as int).flatten() + pairs.take(j as int + 1));
                }
                j = j + 1;
            }
            proof {
                assert(pairs.take(j as int) =~= pairs);
                assert(lists[i as int] == pairs);
                assert(lists.take(i as int + 1) =~= lists.take(i as int).push(lists[i as int]));
                lists.take(i as int).lemma_flatten_push(lists[i as int]);
            }
            i = i + 1;
        }
        proof {
            assert(lists.take(self.vertices@.len() as int) =~= lists);
        }
        r
    }
}

} // verus!
