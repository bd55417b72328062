use vstd::prelude::*;
use vstd::seq_lib::lemma_flatten_concat;
use vstd::seq_lib::lemma_multiset_commutative;

use crate::edge::Edge;
use crate::graph::pool_pair_lists;
use crate::graph::pool_wf;
use crate::graph::spec_add_weighted_edge;
use crate::graph::spec_create;
use crate::graph::spec_edge_pairs;
use crate::graph::vertex_out_pairs;
use crate::vertex::VertexModel;

verus! {

/// The pool reached by a run of creations starting from the empty graph, one
/// vertex per element of `ds`, in order.
pub open spec fn spec_create_all<T>(ds: Seq<T>) -> Seq<VertexModel<T>>
    decreases ds.len(),
{
    if ds.len() == 0 {
        Seq::<VertexModel<T>>::empty()
    } else {
        spec_create(spec_create_all(ds.drop_last()), ds.last())
    }
}

/// A run of `N` creations issues exactly the ids `0 .. N-1`, in issuance
/// order — the id handed out at step `k` is `k` — and, as long as nothing
/// mutates it, each vertex still stores the payload passed at its creation,
/// with both edge lists empty. Such a pool is well formed.
pub proof fn lemma_create_run_ids_and_payloads<T>(ds: Seq<T>)
    requires
        ds.len() <= usize::MAX,
    ensures
        spec_create_all(ds).len() == ds.len(),
        forall|k: int| 0 <= k < ds.len() ==> (#[trigger] spec_create_all(ds)[k]).id == k,
        forall|k: int| 0 <= k < ds.len() ==> (#[trigger] spec_create_all(ds)[k]).data == ds[k],
        forall|k: int|
            0 <= k < ds.len() ==> (#[trigger] spec_create_all(ds)[k]).out_edges
                == Seq::<Edge>::empty(),
        forall|k: int|
            0 <= k < ds.len() ==> (#[trigger] spec_create_all(ds)[k]).in_edges
                == Seq::<Edge>::empty(),
        pool_wf(spec_create_all(ds)),
    decreases ds.len(),
{
    if ds.len() > 0 {
        lemma_create_run_ids_and_payloads(ds.drop_last());
        assert forall|k: int| 0 <= k < ds.len() implies (#[trigger] spec_create_all(ds)[k]).data
            == ds[k] by {
            if k < ds.len() - 1 {
                assert(spec_create_all(ds)[k] == spec_create_all(ds.drop_last())[k]);
                assert(ds.drop_last()[k] == ds[k]);
            }
        }
    }
}

/// Flattening after pushing one element onto the sequence at position `i`
/// yields, as a multiset, exactly one more copy of that element.
proof fn lemma_flatten_update_push_multiset<A>(s: Seq<Seq<A>>, i: int, x: A)
    requires
        0 <= i < s.len(),
    ensures
        s.update(i, s[i].push(x)).flatten().to_multiset() == s.flatten().to_multiset().insert(x),
    decreases s.len(),
{
    broadcast use vstd::seq_lib::group_to_multiset_ensures;
    broadcast use vstd::multiset::group_multiset_axioms;

    let s2 = s.update(i, s[i].push(x));
    if i == 0 {
        assert(s2.drop_first() =~= s.drop_first());
        assert(s2.flatten() == s[0].push(x) + s2.drop_first().flatten());
        lemma_multiset_commutative(s[0].push(x), s.drop_first().flatten());
        lemma_multiset_commutative(s[0], s.drop_first().flatten());
        assert(s2.flatten().to_multiset() =~= s.flatten().to_multiset().insert(x));
    } else {
        assert(s2.first() == s.first());
        assert(s2.drop_first() =~= s.drop_first().update(i - 1, s.drop_first()[i - 1].push(x)));
        lemma_flatten_update_push_multiset(s.drop_first(), i - 1, x);
        assert(s2.flatten() == s.first() + s2.drop_first().flatten());
        lemma_multiset_commutative(s.first(), s2.drop_first().flatten());
        lemma_multiset_commutative(s.first(), s.drop_first().flatten());
        assert(s2.flatten().to_multiset() =~= s.flatten().to_multiset().insert(x));
    }
}

/// Inserting an edge from a valid source `a` towards `b` puts the pair
/// `(a, b)` into the exported topology exactly once more than before, leaves
/// every other pair exactly as often as before, and touches no vertex's
/// incoming list or payload — in particular, the destination gains no
/// incoming record.
pub proof fn lemma_add_edge_topology<T>(m: Seq<VertexModel<T>>, a: usize, b: usize, w: i32)
    requires
        pool_wf(m),
        a < m.len(),
    ensures
        spec_edge_pairs(spec_add_weighted_edge(m, a, b, w)).to_multiset()
            == spec_edge_pairs(m).to_multiset().insert((a, b)),
        spec_edge_pairs(spec_add_weighted_edge(m, a, b, w)).to_multiset().count((a, b))
            == spec_edge_pairs(m).to_multiset().count((a, b)) + 1,
        forall|p: (usize, usize)|
            p != (a, b) ==> spec_edge_pairs(spec_add_weighted_edge(m, a, b, w)).to_multiset().count(
                p,
            ) == spec_edge_pairs(m).to_multiset().count(p),
        forall|i: int|
            0 <= i < m.len() ==> (#[trigger] spec_add_weighted_edge(m, a, b, w)[i]).in_edges
                == m[i].in_edges,
        forall|i: int|
            0 <= i < m.len() ==> (#[trigger] spec_add_weighted_edge(m, a, b, w)[i]).data
                == m[i].data,
{
    broadcast use vstd::multiset::group_multiset_axioms;

    let m2 = spec_add_weighted_edge(m, a, b, w);
    let nl = pool_pair_lists(m);
    assert(m[a as int].id == a);
    assert(vertex_out_pairs(m2[a as int]) =~= vertex_out_pairs(m[a as int]).push((a, b)));
    assert(pool_pair_lists(m2) =~= nl.update(a as int, nl[a as int].push((a, b))));
    lemma_flatten_update_push_multiset(nl, a as int, (a, b));
}

/// Where in the exported order the new pair lands: inserting an edge from a
/// valid source `a` places `(a, b)` directly after the pairs that `a` already
/// contributed — that is, at the position given by the pairs of the vertices
/// `0 ..= a` — and moves no other pair.
pub proof fn lemma_add_edge_topology_position<T>(m: Seq<VertexModel<T>>, a: usize, b: usize, w: i32)
    requires
        pool_wf(m),
        a < m.len(),
    ensures
        spec_edge_pairs(spec_add_weighted_edge(m, a, b, w)) == spec_edge_pairs(m).insert(
            pool_pair_lists(m).take(a + 1).flatten().len() as int,
            (a, b),
        ),
{
    let x = (a, b);
    let m2 = spec_add_weighted_edge(m, a, b, w);
    let nl = pool_pair_lists(m);
    let nl2 = pool_pair_lists(m2);
    assert(m[a as int].id == a);
    assert(vertex_out_pairs(m2[a as int]) =~= vertex_out_pairs(m[a as int]).push(x));
    assert(nl2 =~= nl.update(a as int, nl[a as int].push(x)));

    let head = nl.take(a as int);
    let tail = nl.skip(a as int + 1);
    assert(nl =~= nl.take(a as int + 1) + tail);
    assert(nl2.take(a as int + 1) =~= head.push(nl[a as int].push(x)));
    assert(nl2.skip(a as int + 1) =~= tail);
    assert(nl2 =~= nl2.take(a as int + 1) + tail);
    assert(nl.take(a as int + 1) =~= head.push(nl[a as int]));

    lemma_flatten_concat(nl.take(a as int + 1), tail);
    lemma_flatten_concat(nl2.take(a as int + 1), tail);
    head.lemma_flatten_push(nl[a as int]);
    head.lemma_flatten_push(nl[a as int].push(x));

    let pos = nl.take(a as int + 1).flatten().len() as int;
    assert(nl.take(a as int + 1).flatten() == head.flatten() + nl[a as int]);
    assert(nl2.take(a as int + 1).flatten() == head.flatten() + nl[a as int].push(x));
    assert(nl2.flatten() =~= nl.flatten().insert(pos, x));
}

/// Inserting an edge whose source lies outside the pool bounds is a no-op:
/// the pool — and with it its size and the exported topology — is left
/// exactly as it was.
pub proof fn lemma_add_edge_invalid_source_noop<T>(
    m: Seq<VertexModel<T>>,
    a: usize,
    b: usize,
    w: i32,
)
    requires
        a >= m.len(),
    ensures
        spec_add_weighted_edge(m, a, b, w) == m,
        spec_edge_pairs(spec_add_weighted_edge(m, a, b, w)) == spec_edge_pairs(m),
{
}

} // verus!
