//! A generic directed-graph container: an append-only pool of typed vertices
//! connected by weighted directed edges and addressed by stable integer ids.
//!
//! Vertices never hold references to each other; every cross-reference is an
//! id, the vertex's position in the pool. The container exposes creation,
//! payload mutation, edge insertion, and an export of the directed topology
//! as a flat list of `(source, destination)` id pairs for outside renderers.

mod edge;
mod graph;
mod laws;
mod vertex;

pub use edge::Edge;
pub use graph::pool_pair_lists;
pub use graph::pool_wf;
pub use graph::spec_add_weighted_edge;
pub use graph::spec_create;
pub use graph::spec_edge_pairs;
pub use graph::spec_set_data;
pub use graph::vertex_out_pairs;
pub use graph::Graph;
pub use laws::lemma_add_edge_invalid_source_noop;
pub use laws::lemma_add_edge_topology;
pub use laws::lemma_add_edge_topology_position;
pub use laws::lemma_create_run_ids_and_payloads;
pub use laws::spec_create_all;
pub use vertex::Vertex;
pub use vertex::VertexModel;
