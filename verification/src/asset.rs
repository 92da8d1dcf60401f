//! The meshlet mesh asset: a pre-simplified, multi-level-of-detail cluster
//! hierarchy built once offline and never mutated afterwards.
//!
//! Simplification errors and bounding-sphere coordinates are carried as
//! order-preserving unsigned words: the asset pipeline encodes each
//! non-negative scalar so that the numeric order of the words matches the
//! order of the scalars, which is all the selection logic ever reads.

use vstd::prelude::*;

verus! {

/// A cluster of at most 64 vertices and 64 triangles, the atomic unit of
/// culling and rasterization.
///
/// `start_vertex_id` indexes into [`MeshletMesh::vertex_ids`],
/// `start_index_id` into [`MeshletMesh::indices`]; the cluster owns
/// `3 * triangle_count` entries of `indices` from that position.
#[derive(Clone, Copy, PartialEq, Eq, Structural, Debug)]
pub struct Meshlet {
    pub start_vertex_id: u32,
    pub start_index_id: u32,
    pub triangle_count: u32,
}

/// A bounding sphere, stored as four order-preserving unsigned words
/// (three center coordinates and a radius).
#[derive(Clone, Copy, PartialEq, Eq, Structural, Debug)]
pub struct MeshletBoundingSphere {
    pub center_x: u32,
    pub center_y: u32,
    pub center_z: u32,
    pub radius: u32,
}

impl MeshletBoundingSphere {
    /// The sphere used before a real one has been computed.
    pub fn zeroed() -> (s: MeshletBoundingSphere)
        ensures
            s == (MeshletBoundingSphere { center_x: 0u32, center_y: 0u32, center_z: 0u32, radius: 0u32 }),
    {
        MeshletBoundingSphere { center_x: 0u32, center_y: 0u32, center_z: 0u32, radius: 0u32 }
    }
}

/// Number of bytes of vertex data per vertex: interleaved position, normal,
/// uv and tangent, each component four bytes wide.
pub const VERTEX_STRIDE: u64 = 48;

/// An asset holding a quantized vertex buffer, a cluster list, one bounding
/// sphere per cluster interleaved with the sphere of its level-of-detail
/// parent group, and per-cluster simplification error pairs.
///
/// Built once offline, reference-counted, never mutated after creation.
pub struct MeshletMesh {
    /// Raw vertex data, [`VERTEX_STRIDE`] bytes per vertex.
    pub vertex_data: Vec<u8>,
    /// Mesh-local vertex ids; clusters reference contiguous runs of this.
    pub vertex_ids: Vec<u32>,
    /// Cluster-local triangle indices, three per triangle, each an offset
    /// from the owning cluster's `start_vertex_id`.
    pub indices: Vec<u8>,
    /// The clusters.
    pub meshlets: Vec<Meshlet>,
    /// Two spheres per cluster: the cluster's own, then its parent group's.
    pub meshlet_bounding_spheres: Vec<MeshletBoundingSphere>,
    /// Two error words per cluster: the cluster's own simplification error,
    /// then the error of the parent group it was simplified into.
    pub meshlet_lod_errors: Vec<u32>,
    /// Total number of triangle indices over all clusters.
    pub total_meshlet_indices: u64,
    /// Triangle count of the finest level alone: the initial clustering
    /// before any coarser level was appended, the most that one frame can
    /// rasterize.
    pub worst_case_meshlet_triangles: u64,
}

/// Sum of `3 * triangle_count` over a cluster sequence.
pub open spec fn total_index_count(meshlets: Seq<Meshlet>) -> int
    decreases meshlets.len(),
{
    if meshlets.len() == 0 {
        0
    } else {
        total_index_count(meshlets.drop_last()) + 3 * meshlets.last().triangle_count
    }
}

/// Sum of `triangle_count` over a cluster sequence.
pub open spec fn total_triangle_count(meshlets: Seq<Meshlet>) -> int
    decreases meshlets.len(),
{
    if meshlets.len() == 0 {
        0
    } else {
        total_triangle_count(meshlets.drop_last()) + meshlets.last().triangle_count
    }
}

/// The level-of-detail error hierarchy is monotonic: every cluster's parent
/// error is at least its own error. Errors come two to a cluster, the
/// cluster's own first.
pub open spec fn errors_monotonic(errors: Seq<u32>) -> bool {
    forall|i: int| 0 <= i && 2 * i + 1 < errors.len() ==> #[trigger] errors[2 * i] <= errors[2 * i
        + 1]
}

/// Every cluster's vertex and triangle ranges lie within the mesh's own
/// buffers, every cluster-local index points at a vertex id the cluster
/// owns, and every vertex id points at a real vertex.
pub open spec fn clusters_in_bounds(
    meshlets: Seq<Meshlet>,
    vertex_id_count: int,
    index_count: int,
) -> bool {
    forall|i: int|
        0 <= i < meshlets.len() ==> {
            &&& meshlets[i].start_vertex_id <= vertex_id_count
            &&& meshlets[i].start_index_id + 3 * meshlets[i].triangle_count <= index_count
        }
}

impl MeshletMesh {
    /// Structural well-formedness of the asset.
    pub open spec fn wf(self) -> bool {
        &&& self.vertex_data@.len() as int % (VERTEX_STRIDE as int) == 0
        &&& self.meshlet_bounding_spheres@.len() == 2 * self.meshlets@.len()
        &&& self.meshlet_lod_errors@.len() == 2 * self.meshlets@.len()
        &&& errors_monotonic(self.meshlet_lod_errors@)
        &&& clusters_in_bounds(
            self.meshlets@,
            self.vertex_ids@.len() as int,
            self.indices@.len() as int,
        )
        &&& forall|i: int|
            0 <= i < self.vertex_ids@.len() ==> self.vertex_ids@[i]
                < self.vertex_data@.len() as int / (VERTEX_STRIDE as int)
        &&& self.total_meshlet_indices == total_index_count(self.meshlets@)
    }

    /// Number of clusters in the asset.
    pub fn cluster_count(&self) -> (n: usize)
        ensures
            n == self.meshlets@.len(),
    {
        self.meshlets.len()
    }
}

/// The monotonicity law: in a well-formed mesh, every cluster's parent error
/// is at least its own error.
pub proof fn lemma_lod_errors_monotonic(mesh: MeshletMesh, cluster: int)
    requires
        mesh.wf(),
        0 <= cluster < mesh.meshlets@.len(),
    ensures
        mesh.meshlet_lod_errors@[2 * cluster] <= mesh.meshlet_lod_errors@[2 * cluster + 1],
{
}

/// The containment law: in a well-formed mesh, every cluster's vertex and
/// triangle ranges lie within the mesh's own buffers.
pub proof fn lemma_cluster_ranges_in_bounds(mesh: MeshletMesh, cluster: int)
    requires
        mesh.wf(),
        0 <= cluster < mesh.meshlets@.len(),
    ensures
        mesh.meshlets@[cluster].start_vertex_id <= mesh.vertex_ids@.len(),
        mesh.meshlets@[cluster].start_index_id + 3 * mesh.meshlets@[cluster].triangle_count
            <= mesh.indices@.len(),
{
}

} // verus!
