//! Building a [`MeshletMesh`] from a triangle mesh.
//!
//! Validation, cluster bookkeeping, inter-cluster connectivity, graph
//! partitioning and the level-of-detail loop live here; the geometry
//! kernels that cluster and simplify raw vertex data work on floating
//! point and are driven from outside, handing their results back as plain
//! values which the build state machine checks and applies.

use vstd::prelude::*;
use crate::asset::{
    errors_monotonic, total_index_count, total_triangle_count, Meshlet, MeshletBoundingSphere,
    MeshletMesh, VERTEX_STRIDE,
};

verus! {

/// How a mesh's vertices form primitives.
#[derive(Clone, Copy, PartialEq, Eq, Structural, Debug)]
pub enum PrimitiveTopology {
    PointList,
    LineList,
    LineStrip,
    TriangleList,
    TriangleStrip,
}

/// A mesh's index buffer.
pub enum Indices {
    U16(Vec<u16>),
    U32(Vec<u32>),
}

/// Vertex attribute ids, matching the conventional attribute ordering.
pub const ATTRIBUTE_POSITION_ID: u64 = 0;

/// The vertex normal attribute id.
pub const ATTRIBUTE_NORMAL_ID: u64 = 1;

/// The first texture coordinate attribute id.
pub const ATTRIBUTE_UV_0_ID: u64 = 2;

/// The vertex tangent attribute id.
pub const ATTRIBUTE_TANGENT_ID: u64 = 4;

/// A source mesh: topology, the ids of its vertex attributes in order,
/// its interleaved vertex buffer, and an optional index buffer.
pub struct Mesh {
    pub primitive_topology: PrimitiveTopology,
    pub attribute_ids: Vec<u64>,
    pub vertex_buffer: Vec<u8>,
    pub indices: Option<Indices>,
}

/// An error produced when converting a [`Mesh`] into a [`MeshletMesh`].
#[derive(Clone, Copy, PartialEq, Eq, Structural, Debug)]
pub enum MeshToMeshletMeshConversionError {
    WrongMeshPrimitiveTopology,
    WrongMeshVertexAttributes,
    MeshMissingIndices,
}

impl MeshToMeshletMeshConversionError {
    /// A human-readable description of the error.
    pub fn message(&self) -> (m: &'static str)
        ensures
            m@ == match self {
                MeshToMeshletMeshConversionError::WrongMeshPrimitiveTopology => "Mesh primitive topology was not TriangleList"@,
                MeshToMeshletMeshConversionError::WrongMeshVertexAttributes => "Mesh attributes were not {POSITION, NORMAL, UV_0, TANGENT}"@,
                MeshToMeshletMeshConversionError::MeshMissingIndices => "Mesh had no indices"@,
            },
    {
        match self {
            MeshToMeshletMeshConversionError::WrongMeshPrimitiveTopology => "Mesh primitive topology was not TriangleList",
            MeshToMeshletMeshConversionError::WrongMeshVertexAttributes => "Mesh attributes were not {POSITION, NORMAL, UV_0, TANGENT}",
            MeshToMeshletMeshConversionError::MeshMissingIndices => "Mesh had no indices",
        }
    }
}

/// The exact attribute set a convertible mesh must carry, in order.
pub open spec fn required_attribute_ids() -> Seq<u64> {
    seq![
        ATTRIBUTE_POSITION_ID,
        ATTRIBUTE_NORMAL_ID,
        ATTRIBUTE_UV_0_ID,
        ATTRIBUTE_TANGENT_ID,
    ]
}

/// The mesh's indices widened to 32 bits, where it has any.
pub open spec fn widened_indices(indices: Indices) -> Seq<u32> {
    match indices {
        Indices::U16(v) => Seq::new(v@.len(), |i: int| v@[i] as u32),
        Indices::U32(v) => v@,
    }
}

/// Validates that a mesh is an indexed triangle list with exactly the
/// attribute set {position, normal, uv, tangent} in that order, and
/// returns its indices widened to 32 bits.
pub fn validate_input_mesh(mesh: &Mesh) -> (r: Result<
    Vec<u32>,
    MeshToMeshletMeshConversionError,
>)
    ensures
        mesh.primitive_topology != PrimitiveTopology::TriangleList ==> r == Err::<
            Vec<u32>,
            _,
        >(MeshToMeshletMeshConversionError::WrongMeshPrimitiveTopology),
        mesh.primitive_topology == PrimitiveTopology::TriangleList && mesh.attribute_ids@
            != required_attribute_ids() ==> r == Err::<Vec<u32>, _>(
            MeshToMeshletMeshConversionError::WrongMeshVertexAttributes,
        ),
        mesh.primitive_topology == PrimitiveTopology::TriangleList && mesh.attribute_ids@
            == required_attribute_ids() && mesh.indices is None ==> r == Err::<Vec<u32>, _>(
            MeshToMeshletMeshConversionError::MeshMissingIndices,
        ),
        mesh.primitive_topology == PrimitiveTopology::TriangleList && mesh.attribute_ids@
            == required_attribute_ids() && mesh.indices is Some ==> (r matches Ok(v) && v@
            == widened_indices(mesh.indices->Some_0)),
{
    if !matches!(mesh.primitive_topology, PrimitiveTopology::TriangleList) {
        return Err(MeshToMeshletMeshConversionError::WrongMeshPrimitiveTopology);
    }

    let ok_attributes = if mesh.attribute_ids.len() != 4 {
        false
    } else {
        mesh.attribute_ids[0] == ATTRIBUTE_POSITION_ID && mesh.attribute_ids[1]
            == ATTRIBUTE_NORMAL_ID && mesh.attribute_ids[2] == ATTRIBUTE_UV_0_ID
            && mesh.attribute_ids[3] == ATTRIBUTE_TANGENT_ID
    };
    if !ok_attributes {
        proof {
            assert(mesh.attribute_ids@ != required_attribute_ids());
        }
        return Err(MeshToMeshletMeshConversionError::WrongMeshVertexAttributes);
    }
    proof {
        assert(mesh.attribute_ids@ =~= required_attribute_ids());
    }

    match &mesh.indices {
        Some(Indices::U32(indices)) => {
            let mut out: Vec<u32> = Vec::new();
            let mut i: usize = 0;
            while i < indices.len()
                invariant
                    0 <= i <= indices@.len(),
                    out@ == indices@.take(i as int),
                decreases indices@.len() - i,
            {
                out.push(indices[i]);
                i = i + 1;
                proof {
                    assert(out@ =~= indices@.take(i as int));
                }
            }
            proof {
                assert(indices@.take(indices@.len() as int) =~= indices@);
            }
            Ok(out)
        },
        Some(Indices::U16(indices)) => {
            let mut out: Vec<u32> = Vec::new();
            let mut i: usize = 0;
            while i < indices.len()
                invariant
                    0 <= i <= indices@.len(),
                    out@ == Seq::new(i as nat, |k: int| indices@[k] as u32),
                decreases indices@.len() - i,
            {
                out.push(indices[i] as u32);
                i = i + 1;
                proof {
                    assert(out@ =~= Seq::new(i as nat, |k: int| indices@[k] as u32));
                }
            }
            Ok(out)
        },
        None => Err(MeshToMeshletMeshConversionError::MeshMissingIndices),
    }
}

/// A cluster inside a [`ClusterSet`], in the shape the clustering kernel
/// produces: offsets and counts into the set's shared vertex and triangle
/// arrays.
#[derive(Clone, Copy, PartialEq, Eq, Structural, Debug)]
pub struct Cluster {
    pub vertex_offset: u32,
    pub triangle_offset: u32,
    pub vertex_count: u32,
    pub triangle_count: u32,
}

/// A set of clusters sharing one vertex id array and one triangle array
/// of cluster-local indices, three per triangle.
pub struct ClusterSet {
    pub vertices: Vec<u32>,
    pub triangles: Vec<u8>,
    pub clusters: Vec<Cluster>,
}

impl ClusterSet {
    /// Every cluster's runs lie inside the shared arrays, and every
    /// triangle entry indexes a vertex the cluster owns.
    pub open spec fn wf(self) -> bool {
        &&& forall|i: int|
            0 <= i < self.clusters@.len() ==> {
                &&& (#[trigger] self.clusters@[i]).vertex_offset
                    + self.clusters@[i].vertex_count <= self.vertices@.len()
                &&& self.clusters@[i].triangle_offset + 3 * self.clusters@[i].triangle_count
                    <= self.triangles@.len()
            }
        &&& forall|i: int, t: int|
            0 <= i < self.clusters@.len() && 0 <= t < 3 * self.clusters@[i].triangle_count
                ==> #[trigger] self.triangles@[self.clusters@[i].triangle_offset + t]
                < self.clusters@[i].vertex_count
    }
}

impl ClusterSet {
    /// Checks well-formedness at run time, for callers that receive a
    /// cluster set from an unverified source.
    pub fn check_wf(&self) -> (ok: bool)
        ensures
            ok == self.wf(),
    {
        let vert_len = self.vertices.len();
        let tri_len = self.triangles.len();
        let n = self.clusters.len();
        let mut i: usize = 0;
        while i < n
            invariant
                n == self.clusters@.len(),
                vert_len == self.vertices@.len(),
                tri_len == self.triangles@.len(),
                0 <= i <= n,
                forall|i2: int|
                    0 <= i2 < i ==> {
                        &&& (#[trigger] self.clusters@[i2]).vertex_offset
                            + self.clusters@[i2].vertex_count <= vert_len
                        &&& self.clusters@[i2].triangle_offset + 3
                            * self.clusters@[i2].triangle_count <= tri_len
                    },
                forall|i2: int, t: int|
                    0 <= i2 < i && 0 <= t < 3 * self.clusters@[i2].triangle_count
                        ==> #[trigger] self.triangles@[self.clusters@[i2].triangle_offset + t]
                        < self.clusters@[i2].vertex_count,
            decreases n - i,
        {
            let c = self.clusters[i];
            if (c.vertex_offset as u64) + (c.vertex_count as u64) > (vert_len as u64) {
                return false;
            }
            if (c.triangle_offset as u64) + 3 * (c.triangle_count as u64) > (tri_len as u64) {
                return false;
            }
            let slots = 3 * (c.triangle_count as usize);
            let mut t: usize = 0;
            while t < slots
                invariant
                    n == self.clusters@.len(),
                    tri_len == self.triangles@.len(),
                    i < n,
                    c == self.clusters@[i as int],
                    slots == 3 * c.triangle_count,
                    c.triangle_offset + slots <= tri_len,
                    c.vertex_offset + c.vertex_count <= self.vertices@.len(),
                    0 <= t <= slots,
                    forall|t2: int|
                        0 <= t2 < t ==> #[trigger] self.triangles@[c.triangle_offset + t2]
                            < c.vertex_count,
                decreases slots - t,
            {
                if (self.triangles[(c.triangle_offset as usize) + t] as u32)
                    >= c.vertex_count {
                    return false;
                }
                t = t + 1;
            }
            i = i + 1;
        }
        true
    }
}

/// The mesh-global vertex id at slot `t` of cluster `i`'s triangle list.
pub open spec fn cluster_vertex_at(cs: ClusterSet, i: int, t: int) -> u32 {
    cs.vertices@[cs.clusters@[i].vertex_offset + cs.triangles@[cs.clusters@[i].triangle_offset
        + t]]
}

/// The pair `(a, b)` ordered so the smaller id comes first.
pub open spec fn normalized_edge(a: u32, b: u32) -> (u32, u32) {
    if a <= b {
        (a, b)
    } else {
        (b, a)
    }
}

/// Whether one of the first `bound` triangles of cluster `i` has the
/// given normalized edge.
pub open spec fn cluster_has_edge_upto(cs: ClusterSet, i: int, e: (u32, u32), bound: int) -> bool {
    exists|t: int|
        0 <= t < bound && (e == normalized_edge(
            #[trigger] cluster_vertex_at(cs, i, 3 * t),
            cluster_vertex_at(cs, i, 3 * t + 1),
        ) || e == normalized_edge(
            cluster_vertex_at(cs, i, 3 * t),
            cluster_vertex_at(cs, i, 3 * t + 2),
        ) || e == normalized_edge(
            cluster_vertex_at(cs, i, 3 * t + 1),
            cluster_vertex_at(cs, i, 3 * t + 2),
        ))
}

/// Whether cluster `i` has a triangle with the given normalized edge.
pub open spec fn cluster_has_edge(cs: ClusterSet, i: int, e: (u32, u32)) -> bool {
    cluster_has_edge_upto(cs, i, e, cs.clusters@[i].triangle_count as int)
}

/// An edge found among the first triangles is still found with a wider
/// bound.
proof fn lemma_edge_upto_widen(cs: ClusterSet, i: int, e: (u32, u32), b1: int, b2: int)
    requires
        b1 <= b2,
        cluster_has_edge_upto(cs, i, e, b1),
    ensures
        cluster_has_edge_upto(cs, i, e, b2),
{
    let t = choose|t: int|
        0 <= t < b1 && (e == normalized_edge(
            #[trigger] cluster_vertex_at(cs, i, 3 * t),
            cluster_vertex_at(cs, i, 3 * t + 1),
        ) || e == normalized_edge(
            cluster_vertex_at(cs, i, 3 * t),
            cluster_vertex_at(cs, i, 3 * t + 2),
        ) || e == normalized_edge(
            cluster_vertex_at(cs, i, 3 * t + 1),
            cluster_vertex_at(cs, i, 3 * t + 2),
        ));
    assert(0 <= t < b2 && (e == normalized_edge(
        cluster_vertex_at(cs, i, 3 * t),
        cluster_vertex_at(cs, i, 3 * t + 1),
    ) || e == normalized_edge(
        cluster_vertex_at(cs, i, 3 * t),
        cluster_vertex_at(cs, i, 3 * t + 2),
    ) || e == normalized_edge(
        cluster_vertex_at(cs, i, 3 * t + 1),
        cluster_vertex_at(cs, i, 3 * t + 2),
    )));
}

/// The three normalized edges of triangle `t` are found once the bound
/// passes `t`.
proof fn lemma_edge_upto_new(cs: ClusterSet, i: int, e: (u32, u32), t: int, bound: int)
    requires
        0 <= t < bound,
        e == normalized_edge(
            cluster_vertex_at(cs, i, 3 * t),
            cluster_vertex_at(cs, i, 3 * t + 1),
        ) || e == normalized_edge(
            cluster_vertex_at(cs, i, 3 * t),
            cluster_vertex_at(cs, i, 3 * t + 2),
        ) || e == normalized_edge(
            cluster_vertex_at(cs, i, 3 * t + 1),
            cluster_vertex_at(cs, i, 3 * t + 2),
        ),
    ensures
        cluster_has_edge_upto(cs, i, e, bound),
{
    assert(0 <= t < bound && (e == normalized_edge(
        #[trigger] cluster_vertex_at(cs, i, 3 * t),
        cluster_vertex_at(cs, i, 3 * t + 1),
    ) || e == normalized_edge(
        cluster_vertex_at(cs, i, 3 * t),
        cluster_vertex_at(cs, i, 3 * t + 2),
    ) || e == normalized_edge(
        cluster_vertex_at(cs, i, 3 * t + 1),
        cluster_vertex_at(cs, i, 3 * t + 2),
    )));
}

/// An edge found within a bound comes from one of those triangles.
proof fn lemma_edge_upto_split(cs: ClusterSet, i: int, e: (u32, u32), bound: int)
    requires
        cluster_has_edge_upto(cs, i, e, bound + 1),
        !(e == normalized_edge(
            cluster_vertex_at(cs, i, 3 * bound),
            cluster_vertex_at(cs, i, 3 * bound + 1),
        ) || e == normalized_edge(
            cluster_vertex_at(cs, i, 3 * bound),
            cluster_vertex_at(cs, i, 3 * bound + 2),
        ) || e == normalized_edge(
            cluster_vertex_at(cs, i, 3 * bound + 1),
            cluster_vertex_at(cs, i, 3 * bound + 2),
        )),
    ensures
        cluster_has_edge_upto(cs, i, e, bound),
{
    let t = choose|t: int|
        0 <= t < bound + 1 && (e == normalized_edge(
            #[trigger] cluster_vertex_at(cs, i, 3 * t),
            cluster_vertex_at(cs, i, 3 * t + 1),
        ) || e == normalized_edge(
            cluster_vertex_at(cs, i, 3 * t),
            cluster_vertex_at(cs, i, 3 * t + 2),
        ) || e == normalized_edge(
            cluster_vertex_at(cs, i, 3 * t + 1),
            cluster_vertex_at(cs, i, 3 * t + 2),
        ));
    assert(t != bound);
    assert(0 <= t < bound && (e == normalized_edge(
        cluster_vertex_at(cs, i, 3 * t),
        cluster_vertex_at(cs, i, 3 * t + 1),
    ) || e == normalized_edge(
        cluster_vertex_at(cs, i, 3 * t),
        cluster_vertex_at(cs, i, 3 * t + 2),
    ) || e == normalized_edge(
        cluster_vertex_at(cs, i, 3 * t + 1),
        cluster_vertex_at(cs, i, 3 * t + 2),
    )));
}

/// No entry occurs twice.
pub open spec fn unique_edges(s: Seq<(u32, u32)>) -> bool {
    forall|k1: int, k2: int| 0 <= k1 < k2 < s.len() ==> s[k1] != s[k2]
}

proof fn lemma_contains_push(s: Seq<(u32, u32)>, v: (u32, u32), x: (u32, u32))
    ensures
        s.push(v).contains(x) <==> (s.contains(x) || x == v),
{
    if s.contains(x) {
        let k = choose|k: int| 0 <= k < s.len() && s[k] == x;
        assert(s.push(v)[k] == x);
    }
    assert(s.push(v)[s.len() as int] == v);
    if s.push(v).contains(x) {
        let k = choose|k: int| 0 <= k < s.push(v).len() && s.push(v)[k] == x;
        if k < s.len() {
            assert(s[k] == x);
        }
    }
}

/// Whether the list holds the given edge.
fn edge_list_contains(s: &Vec<(u32, u32)>, e: (u32, u32)) -> (r: bool)
    ensures
        r == s@.contains(e),
{
    let mut k: usize = 0;
    while k < s.len()
        invariant
            0 <= k <= s@.len(),
            forall|j: int| 0 <= j < k ==> s@[j] != e,
        decreases s@.len() - k,
    {
        let entry = s[k];
        if entry.0 == e.0 && entry.1 == e.1 {
            proof {
                assert(s@[k as int] == e);
            }
            return true;
        }
        k = k + 1;
    }
    proof {
        if s@.contains(e) {
            let j = choose|j: int| 0 <= j < s@.len() && s@[j] == e;
            assert(s@[j] != e);
        }
    }
    false
}

/// Appends `e` unless the list already holds it.
fn push_unique_edge(s: &mut Vec<(u32, u32)>, e: (u32, u32))
    requires
        unique_edges(old(s)@),
    ensures
        unique_edges(final(s)@),
        forall|x: (u32, u32)| final(s)@.contains(x) <==> (old(s)@.contains(x) || x == e),
{
    let present = edge_list_contains(s, e);
    if !present {
        let ghost before = s@;
        s.push(e);
        proof {
            assert forall|x: (u32, u32)| final(s)@.contains(x) <==> (before.contains(x) || x
                == e) by {
                lemma_contains_push(before, e, x);
            }
            assert forall|k1: int, k2: int| 0 <= k1 < k2 < s@.len() implies s@[k1] != s@[k2] by {
                if k2 == s@.len() - 1 {
                    assert(before.contains(before[k1])) by {
                        assert(before[k1] == before[k1]);
                    }
                }
            }
        }
    } else {
        proof {
            assert forall|x: (u32, u32)| final(s)@.contains(x) <==> (old(s)@.contains(x) || x
                == e) by {}
        }
    }
}

/// Collects, for each cluster of the simplification queue, the set of its
/// triangles' normalized edges.
pub fn collect_triangle_edges_per_meshlet(queue_start: u32, cs: &ClusterSet) -> (r: Vec<
    Vec<(u32, u32)>,
>)
    requires
        cs.wf(),
        queue_start <= cs.clusters@.len(),
    ensures
        r@.len() == cs.clusters@.len() - queue_start,
        forall|i: int|
            0 <= i < r@.len() ==> unique_edges((#[trigger] r@[i])@),
        forall|i: int, e: (u32, u32)|
            0 <= i < r@.len() ==> (#[trigger] r@[i]@.contains(e) <==> cluster_has_edge(
                *cs,
                queue_start + i,
                e,
            )),
{
    let mut out: Vec<Vec<(u32, u32)>> = Vec::new();
    let n = cs.clusters.len();
    let mut c: usize = queue_start as usize;
    while c < n
        invariant
            cs.wf(),
            n == cs.clusters@.len(),
            queue_start <= c <= n,
            out@.len() == c - queue_start,
            forall|i: int|
                0 <= i < out@.len() ==> unique_edges((#[trigger] out@[i])@),
            forall|i: int, e: (u32, u32)|
                0 <= i < out@.len() ==> (#[trigger] out@[i]@.contains(e)
                    <==> cluster_has_edge(*cs, queue_start + i, e)),
        decreases n - c,
    {
        let cluster = cs.clusters[c];
        let mut edges: Vec<(u32, u32)> = Vec::new();
        let mut t: usize = 0;
        while t < cluster.triangle_count as usize
            invariant
                cs.wf(),
                c < cs.clusters@.len(),
                cluster == cs.clusters@[c as int],
                0 <= t <= cluster.triangle_count,
                unique_edges(edges@),
                forall|e: (u32, u32)|
                    #[trigger] edges@.contains(e) <==> cluster_has_edge_upto(
                        *cs,
                        c as int,
                        e,
                        t as int,
                    ),
            decreases cluster.triangle_count - t,
        {
            let tri_len = cs.triangles.len();
            let vert_len = cs.vertices.len();
            proof {
                assert(cs.clusters@[c as int].triangle_offset + 3 * cs.clusters@[c as int].triangle_count
                    <= tri_len);
                assert(cs.clusters@[c as int].vertex_offset + cs.clusters@[c as int].vertex_count
                    <= vert_len);
            }
            let base = (cluster.triangle_offset as usize) + 3 * t;
            let l0 = cs.triangles[base];
            let l1 = cs.triangles[base + 1];
            let l2 = cs.triangles[base + 2];
            proof {
                let ci = c as int;
                let ti = t as int;
                assert(l0 == cs.triangles@[cs.clusters@[ci].triangle_offset + 3 * ti]);
                assert(l1 == cs.triangles@[cs.clusters@[ci].triangle_offset + (3 * ti + 1)]);
                assert(l2 == cs.triangles@[cs.clusters@[ci].triangle_offset + (3 * ti + 2)]);
                assert(l0 < cs.clusters@[ci].vertex_count);
                assert(l1 < cs.clusters@[ci].vertex_count);
                assert(l2 < cs.clusters@[ci].vertex_count);
            }
            let v0 = cs.vertices[(cluster.vertex_offset as usize) + (l0 as usize)];
            let v1 = cs.vertices[(cluster.vertex_offset as usize) + (l1 as usize)];
            let v2 = cs.vertices[(cluster.vertex_offset as usize) + (l2 as usize)];
            let e01 = if v0 <= v1 {
                (v0, v1)
            } else {
                (v1, v0)
            };
            let e02 = if v0 <= v2 {
                (v0, v2)
            } else {
                (v2, v0)
            };
            let e12 = if v1 <= v2 {
                (v1, v2)
            } else {
                (v2, v1)
            };
            proof {
                assert(v0 == cluster_vertex_at(*cs, c as int, 3 * (t as int)));
                assert(v1 == cluster_vertex_at(*cs, c as int, 3 * (t as int) + 1));
                assert(v2 == cluster_vertex_at(*cs, c as int, 3 * (t as int) + 2));
            }
            let ghost edges0 = edges@;
            push_unique_edge(&mut edges, e01);
            push_unique_edge(&mut edges, e02);
            push_unique_edge(&mut edges, e12);
            t = t + 1;
            proof {
                let ti = t - 1;
                let ci = c as int;
                assert(v0 == cluster_vertex_at(*cs, ci, 3 * ti));
                assert(v1 == cluster_vertex_at(*cs, ci, 3 * ti + 1));
                assert(v2 == cluster_vertex_at(*cs, ci, 3 * ti + 2));
                assert forall|e: (u32, u32)| #[trigger] edges@.contains(e)
                    <==> cluster_has_edge_upto(*cs, ci, e, t as int) by {
                    if edges@.contains(e) {
                        if e == e01 || e == e02 || e == e12 {
                            lemma_edge_upto_new(*cs, ci, e, ti, t as int);
                        } else {
                            assert(edges0.contains(e));
                            assert(cluster_has_edge_upto(*cs, ci, e, ti));
                            lemma_edge_upto_widen(*cs, ci, e, ti, t as int);
                        }
                    }
                    if cluster_has_edge_upto(*cs, ci, e, t as int) {
                        if e == e01 || e == e02 || e == e12 {
                            assert(edges@.contains(e));
                        } else {
                            lemma_edge_upto_split(*cs, ci, e, ti);
                            assert(edges0.contains(e));
                            assert(edges@.contains(e));
                        }
                    }
                }
            }
        }
        proof {
            assert(t == cs.clusters@[c as int].triangle_count);
            assert forall|e: (u32, u32)| #[trigger] edges@.contains(e) <==> cluster_has_edge(
                *cs,
                c as int,
                e,
            ) by {}
        }
        out.push(edges);
        c = c + 1;
        proof {
            assert forall|i: int, e: (u32, u32)|
                0 <= i < out@.len() implies (#[trigger] out@[i]@.contains(e)
                <==> cluster_has_edge(*cs, queue_start + i, e)) by {
                if i < out@.len() - 1 {
                    assert(out@[i] == out@.drop_last()[i]);
                }
            }
        }
    }
    out
}

/// How many entries of `a` the list `b` also holds: with `a` free of
/// duplicates, the number of shared entries.
pub open spec fn count_matching(a: Seq<(u32, u32)>, b: Seq<(u32, u32)>) -> int
    decreases a.len(),
{
    if a.len() == 0 {
        0
    } else {
        count_matching(a.drop_last(), b) + (if b.contains(a.last()) {
            1int
        } else {
            0int
        })
    }
}

/// Counts the entries of `a` that `b` also holds.
fn count_shared_edges(a: &Vec<(u32, u32)>, b: &Vec<(u32, u32)>) -> (n: u64)
    requires
        a@.len() <= u64::MAX,
    ensures
        n == count_matching(a@, b@),
{
    proof {
        lemma_count_matching_bound(a@, b@);
    }
    let mut n: u64 = 0;
    let mut k: usize = 0;
    while k < a.len()
        invariant
            0 <= k <= a@.len(),
            n == count_matching(a@.take(k as int), b@),
        decreases a@.len() - k,
    {
        proof {
            lemma_count_matching_bound(a@.take(k as int + 1), b@);
            assert(a@.take(k as int + 1).drop_last() =~= a@.take(k as int));
            assert(a@.take(k as int + 1).last() == a@[k as int]);
        }
        if edge_list_contains(b, a[k]) {
            n = n + 1;
        }
        k = k + 1;
    }
    proof {
        assert(a@.take(a@.len() as int) =~= a@);
    }
    n
}

/// The shared count never exceeds the first list's length.
proof fn lemma_count_matching_bound(a: Seq<(u32, u32)>, b: Seq<(u32, u32)>)
    ensures
        0 <= count_matching(a, b) <= a.len(),
    decreases a.len(),
{
    if a.len() > 0 {
        lemma_count_matching_bound(a.drop_last(), b);
    }
}

/// The connectivity row of cluster `i`: every other cluster it shares at
/// least one boundary edge with, paired with the shared-edge count, in
/// ascending cluster order.
pub open spec fn connected_row(edges: Seq<Seq<(u32, u32)>>, i: int, bound: int) -> Seq<(u64, u64)>
    decreases bound,
{
    if bound <= 0 {
        Seq::empty()
    } else {
        connected_row(edges, i, bound - 1) + (if bound - 1 != i && count_matching(
            edges[bound - 1],
            edges[i],
        ) > 0 {
            seq![((bound - 1) as u64, count_matching(edges[bound - 1], edges[i]) as u64)]
        } else {
            Seq::<(u64, u64)>::empty()
        })
    }
}

/// For each cluster of the simplification queue, lists the other queue
/// clusters that share at least one boundary edge with it, with the
/// shared-edge counts.
pub fn find_connected_meshlets(edges: &Vec<Vec<(u32, u32)>>) -> (r: Vec<Vec<(u64, u64)>>)
    requires
        forall|i: int| 0 <= i < edges@.len() ==> (#[trigger] edges@[i])@.len() <= u64::MAX,
    ensures
        r@.len() == edges@.len(),
        forall|i: int|
            0 <= i < r@.len() ==> (#[trigger] r@[i])@ == connected_row(
                Seq::new(edges@.len(), |k: int| edges@[k]@),
                i,
                edges@.len() as int,
            ),
{
    let ghost views = Seq::new(edges@.len(), |k: int| edges@[k]@);
    let n = edges.len();
    let mut out: Vec<Vec<(u64, u64)>> = Vec::new();
    let mut i: usize = 0;
    while i < n
        invariant
            n == edges@.len(),
            views == Seq::new(edges@.len(), |k: int| edges@[k]@),
            forall|k: int| 0 <= k < edges@.len() ==> (#[trigger] edges@[k])@.len() <= u64::MAX,
            0 <= i <= n,
            out@.len() == i,
            forall|k: int|
                0 <= k < i ==> (#[trigger] out@[k])@ == connected_row(views, k, n as int),
        decreases n - i,
    {
        let mut row: Vec<(u64, u64)> = Vec::new();
        let mut j: usize = 0;
        proof {
            assert(row@ =~= connected_row(views, i as int, 0));
        }
        while j < n
            invariant
                n == edges@.len(),
                views == Seq::new(edges@.len(), |k: int| edges@[k]@),
                forall|k: int|
                    0 <= k < edges@.len() ==> (#[trigger] edges@[k])@.len() <= u64::MAX,
                0 <= j <= n,
                i < n,
                row@ == connected_row(views, i as int, j as int),
            decreases n - j,
        {
            if j != i {
                let shared = count_shared_edges(&edges[j], &edges[i]);
                if shared > 0 {
                    row.push((j as u64, shared));
                }
            }
            j = j + 1;
            proof {
                assert(row@ =~= connected_row(views, i as int, j as int));
            }
        }
        out.push(row);
        i = i + 1;
        proof {
            assert forall|k: int|
                0 <= k < i implies (#[trigger] out@[k])@ == connected_row(views, k, n as int) by {
                if k < i - 1 {
                    assert(out@[k] == out@.drop_last()[k]);
                }
            }
        }
    }
    out
}

/// The compressed sparse row encoding of the connectivity rows: offsets,
/// neighbour indices and edge weights, as the graph partitioner consumes
/// them.
pub fn build_partition_arrays(connected: &Vec<Vec<(u64, u64)>>) -> (r: (
    Vec<i32>,
    Vec<i32>,
    Vec<i32>,
))
    requires
        forall|i: int, k: int|
            0 <= i < connected@.len() && 0 <= k < connected@[i]@.len() ==> {
                &&& (#[trigger] connected@[i]@[k]).0 <= i32::MAX
                &&& connected@[i]@[k].1 <= i32::MAX
            },
        total_row_len(connected@, connected@.len() as int) <= i32::MAX,
    ensures
        r.0@.len() == connected@.len() + 1,
        r.0@[0] == 0,
        forall|i: int|
            0 <= i < connected@.len() ==> #[trigger] r.0@[i + 1] == total_row_len(
                connected@,
                i + 1,
            ),
        r.1@.len() == total_row_len(connected@, connected@.len() as int),
        r.2@.len() == r.1@.len(),
        forall|i: int, k: int|
            0 <= i < connected@.len() && 0 <= k < connected@[i]@.len() ==> {
                &&& #[trigger] r.1@[total_row_len(connected@, i) + k] == connected@[i]@[k].0
                &&& r.2@[total_row_len(connected@, i) + k] == connected@[i]@[k].1
            },
{
    let mut xadj: Vec<i32> = Vec::new();
    let mut adjncy: Vec<i32> = Vec::new();
    let mut adjwgt: Vec<i32> = Vec::new();
    xadj.push(0);
    let n = connected.len();
    let mut i: usize = 0;
    while i < n
        invariant
            n == connected@.len(),
            forall|i2: int, k: int|
                0 <= i2 < connected@.len() && 0 <= k < connected@[i2]@.len() ==> {
                    &&& (#[trigger] connected@[i2]@[k]).0 <= i32::MAX
                    &&& connected@[i2]@[k].1 <= i32::MAX
                },
            total_row_len(connected@, connected@.len() as int) <= i32::MAX,
            0 <= i <= n,
            xadj@.len() == i + 1,
            xadj@[0] == 0,
            forall|i2: int|
                0 <= i2 < i ==> #[trigger] xadj@[i2 + 1] == total_row_len(connected@, i2 + 1),
            adjncy@.len() == total_row_len(connected@, i as int),
            adjwgt@.len() == adjncy@.len(),
            forall|i2: int, k: int|
                0 <= i2 < i && 0 <= k < connected@[i2]@.len() ==> {
                    &&& #[trigger] adjncy@[total_row_len(connected@, i2) + k]
                        == connected@[i2]@[k].0
                    &&& adjwgt@[total_row_len(connected@, i2) + k] == connected@[i2]@[k].1
                },
        decreases n - i,
    {
        proof {
            lemma_total_row_len_monotonic(connected@, i as int + 1, connected@.len() as int);
            lemma_total_row_len_nonneg(connected@, i as int);
        }
        let ghost base = adjncy@.len() as int;
        let ghost adjncy0 = adjncy@;
        let ghost adjwgt0 = adjwgt@;
        let row_len = connected[i].len();
        let mut k: usize = 0;
        while k < row_len
            invariant
                n == connected@.len(),
                i < n,
                row_len == connected@[i as int]@.len(),
                forall|i2: int, k2: int|
                    0 <= i2 < connected@.len() && 0 <= k2 < connected@[i2]@.len() ==> {
                        &&& (#[trigger] connected@[i2]@[k2]).0 <= i32::MAX
                        &&& connected@[i2]@[k2].1 <= i32::MAX
                    },
                0 <= k <= row_len,
                adjncy@.len() == base + k,
                adjwgt@.len() == adjncy@.len(),
                forall|k2: int|
                    0 <= k2 < k ==> {
                        &&& #[trigger] adjncy@[base + k2] == connected@[i as int]@[k2].0
                        &&& adjwgt@[base + k2] == connected@[i as int]@[k2].1
                    },
                base == adjncy0.len(),
                adjncy@.take(base) == adjncy0,
                adjwgt@.take(base) == adjwgt0,
            decreases row_len - k,
        {
            let entry = connected[i][k];
            adjncy.push(entry.0 as i32);
            adjwgt.push(entry.1 as i32);
            k = k + 1;
            proof {
                assert(adjncy@.take(base) =~= adjncy0);
                assert(adjwgt@.take(base) =~= adjwgt0);
            }
        }
        proof {
            assert forall|i2: int, k2: int|
                0 <= i2 < i && 0 <= k2 < connected@[i2]@.len() implies {
                &&& #[trigger] adjncy@[total_row_len(connected@, i2) + k2]
                    == connected@[i2]@[k2].0
                &&& adjwgt@[total_row_len(connected@, i2) + k2] == connected@[i2]@[k2].1
            } by {
                lemma_total_row_len_monotonic(connected@, i2 + 1, i as int);
                lemma_total_row_len_nonneg(connected@, i2);
                assert(total_row_len(connected@, i2) + k2 < base);
                assert(adjncy@[total_row_len(connected@, i2) + k2] == adjncy0[total_row_len(
                    connected@,
                    i2,
                ) + k2]);
                assert(adjwgt@[total_row_len(connected@, i2) + k2] == adjwgt0[total_row_len(
                    connected@,
                    i2,
                ) + k2]);
            }
        }
        proof {
            assert(total_row_len(connected@, i as int + 1) == total_row_len(
                connected@,
                i as int,
            ) + connected@[i as int]@.len());
        }
        let next_offset = adjncy.len();
        xadj.push(next_offset as i32);
        i = i + 1;
    }
    (xadj, adjncy, adjwgt)
}

/// Total length of the first `bound` connectivity rows.
pub open spec fn total_row_len(connected: Seq<Vec<(u64, u64)>>, bound: int) -> int
    decreases bound,
{
    if bound <= 0 {
        0
    } else {
        total_row_len(connected, bound - 1) + connected[bound - 1]@.len()
    }
}

proof fn lemma_total_row_len_nonneg(connected: Seq<Vec<(u64, u64)>>, bound: int)
    ensures
        total_row_len(connected, bound) >= 0,
    decreases bound,
{
    if bound > 0 {
        lemma_total_row_len_nonneg(connected, bound - 1);
    }
}

proof fn lemma_total_row_len_monotonic(connected: Seq<Vec<(u64, u64)>>, b1: int, b2: int)
    requires
        0 <= b1 <= b2,
    ensures
        total_row_len(connected, b1) <= total_row_len(connected, b2),
    decreases b2 - b1,
{
    if b1 < b2 {
        lemma_total_row_len_monotonic(connected, b1 + 1, b2);
    }
}

/// Relies on metis::Graph::{new, set_adjwgt, part_kway}: multilevel k-way
/// partitioning of the CSR-encoded weighted graph. On success the
/// returned vector assigns each vertex a part; any input the partitioner
/// rejects yields no partition.
#[verifier::external_body]
fn partition_graph(nparts: i32, xadj: &Vec<i32>, adjncy: &Vec<i32>, adjwgt: &Vec<i32>) -> (r:
    Option<Vec<i32>>)
    requires
        xadj@.len() >= 1,
        adjwgt@.len() == adjncy@.len(),
        adjwgt@.len() <= i32::MAX,
        forall|k: int| 0 <= k < adjwgt@.len() ==> adjwgt@[k] >= 1,
    ensures
        r matches Some(part) ==> part@.len() == xadj@.len() - 1,
{
    let n = xadj.len() - 1;
    let graph = match metis::Graph::new(1, nparts, xadj.as_slice(), adjncy.as_slice()) {
        Ok(g) => g,
        Err(_) => return None,
    };
    let graph = graph.set_adjwgt(adjwgt.as_slice());
    let mut part = vec![0; n];
    match graph.part_kway(&mut part) {
        Ok(_) => Some(part),
        Err(_) => None,
    }
}

/// How often `id` occurs in a list.
pub open spec fn count_in(s: Seq<u32>, id: u32) -> int
    decreases s.len(),
{
    if s.len() == 0 {
        0
    } else {
        count_in(s.drop_last(), id) + (if s.last() == id {
            1int
        } else {
            0int
        })
    }
}

/// How often `id` occurs over all groups together.
pub open spec fn occurrences(groups: Seq<Vec<u32>>, id: u32) -> int
    decreases groups.len(),
{
    if groups.len() == 0 {
        0
    } else {
        occurrences(groups.drop_last(), id) + count_in(groups.last()@, id)
    }
}

proof fn lemma_occurrences_all_empty(groups: Seq<Vec<u32>>, id: u32)
    requires
        forall|g: int| 0 <= g < groups.len() ==> (#[trigger] groups[g])@.len() == 0,
    ensures
        occurrences(groups, id) == 0,
    decreases groups.len(),
{
    if groups.len() > 0 {
        lemma_occurrences_all_empty(groups.drop_last(), id);
    }
}

/// Pushing `id` into one group raises its occurrence count by one and no
/// other's.
proof fn lemma_occurrences_update_push(groups: Seq<Vec<u32>>, b: int, pushed: Vec<u32>, id: u32, x: u32)
    requires
        0 <= b < groups.len(),
        pushed@ == groups[b]@.push(id),
    ensures
        occurrences(groups.update(b, pushed), x) == occurrences(groups, x) + (if x == id {
            1int
        } else {
            0int
        }),
    decreases groups.len(),
{
    let updated = groups.update(b, pushed);
    assert(pushed@.drop_last() =~= groups[b]@);
    if b == groups.len() - 1 {
        assert(updated.drop_last() =~= groups.drop_last());
        assert(updated.last() == pushed);
    } else {
        assert(updated.drop_last() =~= groups.drop_last().update(b, pushed));
        assert(updated.last() == groups.last());
        lemma_occurrences_update_push(groups.drop_last(), b, pushed, id, x);
    }
}

/// Each queue cluster occurs in the row exactly when it was already
/// processed and falls in the given group.
pub open spec fn bucket_counts(
    row: Seq<u32>,
    part: Seq<i32>,
    nparts: int,
    queue_start: u32,
    n: int,
    upto: int,
    b: int,
) -> bool {
    forall|i2: int|
        0 <= i2 < n ==> #[trigger] count_in(row, (queue_start + i2) as u32) == (if i2 < upto
            && bucket_spec(part, nparts, i2) == b {
            1int
        } else {
            0int
        })
}

/// Each queue cluster occurs over all groups exactly when its group was
/// already collected.
pub open spec fn bucket_occurrences(
    groups: Seq<Vec<u32>>,
    part: Seq<i32>,
    nparts: int,
    queue_start: u32,
    n: int,
    upto_bucket: int,
) -> bool {
    forall|i2: int|
        0 <= i2 < n ==> #[trigger] occurrences(groups, (queue_start + i2) as u32) == (if
        bucket_spec(part, nparts, i2) < upto_bucket {
            1int
        } else {
            0int
        })
}

/// Groups the simplification queue's clusters into roughly groups of
/// four, keeping clusters that share many boundary edges together. Every
/// queue cluster lands in exactly one group; clusters the partitioner
/// could not place land in the first group.
pub fn group_meshlets(queue_start: u32, connected: &Vec<Vec<(u64, u64)>>) -> (groups: Vec<
    Vec<u32>,
>)
    requires
        queue_start + connected@.len() <= u32::MAX,
        forall|i: int, k: int|
            0 <= i < connected@.len() && 0 <= k < connected@[i]@.len() ==> {
                &&& (#[trigger] connected@[i]@[k]).0 <= i32::MAX
                &&& 1 <= connected@[i]@[k].1 <= i32::MAX
            },
        total_row_len(connected@, connected@.len() as int) <= i32::MAX,
    ensures
        // Every queue cluster lands in exactly one group.
        forall|q: u32|
            queue_start <= q < queue_start + connected@.len() ==> occurrences(groups@, q) == 1,
        // Groups hold only queue clusters.
        forall|g: int, k: int|
            0 <= g < groups@.len() && 0 <= k < groups@[g]@.len() ==> queue_start <= (
            #[trigger] groups@[g]@[k]) < queue_start + connected@.len(),
{
    let n = connected.len();
    let nparts: usize = if n / 4 >= 1 {
        n / 4
    } else {
        1
    };
    let arrays = build_partition_arrays(connected);
    let (xadj, adjncy, adjwgt) = arrays;
    proof {
        assert forall|k: int| 0 <= k < adjwgt@.len() implies adjwgt@[k] >= 1 by {
            lemma_flat_index_decompose(connected@, connected@.len() as int, k);
            let i2 = choose|i2: int|
                0 <= i2 < connected@.len() && #[trigger] total_row_len(connected@, i2) <= k
                    < total_row_len(connected@, i2) + connected@[i2]@.len();
            let k2 = k - total_row_len(connected@, i2);
            assert(adjncy@[total_row_len(connected@, i2) + k2] == connected@[i2]@[k2].0);
            assert(adjwgt@[total_row_len(connected@, i2) + k2] == connected@[i2]@[k2].1);
        }
    }
    let part_opt = partition_graph(nparts as i32, &xadj, &adjncy, &adjwgt);
    let part: Vec<i32> = match part_opt {
        Some(p) => p,
        None => {
            let mut p: Vec<i32> = Vec::new();
            let mut z: usize = 0;
            while z < n
                invariant
                    0 <= z <= n,
                    p@.len() == z,
                decreases n - z,
            {
                p.push(0);
                z = z + 1;
            }
            p
        },
    };

    let mut groups: Vec<Vec<u32>> = Vec::new();
    let mut b: usize = 0;
    while b < nparts
        invariant
            n == connected@.len(),
            queue_start + n <= u32::MAX,
            part@.len() == n,
            0 <= b <= nparts,
            groups@.len() == b,
            bucket_occurrences(groups@, part@, nparts as int, queue_start, n as int, b as int),
            forall|g: int, k: int|
                0 <= g < groups@.len() && 0 <= k < groups@[g]@.len() ==> queue_start <= (
                #[trigger] groups@[g]@[k]) < queue_start + n,
        decreases nparts - b,
    {
        let mut row: Vec<u32> = Vec::new();
        let mut i: usize = 0;
        while i < n
            invariant
                n == connected@.len(),
                queue_start + n <= u32::MAX,
                part@.len() == n,
                b < nparts,
                0 <= i <= n,
                bucket_counts(row@, part@, nparts as int, queue_start, n as int, i as int, b as int),
                forall|k: int|
                    0 <= k < row@.len() ==> queue_start <= #[trigger] row@[k] < queue_start
                        + n,
            decreases n - i,
        {
            let p_raw = part[i];
            let in_bucket: bool = if p_raw >= 0 && (p_raw as usize) < nparts {
                (p_raw as usize) == b
            } else {
                b == 0
            };
            proof {
                assert(in_bucket == (bucket_spec(part@, nparts as int, i as int) == b));
            }
            let ghost row0 = row@;
            let id: u32 = queue_start + (i as u32);
            if in_bucket {
                row.push(id);
            }
            i = i + 1;
            proof {
                let ii = i - 1;
                let np = nparts as int;
                assert(id == queue_start + ii);
                assert(bucket_counts(row0, part@, np, queue_start, n as int, ii, b as int));
                if in_bucket {
                    assert(row@.drop_last() =~= row0);
                    assert(row@.last() == id);
                    assert forall|i2: int|
                        0 <= i2 < n implies #[trigger] count_in(row@, (queue_start + i2) as u32)
                        == (if i2 < i && bucket_spec(part@, np, i2) == b {
                        1int
                    } else {
                        0int
                    }) by {
                        assert((queue_start + i2) as u32 == queue_start + i2);
                        assert(count_in(row0, (queue_start + i2) as u32) == (if i2 < ii
                            && bucket_spec(part@, np, i2) == b {
                            1int
                        } else {
                            0int
                        }));
                        assert(count_in(row@, (queue_start + i2) as u32) == count_in(
                            row0,
                            (queue_start + i2) as u32,
                        ) + (if row@.last() == (queue_start + i2) as u32 {
                            1int
                        } else {
                            0int
                        }));
                        if i2 == ii {
                            assert(row@.last() == (queue_start + i2) as u32);
                        } else {
                            assert(row@.last() != (queue_start + i2) as u32);
                        }
                    }
                } else {
                    assert(row@ == row0);
                    assert forall|i2: int|
                        0 <= i2 < n implies #[trigger] count_in(row@, (queue_start + i2) as u32)
                        == (if i2 < i && bucket_spec(part@, np, i2) == b {
                        1int
                    } else {
                        0int
                    }) by {
                        assert(count_in(row0, (queue_start + i2) as u32) == (if i2 < ii
                            && bucket_spec(part@, np, i2) == b {
                            1int
                        } else {
                            0int
                        }));
                        if i2 == ii {
                            assert(bucket_spec(part@, np, i2) != b);
                        }
                    }
                }
                assert(bucket_counts(row@, part@, np, queue_start, n as int, i as int, b as int));
            }
        }
        let ghost groups0 = groups@;
        let ghost row_final = row@;
        groups.push(row);
        b = b + 1;
        proof {
            let np = nparts as int;
            let bb = b - 1;
            assert(groups@.drop_last() =~= groups0);
            assert(groups@.last()@ == row_final);
            assert(bucket_occurrences(groups0, part@, np, queue_start, n as int, bb));
            assert(bucket_counts(row_final, part@, np, queue_start, n as int, n as int, bb));
            assert forall|i2: int|
                0 <= i2 < n implies #[trigger] occurrences(groups@, (queue_start + i2) as u32)
                == (if bucket_spec(part@, np, i2) < b {
                1int
            } else {
                0int
            }) by {
                assert(occurrences(groups0, (queue_start + i2) as u32) == (if bucket_spec(
                    part@,
                    np,
                    i2,
                ) < bb {
                    1int
                } else {
                    0int
                }));
                assert(count_in(row_final, (queue_start + i2) as u32) == (if bucket_spec(
                    part@,
                    np,
                    i2,
                ) == bb {
                    1int
                } else {
                    0int
                }));
                assert(occurrences(groups@, (queue_start + i2) as u32) == occurrences(
                    groups0,
                    (queue_start + i2) as u32,
                ) + count_in(groups@.last()@, (queue_start + i2) as u32));
            }
            assert(bucket_occurrences(groups@, part@, np, queue_start, n as int, b as int));
            assert forall|g: int, k: int|
                0 <= g < groups@.len() && 0 <= k < groups@[g]@.len() implies queue_start <= (
            #[trigger] groups@[g]@[k]) < queue_start + n by {
                if g < groups@.len() - 1 {
                    assert(groups@[g] == groups0[g]);
                }
            }
        }
    }
    proof {
        assert forall|q: u32|
            queue_start <= q < queue_start + connected@.len() implies occurrences(groups@, q)
            == 1 by {
            let i2 = (q - queue_start) as int;
            assert((queue_start + i2) as u32 == q);
            assert(occurrences(groups@, (queue_start + i2) as u32) == (if bucket_spec(
                part@,
                nparts as int,
                i2,
            ) < nparts as int {
                1int
            } else {
                0int
            }));
            assert(0 <= bucket_spec(part@, nparts as int, i2) < nparts as int);
        }
    }
    groups
}

/// Which group a vertex's raw partition value selects: itself when the
/// partitioner kept it in range, the first group otherwise.
pub open spec fn bucket_spec(part: Seq<i32>, nparts: int, i: int) -> int {
    if 0 <= part[i] < nparts {
        part[i] as int
    } else {
        0
    }
}

/// Every position in the flattened rows lies inside some row.
proof fn lemma_flat_index_decompose(connected: Seq<Vec<(u64, u64)>>, bound: int, k: int)
    requires
        0 <= bound <= connected.len(),
        0 <= k < total_row_len(connected, bound),
    ensures
        exists|i: int|
            0 <= i < bound && #[trigger] total_row_len(connected, i) <= k < total_row_len(
                connected,
                i,
            ) + connected[i]@.len(),
    decreases bound,
{
    lemma_total_row_len_nonneg(connected, bound - 1);
    if k < total_row_len(connected, bound - 1) {
        lemma_flat_index_decompose(connected, bound - 1, k);
        let i2 = choose|i2: int|
            0 <= i2 < bound - 1 && #[trigger] total_row_len(connected, i2) <= k
                < total_row_len(connected, i2) + connected[i2]@.len();
        assert(0 <= i2 < bound && total_row_len(connected, i2) <= k < total_row_len(
            connected,
            i2,
        ) + connected[i2]@.len());
    } else {
        let i2 = bound - 1;
        assert(0 <= i2 < bound && total_row_len(connected, i2) <= k < total_row_len(
            connected,
            i2,
        ) + connected[i2]@.len());
    }
}

/// The mesh-global vertex ids of all of cluster `i`'s triangle slots.
pub open spec fn cluster_indices_spec(cs: ClusterSet, i: int) -> Seq<u32> {
    Seq::new((3 * cs.clusters@[i].triangle_count) as nat, |t: int| cluster_vertex_at(cs, i, t))
}

/// The concatenated mesh-global index buffer of a group of clusters.
pub open spec fn group_indices_spec(cs: ClusterSet, group: Seq<u32>) -> Seq<u32>
    decreases group.len(),
{
    if group.len() == 0 {
        Seq::empty()
    } else {
        group_indices_spec(cs, group.drop_last()) + cluster_indices_spec(
            cs,
            group.last() as int,
        )
    }
}

/// Builds one index buffer over the mesh's vertices from all triangles of
/// a group of clusters, in group order.
pub fn build_group_indices(group: &Vec<u32>, cs: &ClusterSet) -> (out: Vec<u32>)
    requires
        cs.wf(),
        forall|k: int| 0 <= k < group@.len() ==> #[trigger] group@[k] < cs.clusters@.len(),
    ensures
        out@ == group_indices_spec(*cs, group@),
{
    let mut out: Vec<u32> = Vec::new();
    let mut g: usize = 0;
    proof {
        assert(out@ =~= group_indices_spec(*cs, group@.take(0)));
    }
    while g < group.len()
        invariant
            cs.wf(),
            forall|k: int| 0 <= k < group@.len() ==> #[trigger] group@[k] < cs.clusters@.len(),
            0 <= g <= group@.len(),
            out@ == group_indices_spec(*cs, group@.take(g as int)),
        decreases group@.len() - g,
    {
        let cluster_id = group[g];
        let ci = cluster_id as usize;
        let cluster = cs.clusters[ci];
        let tri_len = cs.triangles.len();
        let vert_len = cs.vertices.len();
        proof {
            assert(cs.clusters@[ci as int].triangle_offset + 3 * cs.clusters@[ci as int].triangle_count
                <= tri_len);
            assert(cs.clusters@[ci as int].vertex_offset + cs.clusters@[ci as int].vertex_count
                <= vert_len);
        }
        let ghost base = out@;
        let slots = 3 * (cluster.triangle_count as usize);
        let mut t: usize = 0;
        while t < slots
            invariant
                cs.wf(),
                ci < cs.clusters@.len(),
                cluster == cs.clusters@[ci as int],
                slots == 3 * cluster.triangle_count,
                tri_len == cs.triangles@.len(),
                vert_len == cs.vertices@.len(),
                cluster.triangle_offset + slots <= tri_len,
                cluster.vertex_offset + cluster.vertex_count <= vert_len,
                0 <= t <= slots,
                out@ == base + Seq::new(t as nat, |t2: int| cluster_vertex_at(*cs, ci as int, t2)),
            decreases slots - t,
        {
            let local = cs.triangles[(cluster.triangle_offset as usize) + t];
            proof {
                assert(local == cs.triangles@[cs.clusters@[ci as int].triangle_offset + t]);
                assert(local < cs.clusters@[ci as int].vertex_count);
            }
            out.push(cs.vertices[(cluster.vertex_offset as usize) + (local as usize)]);
            t = t + 1;
            proof {
                assert(out@ =~= base + Seq::new(
                    t as nat,
                    |t2: int| cluster_vertex_at(*cs, ci as int, t2),
                ));
            }
        }
        g = g + 1;
        proof {
            assert(group@.take(g as int).drop_last() =~= group@.take(g - 1));
            assert(group@.take(g as int).last() == group@[g - 1]);
            assert(Seq::new(slots as nat, |t2: int| cluster_vertex_at(*cs, ci as int, t2))
                =~= cluster_indices_spec(*cs, ci as int));
        }
    }
    proof {
        assert(group@.take(group@.len() as int) =~= group@);
    }
    out
}

/// Whether every mesh-global vertex id of the cluster set indexes a
/// vertex below the given count, as the finished asset requires.
pub fn vertex_ids_below(cs: &ClusterSet, vertex_count: u64) -> (ok: bool)
    ensures
        ok == forall|i: int|
            0 <= i < cs.vertices@.len() ==> #[trigger] cs.vertices@[i] < vertex_count,
{
    let n = cs.vertices.len();
    let mut i: usize = 0;
    while i < n
        invariant
            n == cs.vertices@.len(),
            0 <= i <= n,
            forall|i2: int| 0 <= i2 < i ==> #[trigger] cs.vertices@[i2] < vertex_count,
        decreases n - i,
    {
        if (cs.vertices[i] as u64) >= vertex_count {
            return false;
        }
        i = i + 1;
    }
    true
}

/// Whether the cluster set's index total fits the finished asset's
/// sixty-four-bit counters.
pub fn triangle_total_fits(cs: &ClusterSet) -> (ok: bool)
    ensures
        ok == (3 * total_triangle_count(converted_meshlets(cs.clusters@)) <= u64::MAX),
{
    let ghost converted = converted_meshlets(cs.clusters@);
    let n = cs.clusters.len();
    let mut total: u128 = 0;
    let mut i: usize = 0;
    while i < n
        invariant
            n == cs.clusters@.len(),
            converted == converted_meshlets(cs.clusters@),
            0 <= i <= n,
            total == total_triangle_count(converted.take(i as int)),
            total <= i * 0x100000000,
        decreases n - i,
    {
        proof {
            assert(converted.take(i as int + 1).drop_last() =~= converted.take(i as int));
            assert(converted.take(i as int + 1).last() == converted[i as int]);
            vstd::arithmetic::mul::lemma_mul_is_distributive_add_other_way(
                0x100000000,
                i as int,
                1,
            );
        }
        total = total + (cs.clusters[i].triangle_count as u128);
        i = i + 1;
    }
    proof {
        assert(converted.take(n as int) =~= converted);
    }
    3 * total <= u64::MAX as u128
}

/// The cap on level-of-detail build iterations.
pub const MAX_LOD_LEVELS: u32 = 10;

/// The running state of the level-of-detail build: the clusters produced
/// so far, two error words per cluster, one parent sphere per cluster,
/// the start of the simplification queue (which runs to the end of the
/// cluster list) and the current level.
pub struct LodBuildState {
    pub clusters: ClusterSet,
    pub lod_errors: Vec<u32>,
    pub parent_spheres: Vec<MeshletBoundingSphere>,
    pub queue_start: u32,
    pub lod_level: u32,
    /// Triangle total of the initial clustering, fixed when the build
    /// begins: the finest level is the most one frame can rasterize.
    pub worst_case_meshlet_triangles: u64,
}

impl LodBuildState {
    /// Structural well-formedness of the build state, including the error
    /// monotonicity of everything built so far.
    pub open spec fn wf(self) -> bool {
        &&& self.clusters.wf()
        &&& self.clusters.clusters@.len() <= u32::MAX
        &&& self.lod_errors@.len() == 2 * self.clusters.clusters@.len()
        &&& self.parent_spheres@.len() == self.clusters.clusters@.len()
        &&& self.queue_start <= self.clusters.clusters@.len()
        &&& self.lod_level <= MAX_LOD_LEVELS
        &&& errors_monotonic(self.lod_errors@)
    }
}

/// Begins the level-of-detail build from the initial clustering: every
/// cluster starts with zero error and a placeholder parent sphere.
pub fn lod_build_begin(clusters: ClusterSet) -> (st: LodBuildState)
    requires
        clusters.wf(),
        clusters.clusters@.len() <= u32::MAX,
        total_triangle_count(converted_meshlets(clusters.clusters@)) <= u64::MAX,
    ensures
        st.wf(),
        st.clusters == clusters,
        st.lod_errors@ == Seq::new(2 * clusters.clusters@.len(), |k: int| 0u32),
        st.parent_spheres@.len() == clusters.clusters@.len(),
        st.queue_start == 0,
        st.lod_level == 0,
        st.worst_case_meshlet_triangles == total_triangle_count(
            converted_meshlets(clusters.clusters@),
        ),
{
    let n = clusters.clusters.len();
    let ghost converted = converted_meshlets(clusters.clusters@);
    let mut worst_case_meshlet_triangles: u64 = 0;
    let mut t: usize = 0;
    while t < n
        invariant
            n == clusters.clusters@.len(),
            converted == converted_meshlets(clusters.clusters@),
            total_triangle_count(converted) <= u64::MAX,
            0 <= t <= n,
            worst_case_meshlet_triangles == total_triangle_count(converted.take(t as int)),
        decreases n - t,
    {
        proof {
            assert(converted.take(t as int + 1).drop_last() =~= converted.take(t as int));
            assert(converted.take(t as int + 1).last() == converted[t as int]);
            lemma_triangle_totals_bounds(converted, t as int + 1);
            lemma_triangle_total_monotonic(converted, t as int + 1, n as int);
            assert(converted.take(n as int) =~= converted);
        }
        worst_case_meshlet_triangles = worst_case_meshlet_triangles + (
        clusters.clusters[t].triangle_count as u64);
        t = t + 1;
    }
    proof {
        assert(converted.take(n as int) =~= converted);
    }
    let mut lod_errors: Vec<u32> = Vec::new();
    let mut k: usize = 0;
    while k < n
        invariant
            n == clusters.clusters@.len(),
            0 <= k <= n,
            lod_errors@ == Seq::new(2 * k as nat, |k2: int| 0u32),
        decreases n - k,
    {
        lod_errors.push(0);
        lod_errors.push(0);
        k = k + 1;
        proof {
            assert(lod_errors@ =~= Seq::new(2 * k as nat, |k2: int| 0u32));
        }
    }
    let mut parent_spheres: Vec<MeshletBoundingSphere> = Vec::new();
    let mut i: usize = 0;
    while i < n
        invariant
            0 <= i <= n,
            parent_spheres@.len() == i,
        decreases n - i,
    {
        parent_spheres.push(MeshletBoundingSphere::zeroed());
        i = i + 1;
    }
    LodBuildState {
        clusters,
        lod_errors,
        parent_spheres,
        queue_start: 0,
        lod_level: 0,
        worst_case_meshlet_triangles,
    }
}

/// Whether another simplification level is due: more than one cluster
/// remains in the queue and the level cap has not been reached.
pub open spec fn lod_build_continuing(st: LodBuildState) -> bool {
    st.clusters.clusters@.len() - st.queue_start > 1 && st.lod_level < MAX_LOD_LEVELS
}

/// Whether another simplification level should be built.
pub fn lod_build_should_continue(st: &LodBuildState) -> (r: bool)
    requires
        st.wf(),
    ensures
        r == lod_build_continuing(*st),
{
    let queue_len = st.clusters.clusters.len() - (st.queue_start as usize);
    queue_len > 1 && st.lod_level < MAX_LOD_LEVELS
}

/// The level cap is an invariant of the build: no state ever passes it,
/// and a build that reaches it stops there — a queue that never
/// converges is cut off after exactly the cap's worth of levels.
pub proof fn lemma_lod_level_capped(st: LodBuildState)
    requires
        st.wf(),
    ensures
        st.lod_level <= MAX_LOD_LEVELS,
        st.lod_level == MAX_LOD_LEVELS ==> !lod_build_continuing(st),
{
}

/// Advances the build to the next level: the clusters appended during
/// this level become the new simplification queue.
pub fn lod_build_finish_level(st: &mut LodBuildState, next_lod_start: u32)
    requires
        old(st).wf(),
        old(st).queue_start <= next_lod_start <= old(st).clusters.clusters@.len(),
        old(st).lod_level < MAX_LOD_LEVELS,
    ensures
        final(st).wf(),
        final(st).queue_start == next_lod_start,
        final(st).lod_level == old(st).lod_level + 1,
        final(st).clusters == old(st).clusters,
        final(st).lod_errors == old(st).lod_errors,
        final(st).parent_spheres == old(st).parent_spheres,
        final(st).worst_case_meshlet_triangles == old(st).worst_case_meshlet_triangles,
{
    st.queue_start = next_lod_start;
    st.lod_level = st.lod_level + 1;
}

/// The largest of a base error and the own errors of a group's clusters.
pub open spec fn group_max_error(errors: Seq<u32>, group: Seq<u32>, base: u32) -> u32
    decreases group.len(),
{
    if group.len() == 0 {
        base
    } else {
        let rest = group_max_error(errors, group.drop_last(), base);
        if errors[2 * group.last()] > rest {
            errors[2 * group.last()]
        } else {
            rest
        }
    }
}

/// The group maximum dominates the base error and every member's own
/// error.
pub proof fn lemma_group_max_error_dominates(errors: Seq<u32>, group: Seq<u32>, base: u32, k: int)
    requires
        0 <= k < group.len(),
    ensures
        group_max_error(errors, group, base) >= errors[2 * group[k]],
        group_max_error(errors, group, base) >= base,
    decreases group.len(),
{
    lemma_group_max_error_base(errors, group, base);
    if k < group.len() - 1 {
        lemma_group_max_error_dominates(errors, group.drop_last(), base, k);
    }
}

proof fn lemma_group_max_error_base(errors: Seq<u32>, group: Seq<u32>, base: u32)
    ensures
        group_max_error(errors, group, base) >= base,
    decreases group.len(),
{
    if group.len() > 0 {
        lemma_group_max_error_base(errors, group.drop_last(), base);
    }
}

/// Whether slot `k` is the parent-error slot of one of the first `j`
/// group members.
pub open spec fn parent_slot_of(group: Seq<u32>, j: int, k: int) -> bool {
    exists|g2: int| 0 <= g2 < j && k == 2 * (#[trigger] group[g2]) + 1
}

/// Whether `i` is one of the first `j` group members.
pub open spec fn member_of(group: Seq<u32>, j: int, i: int) -> bool {
    exists|g2: int| 0 <= g2 < j && i == #[trigger] group[g2]
}

proof fn lemma_parent_slot_extend(group: Seq<u32>, j: int, k: int)
    requires
        0 <= j < group.len(),
    ensures
        parent_slot_of(group, j + 1, k) == (parent_slot_of(group, j, k) || k == 2 * group[j]
            + 1),
{
    if parent_slot_of(group, j + 1, k) {
        let g2 = choose|g2: int| 0 <= g2 < j + 1 && k == 2 * (#[trigger] group[g2]) + 1;
        if g2 < j {
            assert(parent_slot_of(group, j, k));
        }
    }
    if k == 2 * group[j] + 1 {
        assert(0 <= j < j + 1 && k == 2 * group[j] + 1);
        assert(parent_slot_of(group, j + 1, k));
    }
}

proof fn lemma_member_extend(group: Seq<u32>, j: int, i: int)
    requires
        0 <= j < group.len(),
    ensures
        member_of(group, j + 1, i) == (member_of(group, j, i) || i == group[j]),
{
    if member_of(group, j + 1, i) {
        let g2 = choose|g2: int| 0 <= g2 < j + 1 && i == #[trigger] group[g2];
        if g2 < j {
            assert(member_of(group, j, i));
        }
    }
    if i == group[j] {
        assert(0 <= j < j + 1 && i == group[j]);
        assert(member_of(group, j + 1, i));
    }
}

/// Appends all of `src` to `dst`.
fn append_u32s(dst: &mut Vec<u32>, src: &Vec<u32>)
    ensures
        final(dst)@ == old(dst)@ + src@,
{
    let ghost base = dst@;
    let mut i: usize = 0;
    while i < src.len()
        invariant
            0 <= i <= src@.len(),
            dst@ == base + src@.take(i as int),
        decreases src@.len() - i,
    {
        dst.push(src[i]);
        i = i + 1;
        proof {
            assert(dst@ =~= base + src@.take(i as int));
        }
    }
    proof {
        assert(base + src@.take(src@.len() as int) =~= base + src@);
    }
}

/// Appends all of `src` to `dst`.
fn append_u8s(dst: &mut Vec<u8>, src: &Vec<u8>)
    ensures
        final(dst)@ == old(dst)@ + src@,
{
    let ghost base = dst@;
    let mut i: usize = 0;
    while i < src.len()
        invariant
            0 <= i <= src@.len(),
            dst@ == base + src@.take(i as int),
        decreases src@.len() - i,
    {
        dst.push(src[i]);
        i = i + 1;
        proof {
            assert(dst@ =~= base + src@.take(i as int));
        }
    }
    proof {
        assert(base + src@.take(src@.len() as int) =~= base + src@);
    }
}

/// Applies one simplified group to the build: raises the group's parent
/// error to the group maximum — keeping the error hierarchy monotonic —
/// records the group's bounding sphere as each member's parent sphere,
/// and appends the simplified geometry's new clusters to the cluster
/// list, with their runs rewritten to follow everything built so far.
/// The new clusters carry the group error as their own error and an
/// unbounded parent error until a later level simplifies them in turn.
pub fn apply_simplified_group(
    st: &mut LodBuildState,
    group: &Vec<u32>,
    group_error: u32,
    group_sphere: MeshletBoundingSphere,
    new_clusters: &ClusterSet,
)
    requires
        old(st).wf(),
        new_clusters.wf(),
        forall|k: int|
            0 <= k < group@.len() ==> #[trigger] group@[k] < old(st).clusters.clusters@.len(),
        old(st).clusters.clusters@.len() + new_clusters.clusters@.len() <= u32::MAX,
        old(st).clusters.vertices@.len() + new_clusters.vertices@.len() <= u32::MAX,
        old(st).clusters.triangles@.len() + new_clusters.triangles@.len() <= u32::MAX,
    ensures
        final(st).wf(),
        // The enforced group error: at least the incoming simplification
        // error and every member's own error.
        group_max_error(old(st).lod_errors@, group@, group_error) == spec_applied_error(
            *old(st),
            group@,
            group_error,
        ),
        // Errors: members' parent slots raised to the group error, new
        // clusters appended with (own, unbounded parent) pairs.
        final(st).lod_errors@.len() == old(st).lod_errors@.len() + 2
            * new_clusters.clusters@.len(),
        forall|k: int|
            0 <= k < old(st).lod_errors@.len() ==> #[trigger] final(st).lod_errors@[k] == (if
            parent_slot_of(group@, group@.len() as int, k) {
                spec_applied_error(*old(st), group@, group_error)
            } else {
                old(st).lod_errors@[k]
            }),
        forall|k: int|
            0 <= k < new_clusters.clusters@.len() ==> {
                &&& #[trigger] final(st).lod_errors@[old(st).lod_errors@.len() + 2 * k]
                    == spec_applied_error(*old(st), group@, group_error)
                &&& final(st).lod_errors@[old(st).lod_errors@.len() + 2 * k + 1] == u32::MAX
            },
        // Parent spheres: members take the group sphere; new clusters get
        // a placeholder.
        final(st).parent_spheres@.len() == old(st).parent_spheres@.len()
            + new_clusters.clusters@.len(),
        forall|i: int|
            0 <= i < old(st).parent_spheres@.len() ==> #[trigger] final(st).parent_spheres@[i]
                == (if member_of(group@, group@.len() as int, i) {
                group_sphere
            } else {
                old(st).parent_spheres@[i]
            }),
        // Geometry: the new clusters' runs are appended, rewritten.
        final(st).clusters.vertices@ == old(st).clusters.vertices@
            + new_clusters.vertices@,
        final(st).clusters.triangles@ == old(st).clusters.triangles@
            + new_clusters.triangles@,
        final(st).clusters.clusters@ == old(st).clusters.clusters@ + Seq::new(
            new_clusters.clusters@.len(),
            |k: int|
                Cluster {
                    vertex_offset: (new_clusters.clusters@[k].vertex_offset + old(
                        st,
                    ).clusters.vertices@.len()) as u32,
                    triangle_offset: (new_clusters.clusters@[k].triangle_offset + old(
                        st,
                    ).clusters.triangles@.len()) as u32,
                    vertex_count: new_clusters.clusters@[k].vertex_count,
                    triangle_count: new_clusters.clusters@[k].triangle_count,
                },
        ),
        final(st).queue_start == old(st).queue_start,
        final(st).lod_level == old(st).lod_level,
        final(st).worst_case_meshlet_triangles == old(st).worst_case_meshlet_triangles,
{
    // The group error dominates every member's own error.
    let mut ge: u32 = group_error;
    let mut j: usize = 0;
    while j < group.len()
        invariant
            forall|k: int|
                0 <= k < group@.len() ==> #[trigger] group@[k] < st.clusters.clusters@.len(),
            st.lod_errors@.len() == 2 * st.clusters.clusters@.len(),
            0 <= j <= group@.len(),
            ge == group_max_error(st.lod_errors@, group@.take(j as int), group_error),
        decreases group@.len() - j,
    {
        let member = group[j];
        let errs_n = st.lod_errors.len();
        proof {
            assert(2 * (member as int) < errs_n);
        }
        let own = st.lod_errors[2 * (member as usize)];
        if own > ge {
            ge = own;
        }
        j = j + 1;
        proof {
            assert(group@.take(j as int).drop_last() =~= group@.take(j - 1));
            assert(group@.take(j as int).last() == group@[j - 1]);
        }
    }
    proof {
        assert(group@.take(group@.len() as int) =~= group@);
    }

    // Raise every member's parent error and record the group sphere.
    let ghost errs0 = st.lod_errors@;
    let ghost spheres0 = st.parent_spheres@;
    let mut j: usize = 0;
    while j < group.len()
        invariant
            forall|k: int|
                0 <= k < group@.len() ==> #[trigger] group@[k] < st.clusters.clusters@.len(),
            errs0.len() == 2 * st.clusters.clusters@.len(),
            spheres0.len() == st.clusters.clusters@.len(),
            0 <= j <= group@.len(),
            st.lod_errors@.len() == errs0.len(),
            st.parent_spheres@.len() == spheres0.len(),
            st.clusters == old(st).clusters,
            st.queue_start == old(st).queue_start,
            st.lod_level == old(st).lod_level,
            st.worst_case_meshlet_triangles == old(st).worst_case_meshlet_triangles,
            forall|k: int|
                0 <= k < errs0.len() ==> #[trigger] st.lod_errors@[k] == (if parent_slot_of(
                    group@,
                    j as int,
                    k,
                ) {
                    ge
                } else {
                    errs0[k]
                }),
            forall|i: int|
                0 <= i < spheres0.len() ==> #[trigger] st.parent_spheres@[i] == (if member_of(
                    group@,
                    j as int,
                    i,
                ) {
                    group_sphere
                } else {
                    spheres0[i]
                }),
        decreases group@.len() - j,
    {
        let member = group[j] as usize;
        let errs_n = st.lod_errors.len();
        proof {
            assert(2 * member + 1 < errs_n);
        }
        st.lod_errors.set(2 * member + 1, ge);
        st.parent_spheres.set(member, group_sphere);
        j = j + 1;
        proof {
            let jj = j - 1;
            assert forall|k: int|
                0 <= k < errs0.len() implies #[trigger] st.lod_errors@[k] == (if parent_slot_of(
                group@,
                j as int,
                k,
            ) {
                ge
            } else {
                errs0[k]
            }) by {
                lemma_parent_slot_extend(group@, jj, k);
            }
            assert forall|i: int|
                0 <= i < spheres0.len() implies #[trigger] st.parent_spheres@[i] == (if
            member_of(group@, j as int, i) {
                group_sphere
            } else {
                spheres0[i]
            }) by {
                lemma_member_extend(group@, jj, i);
            }
        }
    }

    // Append the simplified geometry's clusters, rewritten to follow the
    // arrays built so far.
    let vertex_offset = st.clusters.vertices.len();
    let triangle_offset = st.clusters.triangles.len();
    append_u32s(&mut st.clusters.vertices, &new_clusters.vertices);
    append_u8s(&mut st.clusters.triangles, &new_clusters.triangles);
    let ghost clusters0 = st.clusters.clusters@;
    let ghost errs_after = st.lod_errors@;
    let ghost spheres_after = st.parent_spheres@;
    let ghost verts_after = st.clusters.vertices@;
    let ghost tris_after = st.clusters.triangles@;
    let new_n = new_clusters.clusters.len();
    let mut k: usize = 0;
    while k < new_n
        invariant
            new_n == new_clusters.clusters@.len(),
            new_clusters.wf(),
            vertex_offset + new_clusters.vertices@.len() <= u32::MAX,
            triangle_offset + new_clusters.triangles@.len() <= u32::MAX,
            0 <= k <= new_n,
            st.clusters.clusters@ == clusters0 + Seq::new(
                k as nat,
                |k2: int|
                    Cluster {
                        vertex_offset: (new_clusters.clusters@[k2].vertex_offset
                            + vertex_offset) as u32,
                        triangle_offset: (new_clusters.clusters@[k2].triangle_offset
                            + triangle_offset) as u32,
                        vertex_count: new_clusters.clusters@[k2].vertex_count,
                        triangle_count: new_clusters.clusters@[k2].triangle_count,
                    },
            ),
            st.lod_errors@ == errs_after,
            st.parent_spheres@ == spheres_after,
            st.clusters.vertices@ == verts_after,
            st.clusters.triangles@ == tris_after,
            st.queue_start == old(st).queue_start,
            st.lod_level == old(st).lod_level,
            st.worst_case_meshlet_triangles == old(st).worst_case_meshlet_triangles,
        decreases new_n - k,
    {
        let c = new_clusters.clusters[k];
        proof {
            assert(new_clusters.clusters@[k as int].vertex_offset
                + new_clusters.clusters@[k as int].vertex_count
                <= new_clusters.vertices@.len());
            assert(new_clusters.clusters@[k as int].triangle_offset + 3
                * new_clusters.clusters@[k as int].triangle_count
                <= new_clusters.triangles@.len());
        }
        st.clusters.clusters.push(
            Cluster {
                vertex_offset: c.vertex_offset + (vertex_offset as u32),
                triangle_offset: c.triangle_offset + (triangle_offset as u32),
                vertex_count: c.vertex_count,
                triangle_count: c.triangle_count,
            },
        );
        k = k + 1;
        proof {
            assert(st.clusters.clusters@ =~= clusters0 + Seq::new(
                k as nat,
                |k2: int|
                    Cluster {
                        vertex_offset: (new_clusters.clusters@[k2].vertex_offset
                            + vertex_offset) as u32,
                        triangle_offset: (new_clusters.clusters@[k2].triangle_offset
                            + triangle_offset) as u32,
                        vertex_count: new_clusters.clusters@[k2].vertex_count,
                        triangle_count: new_clusters.clusters@[k2].triangle_count,
                    },
            ));
        }
    }

    // Error pairs and placeholder parent spheres for the new clusters.
    let ghost errs1 = st.lod_errors@;
    let ghost spheres1 = st.parent_spheres@;
    let ghost cs_after = st.clusters;
    let mut k: usize = 0;
    while k < new_n
        invariant
            new_n == new_clusters.clusters@.len(),
            0 <= k <= new_n,
            st.lod_errors@ == errs1 + Seq::new(
                2 * k as nat,
                |k2: int|
                    if k2 % 2 == 0 {
                        ge
                    } else {
                        u32::MAX
                    },
            ),
            st.parent_spheres@ == spheres1 + Seq::new(
                k as nat,
                |k2: int|
                    MeshletBoundingSphere {
                        center_x: 0u32,
                        center_y: 0u32,
                        center_z: 0u32,
                        radius: 0u32,
                    },
            ),
            st.clusters == cs_after,
            st.queue_start == old(st).queue_start,
            st.lod_level == old(st).lod_level,
            st.worst_case_meshlet_triangles == old(st).worst_case_meshlet_triangles,
        decreases new_n - k,
    {
        st.lod_errors.push(ge);
        st.lod_errors.push(u32::MAX);
        st.parent_spheres.push(MeshletBoundingSphere::zeroed());
        k = k + 1;
        proof {
            assert(st.lod_errors@ =~= errs1 + Seq::new(
                2 * k as nat,
                |k2: int|
                    if k2 % 2 == 0 {
                        ge
                    } else {
                        u32::MAX
                    },
            ));
            assert(st.parent_spheres@ =~= spheres1 + Seq::new(
                k as nat,
                |k2: int|
                    MeshletBoundingSphere {
                        center_x: 0u32,
                        center_y: 0u32,
                        center_z: 0u32,
                        radius: 0u32,
                    },
            ));
        }
    }

    proof {
        let o = *old(st);
        let f = *st;
        let n0 = o.clusters.clusters@.len() as int;
        let nn = new_clusters.clusters@.len() as int;
        assert(ge == group_max_error(o.lod_errors@, group@, group_error));
        // The grown cluster set stays well-formed.
        assert forall|i: int|
            0 <= i < f.clusters.clusters@.len() implies {
            &&& (#[trigger] f.clusters.clusters@[i]).vertex_offset
                + f.clusters.clusters@[i].vertex_count <= f.clusters.vertices@.len()
            &&& f.clusters.clusters@[i].triangle_offset + 3
                * f.clusters.clusters@[i].triangle_count <= f.clusters.triangles@.len()
        } by {
            if i < n0 {
                assert(f.clusters.clusters@[i] == o.clusters.clusters@[i]);
                assert(o.clusters.clusters@[i].vertex_offset
                    + o.clusters.clusters@[i].vertex_count <= o.clusters.vertices@.len());
                assert(o.clusters.clusters@[i].triangle_offset + 3
                    * o.clusters.clusters@[i].triangle_count <= o.clusters.triangles@.len());
            } else {
                assert(new_clusters.clusters@[i - n0].vertex_offset
                    + new_clusters.clusters@[i - n0].vertex_count
                    <= new_clusters.vertices@.len());
                assert(new_clusters.clusters@[i - n0].triangle_offset + 3
                    * new_clusters.clusters@[i - n0].triangle_count
                    <= new_clusters.triangles@.len());
            }
        }
        assert forall|i: int, t: int|
            0 <= i < f.clusters.clusters@.len() && 0 <= t < 3
                * f.clusters.clusters@[i].triangle_count implies #[trigger] f.clusters.triangles@[f.clusters.clusters@[i].triangle_offset
            + t] < f.clusters.clusters@[i].vertex_count by {
            if i < n0 {
                assert(f.clusters.clusters@[i] == o.clusters.clusters@[i]);
                assert(o.clusters.triangles@[o.clusters.clusters@[i].triangle_offset + t]
                    < o.clusters.clusters@[i].vertex_count);
                assert(f.clusters.triangles@[f.clusters.clusters@[i].triangle_offset + t]
                    == o.clusters.triangles@[o.clusters.clusters@[i].triangle_offset + t]);
            } else {
                let c = new_clusters.clusters@[i - n0];
                assert(new_clusters.triangles@[c.triangle_offset + t] < c.vertex_count);
                assert(f.clusters.clusters@[i].triangle_offset + t
                    == o.clusters.triangles@.len() + (c.triangle_offset + t));
                assert(f.clusters.triangles@[f.clusters.clusters@[i].triangle_offset + t]
                    == new_clusters.triangles@[c.triangle_offset + t]);
            }
        }
        // The error hierarchy stays monotonic.
        assert forall|i: int|
            0 <= i && 2 * i + 1 < f.lod_errors@.len() implies #[trigger] f.lod_errors@[2 * i]
            <= f.lod_errors@[2 * i + 1] by {
            if i < n0 {
                assert(!parent_slot_of(group@, group@.len() as int, 2 * i));
                assert(f.lod_errors@[2 * i] == o.lod_errors@[2 * i]);
                if parent_slot_of(group@, group@.len() as int, 2 * i + 1) {
                    let g2 = choose|g2: int|
                        0 <= g2 < group@.len() && 2 * i + 1 == 2 * (#[trigger] group@[g2]) + 1;
                    assert(group@[g2] == i);
                    lemma_group_max_error_dominates(o.lod_errors@, group@, group_error, g2);
                    assert(f.lod_errors@[2 * i + 1] == ge);
                } else {
                    assert(f.lod_errors@[2 * i + 1] == o.lod_errors@[2 * i + 1]);
                    assert(o.lod_errors@[2 * i] <= o.lod_errors@[2 * i + 1]);
                }
            } else {
                assert(f.lod_errors@[2 * i] == ge);
                assert(f.lod_errors@[2 * i + 1] == u32::MAX);
            }
        }
    }
}

/// The error enforced on a group when it is simplified.
pub open spec fn spec_applied_error(st: LodBuildState, group: Seq<u32>, group_error: u32) -> u32 {
    group_max_error(st.lod_errors@, group, group_error)
}

/// A build-state cluster converted to the asset's cluster form.
pub open spec fn converted_meshlet(c: Cluster) -> Meshlet {
    Meshlet {
        start_vertex_id: c.vertex_offset,
        start_index_id: c.triangle_offset,
        triangle_count: c.triangle_count,
    }
}

/// The asset's cluster list for a finished build state.
pub open spec fn converted_meshlets(clusters: Seq<Cluster>) -> Seq<Meshlet> {
    Seq::new(clusters.len(), |i: int| converted_meshlet(clusters[i]))
}

/// Each cluster's own sphere interleaved with its parent group's sphere.
pub open spec fn interleaved_spheres(
    own: Seq<MeshletBoundingSphere>,
    parent: Seq<MeshletBoundingSphere>,
) -> Seq<MeshletBoundingSphere>
    decreases own.len(),
{
    if own.len() == 0 {
        Seq::empty()
    } else {
        interleaved_spheres(own.drop_last(), parent.drop_last()) + seq![
            own.last(),
            parent.last(),
        ]
    }
}

proof fn lemma_interleaved_len(own: Seq<MeshletBoundingSphere>, parent: Seq<MeshletBoundingSphere>)
    requires
        own.len() == parent.len(),
    ensures
        interleaved_spheres(own, parent).len() == 2 * own.len(),
    decreases own.len(),
{
    if own.len() > 0 {
        lemma_interleaved_len(own.drop_last(), parent.drop_last());
    }
}

/// Assembles the finished asset from the build state, each cluster's own
/// bounding sphere, and the mesh's vertex data. The resulting asset is
/// well-formed: its error hierarchy is monotonic and every cluster's
/// ranges lie within its buffers.
pub fn finish_mesh(
    st: LodBuildState,
    own_spheres: &Vec<MeshletBoundingSphere>,
    vertex_data: Vec<u8>,
) -> (mesh: MeshletMesh)
    requires
        st.wf(),
        own_spheres@.len() == st.clusters.clusters@.len(),
        vertex_data@.len() as int % (VERTEX_STRIDE as int) == 0,
        forall|i: int|
            0 <= i < st.clusters.vertices@.len() ==> #[trigger] st.clusters.vertices@[i]
                < vertex_data@.len() as int / (VERTEX_STRIDE as int),
        3 * total_triangle_count(converted_meshlets(st.clusters.clusters@)) <= u64::MAX,
    ensures
        mesh.wf(),
        mesh.meshlets@ == converted_meshlets(st.clusters.clusters@),
        mesh.vertex_data@ == vertex_data@,
        mesh.vertex_ids@ == st.clusters.vertices@,
        mesh.indices@ == st.clusters.triangles@,
        mesh.meshlet_bounding_spheres@ == interleaved_spheres(
            own_spheres@,
            st.parent_spheres@,
        ),
        mesh.meshlet_lod_errors@ == st.lod_errors@,
        mesh.total_meshlet_indices == total_index_count(mesh.meshlets@),
        mesh.worst_case_meshlet_triangles == st.worst_case_meshlet_triangles,
{
    let n = st.clusters.clusters.len();
    let ghost converted = converted_meshlets(st.clusters.clusters@);
    proof {
        lemma_triangle_totals_bounds(converted, n as int);
    }

    let mut meshlets: Vec<Meshlet> = Vec::new();
    let mut total_triangles: u64 = 0;
    let mut i: usize = 0;
    while i < n
        invariant
            n == st.clusters.clusters@.len(),
            converted == converted_meshlets(st.clusters.clusters@),
            3 * total_triangle_count(converted) <= u64::MAX,
            0 <= i <= n,
            meshlets@ == converted.take(i as int),
            total_triangles == total_triangle_count(converted.take(i as int)),
        decreases n - i,
    {
        let c = st.clusters.clusters[i];
        meshlets.push(
            Meshlet {
                start_vertex_id: c.vertex_offset,
                start_index_id: c.triangle_offset,
                triangle_count: c.triangle_count,
            },
        );
        proof {
            assert(converted.take(i as int + 1).drop_last() =~= converted.take(i as int));
            assert(converted.take(i as int + 1).last() == converted[i as int]);
            lemma_triangle_totals_bounds(converted, i as int + 1);
            lemma_triangle_total_monotonic(converted, i as int + 1, n as int);
            assert(converted.take(n as int) =~= converted);
        }
        total_triangles = total_triangles + (c.triangle_count as u64);
        i = i + 1;
        proof {
            assert(meshlets@ =~= converted.take(i as int));
        }
    }
    proof {
        assert(converted.take(n as int) =~= converted);
    }
    let total_meshlet_indices: u64 = 3 * total_triangles;
    proof {
        lemma_index_is_triple_triangle(converted);
    }

    let mut spheres: Vec<MeshletBoundingSphere> = Vec::new();
    let mut i: usize = 0;
    proof {
        assert(spheres@ =~= interleaved_spheres(own_spheres@.take(0), st.parent_spheres@.take(0)));
    }
    while i < n
        invariant
            n == st.clusters.clusters@.len(),
            own_spheres@.len() == n,
            st.parent_spheres@.len() == n,
            0 <= i <= n,
            spheres@ == interleaved_spheres(
                own_spheres@.take(i as int),
                st.parent_spheres@.take(i as int),
            ),
        decreases n - i,
    {
        spheres.push(own_spheres[i]);
        spheres.push(st.parent_spheres[i]);
        i = i + 1;
        proof {
            assert(own_spheres@.take(i as int).drop_last() =~= own_spheres@.take(i - 1));
            assert(st.parent_spheres@.take(i as int).drop_last() =~= st.parent_spheres@.take(
                i - 1,
            ));
            assert(own_spheres@.take(i as int).last() == own_spheres@[i - 1]);
            assert(st.parent_spheres@.take(i as int).last() == st.parent_spheres@[i - 1]);
            assert(spheres@ =~= interleaved_spheres(
                own_spheres@.take(i as int),
                st.parent_spheres@.take(i as int),
            ));
        }
    }
    proof {
        assert(own_spheres@.take(n as int) =~= own_spheres@);
        assert(st.parent_spheres@.take(n as int) =~= st.parent_spheres@);
        lemma_interleaved_len(own_spheres@, st.parent_spheres@);
    }

    let mesh = MeshletMesh {
        vertex_data,
        vertex_ids: st.clusters.vertices,
        indices: st.clusters.triangles,
        meshlets,
        meshlet_bounding_spheres: spheres,
        meshlet_lod_errors: st.lod_errors,
        total_meshlet_indices,
        worst_case_meshlet_triangles: st.worst_case_meshlet_triangles,
    };
    proof {
        assert forall|i2: int|
            0 <= i2 < mesh.meshlets@.len() implies {
            &&& (#[trigger] mesh.meshlets@[i2]).start_vertex_id <= mesh.vertex_ids@.len()
            &&& mesh.meshlets@[i2].start_index_id + 3 * mesh.meshlets@[i2].triangle_count
                <= mesh.indices@.len()
        } by {
            assert(st.clusters.clusters@[i2].vertex_offset
                + st.clusters.clusters@[i2].vertex_count <= st.clusters.vertices@.len());
            assert(st.clusters.clusters@[i2].triangle_offset + 3
                * st.clusters.clusters@[i2].triangle_count <= st.clusters.triangles@.len());
        }
    }
    mesh
}

/// Partial triangle totals are bounded by the full total.
proof fn lemma_triangle_total_monotonic(ms: Seq<Meshlet>, b1: int, b2: int)
    requires
        0 <= b1 <= b2 <= ms.len(),
    ensures
        total_triangle_count(ms.take(b1)) <= total_triangle_count(ms.take(b2)),
    decreases b2 - b1,
{
    if b1 < b2 {
        lemma_triangle_total_monotonic(ms, b1 + 1, b2);
        assert(ms.take(b1 + 1).drop_last() =~= ms.take(b1));
        lemma_triangle_totals_bounds(ms, b1 + 1);
    }
}

/// Triangle totals of prefixes are non-negative.
proof fn lemma_triangle_totals_bounds(ms: Seq<Meshlet>, bound: int)
    requires
        0 <= bound <= ms.len(),
    ensures
        total_triangle_count(ms.take(bound)) >= 0,
    decreases bound,
{
    if bound > 0 {
        assert(ms.take(bound).drop_last() =~= ms.take(bound - 1));
        lemma_triangle_totals_bounds(ms, bound - 1);
    } else {
        assert(ms.take(0) =~= Seq::<Meshlet>::empty());
    }
}

/// The index total is three times the triangle total.
proof fn lemma_index_is_triple_triangle(ms: Seq<Meshlet>)
    ensures
        total_index_count(ms) == 3 * total_triangle_count(ms),
    decreases ms.len(),
{
    if ms.len() > 0 {
        lemma_index_is_triple_triangle(ms.drop_last());
    }
}

} // verus!
