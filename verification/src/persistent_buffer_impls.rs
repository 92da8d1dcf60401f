//! Byte serialization for each kind of data held in the persistent buffers.
//!
//! Each serializer writes little-endian bytes and rewrites embedded
//! cross-references by a base offset at write time, so one asset can be
//! appended into a shared buffer any number of times without mutating the
//! asset's own data.

use vstd::prelude::*;
use crate::asset::{Meshlet, MeshletBoundingSphere, VERTEX_STRIDE};

verus! {

/// The four little-endian bytes of `x`.
pub open spec fn u32_le(x: u32) -> Seq<u8> {
    seq![
        (x & 0xff) as u8,
        ((x >> 8) & 0xff) as u8,
        ((x >> 16) & 0xff) as u8,
        ((x >> 24) & 0xff) as u8,
    ]
}

/// Little-endian bytes of a vertex id run, each id shifted by the vertex
/// offset at which the owning mesh's vertex data was placed.
pub open spec fn vertex_ids_bytes(ids: Seq<u32>, vertex_offset: u32) -> Seq<u8>
    decreases ids.len(),
{
    if ids.len() == 0 {
        Seq::empty()
    } else {
        vertex_ids_bytes(ids.drop_last(), vertex_offset) + u32_le(
            (ids.last() + vertex_offset) as u32,
        )
    }
}

/// A cluster with its buffer references shifted to where the owning mesh's
/// vertex ids and indices were placed.
pub open spec fn rewritten_meshlet(m: Meshlet, vertex_offset: u32, index_offset: u32) -> Meshlet {
    Meshlet {
        start_vertex_id: (m.start_vertex_id + vertex_offset) as u32,
        start_index_id: (m.start_index_id + index_offset) as u32,
        triangle_count: m.triangle_count,
    }
}

/// Twelve little-endian bytes per cluster, references rewritten.
pub open spec fn meshlets_bytes(ms: Seq<Meshlet>, vertex_offset: u32, index_offset: u32) -> Seq<u8>
    decreases ms.len(),
{
    if ms.len() == 0 {
        Seq::empty()
    } else {
        let m = rewritten_meshlet(ms.last(), vertex_offset, index_offset);
        meshlets_bytes(ms.drop_last(), vertex_offset, index_offset) + u32_le(m.start_vertex_id)
            + u32_le(m.start_index_id) + u32_le(m.triangle_count)
    }
}

/// Sixteen little-endian bytes per bounding sphere.
pub open spec fn spheres_bytes(ss: Seq<MeshletBoundingSphere>) -> Seq<u8>
    decreases ss.len(),
{
    if ss.len() == 0 {
        Seq::empty()
    } else {
        spheres_bytes(ss.drop_last()) + u32_le(ss.last().center_x) + u32_le(ss.last().center_y)
            + u32_le(ss.last().center_z) + u32_le(ss.last().radius)
    }
}

/// Appends the four little-endian bytes of `x`.
fn push_u32_le(out: &mut Vec<u8>, x: u32)
    ensures
        final(out)@ == old(out)@ + u32_le(x),
{
    let ghost before = out@;
    out.push((x & 0xff) as u8);
    out.push(((x >> 8) & 0xff) as u8);
    out.push(((x >> 16) & 0xff) as u8);
    out.push(((x >> 24) & 0xff) as u8);
    proof {
        assert(out@ =~= before + u32_le(x));
    }
}

/// Serializes a vertex id run, shifting each id by the vertex index at
/// which the owning mesh's vertex data begins. `vertex_data_offset` is the
/// byte position of that data; one vertex spans [`VERTEX_STRIDE`] bytes.
pub fn write_vertex_ids_bytes(ids: &Vec<u32>, vertex_data_offset: u64) -> (out: Vec<u8>)
    requires
        vertex_data_offset <= u32::MAX,
        forall|i: int|
            0 <= i < ids@.len() ==> #[trigger] ids@[i] + vertex_data_offset as u32 as int
                / (VERTEX_STRIDE as int) <= u32::MAX,
    ensures
        out@ == vertex_ids_bytes(ids@, ((vertex_data_offset as u32) / (VERTEX_STRIDE as u32))),
{
    let vertex_offset: u32 = (vertex_data_offset as u32) / (VERTEX_STRIDE as u32);
    let mut out: Vec<u8> = Vec::new();
    let mut i: usize = 0;
    proof {
        assert(out@ =~= vertex_ids_bytes(ids@.take(0), vertex_offset));
    }
    while i < ids.len()
        invariant
            0 <= i <= ids@.len(),
            vertex_offset == (vertex_data_offset as u32) / (VERTEX_STRIDE as u32),
            vertex_offset <= vertex_data_offset as u32 as int / (VERTEX_STRIDE as int),
            forall|k: int|
                0 <= k < ids@.len() ==> #[trigger] ids@[k] + vertex_data_offset as u32 as int
                    / (VERTEX_STRIDE as int) <= u32::MAX,
            out@ == vertex_ids_bytes(ids@.take(i as int), vertex_offset),
        decreases ids@.len() - i,
    {
        push_u32_le(&mut out, ids[i] + vertex_offset);
        i = i + 1;
        proof {
            assert(ids@.take(i as int).drop_last() =~= ids@.take(i - 1));
            assert(ids@.take(i as int).last() == ids@[i - 1]);
        }
    }
    proof {
        assert(ids@.take(ids@.len() as int) =~= ids@);
    }
    out
}

/// Serializes a cluster run, rewriting each cluster's references to where
/// the owning mesh's vertex ids (at byte position `vertex_ids_offset`,
/// four bytes per id) and indices (at byte position `index_offset`) were
/// placed.
pub fn write_meshlets_bytes(ms: &Vec<Meshlet>, vertex_ids_offset: u64, index_offset: u64) -> (out:
    Vec<u8>)
    requires
        vertex_ids_offset <= u32::MAX,
        index_offset <= u32::MAX,
        forall|i: int|
            0 <= i < ms@.len() ==> #[trigger] ms@[i].start_vertex_id + vertex_ids_offset as u32 as int
                / 4 <= u32::MAX,
        forall|i: int|
            0 <= i < ms@.len() ==> #[trigger] ms@[i].start_index_id + index_offset <= u32::MAX,
    ensures
        out@ == meshlets_bytes(ms@, ((vertex_ids_offset as u32) / 4), index_offset as u32),
{
    let vertex_offset: u32 = (vertex_ids_offset as u32) / 4;
    let idx_offset: u32 = index_offset as u32;
    let mut out: Vec<u8> = Vec::new();
    let mut i: usize = 0;
    proof {
        assert(out@ =~= meshlets_bytes(ms@.take(0), vertex_offset, idx_offset));
    }
    while i < ms.len()
        invariant
            0 <= i <= ms@.len(),
            vertex_offset == (vertex_ids_offset as u32) / 4,
            idx_offset == index_offset as u32,
            vertex_ids_offset <= u32::MAX,
            index_offset <= u32::MAX,
            forall|k: int|
                0 <= k < ms@.len() ==> #[trigger] ms@[k].start_vertex_id + vertex_ids_offset as u32 as int
                    / 4 <= u32::MAX,
            forall|k: int|
                0 <= k < ms@.len() ==> #[trigger] ms@[k].start_index_id + index_offset <= u32::MAX,
            out@ == meshlets_bytes(ms@.take(i as int), vertex_offset, idx_offset),
        decreases ms@.len() - i,
    {
        let m = ms[i];
        push_u32_le(&mut out, m.start_vertex_id + vertex_offset);
        push_u32_le(&mut out, m.start_index_id + idx_offset);
        push_u32_le(&mut out, m.triangle_count);
        i = i + 1;
        proof {
            assert(ms@.take(i as int).drop_last() =~= ms@.take(i - 1));
            assert(ms@.take(i as int).last() == ms@[i - 1]);
        }
    }
    proof {
        assert(ms@.take(ms@.len() as int) =~= ms@);
    }
    out
}

/// Serializes a bounding sphere run, four words of four bytes per sphere.
pub fn write_spheres_bytes(ss: &Vec<MeshletBoundingSphere>) -> (out: Vec<u8>)
    ensures
        out@ == spheres_bytes(ss@),
{
    let mut out: Vec<u8> = Vec::new();
    let mut i: usize = 0;
    proof {
        assert(out@ =~= spheres_bytes(ss@.take(0)));
    }
    while i < ss.len()
        invariant
            0 <= i <= ss@.len(),
            out@ == spheres_bytes(ss@.take(i as int)),
        decreases ss@.len() - i,
    {
        let s = ss[i];
        push_u32_le(&mut out, s.center_x);
        push_u32_le(&mut out, s.center_y);
        push_u32_le(&mut out, s.center_z);
        push_u32_le(&mut out, s.radius);
        i = i + 1;
        proof {
            assert(ss@.take(i as int).drop_last() =~= ss@.take(i - 1));
            assert(ss@.take(i as int).last() == ss@[i - 1]);
        }
    }
    proof {
        assert(ss@.take(ss@.len() as int) =~= ss@);
    }
    out
}

/// Length laws for the serialized forms.
pub proof fn lemma_vertex_ids_bytes_len(ids: Seq<u32>, vertex_offset: u32)
    ensures
        vertex_ids_bytes(ids, vertex_offset).len() == 4 * ids.len(),
    decreases ids.len(),
{
    if ids.len() > 0 {
        lemma_vertex_ids_bytes_len(ids.drop_last(), vertex_offset);
    }
}

/// The serialized cluster run spans twelve bytes per cluster.
pub proof fn lemma_meshlets_bytes_len(ms: Seq<Meshlet>, vertex_offset: u32, index_offset: u32)
    ensures
        meshlets_bytes(ms, vertex_offset, index_offset).len() == 12 * ms.len(),
    decreases ms.len(),
{
    if ms.len() > 0 {
        lemma_meshlets_bytes_len(ms.drop_last(), vertex_offset, index_offset);
    }
}

/// The serialized sphere run spans sixteen bytes per sphere.
pub proof fn lemma_spheres_bytes_len(ss: Seq<MeshletBoundingSphere>)
    ensures
        spheres_bytes(ss).len() == 16 * ss.len(),
    decreases ss.len(),
{
    if ss.len() > 0 {
        lemma_spheres_bytes_len(ss.drop_last());
    }
}

} // verus!
