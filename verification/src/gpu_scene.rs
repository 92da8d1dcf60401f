//! Per-frame aggregation of meshlet mesh instances into flat arrays.
//!
//! The scene owns the persistent buffers holding the union of all
//! currently-referenced mesh data, keyed by asset identity so identical
//! meshes are uploaded once. Rebuilt every frame: the instance list, a flat
//! array mapping each cluster-instance thread to its instance and cluster,
//! and a previous-frame thread id array correlating this frame's threads to
//! last frame's for temporal occlusion reuse.

use vstd::prelude::*;
use crate::asset::{Meshlet, MeshletMesh, clusters_in_bounds, VERTEX_STRIDE};
use crate::persistent_buffer::PersistentGpuBuffer;
use crate::persistent_buffer_impls::{
    meshlets_bytes, spheres_bytes, vertex_ids_bytes, write_meshlets_bytes, write_spheres_bytes,
    write_vertex_ids_bytes,
};

verus! {

/// Where one mesh asset's clusters sit in the shared buffers, and how many
/// triangle indices the mesh contributes.
#[derive(Clone, Copy, PartialEq, Eq, Structural, Debug)]
pub struct MeshletMeshSlice {
    pub cluster_start: u32,
    pub cluster_end: u32,
    pub index_count: u64,
}

/// A per-instance uniform: transform words, previous-frame transform words
/// and flag bits, exactly as the shaders consume them.
#[derive(Clone, Copy)]
pub struct MeshUniform {
    pub transform: [u32; 12],
    pub previous_transform: [u32; 12],
    pub flags: u32,
}

/// Flag bit: the instance receives shadows.
pub const MESH_FLAGS_SHADOW_RECEIVER: u32 = 1;

/// Flag bit: the sign of the determinant of the upper-left model matrix is
/// positive.
pub const MESH_FLAGS_SIGN_DETERMINANT_MODEL_3X3: u32 = 0x80000000;

/// The flag bits of a mesh instance: the shadow-receiver bit unless the
/// instance opted out, plus the determinant sign bit.
pub fn mesh_flags(not_shadow_receiver: bool, determinant_positive: bool) -> (flags: u32)
    ensures
        flags == (if not_shadow_receiver {
            0u32
        } else {
            MESH_FLAGS_SHADOW_RECEIVER
        }) + (if determinant_positive {
            MESH_FLAGS_SIGN_DETERMINANT_MODEL_3X3
        } else {
            0u32
        }),
{
    let base: u32 = if not_shadow_receiver {
        0
    } else {
        MESH_FLAGS_SHADOW_RECEIVER
    };
    if determinant_positive {
        base + MESH_FLAGS_SIGN_DETERMINANT_MODEL_3X3
    } else {
        base
    }
}

/// One instance's block of cluster-instance threads (ghost bookkeeping).
pub struct ThreadBlock {
    pub instance: u64,
    pub asset_id: u64,
    pub start: int,
    pub count: int,
    pub cluster_start: int,
}

/// One mesh upload's cluster references (ghost bookkeeping).
pub struct UploadRecord {
    pub asset_id: u64,
    pub clusters: Seq<Meshlet>,
    pub ids_len: int,
    pub idx_len: int,
    pub vid_start: int,
    pub idx_start: int,
}

/// First-match lookup in an association list keyed by asset id.
pub open spec fn find_slice_spec(s: Seq<(u64, MeshletMeshSlice)>, id: u64) -> Option<
    MeshletMeshSlice,
>
    decreases s.len(),
{
    if s.len() == 0 {
        None
    } else if s.first().0 == id {
        Some(s.first().1)
    } else {
        find_slice_spec(s.drop_first(), id)
    }
}

/// First-match lookup in an association list keyed by material asset id.
pub open spec fn find_material_spec(s: Seq<(u64, u32)>, id: u64) -> Option<u32>
    decreases s.len(),
{
    if s.len() == 0 {
        None
    } else if s.first().0 == id {
        Some(s.first().1)
    } else {
        find_material_spec(s.drop_first(), id)
    }
}

/// The subsequence of correspondence entries still marked live.
pub open spec fn active_entries(s: Seq<((u64, u64), (u32, bool))>) -> Seq<((u64, u64), (u32, bool))>
    decreases s.len(),
{
    if s.len() == 0 {
        Seq::empty()
    } else {
        active_entries(s.drop_last()) + (if s.last().1.1 {
            seq![s.last()]
        } else {
            Seq::<((u64, u64), (u32, bool))>::empty()
        })
    }
}

/// First-match lookup of an instance's material asset in a pairing list.
pub open spec fn find_instance_material_spec(s: Seq<(u64, u64)>, instance: u64) -> Option<u64>
    decreases s.len(),
{
    if s.len() == 0 {
        None
    } else if s.first().0 == instance {
        Some(s.first().1)
    } else {
        find_instance_material_spec(s.drop_first(), instance)
    }
}

/// The dense material id an instance ends up with: its material's
/// registered id where both are known, its prior id otherwise.
pub open spec fn assigned_material(
    lookup: Seq<(u64, u32)>,
    pairs: Seq<(u64, u64)>,
    instance: u64,
    prior: u32,
) -> u32 {
    match find_instance_material_spec(pairs, instance) {
        Some(mat) => match find_material_spec(lookup, mat) {
            Some(id) => id,
            None => prior,
        },
        None => prior,
    }
}

/// The dense ids recorded as present while assigning materials to the
/// given instances, in order.
pub open spec fn present_additions(
    lookup: Seq<(u64, u32)>,
    pairs: Seq<(u64, u64)>,
    instances: Seq<u64>,
) -> Seq<u32>
    decreases instances.len(),
{
    if instances.len() == 0 {
        Seq::empty()
    } else {
        present_additions(lookup, pairs, instances.drop_last()) + (match find_instance_material_spec(
            pairs,
            instances.last(),
        ) {
            Some(mat) => match find_material_spec(lookup, mat) {
                Some(id) => seq![id],
                None => Seq::<u32>::empty(),
            },
            None => Seq::<u32>::empty(),
        })
    }
}

/// First-match lookup of an instance's material asset.
fn lookup_instance_material(pairs: &Vec<(u64, u64)>, instance: u64) -> (r: Option<u64>)
    ensures
        r == find_instance_material_spec(pairs@, instance),
{
    let ghost full = pairs@;
    proof {
        assert(full.skip(0) =~= full);
    }
    let mut i: usize = 0;
    while i < pairs.len()
        invariant
            0 <= i <= full.len(),
            full == pairs@,
            find_instance_material_spec(full, instance) == find_instance_material_spec(
                full.skip(i as int),
                instance,
            ),
        decreases full.len() - i,
    {
        let entry = pairs[i];
        proof {
            assert(full.skip(i as int).first() == full[i as int]);
            assert(full.skip(i as int).drop_first() =~= full.skip(i as int + 1));
        }
        if entry.0 == instance {
            return Some(entry.1);
        }
        i = i + 1;
    }
    proof {
        assert(full.skip(full.len() as int) =~= Seq::<(u64, u64)>::empty());
    }
    None
}

/// Appending a material entry whose key was absent makes it findable.
proof fn lemma_find_material_push_new(s: Seq<(u64, u32)>, e: (u64, u32))
    requires
        find_material_spec(s, e.0) is None,
    ensures
        find_material_spec(s.push(e), e.0) == Some(e.1),
    decreases s.len(),
{
    if s.len() == 0 {
        assert(s.push(e).first() == e);
    } else {
        assert(s.push(e).first() == s.first());
        assert(s.push(e).drop_first() =~= s.drop_first().push(e));
        lemma_find_material_push_new(s.drop_first(), e);
    }
}

/// First-match lookup of an instance-and-asset pair's previous-frame
/// thread start and activity.
pub open spec fn find_start_spec(s: Seq<((u64, u64), (u32, bool))>, key: (u64, u64)) -> Option<
    (u32, bool),
>
    decreases s.len(),
{
    if s.len() == 0 {
        None
    } else if s.first().0 == key {
        Some(s.first().1)
    } else {
        find_start_spec(s.drop_first(), key)
    }
}

/// The previous-frame thread id start assigned to an instance-and-asset
/// pair: the recorded start if the pair was live in the previous frame,
/// zero (occlusion unknown, not occluded) on first appearance.
pub open spec fn previous_start_for(
    s: Seq<((u64, u64), (u32, bool))>,
    instance: u64,
    asset_id: u64,
) -> u32 {
    match find_start_spec(s, (instance, asset_id)) {
        Some((start, active)) => if active {
            0u32
        } else {
            start
        },
        None => 0u32,
    }
}

/// First-match lookup returns the entry at the first matching position.
proof fn lemma_find_start_first(s: Seq<((u64, u64), (u32, bool))>, key: (u64, u64), i: int)
    requires
        0 <= i < s.len(),
        s[i].0 == key,
        forall|k: int| 0 <= k < i ==> (#[trigger] s[k]).0 != key,
    ensures
        find_start_spec(s, key) == Some(s[i].1),
    decreases i,
{
    if i > 0 {
        assert(s.drop_first()[i - 1] == s[i]);
        assert forall|k: int| 0 <= k < i - 1 implies (#[trigger] s.drop_first()[k]).0 != key by {
            assert(s.drop_first()[k] == s[k + 1]);
        }
        lemma_find_start_first(s.drop_first(), key, i - 1);
    }
}

/// Replacing an entry's value, keeping its key, leaves lookups of every
/// other key unchanged.
proof fn lemma_find_start_update(
    s: Seq<((u64, u64), (u32, bool))>,
    i: int,
    v: (u32, bool),
    key2: (u64, u64),
)
    requires
        0 <= i < s.len(),
        key2 != s[i].0,
    ensures
        find_start_spec(s.update(i, (s[i].0, v)), key2) == find_start_spec(s, key2),
    decreases s.len(),
{
    let s2 = s.update(i, (s[i].0, v));
    if i == 0 {
        assert(s2.drop_first() =~= s.drop_first());
    } else {
        assert(s2.first() == s.first());
        assert(s2.drop_first() =~= s.drop_first().update(i - 1, (s[i].0, v)));
        assert(s.drop_first()[i - 1] == s[i]);
        lemma_find_start_update(s.drop_first(), i - 1, v, key2);
    }
}

/// Appending an entry leaves lookups of every other key unchanged.
proof fn lemma_find_start_push(
    s: Seq<((u64, u64), (u32, bool))>,
    e: ((u64, u64), (u32, bool)),
    key2: (u64, u64),
)
    requires
        key2 != e.0,
    ensures
        find_start_spec(s.push(e), key2) == find_start_spec(s, key2),
    decreases s.len(),
{
    if s.len() == 0 {
        assert(s.push(e).first() == e);
        assert(s.push(e).drop_first() =~= Seq::<((u64, u64), (u32, bool))>::empty());
    } else {
        assert(s.push(e).first() == s.first());
        assert(s.push(e).drop_first() =~= s.drop_first().push(e));
        lemma_find_start_push(s.drop_first(), e, key2);
        if s.first().0 == key2 {
            assert(find_start_spec(s.push(e), key2) == Some(s.first().1));
            assert(find_start_spec(s, key2) == Some(s.first().1));
        } else {
            assert(find_start_spec(s.push(e), key2) == find_start_spec(
                s.push(e).drop_first(),
                key2,
            ));
            assert(find_start_spec(s, key2) == find_start_spec(s.drop_first(), key2));
        }
    }
}

/// Appending an entry whose key was absent makes it findable.
proof fn lemma_find_start_push_new(
    s: Seq<((u64, u64), (u32, bool))>,
    e: ((u64, u64), (u32, bool)),
)
    requires
        find_start_spec(s, e.0) is None,
    ensures
        find_start_spec(s.push(e), e.0) == Some(e.1),
    decreases s.len(),
{
    if s.len() == 0 {
        assert(s.push(e).first() == e);
    } else {
        assert(s.push(e).first() == s.first());
        assert(s.push(e).drop_first() =~= s.drop_first().push(e));
        lemma_find_start_push_new(s.drop_first(), e);
    }
}

/// Appending a slice entry for a new asset makes it findable; other assets
/// are unaffected.
proof fn lemma_find_slice_push(s: Seq<(u64, MeshletMeshSlice)>, e: (u64, MeshletMeshSlice), id: u64)
    ensures
        id == e.0 && find_slice_spec(s, id) is None ==> find_slice_spec(s.push(e), id) == Some(
            e.1,
        ),
        id != e.0 ==> find_slice_spec(s.push(e), id) == find_slice_spec(s, id),
    decreases s.len(),
{
    if s.len() == 0 {
        assert(s.push(e).first() == e);
        assert(s.push(e).drop_first() =~= Seq::<(u64, MeshletMeshSlice)>::empty());
    } else {
        assert(s.push(e).first() == s.first());
        assert(s.push(e).drop_first() =~= s.drop_first().push(e));
        lemma_find_slice_push(s.drop_first(), e, id);
        if s.first().0 == id {
            assert(find_slice_spec(s.push(e), id) == Some(s.first().1));
            assert(find_slice_spec(s, id) == Some(s.first().1));
        } else {
            assert(find_slice_spec(s.push(e), id) == find_slice_spec(
                s.push(e).drop_first(),
                id,
            ));
            assert(find_slice_spec(s, id) == find_slice_spec(s.drop_first(), id));
        }
    }
}

/// Copies a byte vector.
fn copy_bytes(src: &Vec<u8>) -> (out: Vec<u8>)
    ensures
        out@ == src@,
{
    let mut out: Vec<u8> = Vec::new();
    let mut i: usize = 0;
    while i < src.len()
        invariant
            0 <= i <= src@.len(),
            out@ == src@.take(i as int),
        decreases src@.len() - i,
    {
        out.push(src[i]);
        i = i + 1;
        proof {
            assert(out@ =~= src@.take(i as int));
        }
    }
    proof {
        assert(src@.take(src@.len() as int) =~= src@);
    }
    out
}

/// Splitting a division over a sum whose first summand the divisor divides.
proof fn lemma_div_add_mul(a: int, b: int, d: int)
    requires
        d > 0,
        a >= 0,
        b >= 0,
        a % d == 0,
    ensures
        (a + b) / d == a / d + b / d,
{
    vstd::arithmetic::div_mod::lemma_fundamental_div_mod(a, d);
    vstd::arithmetic::div_mod::lemma_hoist_over_denominator(b, a / d, d as nat);
    assert((a / d) * d == d * (a / d)) by {
        vstd::arithmetic::mul::lemma_mul_is_commutative(a / d, d);
    }
}

/// Appends `count` copies of `value`.
fn push_repeat(v: &mut Vec<u32>, value: u32, count: u32)
    ensures
        final(v)@ == old(v)@ + Seq::new(count as nat, |k: int| value),
{
    let ghost base = v@;
    let mut i: u32 = 0;
    while i < count
        invariant
            0 <= i <= count,
            v@ == base + Seq::new(i as nat, |k: int| value),
        decreases count - i,
    {
        v.push(value);
        i = i + 1;
        proof {
            assert(v@ =~= base + Seq::new(i as nat, |k: int| value));
        }
    }
}

/// Appends the run `start`, `start + 1`, ..., `start + count - 1`.
fn push_range(v: &mut Vec<u32>, start: u32, count: u32)
    requires
        start + count <= u32::MAX,
    ensures
        final(v)@ == old(v)@ + Seq::new(count as nat, |k: int| (start + k) as u32),
{
    let ghost base = v@;
    let mut i: u32 = 0;
    while i < count
        invariant
            0 <= i <= count,
            start + count <= u32::MAX,
            v@ == base + Seq::new(i as nat, |k: int| (start + k) as u32),
        decreases count - i,
    {
        v.push(start + i);
        i = i + 1;
        proof {
            assert(v@ =~= base + Seq::new(i as nat, |k: int| (start + k) as u32));
        }
    }
}

/// GPU data manager for meshlet mesh rendering: persistent mesh buffers
/// plus all per-frame arrays.
pub struct MeshletGpuScene {
    vertex_data: PersistentGpuBuffer,
    vertex_ids: PersistentGpuBuffer,
    indices: PersistentGpuBuffer,
    meshlets: PersistentGpuBuffer,
    meshlet_bounding_spheres: PersistentGpuBuffer,
    meshlet_mesh_slices: Vec<(u64, MeshletMeshSlice)>,
    scene_meshlet_count: u32,
    scene_index_count: u64,
    next_material_id: u32,
    material_id_lookup: Vec<(u64, u32)>,
    material_ids_present_in_scene: Vec<u32>,
    instances: Vec<u64>,
    instance_uniforms: Vec<MeshUniform>,
    instance_material_ids: Vec<u32>,
    thread_instance_ids: Vec<u32>,
    thread_meshlet_ids: Vec<u32>,
    previous_thread_ids: Vec<u32>,
    previous_thread_id_starts: Vec<((u64, u64), (u32, bool))>,
    thread_blocks: Ghost<Seq<ThreadBlock>>,
    uploads: Ghost<Seq<UploadRecord>>,
}

impl MeshletGpuScene {
    /// The recorded per-instance thread blocks (ghost bookkeeping).
    pub closed spec fn spec_thread_blocks(self) -> Seq<ThreadBlock> {
        self.thread_blocks@
    }

    /// The recorded mesh uploads (ghost bookkeeping).
    pub closed spec fn spec_uploads(self) -> Seq<UploadRecord> {
        self.uploads@
    }

    /// The instance list, in submission order.
    pub closed spec fn spec_instances(self) -> Seq<u64> {
        self.instances@
    }

    /// The per-instance uniforms pushed so far this frame.
    pub closed spec fn spec_instance_uniforms(self) -> Seq<MeshUniform> {
        self.instance_uniforms@
    }

    /// The per-instance dense material ids.
    pub closed spec fn spec_instance_material_ids(self) -> Seq<u32> {
        self.instance_material_ids@
    }

    /// Thread index to instance index.
    pub closed spec fn spec_thread_instance_ids(self) -> Seq<u32> {
        self.thread_instance_ids@
    }

    /// Thread index to global cluster id.
    pub closed spec fn spec_thread_meshlet_ids(self) -> Seq<u32> {
        self.thread_meshlet_ids@
    }

    /// Thread index to the matching thread index of the previous frame.
    pub closed spec fn spec_previous_thread_ids(self) -> Seq<u32> {
        self.previous_thread_ids@
    }

    /// Recorded previous-frame thread starts per instance-and-asset pair.
    pub closed spec fn spec_previous_thread_id_starts(self) -> Seq<((u64, u64), (u32, bool))> {
        self.previous_thread_id_starts@
    }

    /// The mesh slice association list.
    pub closed spec fn spec_meshlet_mesh_slices(self) -> Seq<(u64, MeshletMeshSlice)> {
        self.meshlet_mesh_slices@
    }

    /// Total cluster-instance threads this frame.
    pub closed spec fn spec_scene_meshlet_count(self) -> u32 {
        self.scene_meshlet_count
    }

    /// Total triangle indices over all live instances this frame.
    pub closed spec fn spec_scene_index_count(self) -> u64 {
        self.scene_index_count
    }

    /// The next dense material id to hand out.
    pub closed spec fn spec_next_material_id(self) -> u32 {
        self.next_material_id
    }

    /// The material id association list.
    pub closed spec fn spec_material_id_lookup(self) -> Seq<(u64, u32)> {
        self.material_id_lookup@
    }

    /// Dense material ids referenced by at least one instance this frame.
    pub closed spec fn spec_material_ids_present(self) -> Seq<u32> {
        self.material_ids_present_in_scene@
    }

    /// The vertex data buffer's logical contents.
    pub closed spec fn spec_vertex_data(self) -> PersistentGpuBuffer {
        self.vertex_data
    }

    /// The vertex id buffer.
    pub closed spec fn spec_vertex_ids(self) -> PersistentGpuBuffer {
        self.vertex_ids
    }

    /// The index buffer.
    pub closed spec fn spec_indices(self) -> PersistentGpuBuffer {
        self.indices
    }

    /// The cluster metadata buffer.
    pub closed spec fn spec_meshlets(self) -> PersistentGpuBuffer {
        self.meshlets
    }

    /// The bounding sphere buffer.
    pub closed spec fn spec_bounding_spheres(self) -> PersistentGpuBuffer {
        self.meshlet_bounding_spheres
    }

    /// Sum of thread block counts.
    pub open spec fn blocks_total(blocks: Seq<ThreadBlock>) -> int
        decreases blocks.len(),
    {
        if blocks.len() == 0 {
            0
        } else {
            Self::blocks_total(blocks.drop_last()) + blocks.last().count
        }
    }

    /// The thread blocks tile the thread index range in submission order,
    /// without gaps or overlaps.
    pub open spec fn blocks_tile(blocks: Seq<ThreadBlock>) -> bool {
        forall|i: int|
            0 <= i < blocks.len() ==> #[trigger] blocks[i].start == (if i == 0 {
                0
            } else {
                blocks[i - 1].start + blocks[i - 1].count
            })
    }

    /// Under tiling, the total is where the last block ends.
    proof fn lemma_blocks_total_last(blocks: Seq<ThreadBlock>)
        requires
            Self::blocks_tile(blocks),
        ensures
            Self::blocks_total(blocks) == (if blocks.len() == 0 {
                0
            } else {
                blocks.last().start + blocks.last().count
            }),
        decreases blocks.len(),
    {
        if blocks.len() > 0 {
            let shorter = blocks.drop_last();
            assert forall|i: int| 0 <= i < shorter.len() implies #[trigger] shorter[i].start == (
                if i == 0 {
                0
            } else {
                shorter[i - 1].start + shorter[i - 1].count
            }) by {
                assert(blocks[i].start == (if i == 0 {
                    0
                } else {
                    blocks[i - 1].start + blocks[i - 1].count
                }));
            }
            Self::lemma_blocks_total_last(shorter);
        }
    }

    /// Under tiling with non-negative counts, every block ends at or before
    /// the total.
    proof fn lemma_block_end_le_total(blocks: Seq<ThreadBlock>, i: int)
        requires
            Self::blocks_tile(blocks),
            forall|k: int| 0 <= k < blocks.len() ==> (#[trigger] blocks[k]).count >= 0,
            0 <= i < blocks.len(),
        ensures
            blocks[i].start + blocks[i].count <= Self::blocks_total(blocks),
        decreases blocks.len() - i,
    {
        if i == blocks.len() - 1 {
            Self::lemma_blocks_total_last(blocks);
        }
        if i < blocks.len() - 1 {
            assert(blocks[i + 1].start == blocks[i].start + blocks[i].count);
            Self::lemma_block_end_le_total(blocks, i + 1);
        }
    }

    /// Under tiling with non-negative counts, block starts are
    /// non-negative.
    proof fn lemma_block_start_nonneg(blocks: Seq<ThreadBlock>, i: int)
        requires
            Self::blocks_tile(blocks),
            forall|k: int| 0 <= k < blocks.len() ==> (#[trigger] blocks[k]).count >= 0,
            0 <= i < blocks.len(),
        ensures
            blocks[i].start >= 0,
        decreases i,
    {
        if i > 0 {
            Self::lemma_block_start_nonneg(blocks, i - 1);
        }
    }

    /// Scene-wide well-formedness.
    pub closed spec fn inv(self) -> bool {
        &&& self.vertex_data.wf()
        &&& self.vertex_ids.wf()
        &&& self.indices.wf()
        &&& self.meshlets.wf()
        &&& self.meshlet_bounding_spheres.wf()
        &&& self.vertex_data.spec_virtual_size() as int % (VERTEX_STRIDE as int) == 0
        &&& self.vertex_ids.spec_virtual_size() as int % 4 == 0
        &&& self.meshlets.spec_virtual_size() as int % 12 == 0
        &&& self.meshlet_bounding_spheres.spec_virtual_size() as int % 16 == 0
        // Thread bookkeeping.
        &&& self.thread_blocks@.len() == self.instances@.len()
        &&& Self::blocks_tile(self.thread_blocks@)
        &&& Self::blocks_total(self.thread_blocks@) == self.scene_meshlet_count
        &&& self.thread_instance_ids@.len() == self.scene_meshlet_count
        &&& self.thread_meshlet_ids@.len() == self.scene_meshlet_count
        &&& self.previous_thread_ids@.len() == self.scene_meshlet_count
        &&& self.instance_material_ids@.len() == self.instances@.len()
        &&& forall|i: int|
            0 <= i < self.thread_blocks@.len() ==> (#[trigger] self.thread_blocks@[i]).instance
                == self.instances@[i]
        &&& forall|i: int|
            0 <= i < self.thread_blocks@.len() ==> (#[trigger] self.thread_blocks@[i]).count >= 0
        &&& forall|i: int, k: int|
            0 <= i < self.thread_blocks@.len() && 0 <= k < self.thread_blocks@[i].count
                ==> #[trigger] self.thread_instance_ids@[self.thread_blocks@[i].start + k] == i
        &&& forall|i: int, k: int|
            0 <= i < self.thread_blocks@.len() && 0 <= k < self.thread_blocks@[i].count
                ==> #[trigger] self.thread_meshlet_ids@[self.thread_blocks@[i].start + k]
                == self.thread_blocks@[i].cluster_start + k
        // Dense material ids: the lookup's entries carry consecutive ids
        // from one, and the counter is exactly the number handed out.
        &&& self.next_material_id as int == self.material_id_lookup@.len()
        &&& forall|i: int|
            0 <= i < self.material_id_lookup@.len() ==> (#[trigger] self.material_id_lookup@[i]).1
                == i + 1
        // Recorded slices are ordered ranges.
        &&& forall|i: int|
            0 <= i < self.meshlet_mesh_slices@.len() ==> (#[trigger] self.meshlet_mesh_slices@[i]).1.cluster_start
                <= self.meshlet_mesh_slices@[i].1.cluster_end
        // Upload bookkeeping: every uploaded mesh's rewritten clusters stay
        // inside the shared buffers.
        &&& forall|r: int|
            0 <= r < self.uploads@.len() ==> Self::upload_ok(
                #[trigger] self.uploads@[r],
                self.vertex_ids.spec_virtual_size() as int,
                self.indices.spec_virtual_size() as int,
            )
    }

    /// An upload's clusters reference only bytes inside the shared vertex
    /// id and index buffers, after rewriting by the upload's base offsets.
    pub open spec fn upload_ok(r: UploadRecord, vid_virtual: int, idx_virtual: int) -> bool {
        &&& r.vid_start % 4 == 0
        &&& 0 <= r.vid_start
        &&& 0 <= r.idx_start
        &&& r.ids_len >= 0
        &&& r.idx_len >= 0
        &&& r.vid_start + 4 * r.ids_len <= vid_virtual
        &&& r.idx_start + r.idx_len <= idx_virtual
        &&& clusters_in_bounds(r.clusters, r.ids_len, r.idx_len)
    }

    /// The slice recorded for a mesh asset, if its data was uploaded.
    pub open spec fn slice_for(self, asset_id: u64) -> Option<MeshletMeshSlice> {
        find_slice_spec(self.spec_meshlet_mesh_slices(), asset_id)
    }

    /// Looks up the buffer slice recorded for a mesh asset.
    fn find_slice(&self, asset_id: u64) -> (r: Option<MeshletMeshSlice>)
        ensures
            r == self.slice_for(asset_id),
    {
        let ghost full = self.meshlet_mesh_slices@;
        proof {
            assert(full.skip(0) =~= full);
        }
        let mut i: usize = 0;
        while i < self.meshlet_mesh_slices.len()
            invariant
                0 <= i <= full.len(),
                full == self.meshlet_mesh_slices@,
                find_slice_spec(full, asset_id) == find_slice_spec(
                    full.skip(i as int),
                    asset_id,
                ),
            decreases full.len() - i,
        {
            let entry = self.meshlet_mesh_slices[i];
            proof {
                assert(full.skip(i as int).first() == full[i as int]);
                assert(full.skip(i as int).drop_first() =~= full.skip(i as int + 1));
            }
            if entry.0 == asset_id {
                return Some(entry.1);
            }
            i = i + 1;
        }
        proof {
            assert(full.skip(full.len() as int) =~= Seq::<(u64, MeshletMeshSlice)>::empty());
        }
        None
    }

    /// Finds the position of the previous-frame thread start entry for an
    /// instance-and-asset pair, if one is recorded.
    fn find_start_index(&self, instance: u64, asset_id: u64) -> (r: Option<usize>)
        ensures
            match r {
                Some(i) => {
                    &&& i < self.spec_previous_thread_id_starts().len()
                    &&& self.spec_previous_thread_id_starts()[i as int].0 == (instance, asset_id)
                    &&& forall|k: int|
                        0 <= k < i ==> (#[trigger] self.spec_previous_thread_id_starts()[k]).0
                            != (instance, asset_id)
                    &&& find_start_spec(
                        self.spec_previous_thread_id_starts(),
                        (instance, asset_id),
                    ) == Some(self.spec_previous_thread_id_starts()[i as int].1)
                },
                None => find_start_spec(
                    self.spec_previous_thread_id_starts(),
                    (instance, asset_id),
                ) is None,
            },
    {
        let ghost full = self.previous_thread_id_starts@;
        let ghost key = (instance, asset_id);
        proof {
            assert(full.skip(0) =~= full);
        }
        let mut i: usize = 0;
        while i < self.previous_thread_id_starts.len()
            invariant
                0 <= i <= full.len(),
                full == self.previous_thread_id_starts@,
                key == (instance, asset_id),
                find_start_spec(full, key) == find_start_spec(full.skip(i as int), key),
                forall|k: int| 0 <= k < i ==> (#[trigger] full[k]).0 != key,
            decreases full.len() - i,
        {
            let entry = self.previous_thread_id_starts[i];
            proof {
                assert(full.skip(i as int).first() == full[i as int]);
                assert(full.skip(i as int).drop_first() =~= full.skip(i as int + 1));
            }
            if entry.0.0 == instance && entry.0.1 == asset_id {
                proof {
                    assert(full.skip(i as int).first().0 == key);
                }
                return Some(i);
            }
            i = i + 1;
        }
        proof {
            assert(full.skip(full.len() as int) =~= Seq::<((u64, u64), (u32, bool))>::empty());
        }
        None
    }

    /// A fresh scene with empty buffers and no per-frame state.
    pub fn new() -> (scene: MeshletGpuScene)
        ensures
            scene.inv(),
            scene.spec_scene_meshlet_count() == 0,
            scene.spec_scene_index_count() == 0,
            scene.spec_instances() == Seq::<u64>::empty(),
            scene.spec_meshlet_mesh_slices() == Seq::<(u64, MeshletMeshSlice)>::empty(),
            scene.spec_previous_thread_id_starts() == Seq::<((u64, u64), (u32, bool))>::empty(),
            scene.spec_material_id_lookup() == Seq::<(u64, u32)>::empty(),
            scene.spec_next_material_id() == 0,
            scene.spec_thread_blocks() == Seq::<ThreadBlock>::empty(),
            scene.spec_uploads() == Seq::<UploadRecord>::empty(),
    {
        MeshletGpuScene {
            vertex_data: PersistentGpuBuffer::new(),
            vertex_ids: PersistentGpuBuffer::new(),
            indices: PersistentGpuBuffer::new(),
            meshlets: PersistentGpuBuffer::new(),
            meshlet_bounding_spheres: PersistentGpuBuffer::new(),
            meshlet_mesh_slices: Vec::new(),
            scene_meshlet_count: 0,
            scene_index_count: 0,
            next_material_id: 0,
            material_id_lookup: Vec::new(),
            material_ids_present_in_scene: Vec::new(),
            instances: Vec::new(),
            instance_uniforms: Vec::new(),
            instance_material_ids: Vec::new(),
            thread_instance_ids: Vec::new(),
            thread_meshlet_ids: Vec::new(),
            previous_thread_ids: Vec::new(),
            previous_thread_id_starts: Vec::new(),
            thread_blocks: Ghost(Seq::empty()),
            uploads: Ghost(Seq::empty()),
        }
    }

    /// Uploads a mesh asset's data into the five shared buffers, recording
    /// and returning the slice its clusters occupy. The mesh's embedded
    /// references are rewritten to the offsets at which its vertex data,
    /// vertex ids and indices land.
    fn upload_mesh_data(&mut self, asset_id: u64, mesh: &MeshletMesh) -> (slice: MeshletMeshSlice)
        requires
            old(self).inv(),
            mesh.wf(),
            old(self).slice_for(asset_id) is None,
            old(self).spec_vertex_data().spec_virtual_size() + mesh.vertex_data@.len()
                <= u32::MAX,
            old(self).spec_vertex_ids().spec_virtual_size() + 4 * mesh.vertex_ids@.len()
                <= u32::MAX,
            old(self).spec_indices().spec_virtual_size() + mesh.indices@.len() <= u32::MAX,
            old(self).spec_meshlets().spec_virtual_size() as int / 12 + mesh.meshlets@.len()
                <= u32::MAX,
            old(self).spec_bounding_spheres().spec_virtual_size() + 32 * mesh.meshlets@.len()
                <= u64::MAX,
        ensures
            final(self).inv(),
            // Contents land after everything already uploaded, rewritten by
            // the offsets at which this mesh's own runs begin.
            final(self).spec_vertex_data().logical() == old(self).spec_vertex_data().logical()
                + mesh.vertex_data@,
            final(self).spec_vertex_ids().logical() == old(self).spec_vertex_ids().logical()
                + vertex_ids_bytes(
                mesh.vertex_ids@,
                ((old(self).spec_vertex_data().spec_virtual_size() as u32) / (
                VERTEX_STRIDE as u32)),
            ),
            final(self).spec_indices().logical() == old(self).spec_indices().logical()
                + mesh.indices@,
            final(self).spec_meshlets().logical() == old(self).spec_meshlets().logical()
                + meshlets_bytes(
                mesh.meshlets@,
                ((old(self).spec_vertex_ids().spec_virtual_size() as u32) / 4),
                old(self).spec_indices().spec_virtual_size() as u32,
            ),
            final(self).spec_bounding_spheres().logical() == old(
                self,
            ).spec_bounding_spheres().logical() + spheres_bytes(mesh.meshlet_bounding_spheres@),
            // The recorded slice.
            slice.cluster_start == old(self).spec_meshlets().spec_virtual_size() as int / 12,
            slice.cluster_end == slice.cluster_start + mesh.meshlets@.len(),
            slice.index_count == mesh.total_meshlet_indices,
            final(self).spec_meshlet_mesh_slices() == old(self).spec_meshlet_mesh_slices().push(
                (asset_id, slice),
            ),
            final(self).spec_uploads() == old(self).spec_uploads().push(
                UploadRecord {
                    asset_id,
                    clusters: mesh.meshlets@,
                    ids_len: mesh.vertex_ids@.len() as int,
                    idx_len: mesh.indices@.len() as int,
                    vid_start: old(self).spec_vertex_ids().spec_virtual_size() as int,
                    idx_start: old(self).spec_indices().spec_virtual_size() as int,
                },
            ),
            // Per-frame state is untouched.
            final(self).spec_scene_meshlet_count() == old(self).spec_scene_meshlet_count(),
            final(self).spec_scene_index_count() == old(self).spec_scene_index_count(),
            final(self).spec_instances() == old(self).spec_instances(),
            final(self).spec_instance_uniforms() == old(self).spec_instance_uniforms(),
            final(self).spec_instance_material_ids() == old(self).spec_instance_material_ids(),
            final(self).spec_thread_instance_ids() == old(self).spec_thread_instance_ids(),
            final(self).spec_thread_meshlet_ids() == old(self).spec_thread_meshlet_ids(),
            final(self).spec_previous_thread_ids() == old(self).spec_previous_thread_ids(),
            final(self).spec_previous_thread_id_starts() == old(
                self,
            ).spec_previous_thread_id_starts(),
            final(self).spec_thread_blocks() == old(self).spec_thread_blocks(),
            final(self).spec_material_id_lookup() == old(self).spec_material_id_lookup(),
            final(self).spec_material_ids_present() == old(self).spec_material_ids_present(),
    {
        let ghost vd_len = mesh.vertex_data@.len() as int;
        let ghost ids_len = mesh.vertex_ids@.len() as int;
        let ghost idx_len = mesh.indices@.len() as int;
        let ghost count = mesh.meshlets@.len() as int;

        let vertex_data_slice = self.vertex_data.queue_write_bytes(copy_bytes(&mesh.vertex_data));
        proof {
            assert forall|i: int| 0 <= i < mesh.vertex_ids@.len() implies #[trigger] mesh.vertex_ids@[i]
                + vertex_data_slice.start as u32 as int / (VERTEX_STRIDE as int) <= u32::MAX by {
                lemma_div_add_mul(vertex_data_slice.start as int, vd_len, VERTEX_STRIDE as int);
                assert(mesh.vertex_ids@[i] < vd_len / (VERTEX_STRIDE as int));
            }
        }
        let id_bytes = write_vertex_ids_bytes(&mesh.vertex_ids, vertex_data_slice.start);
        proof {
            crate::persistent_buffer_impls::lemma_vertex_ids_bytes_len(
                mesh.vertex_ids@,
                ((vertex_data_slice.start as u32) / (VERTEX_STRIDE as u32)),
            );
        }
        let vertex_ids_slice = self.vertex_ids.queue_write_bytes(id_bytes);
        let indices_slice = self.indices.queue_write_bytes(copy_bytes(&mesh.indices));
        proof {
            assert forall|i: int| 0 <= i < mesh.meshlets@.len() implies #[trigger] mesh.meshlets@[i].start_vertex_id
                + vertex_ids_slice.start as u32 as int / 4 <= u32::MAX by {
                lemma_div_add_mul(vertex_ids_slice.start as int, 4 * ids_len, 4);
                assert((4 * ids_len) / 4 == ids_len) by {
                    vstd::arithmetic::div_mod::lemma_div_multiples_vanish(ids_len, 4);
                }
                assert(mesh.meshlets@[i].start_vertex_id <= ids_len);
            }
            assert forall|i: int| 0 <= i < mesh.meshlets@.len() implies #[trigger] mesh.meshlets@[i].start_index_id
                + indices_slice.start <= u32::MAX by {
                assert(mesh.meshlets@[i].start_index_id + 3 * mesh.meshlets@[i].triangle_count
                    <= idx_len);
            }
        }
        let m_bytes = write_meshlets_bytes(
            &mesh.meshlets,
            vertex_ids_slice.start,
            indices_slice.start,
        );
        proof {
            crate::persistent_buffer_impls::lemma_meshlets_bytes_len(
                mesh.meshlets@,
                ((vertex_ids_slice.start as u32) / 4),
                indices_slice.start as u32,
            );
            vstd::arithmetic::div_mod::lemma_hoist_over_denominator(
                self.meshlets.spec_virtual_size() as int,
                count,
                12,
            );
        }
        let meshlets_slice = self.meshlets.queue_write_bytes(m_bytes);
        let s_bytes = write_spheres_bytes(&mesh.meshlet_bounding_spheres);
        proof {
            crate::persistent_buffer_impls::lemma_spheres_bytes_len(
                mesh.meshlet_bounding_spheres@,
            );
        }
        self.meshlet_bounding_spheres.queue_write_bytes(s_bytes);

        let cluster_start = (meshlets_slice.start / 12) as u32;
        let cluster_end = (meshlets_slice.end / 12) as u32;
        let slice = MeshletMeshSlice {
            cluster_start,
            cluster_end,
            index_count: mesh.total_meshlet_indices,
        };
        self.meshlet_mesh_slices.push((asset_id, slice));
        proof {
            self.uploads@ = self.uploads@.push(
                UploadRecord {
                    asset_id,
                    clusters: mesh.meshlets@,
                    ids_len,
                    idx_len,
                    vid_start: vertex_ids_slice.start as int,
                    idx_start: indices_slice.start as int,
                },
            );
        }
        proof {
            let s = *self;
            let o = *old(self);
            // Alignment of the grown buffers.
            vstd::arithmetic::div_mod::lemma_add_mod_noop(
                o.spec_vertex_data().spec_virtual_size() as int,
                vd_len,
                VERTEX_STRIDE as int,
            );
            vstd::arithmetic::div_mod::lemma_add_mod_noop(
                o.spec_vertex_ids().spec_virtual_size() as int,
                4 * ids_len,
                4,
            );
            vstd::arithmetic::div_mod::lemma_mod_multiples_basic(ids_len, 4);
            vstd::arithmetic::div_mod::lemma_add_mod_noop(
                o.spec_meshlets().spec_virtual_size() as int,
                12 * count,
                12,
            );
            vstd::arithmetic::div_mod::lemma_mod_multiples_basic(count, 12);
            vstd::arithmetic::div_mod::lemma_add_mod_noop(
                o.spec_bounding_spheres().spec_virtual_size() as int,
                16 * (2 * count),
                16,
            );
            vstd::arithmetic::div_mod::lemma_mod_multiples_basic(2 * count, 16);
            // Earlier uploads stay in bounds as the buffers only grow.
            assert forall|r: int| 0 <= r < s.uploads@.len() implies Self::upload_ok(
                #[trigger] s.uploads@[r],
                s.vertex_ids.spec_virtual_size() as int,
                s.indices.spec_virtual_size() as int,
            ) by {
                if r < o.uploads@.len() {
                    assert(Self::upload_ok(
                        o.uploads@[r],
                        o.vertex_ids.spec_virtual_size() as int,
                        o.indices.spec_virtual_size() as int,
                    ));
                }
            }
        }
        slice
    }

    /// Looks up — or, on first sight of the asset, uploads — the mesh's
    /// data, then appends one cluster-instance thread per cluster to the
    /// flat thread arrays, tagging each with the instance's index and a
    /// previous-frame thread id: carried over if this instance-and-asset
    /// pair was live last frame, zero (occlusion unknown, never treated as
    /// occluded) on first appearance. Returns the mesh's cluster slice.
    #[verifier::rlimit(100)]
    #[verifier::spinoff_prover]
    pub fn queue_meshlet_mesh_upload(
        &mut self,
        instance: u64,
        asset_id: u64,
        mesh: &MeshletMesh,
        instance_index: u32,
    ) -> (slice: MeshletMeshSlice)
        requires
            old(self).inv(),
            mesh.wf(),
            instance_index as int == old(self).spec_instances().len(),
            old(self).spec_scene_meshlet_count() + mesh.meshlets@.len() <= u32::MAX,
            old(self).spec_scene_index_count() + mesh.total_meshlet_indices <= u64::MAX,
            previous_start_for(
                old(self).spec_previous_thread_id_starts(),
                instance,
                asset_id,
            ) + mesh.meshlets@.len() <= u32::MAX,
            // The recorded slice of an already-uploaded asset must describe
            // this same mesh; a fresh upload must fit the shared buffers.
            match old(self).slice_for(asset_id) {
                Some(s) => s.cluster_end - s.cluster_start == mesh.meshlets@.len()
                    && s.index_count == mesh.total_meshlet_indices,
                None => {
                    &&& old(self).spec_vertex_data().spec_virtual_size()
                        + mesh.vertex_data@.len() <= u32::MAX
                    &&& old(self).spec_vertex_ids().spec_virtual_size() + 4
                        * mesh.vertex_ids@.len() <= u32::MAX
                    &&& old(self).spec_indices().spec_virtual_size() + mesh.indices@.len()
                        <= u32::MAX
                    &&& old(self).spec_meshlets().spec_virtual_size() as int / 12
                        + mesh.meshlets@.len() <= u32::MAX
                    &&& old(self).spec_bounding_spheres().spec_virtual_size() + 32
                        * mesh.meshlets@.len() <= u64::MAX
                },
            },
        ensures
            final(self).inv(),
            // The instance is appended, with a default material id.
            final(self).spec_instances() == old(self).spec_instances().push(instance),
            final(self).spec_instance_material_ids() == old(
                self,
            ).spec_instance_material_ids().push(0u32),
            final(self).spec_instance_uniforms() == old(self).spec_instance_uniforms(),
            // One thread per cluster of this mesh.
            final(self).spec_scene_meshlet_count() == old(self).spec_scene_meshlet_count()
                + mesh.meshlets@.len(),
            final(self).spec_scene_index_count() == old(self).spec_scene_index_count()
                + mesh.total_meshlet_indices,
            final(self).spec_thread_instance_ids() == old(self).spec_thread_instance_ids()
                + Seq::new(mesh.meshlets@.len(), |k: int| instance_index),
            final(self).spec_thread_meshlet_ids() == old(self).spec_thread_meshlet_ids()
                + Seq::new(
                mesh.meshlets@.len(),
                |k: int| (slice.cluster_start + k) as u32,
            ),
            final(self).spec_previous_thread_ids() == old(self).spec_previous_thread_ids()
                + Seq::new(
                mesh.meshlets@.len(),
                |k: int|
                    (previous_start_for(
                        old(self).spec_previous_thread_id_starts(),
                        instance,
                        asset_id,
                    ) + k) as u32,
            ),
            final(self).spec_thread_blocks() == old(self).spec_thread_blocks().push(
                ThreadBlock {
                    instance,
                    asset_id,
                    start: old(self).spec_scene_meshlet_count() as int,
                    count: mesh.meshlets@.len() as int,
                    cluster_start: slice.cluster_start as int,
                },
            ),
            // The pair's correspondence entry now holds this frame's thread
            // start and is live; every other pair's entry is untouched.
            find_start_spec(
                final(self).spec_previous_thread_id_starts(),
                (instance, asset_id),
            ) == Some((old(self).spec_scene_meshlet_count(), true)),
            forall|key2: (u64, u64)|
                key2 != (instance, asset_id) ==> #[trigger] find_start_spec(
                    final(self).spec_previous_thread_id_starts(),
                    key2,
                ) == find_start_spec(old(self).spec_previous_thread_id_starts(), key2),
            // The returned slice is the asset's recorded slice: reused as is
            // when the asset was already uploaded, fresh otherwise.
            final(self).slice_for(asset_id) == Some(slice),
            slice.cluster_end == slice.cluster_start + mesh.meshlets@.len(),
            slice.index_count == mesh.total_meshlet_indices,
            match old(self).slice_for(asset_id) {
                Some(s) => {
                    &&& slice == s
                    &&& final(self).spec_vertex_data() == old(self).spec_vertex_data()
                    &&& final(self).spec_vertex_ids() == old(self).spec_vertex_ids()
                    &&& final(self).spec_indices() == old(self).spec_indices()
                    &&& final(self).spec_meshlets() == old(self).spec_meshlets()
                    &&& final(self).spec_bounding_spheres() == old(self).spec_bounding_spheres()
                    &&& final(self).spec_meshlet_mesh_slices() == old(
                        self,
                    ).spec_meshlet_mesh_slices()
                    &&& final(self).spec_uploads() == old(self).spec_uploads()
                },
                None => {
                    &&& slice.cluster_start == old(self).spec_meshlets().spec_virtual_size()
                        as int / 12
                    &&& final(self).spec_vertex_data().logical() == old(
                        self,
                    ).spec_vertex_data().logical() + mesh.vertex_data@
                    &&& final(self).spec_vertex_ids().logical() == old(
                        self,
                    ).spec_vertex_ids().logical() + vertex_ids_bytes(
                        mesh.vertex_ids@,
                        ((old(self).spec_vertex_data().spec_virtual_size() as u32) / (
                        VERTEX_STRIDE as u32)),
                    )
                    &&& final(self).spec_indices().logical() == old(
                        self,
                    ).spec_indices().logical() + mesh.indices@
                    &&& final(self).spec_meshlets().logical() == old(
                        self,
                    ).spec_meshlets().logical() + meshlets_bytes(
                        mesh.meshlets@,
                        ((old(self).spec_vertex_ids().spec_virtual_size() as u32) / 4),
                        old(self).spec_indices().spec_virtual_size() as u32,
                    )
                    &&& final(self).spec_bounding_spheres().logical() == old(
                        self,
                    ).spec_bounding_spheres().logical() + spheres_bytes(
                        mesh.meshlet_bounding_spheres@,
                    )
                    &&& final(self).spec_meshlet_mesh_slices() == old(
                        self,
                    ).spec_meshlet_mesh_slices().push((asset_id, slice))
                },
            },
            // Material assignment is untouched.
            final(self).spec_material_id_lookup() == old(self).spec_material_id_lookup(),
            final(self).spec_material_ids_present() == old(self).spec_material_ids_present(),
    {
        let ghost count = mesh.meshlets@.len() as int;
        let found = self.find_slice(asset_id);
        let slice = match found {
            Some(s) => s,
            None => self.upload_mesh_data(asset_id, mesh),
        };
        proof {
            if found is None {
                lemma_find_slice_push(
                    old(self).spec_meshlet_mesh_slices(),
                    (asset_id, slice),
                    asset_id,
                );
            }
            assert(slice.cluster_end - slice.cluster_start == count);
        }
        let cluster_count: u32 = slice.cluster_end - slice.cluster_start;
        self.append_instance_threads(instance, asset_id, slice, instance_index);
        slice
    }

    /// Appends one cluster-instance thread per cluster of `slice` for a
    /// new instance, updating the correspondence entry for the pair.
    #[verifier::rlimit(100)]
    #[verifier::spinoff_prover]
    fn append_instance_threads(
        &mut self,
        instance: u64,
        asset_id: u64,
        slice: MeshletMeshSlice,
        instance_index: u32,
    )
        requires
            old(self).inv(),
            instance_index as int == old(self).spec_instances().len(),
            slice.cluster_start <= slice.cluster_end,
            old(self).spec_scene_meshlet_count() + (slice.cluster_end - slice.cluster_start)
                <= u32::MAX,
            old(self).spec_scene_index_count() + slice.index_count <= u64::MAX,
            previous_start_for(
                old(self).spec_previous_thread_id_starts(),
                instance,
                asset_id,
            ) + (slice.cluster_end - slice.cluster_start) <= u32::MAX,
        ensures
            final(self).inv(),
            final(self).spec_instances() == old(self).spec_instances().push(instance),
            final(self).spec_instance_material_ids() == old(
                self,
            ).spec_instance_material_ids().push(0u32),
            final(self).spec_instance_uniforms() == old(self).spec_instance_uniforms(),
            final(self).spec_scene_meshlet_count() == old(self).spec_scene_meshlet_count() + (
            slice.cluster_end - slice.cluster_start),
            final(self).spec_scene_index_count() == old(self).spec_scene_index_count()
                + slice.index_count,
            final(self).spec_thread_instance_ids() == old(self).spec_thread_instance_ids()
                + Seq::new((slice.cluster_end - slice.cluster_start) as nat, |k: int| instance_index),
            final(self).spec_thread_meshlet_ids() == old(self).spec_thread_meshlet_ids()
                + Seq::new(
                (slice.cluster_end - slice.cluster_start) as nat,
                |k: int| (slice.cluster_start + k) as u32,
            ),
            final(self).spec_previous_thread_ids() == old(self).spec_previous_thread_ids()
                + Seq::new(
                (slice.cluster_end - slice.cluster_start) as nat,
                |k: int|
                    (previous_start_for(
                        old(self).spec_previous_thread_id_starts(),
                        instance,
                        asset_id,
                    ) + k) as u32,
            ),
            final(self).spec_thread_blocks() == old(self).spec_thread_blocks().push(
                ThreadBlock {
                    instance,
                    asset_id,
                    start: old(self).spec_scene_meshlet_count() as int,
                    count: (slice.cluster_end - slice.cluster_start) as int,
                    cluster_start: slice.cluster_start as int,
                },
            ),
            find_start_spec(
                final(self).spec_previous_thread_id_starts(),
                (instance, asset_id),
            ) == Some((old(self).spec_scene_meshlet_count(), true)),
            forall|key2: (u64, u64)|
                key2 != (instance, asset_id) ==> #[trigger] find_start_spec(
                    final(self).spec_previous_thread_id_starts(),
                    key2,
                ) == find_start_spec(old(self).spec_previous_thread_id_starts(), key2),
            final(self).spec_vertex_data() == old(self).spec_vertex_data(),
            final(self).spec_vertex_ids() == old(self).spec_vertex_ids(),
            final(self).spec_indices() == old(self).spec_indices(),
            final(self).spec_meshlets() == old(self).spec_meshlets(),
            final(self).spec_bounding_spheres() == old(self).spec_bounding_spheres(),
            final(self).spec_meshlet_mesh_slices() == old(self).spec_meshlet_mesh_slices(),
            final(self).spec_uploads() == old(self).spec_uploads(),
            final(self).spec_material_id_lookup() == old(self).spec_material_id_lookup(),
            final(self).spec_material_ids_present() == old(self).spec_material_ids_present(),
    {
        let ghost count = (slice.cluster_end - slice.cluster_start) as int;
        let cluster_count: u32 = slice.cluster_end - slice.cluster_start;
        let current_thread_id_start = self.scene_meshlet_count;

        let prev_index = self.find_start_index(instance, asset_id);
        let previous_start: u32 = match prev_index {
            Some(i) => {
                let (start, active) = self.previous_thread_id_starts[i].1;
                if active {
                    0
                } else {
                    start
                }
            },
            None => 0,
        };
        proof {
            assert(previous_start == previous_start_for(
                self.spec_previous_thread_id_starts(),
                instance,
                asset_id,
            ));
        }

        self.instances.push(instance);
        self.instance_material_ids.push(0);
        self.scene_meshlet_count = current_thread_id_start + cluster_count;
        self.scene_index_count = self.scene_index_count + slice.index_count;
        push_repeat(&mut self.thread_instance_ids, instance_index, cluster_count);
        push_range(&mut self.thread_meshlet_ids, slice.cluster_start, cluster_count);
        push_range(&mut self.previous_thread_ids, previous_start, cluster_count);
        match prev_index {
            Some(i) => {
                self.previous_thread_id_starts.set(
                    i,
                    ((instance, asset_id), (current_thread_id_start, true)),
                );
                proof {
                    lemma_find_start_first(
                        self.previous_thread_id_starts@,
                        (instance, asset_id),
                        i as int,
                    );
                    assert forall|key2: (u64, u64)| key2 != (instance, asset_id) implies
                        #[trigger] find_start_spec(self.previous_thread_id_starts@, key2)
                        == find_start_spec(old(self).previous_thread_id_starts@, key2) by {
                        assert(self.previous_thread_id_starts@
                            == old(self).previous_thread_id_starts@.update(
                            i as int,
                            (
                                old(self).previous_thread_id_starts@[i as int].0,
                                (current_thread_id_start, true),
                            ),
                        ));
                        lemma_find_start_update(
                            old(self).previous_thread_id_starts@,
                            i as int,
                            (current_thread_id_start, true),
                            key2,
                        );
                    }
                }
            },
            None => {
                self.previous_thread_id_starts.push(
                    ((instance, asset_id), (current_thread_id_start, true)),
                );
                proof {
                    lemma_find_start_push_new(
                        old(self).previous_thread_id_starts@,
                        ((instance, asset_id), (current_thread_id_start, true)),
                    );
                    assert forall|key2: (u64, u64)| key2 != (instance, asset_id) implies
                        #[trigger] find_start_spec(self.previous_thread_id_starts@, key2)
                        == find_start_spec(old(self).previous_thread_id_starts@, key2) by {
                        lemma_find_start_push(
                            old(self).previous_thread_id_starts@,
                            ((instance, asset_id), (current_thread_id_start, true)),
                            key2,
                        );
                    }
                }
            },
        }
        let ghost new_block = ThreadBlock {
            instance,
            asset_id,
            start: current_thread_id_start as int,
            count,
            cluster_start: slice.cluster_start as int,
        };
        proof {
            self.thread_blocks@ = self.thread_blocks@.push(new_block);
        }
        proof {
            let blocks0 = old(self).thread_blocks@;
            Self::lemma_blocks_total_last(blocks0);
            // The new block starts exactly where the previous ones end.
            assert forall|i: int| 0 <= i < self.thread_blocks@.len() implies #[trigger] self.thread_blocks@[i].start
                == (if i == 0 {
                0
            } else {
                self.thread_blocks@[i - 1].start + self.thread_blocks@[i - 1].count
            }) by {
                if i < blocks0.len() {
                    assert(blocks0[i].start == (if i == 0 {
                        0
                    } else {
                        blocks0[i - 1].start + blocks0[i - 1].count
                    }));
                }
            }
            assert(self.thread_blocks@.drop_last() =~= blocks0);
            assert(Self::blocks_total(self.thread_blocks@) == Self::blocks_total(blocks0)
                + count);
            // Old thread entries are unchanged; the new block's entries
            // carry the new instance's index and cluster run.
            assert forall|i: int, k: int|
                0 <= i < self.thread_blocks@.len() && 0 <= k < self.thread_blocks@[i].count
                implies #[trigger] self.thread_instance_ids@[self.thread_blocks@[i].start + k]
                == i by {
                if i < blocks0.len() {
                    Self::lemma_block_end_le_total(blocks0, i);
                    Self::lemma_block_start_nonneg(blocks0, i);
                    assert(old(self).thread_instance_ids@[blocks0[i].start + k] == i);
                } else {
                    assert(self.thread_blocks@[i] == new_block);
                    assert(self.thread_instance_ids@[new_block.start + k] == instance_index);
                }
            }
            assert forall|i: int, k: int|
                0 <= i < self.thread_blocks@.len() && 0 <= k < self.thread_blocks@[i].count
                implies #[trigger] self.thread_meshlet_ids@[self.thread_blocks@[i].start + k]
                == self.thread_blocks@[i].cluster_start + k by {
                if i < blocks0.len() {
                    Self::lemma_block_end_le_total(blocks0, i);
                    Self::lemma_block_start_nonneg(blocks0, i);
                    assert(old(self).thread_meshlet_ids@[blocks0[i].start + k] == blocks0[i].cluster_start
                        + k);
                } else {
                    assert(self.thread_blocks@[i] == new_block);
                    assert(self.thread_meshlet_ids@[new_block.start + k] == (slice.cluster_start
                        + k) as u32);
                }
            }
        }
    }


    /// Finds the position of a material's entry in the lookup.
    fn find_material_index(&self, material_asset_id: u64) -> (r: Option<usize>)
        ensures
            match r {
                Some(i) => {
                    &&& i < self.spec_material_id_lookup().len()
                    &&& self.spec_material_id_lookup()[i as int].0 == material_asset_id
                    &&& find_material_spec(self.spec_material_id_lookup(), material_asset_id)
                        == Some(self.spec_material_id_lookup()[i as int].1)
                },
                None => find_material_spec(
                    self.spec_material_id_lookup(),
                    material_asset_id,
                ) is None,
            },
    {
        let ghost full = self.material_id_lookup@;
        proof {
            assert(full.skip(0) =~= full);
        }
        let mut i: usize = 0;
        while i < self.material_id_lookup.len()
            invariant
                0 <= i <= full.len(),
                full == self.material_id_lookup@,
                find_material_spec(full, material_asset_id) == find_material_spec(
                    full.skip(i as int),
                    material_asset_id,
                ),
            decreases full.len() - i,
        {
            let entry = self.material_id_lookup[i];
            proof {
                assert(full.skip(i as int).first() == full[i as int]);
                assert(full.skip(i as int).drop_first() =~= full.skip(i as int + 1));
            }
            if entry.0 == material_asset_id {
                return Some(i);
            }
            i = i + 1;
        }
        proof {
            assert(full.skip(full.len() as int) =~= Seq::<(u64, u32)>::empty());
        }
        None
    }

    /// The depth value to use with the material depth texture for a given
    /// material asset: its recorded dense id, or a newly assigned one.
    /// Fresh ids are handed out in increasing order, starting at one.
    pub fn get_material_id(&mut self, material_asset_id: u64) -> (id: u32)
        requires
            old(self).inv(),
            old(self).spec_next_material_id() < u32::MAX,
        ensures
            final(self).inv(),
            match find_material_spec(
                old(self).spec_material_id_lookup(),
                material_asset_id,
            ) {
                Some(existing) => {
                    &&& id == existing
                    &&& *final(self) == *old(self)
                },
                None => {
                    &&& id == old(self).spec_next_material_id() + 1
                    &&& final(self).spec_next_material_id() == old(
                        self,
                    ).spec_next_material_id() + 1
                    &&& final(self).spec_material_id_lookup() == old(
                        self,
                    ).spec_material_id_lookup().push((material_asset_id, id))
                },
            },
            find_material_spec(final(self).spec_material_id_lookup(), material_asset_id)
                == Some(id),
            1 <= id <= final(self).spec_next_material_id(),
    {
        match self.find_material_index(material_asset_id) {
            Some(i) => self.material_id_lookup[i].1,
            None => {
                self.next_material_id = self.next_material_id + 1;
                let id = self.next_material_id;
                self.material_id_lookup.push((material_asset_id, id));
                proof {
                    lemma_find_material_push_new(
                        old(self).material_id_lookup@,
                        (material_asset_id, id),
                    );
                }
                id
            },
        }
    }

    /// Whether at least one instance in the current frame uses the given
    /// dense material id.
    pub fn material_present_in_scene(&self, material_id: &u32) -> (present: bool)
        ensures
            present == self.spec_material_ids_present().contains(*material_id),
    {
        let mut i: usize = 0;
        while i < self.material_ids_present_in_scene.len()
            invariant
                0 <= i <= self.spec_material_ids_present().len(),
                forall|k: int|
                    0 <= k < i ==> #[trigger] self.spec_material_ids_present()[k]
                        != *material_id,
            decreases self.spec_material_ids_present().len() - i,
        {
            if self.material_ids_present_in_scene[i] == *material_id {
                return true;
            }
            i = i + 1;
        }
        false
    }

    /// Assigns each instance its material's dense id, where the instance
    /// has a known material whose id was registered, and records which
    /// dense ids the frame uses. `instance_materials` pairs each instance
    /// with its material asset; instances without a pairing, or whose
    /// material was never registered, keep the default id.
    pub fn queue_material_meshlet_meshes(&mut self, instance_materials: &Vec<(u64, u64)>)
        requires
            old(self).inv(),
        ensures
            final(self).inv(),
            final(self).spec_instance_material_ids().len() == old(
                self,
            ).spec_instance_material_ids().len(),
            // Each instance with a registered material gets its dense id;
            // the rest keep what they had.
            forall|i: int|
                0 <= i < final(self).spec_instance_material_ids().len()
                    ==> #[trigger] final(self).spec_instance_material_ids()[i]
                    == assigned_material(
                    old(self).spec_material_id_lookup(),
                    instance_materials@,
                    old(self).spec_instances()[i],
                    old(self).spec_instance_material_ids()[i],
                ),
            // The ids recorded as present grow by exactly the assigned ids.
            final(self).spec_material_ids_present() == old(self).spec_material_ids_present()
                + present_additions(
                old(self).spec_material_id_lookup(),
                instance_materials@,
                old(self).spec_instances(),
            ),
            // Everything else is untouched.
            final(self).spec_instances() == old(self).spec_instances(),
            final(self).spec_instance_uniforms() == old(self).spec_instance_uniforms(),
            final(self).spec_material_id_lookup() == old(self).spec_material_id_lookup(),
            final(self).spec_next_material_id() == old(self).spec_next_material_id(),
            final(self).spec_thread_instance_ids() == old(self).spec_thread_instance_ids(),
            final(self).spec_thread_meshlet_ids() == old(self).spec_thread_meshlet_ids(),
            final(self).spec_previous_thread_ids() == old(self).spec_previous_thread_ids(),
            final(self).spec_previous_thread_id_starts() == old(
                self,
            ).spec_previous_thread_id_starts(),
            final(self).spec_scene_meshlet_count() == old(self).spec_scene_meshlet_count(),
            final(self).spec_scene_index_count() == old(self).spec_scene_index_count(),
            final(self).spec_thread_blocks() == old(self).spec_thread_blocks(),
            final(self).spec_uploads() == old(self).spec_uploads(),
            final(self).spec_meshlet_mesh_slices() == old(self).spec_meshlet_mesh_slices(),
            final(self).spec_vertex_data() == old(self).spec_vertex_data(),
            final(self).spec_vertex_ids() == old(self).spec_vertex_ids(),
            final(self).spec_indices() == old(self).spec_indices(),
            final(self).spec_meshlets() == old(self).spec_meshlets(),
            final(self).spec_bounding_spheres() == old(self).spec_bounding_spheres(),
    {
        let n = self.instances.len();
        proof {
            assert(self.material_ids_present_in_scene@ =~= old(
                self,
            ).material_ids_present_in_scene@ + present_additions(
                old(self).material_id_lookup@,
                instance_materials@,
                old(self).instances@.take(0),
            ));
        }
        let mut i: usize = 0;
        while i < n
            invariant
                n == self.instances@.len(),
                0 <= i <= n,
                self.inv(),
                self.instances@ == old(self).instances@,
                self.material_id_lookup@ == old(self).material_id_lookup@,
                self.next_material_id == old(self).next_material_id,
                self.instance_material_ids@.len() == old(self).instance_material_ids@.len(),
                self.thread_instance_ids@ == old(self).thread_instance_ids@,
                self.thread_meshlet_ids@ == old(self).thread_meshlet_ids@,
                self.previous_thread_ids@ == old(self).previous_thread_ids@,
                self.previous_thread_id_starts@ == old(self).previous_thread_id_starts@,
                self.scene_meshlet_count == old(self).scene_meshlet_count,
                self.scene_index_count == old(self).scene_index_count,
                self.instance_uniforms@ == old(self).instance_uniforms@,
                self.thread_blocks@ == old(self).thread_blocks@,
                self.uploads@ == old(self).uploads@,
                self.meshlet_mesh_slices@ == old(self).meshlet_mesh_slices@,
                self.vertex_data == old(self).vertex_data,
                self.vertex_ids == old(self).vertex_ids,
                self.indices == old(self).indices,
                self.meshlets == old(self).meshlets,
                self.meshlet_bounding_spheres == old(self).meshlet_bounding_spheres,
                self.material_ids_present_in_scene@ == old(
                    self,
                ).material_ids_present_in_scene@ + present_additions(
                    old(self).material_id_lookup@,
                    instance_materials@,
                    old(self).instances@.take(i as int),
                ),
                forall|k: int|
                    0 <= k < i ==> #[trigger] self.instance_material_ids@[k]
                        == assigned_material(
                        old(self).material_id_lookup@,
                        instance_materials@,
                        old(self).instances@[k],
                        old(self).instance_material_ids@[k],
                    ),
                forall|k: int|
                    i <= k < self.instance_material_ids@.len()
                        ==> #[trigger] self.instance_material_ids@[k] == old(
                        self,
                    ).instance_material_ids@[k],
            decreases n - i,
        {
            let instance = self.instances[i];
            match lookup_instance_material(instance_materials, instance) {
                Some(material_asset_id) => {
                    match self.find_material_index(material_asset_id) {
                        Some(entry) => {
                            let material_id = self.material_id_lookup[entry].1;
                            self.material_ids_present_in_scene.push(material_id);
                            self.instance_material_ids.set(i, material_id);
                        },
                        None => {},
                    }
                },
                None => {},
            }
            i = i + 1;
            proof {
                assert(old(self).instances@.take(i as int).drop_last() =~= old(
                    self,
                ).instances@.take(i - 1));
                assert(old(self).instances@.take(i as int).last() == old(self).instances@[i
                    - 1]);
                assert(self.material_ids_present_in_scene@ =~= old(
                    self,
                ).material_ids_present_in_scene@ + present_additions(
                    old(self).material_id_lookup@,
                    instance_materials@,
                    old(self).instances@.take(i as int),
                ));
            }
        }
        proof {
            assert(old(self).instances@.take(n as int) =~= old(self).instances@);
        }
    }

    /// Appends one instance's uniform for this frame.
    pub fn push_instance_uniform(&mut self, uniform: MeshUniform)
        requires
            old(self).inv(),
        ensures
            final(self).inv(),
            final(self).spec_instance_uniforms() == old(self).spec_instance_uniforms().push(
                uniform,
            ),
            final(self).spec_instances() == old(self).spec_instances(),
            final(self).spec_scene_meshlet_count() == old(self).spec_scene_meshlet_count(),
    {
        self.instance_uniforms.push(uniform);
    }

    /// Total cluster-instance threads this frame.
    pub fn scene_meshlet_count(&self) -> (n: u32)
        ensures
            n == self.spec_scene_meshlet_count(),
    {
        self.scene_meshlet_count
    }

    /// Total triangle indices over all live instances this frame.
    pub fn scene_index_count(&self) -> (n: u64)
        ensures
            n == self.spec_scene_index_count(),
    {
        self.scene_index_count
    }

    /// Uploads every queued mesh write to the shared buffers, growing
    /// them as needed; all previously written bytes are preserved.
    pub fn perform_pending_meshlet_mesh_writes(&mut self)
        requires
            old(self).inv(),
        ensures
            final(self).inv(),
            final(self).spec_vertex_data().logical() == old(self).spec_vertex_data().logical(),
            final(self).spec_vertex_ids().logical() == old(self).spec_vertex_ids().logical(),
            final(self).spec_indices().logical() == old(self).spec_indices().logical(),
            final(self).spec_meshlets().logical() == old(self).spec_meshlets().logical(),
            final(self).spec_bounding_spheres().logical() == old(
                self,
            ).spec_bounding_spheres().logical(),
            final(self).spec_vertex_data().spec_committed_size() == old(
                self,
            ).spec_vertex_data().spec_virtual_size(),
            final(self).spec_vertex_ids().spec_committed_size() == old(
                self,
            ).spec_vertex_ids().spec_virtual_size(),
            final(self).spec_indices().spec_committed_size() == old(
                self,
            ).spec_indices().spec_virtual_size(),
            final(self).spec_meshlets().spec_committed_size() == old(
                self,
            ).spec_meshlets().spec_virtual_size(),
            final(self).spec_bounding_spheres().spec_committed_size() == old(
                self,
            ).spec_bounding_spheres().spec_virtual_size(),
            final(self).spec_vertex_data().spec_virtual_size() == old(
                self,
            ).spec_vertex_data().spec_virtual_size(),
            final(self).spec_vertex_ids().spec_virtual_size() == old(
                self,
            ).spec_vertex_ids().spec_virtual_size(),
            final(self).spec_indices().spec_virtual_size() == old(
                self,
            ).spec_indices().spec_virtual_size(),
            final(self).spec_meshlets().spec_virtual_size() == old(
                self,
            ).spec_meshlets().spec_virtual_size(),
            final(self).spec_bounding_spheres().spec_virtual_size() == old(
                self,
            ).spec_bounding_spheres().spec_virtual_size(),
            final(self).spec_instances() == old(self).spec_instances(),
            final(self).spec_instance_uniforms() == old(self).spec_instance_uniforms(),
            final(self).spec_instance_material_ids() == old(self).spec_instance_material_ids(),
            final(self).spec_thread_instance_ids() == old(self).spec_thread_instance_ids(),
            final(self).spec_thread_meshlet_ids() == old(self).spec_thread_meshlet_ids(),
            final(self).spec_previous_thread_ids() == old(self).spec_previous_thread_ids(),
            final(self).spec_previous_thread_id_starts() == old(
                self,
            ).spec_previous_thread_id_starts(),
            final(self).spec_scene_meshlet_count() == old(self).spec_scene_meshlet_count(),
            final(self).spec_scene_index_count() == old(self).spec_scene_index_count(),
            final(self).spec_thread_blocks() == old(self).spec_thread_blocks(),
            final(self).spec_uploads() == old(self).spec_uploads(),
            final(self).spec_meshlet_mesh_slices() == old(self).spec_meshlet_mesh_slices(),
            final(self).spec_material_id_lookup() == old(self).spec_material_id_lookup(),
            final(self).spec_material_ids_present() == old(self).spec_material_ids_present(),
    {
        self.vertex_data.perform_writes();
        self.vertex_ids.perform_writes();
        self.indices.perform_writes();
        self.meshlets.perform_writes();
        self.meshlet_bounding_spheres.perform_writes();
    }

    /// The shared vertex data buffer.
    pub fn vertex_data_buffer(&self) -> (r: &PersistentGpuBuffer)
        ensures
            *r == self.spec_vertex_data(),
    {
        &self.vertex_data
    }

    /// The shared vertex id buffer.
    pub fn vertex_ids_buffer(&self) -> (r: &PersistentGpuBuffer)
        ensures
            *r == self.spec_vertex_ids(),
    {
        &self.vertex_ids
    }

    /// The shared index buffer.
    pub fn indices_buffer(&self) -> (r: &PersistentGpuBuffer)
        ensures
            *r == self.spec_indices(),
    {
        &self.indices
    }

    /// The shared cluster metadata buffer.
    pub fn meshlets_buffer(&self) -> (r: &PersistentGpuBuffer)
        ensures
            *r == self.spec_meshlets(),
    {
        &self.meshlets
    }

    /// The shared bounding sphere buffer.
    pub fn bounding_spheres_buffer(&self) -> (r: &PersistentGpuBuffer)
        ensures
            *r == self.spec_bounding_spheres(),
    {
        &self.meshlet_bounding_spheres
    }

    /// The flat thread-to-instance-index array.
    pub fn thread_instance_ids(&self) -> (r: &Vec<u32>)
        ensures
            r@ == self.spec_thread_instance_ids(),
    {
        &self.thread_instance_ids
    }

    /// The flat thread-to-cluster-id array.
    pub fn thread_meshlet_ids(&self) -> (r: &Vec<u32>)
        ensures
            r@ == self.spec_thread_meshlet_ids(),
    {
        &self.thread_meshlet_ids
    }

    /// The flat previous-frame thread id array.
    pub fn previous_thread_ids(&self) -> (r: &Vec<u32>)
        ensures
            r@ == self.spec_previous_thread_ids(),
    {
        &self.previous_thread_ids
    }

    /// The per-instance dense material ids.
    pub fn instance_material_ids(&self) -> (r: &Vec<u32>)
        ensures
            r@ == self.spec_instance_material_ids(),
    {
        &self.instance_material_ids
    }

    /// Drops every previous-frame correspondence entry that stayed
    /// inactive through the frame: its instance was not submitted again,
    /// so its temporal match is gone.
    pub fn prune_inactive_instances(&mut self)
        requires
            old(self).inv(),
        ensures
            final(self).inv(),
            final(self).spec_previous_thread_id_starts() == active_entries(
                old(self).spec_previous_thread_id_starts(),
            ),
            final(self).spec_instances() == old(self).spec_instances(),
            final(self).spec_scene_meshlet_count() == old(self).spec_scene_meshlet_count(),
            final(self).spec_scene_index_count() == old(self).spec_scene_index_count(),
            final(self).spec_thread_instance_ids() == old(self).spec_thread_instance_ids(),
            final(self).spec_thread_meshlet_ids() == old(self).spec_thread_meshlet_ids(),
            final(self).spec_previous_thread_ids() == old(self).spec_previous_thread_ids(),
            final(self).spec_thread_blocks() == old(self).spec_thread_blocks(),
            final(self).spec_uploads() == old(self).spec_uploads(),
            final(self).spec_meshlet_mesh_slices() == old(self).spec_meshlet_mesh_slices(),
            final(self).spec_vertex_data() == old(self).spec_vertex_data(),
            final(self).spec_vertex_ids() == old(self).spec_vertex_ids(),
            final(self).spec_indices() == old(self).spec_indices(),
            final(self).spec_meshlets() == old(self).spec_meshlets(),
            final(self).spec_bounding_spheres() == old(self).spec_bounding_spheres(),
    {
        let ghost starts0 = self.previous_thread_id_starts@;
        let mut kept: Vec<((u64, u64), (u32, bool))> = Vec::new();
        proof {
            assert(kept@ =~= active_entries(starts0.take(0)));
        }
        let mut i: usize = 0;
        while i < self.previous_thread_id_starts.len()
            invariant
                *self == *old(self),
                starts0 == self.previous_thread_id_starts@,
                0 <= i <= starts0.len(),
                kept@ == active_entries(starts0.take(i as int)),
            decreases starts0.len() - i,
        {
            let entry = self.previous_thread_id_starts[i];
            if entry.1.1 {
                kept.push(entry);
            }
            i = i + 1;
            proof {
                assert(starts0.take(i as int).drop_last() =~= starts0.take(i - 1));
                assert(starts0.take(i as int).last() == starts0[i - 1]);
                assert(kept@ =~= active_entries(starts0.take(i as int)));
            }
        }
        proof {
            assert(starts0.take(starts0.len() as int) =~= starts0);
        }
        self.previous_thread_id_starts = kept;
    }

    /// Clears all per-frame arrays and marks every previous-frame
    /// correspondence entry inactive, keeping its recorded thread start so
    /// instances reappearing this frame can still find a temporal match.
    pub fn reset(&mut self)
        requires
            old(self).inv(),
        ensures
            final(self).inv(),
            final(self).spec_scene_meshlet_count() == 0,
            final(self).spec_scene_index_count() == 0,
            final(self).spec_instances() == Seq::<u64>::empty(),
            final(self).spec_instance_uniforms() == Seq::<MeshUniform>::empty(),
            final(self).spec_instance_material_ids() == Seq::<u32>::empty(),
            final(self).spec_thread_instance_ids() == Seq::<u32>::empty(),
            final(self).spec_thread_meshlet_ids() == Seq::<u32>::empty(),
            final(self).spec_previous_thread_ids() == Seq::<u32>::empty(),
            final(self).spec_material_id_lookup() == Seq::<(u64, u32)>::empty(),
            final(self).spec_next_material_id() == 0,
            final(self).spec_material_ids_present() == Seq::<u32>::empty(),
            final(self).spec_thread_blocks() == Seq::<ThreadBlock>::empty(),
            // Correspondence entries keep their starts and become inactive.
            final(self).spec_previous_thread_id_starts().len() == old(
                self,
            ).spec_previous_thread_id_starts().len(),
            forall|i: int|
                0 <= i < old(self).spec_previous_thread_id_starts().len()
                    ==> #[trigger] final(self).spec_previous_thread_id_starts()[i] == (
                old(self).spec_previous_thread_id_starts()[i].0,
                (old(self).spec_previous_thread_id_starts()[i].1.0, false),
            ),
            // Persistent data survives the reset.
            final(self).spec_vertex_data() == old(self).spec_vertex_data(),
            final(self).spec_vertex_ids() == old(self).spec_vertex_ids(),
            final(self).spec_indices() == old(self).spec_indices(),
            final(self).spec_meshlets() == old(self).spec_meshlets(),
            final(self).spec_bounding_spheres() == old(self).spec_bounding_spheres(),
            final(self).spec_meshlet_mesh_slices() == old(self).spec_meshlet_mesh_slices(),
            final(self).spec_uploads() == old(self).spec_uploads(),
    {
        let ghost starts0 = self.previous_thread_id_starts@;
        let mut deactivated: Vec<((u64, u64), (u32, bool))> = Vec::new();
        let mut i: usize = 0;
        while i < self.previous_thread_id_starts.len()
            invariant
                *self == *old(self),
                starts0 == self.previous_thread_id_starts@,
                0 <= i <= starts0.len(),
                deactivated@.len() == i,
                forall|k: int|
                    0 <= k < i ==> #[trigger] deactivated@[k] == (
                        starts0[k].0,
                        (starts0[k].1.0, false),
                    ),
            decreases starts0.len() - i,
        {
            let (key, (start, _)) = self.previous_thread_id_starts[i];
            deactivated.push((key, (start, false)));
            i = i + 1;
        }
        self.scene_meshlet_count = 0;
        self.scene_index_count = 0;
        self.next_material_id = 0;
        self.material_id_lookup = Vec::new();
        self.material_ids_present_in_scene = Vec::new();
        self.instances = Vec::new();
        self.instance_uniforms = Vec::new();
        self.instance_material_ids = Vec::new();
        self.thread_instance_ids = Vec::new();
        self.thread_meshlet_ids = Vec::new();
        self.previous_thread_ids = Vec::new();
        self.previous_thread_id_starts = deactivated;
        self.thread_blocks = Ghost(Seq::empty());
    }
}

/// The per-frame thread-count law: the total cluster-instance thread
/// count equals the sum of the per-instance cluster counts, and each flat
/// thread array holds exactly one entry per thread.
pub proof fn lemma_thread_count_is_sum(scene: MeshletGpuScene)
    requires
        scene.inv(),
    ensures
        scene.spec_scene_meshlet_count() == MeshletGpuScene::blocks_total(
            scene.spec_thread_blocks(),
        ),
        scene.spec_thread_blocks().len() == scene.spec_instances().len(),
        scene.spec_thread_instance_ids().len() == scene.spec_scene_meshlet_count(),
        scene.spec_thread_meshlet_ids().len() == scene.spec_scene_meshlet_count(),
        scene.spec_previous_thread_ids().len() == scene.spec_scene_meshlet_count(),
{
}

/// The thread-ordering law: instances submitted in a fixed order receive
/// thread-index ranges in that same relative order, with no gaps or
/// overlaps — each instance's block starts exactly where the previous
/// one ends — and each thread in a block is tagged with its instance's
/// index and its cluster's id.
pub proof fn lemma_thread_ranges_ordered(scene: MeshletGpuScene, i: int, j: int)
    requires
        scene.inv(),
        0 <= i < j < scene.spec_thread_blocks().len(),
    ensures
        scene.spec_thread_blocks()[i].start + scene.spec_thread_blocks()[i].count
            <= scene.spec_thread_blocks()[j].start,
        scene.spec_thread_blocks()[j].start + scene.spec_thread_blocks()[j].count
            <= scene.spec_scene_meshlet_count(),
        scene.spec_thread_blocks()[i].start >= 0,
{
    let blocks = scene.spec_thread_blocks();
    lemma_block_start_monotonic(blocks, i, j);
    MeshletGpuScene::lemma_block_start_nonneg(blocks, i);
    MeshletGpuScene::lemma_block_end_le_total(blocks, j);
}

/// Under tiling with non-negative counts, an earlier block ends at or
/// before a later block begins.
#[verifier::rlimit(50)]
#[verifier::spinoff_prover]
proof fn lemma_block_start_monotonic(blocks: Seq<ThreadBlock>, i: int, j: int)
    requires
        MeshletGpuScene::blocks_tile(blocks),
        forall|k: int| 0 <= k < blocks.len() ==> (#[trigger] blocks[k]).count >= 0,
        0 <= i < j < blocks.len(),
    ensures
        blocks[i].start + blocks[i].count <= blocks[j].start,
    decreases j - i,
{
    assert(blocks[i + 1].start == blocks[i].start + blocks[i].count);
    if i + 1 < j {
        lemma_block_start_monotonic(blocks, i + 1, j);
    }
}

/// The thread-tagging law: every thread of a block carries the block's
/// instance index and the consecutive cluster ids of its mesh's slice.
pub proof fn lemma_thread_block_contents(scene: MeshletGpuScene, i: int, k: int)
    requires
        scene.inv(),
        0 <= i < scene.spec_thread_blocks().len(),
        0 <= k < scene.spec_thread_blocks()[i].count,
    ensures
        scene.spec_thread_instance_ids()[scene.spec_thread_blocks()[i].start + k] == i,
        scene.spec_thread_meshlet_ids()[scene.spec_thread_blocks()[i].start + k]
            == scene.spec_thread_blocks()[i].cluster_start + k,
{
}

/// The temporal-correspondence law: deactivating every correspondence
/// entry — as the per-frame reset does — keeps each entry's recorded
/// thread start, so an instance-and-asset pair that was live in the
/// previous frame is assigned that frame's thread start as its
/// previous-frame thread id when it is queued again.
pub proof fn lemma_temporal_correspondence(
    before: Seq<((u64, u64), (u32, bool))>,
    after: Seq<((u64, u64), (u32, bool))>,
    instance: u64,
    asset_id: u64,
    start: u32,
    active: bool,
)
    requires
        after.len() == before.len(),
        forall|i: int|
            0 <= i < before.len() ==> #[trigger] after[i] == (before[i].0, (before[i].1.0, false)),
        find_start_spec(before, (instance, asset_id)) == Some((start, active)),
    ensures
        previous_start_for(after, instance, asset_id) == start,
    decreases before.len(),
{
    if before.len() > 0 {
        assert(after[0] == (before[0].0, (before[0].1.0, false)));
        if before.first().0 == (instance, asset_id) {
            assert(after.first() == ((instance, asset_id), (start, false)));
        } else {
            assert forall|i: int| 0 <= i < before.drop_first().len() implies #[trigger] after.drop_first()[i]
                == (before.drop_first()[i].0, (before.drop_first()[i].1.0, false)) by {
                assert(after[i + 1] == (before[i + 1].0, (before[i + 1].1.0, false)));
            }
            lemma_temporal_correspondence(
                before.drop_first(),
                after.drop_first(),
                instance,
                asset_id,
                start,
                active,
            );
        }
    }
}

/// The dense-material-id law: within one frame the registered dense ids
/// are exactly the consecutive integers from one up to the counter (zero
/// is the unassigned default), so ids handed out after a reset start
/// afresh at one and are never stable across frames.
pub proof fn lemma_material_ids_dense(scene: MeshletGpuScene)
    requires
        scene.inv(),
    ensures
        scene.spec_next_material_id() as int == scene.spec_material_id_lookup().len(),
        forall|i: int|
            0 <= i < scene.spec_material_id_lookup().len() ==> (
            #[trigger] scene.spec_material_id_lookup()[i]).1 == i + 1,
{
}

/// The containment law after upload: every uploaded mesh's clusters, with
/// their references rewritten by the upload's base offsets, lie within
/// the shared vertex id and index buffers.
pub proof fn lemma_uploaded_clusters_in_bounds(scene: MeshletGpuScene, r: int, c: int)
    requires
        scene.inv(),
        0 <= r < scene.spec_uploads().len(),
        0 <= c < scene.spec_uploads()[r].clusters.len(),
    ensures
        scene.spec_uploads()[r].clusters[c].start_vertex_id + scene.spec_uploads()[r].vid_start
            / 4 <= scene.spec_vertex_ids().spec_virtual_size() as int / 4,
        scene.spec_uploads()[r].clusters[c].start_index_id + 3 * scene.spec_uploads()[r].clusters[c].triangle_count
            + scene.spec_uploads()[r].idx_start <= scene.spec_indices().spec_virtual_size(),
{
    let rec = scene.spec_uploads()[r];
    assert(MeshletGpuScene::upload_ok(
        rec,
        scene.spec_vertex_ids().spec_virtual_size() as int,
        scene.spec_indices().spec_virtual_size() as int,
    ));
    assert(rec.clusters[c].start_vertex_id <= rec.ids_len);
    lemma_div_add_mul(rec.vid_start, 4 * rec.ids_len, 4);
    assert((4 * rec.ids_len) / 4 == rec.ids_len) by {
        vstd::arithmetic::div_mod::lemma_div_multiples_vanish(rec.ids_len, 4);
    }
    assert((rec.vid_start + 4 * rec.ids_len) / 4 <= scene.spec_vertex_ids().spec_virtual_size()
        as int / 4) by {
        vstd::arithmetic::div_mod::lemma_div_is_ordered(
            rec.vid_start + 4 * rec.ids_len,
            scene.spec_vertex_ids().spec_virtual_size() as int,
            4,
        );
    }
}

} // verus!
