//! Per-view resources of the meshlet renderer and the sizing rules that
//! create them.
//!
//! Each view owns a depth pyramid whose base is the view size rounded
//! down to a power of two (so its depth stays conservative), a pair of
//! occlusion bitsets swapped every frame for temporal reuse, and the
//! visibility and material-depth targets of non-shadow views. Resources
//! are recreated whenever the view's resolution changes.

use vstd::prelude::*;
use vstd::arithmetic::power2::pow2;

verus! {

/// The per-view resources of one frame, by size and identity; the
/// underlying textures and buffers are device objects created to exactly
/// these dimensions.
#[derive(Clone, Copy, PartialEq, Eq, Structural, Debug)]
pub struct MeshletViewResources {
    pub scene_meshlet_count: u32,
    pub occlusion_buffer_size: u64,
    pub visibility_buffer_present: bool,
    pub depth_pyramid_width: u32,
    pub depth_pyramid_height: u32,
    pub depth_pyramid_mip_count: u32,
    pub material_depth_present: bool,
    pub view_width: u32,
    pub view_height: u32,
}

/// The per-view bind groups, by identity: one for each pass that reads
/// the scene's buffers, and one downsample bind group per pyramid mip.
pub struct MeshletViewBindGroups {
    pub culling: u64,
    pub write_index_buffer_first: u64,
    pub write_index_buffer_second: u64,
    pub downsample_depth: Vec<u64>,
    pub visibility_buffer_raster: u64,
    pub copy_material_depth: Option<u64>,
    pub material_draw: Option<u64>,
}

/// Bytes of one view's occlusion bitset: one bit per cluster-instance
/// thread, rounded up to whole four-byte words.
pub fn occlusion_buffer_size(scene_meshlet_count: u32) -> (n: u64)
    ensures
        n == ((scene_meshlet_count + 31) as int / 32) * 4,
{
    let words = (scene_meshlet_count as u64 + 31) / 32;
    words * 4
}

/// Bytes of the index buffer the rasterizer writes: four per triangle
/// index in the scene.
pub fn visibility_buffer_index_buffer_size(scene_index_count: u64) -> (n: u64)
    requires
        4 * scene_index_count <= u64::MAX,
    ensures
        n == 4 * scene_index_count,
{
    4 * scene_index_count
}

/// The largest power of two not above `v`: the conservative base extent
/// of the depth pyramid.
pub fn previous_power_of_two(v: u32) -> (p: u32)
    requires
        v >= 1,
    ensures
        p <= v < 2 * p,
        exists|k: nat| p == pow2(k),
{
    let mut p: u32 = 1;
    proof {
        vstd::arithmetic::power2::lemma_pow2_unfold(1);
        assert(p == pow2(0)) by {
            vstd::arithmetic::power2::lemma2_to64();
        }
    }
    let ghost mut k: nat = 0nat;
    while p <= v / 2
        invariant
            v >= 1,
            1 <= p <= v,
            p == pow2(k),
        decreases v - p,
    {
        proof {
            vstd::arithmetic::power2::lemma_pow2_unfold((k + 1) as nat);
            k = (k + 1) as nat;
        }
        p = p * 2;
    }
    proof {
        assert(p == pow2(k));
    }
    p
}

/// Mip levels of a pyramid whose base is `extent`: one per halving down
/// to a single texel.
pub fn mip_count_for(extent: u32) -> (m: u32)
    requires
        extent >= 1,
        exists|k: nat| extent == pow2(k),
    ensures
        m >= 1,
        extent == pow2((m - 1) as nat),
{
    let ghost k0 = choose|k: nat| extent == pow2(k);
    proof {
        if k0 > 31 {
            vstd::arithmetic::power2::lemma2_to64();
            if k0 > 32 {
                vstd::arithmetic::power2::lemma_pow2_strictly_increases(32, k0);
            }
            assert(pow2(k0) >= 0x100000000);
        }
    }
    let mut m: u32 = 1;
    let mut s: u32 = extent;
    let ghost mut k: nat = k0;
    while s > 1
        invariant
            s >= 1,
            m >= 1,
            s == pow2(k),
            k0 <= 31,
            k + m == k0 + 1,
            extent == pow2(k0),
        decreases s,
    {
        proof {
            if k == 0 {
                vstd::arithmetic::power2::lemma2_to64();
                assert(s == 1);
            }
            vstd::arithmetic::power2::lemma_pow2_unfold(k);
            k = (k - 1) as nat;
        }
        s = s / 2;
        m = m + 1;
    }
    proof {
        if k > 0 {
            vstd::arithmetic::power2::lemma_pow2_strictly_increases(0, k);
            vstd::arithmetic::power2::lemma2_to64();
        }
        assert(k == 0);
        assert(extent == pow2((m - 1) as nat));
    }
    m
}

/// Prepares one view's resources: the occlusion bitset sized to this
/// frame's thread count, a depth pyramid rounded down to powers of two
/// with a full mip chain, and — for non-shadow views — the visibility
/// and material-depth targets.
pub fn prepare_view_resources(
    scene_meshlet_count: u32,
    view_width: u32,
    view_height: u32,
    is_shadow_view: bool,
) -> (r: MeshletViewResources)
    requires
        view_width >= 1,
        view_height >= 1,
    ensures
        r.scene_meshlet_count == scene_meshlet_count,
        r.occlusion_buffer_size == ((scene_meshlet_count + 31) as int / 32) * 4,
        r.visibility_buffer_present == !is_shadow_view,
        r.material_depth_present == !is_shadow_view,
        r.view_width == view_width,
        r.view_height == view_height,
        // Conservative power-of-two pyramid base.
        r.depth_pyramid_width <= view_width < 2 * r.depth_pyramid_width,
        r.depth_pyramid_height <= view_height < 2 * r.depth_pyramid_height,
        (exists|k: nat| r.depth_pyramid_width == pow2(k)),
        (exists|k: nat| r.depth_pyramid_height == pow2(k)),
        // A full mip chain over the larger extent.
        r.depth_pyramid_mip_count >= 1,
        (if r.depth_pyramid_width > r.depth_pyramid_height {
            r.depth_pyramid_width
        } else {
            r.depth_pyramid_height
        }) == pow2((r.depth_pyramid_mip_count - 1) as nat),
{
    let depth_pyramid_width = previous_power_of_two(view_width);
    let depth_pyramid_height = previous_power_of_two(view_height);
    let larger = if depth_pyramid_width > depth_pyramid_height {
        depth_pyramid_width
    } else {
        depth_pyramid_height
    };
    let depth_pyramid_mip_count = mip_count_for(larger);
    MeshletViewResources {
        scene_meshlet_count,
        occlusion_buffer_size: occlusion_buffer_size(scene_meshlet_count),
        visibility_buffer_present: !is_shadow_view,
        depth_pyramid_width,
        depth_pyramid_height,
        depth_pyramid_mip_count,
        material_depth_present: !is_shadow_view,
        view_width,
        view_height,
    }
}

/// Whether the frame's per-view preparation runs at all: a frame with no
/// cluster-instance threads is skipped outright.
pub fn per_frame_preparation_runs(scene_meshlet_count: u32) -> (r: bool)
    ensures
        r == (scene_meshlet_count != 0),
{
    scene_meshlet_count != 0
}

/// The size of the shared draw index buffer for this frame: the existing
/// buffer is kept while it is large enough, and recreated at the needed
/// size once the scene outgrows it.
pub fn advance_draw_index_buffer(existing_size: Option<u64>, needed_size: u64) -> (r: u64)
    ensures
        r == match existing_size {
            Some(s) => if s >= needed_size {
                s
            } else {
                needed_size
            },
            None => needed_size,
        },
{
    match existing_size {
        Some(s) => {
            if s >= needed_size {
                s
            } else {
                needed_size
            }
        },
        None => needed_size,
    }
}

/// What a depth pyramid mip's downsample pass samples from.
#[derive(Clone, Copy, PartialEq, Eq, Structural, Debug)]
pub enum DownsampleSource {
    /// The view's own depth buffer, feeding the first mip.
    ViewDepth,
    /// An earlier pyramid mip, feeding the next one.
    PyramidMip(u32),
}

/// Plans the downsample bind groups of a view: one per pyramid mip, the
/// first sampling the view's depth buffer and each later one the mip
/// just above it.
pub fn plan_downsample_bind_groups(mip_count: u32) -> (plan: Vec<DownsampleSource>)
    ensures
        plan@.len() == mip_count,
        mip_count > 0 ==> plan@[0] == DownsampleSource::ViewDepth,
        forall|i: int|
            1 <= i < plan@.len() ==> #[trigger] plan@[i] == (DownsampleSource::PyramidMip(
                (i - 1) as u32,
            )),
{
    let mut plan: Vec<DownsampleSource> = Vec::new();
    let mut i: u32 = 0;
    while i < mip_count
        invariant
            0 <= i <= mip_count,
            plan@.len() == i,
            i > 0 ==> plan@[0] == DownsampleSource::ViewDepth,
            forall|k: int|
                1 <= k < plan@.len() ==> #[trigger] plan@[k] == (DownsampleSource::PyramidMip(
                    (k - 1) as u32,
                )),
        decreases mip_count - i,
    {
        if i == 0 {
            plan.push(DownsampleSource::ViewDepth);
        } else {
            plan.push(DownsampleSource::PyramidMip(i - 1));
        }
        i = i + 1;
    }
    plan
}

/// Advances a view's occlusion bitset pair for a new frame: the previous
/// frame's current bitset becomes the previous one, and the slot it
/// leaves is reused if large enough, else recreated at the needed size.
/// The result pairs this frame's current bitset size with the previous
/// frame's, in that order.
pub fn advance_occlusion_buffers(existing: Option<(u64, u64)>, needed_size: u64) -> (r: (
    u64,
    u64,
))
    ensures
        r == match existing {
            Some((previous, current)) => if current >= needed_size {
                (current, previous)
            } else {
                (needed_size, previous)
            },
            None => (needed_size, needed_size),
        },
{
    match existing {
        Some((previous, current)) => {
            if current >= needed_size {
                (current, previous)
            } else {
                (needed_size, previous)
            }
        },
        None => (needed_size, needed_size),
    }
}

} // verus!
