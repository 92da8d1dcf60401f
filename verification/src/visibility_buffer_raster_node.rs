//! The per-view pass schedule of the two-phase cull-and-rasterize
//! pipeline.
//!
//! Clusters visible by the previous frame's occlusion state are drawn in
//! the first pass and feed this frame's depth pyramid; clusters whose
//! visibility was unknown or occluded are re-tested against the fresher
//! pyramid in a second pass, catching newly exposed geometry without
//! paying full-scene cost twice. Missing view resources or still-compiling
//! pipelines skip the view's meshlet rendering for the frame.

use vstd::prelude::*;

verus! {

/// One step of a view's meshlet frame, in execution order.
#[derive(Clone, Copy, PartialEq, Eq, Structural, Debug)]
pub enum MeshletPassStep {
    /// Fill the per-thread cluster and instance id buffers.
    FillClusterBuffers { workgroups: u32 },
    /// First culling pass, against the previous frame's occlusion state.
    CullFirst { workgroups: u32 },
    /// Rasterize the first pass's surviving clusters.
    RasterFirst,
    /// Rebuild the depth pyramid from the fresh depth.
    DownsampleDepth,
    /// Second culling pass, against the fresh depth pyramid.
    CullSecond { workgroups: u32 },
    /// Rasterize the newly exposed clusters.
    RasterSecond,
    /// Resolve the visibility buffer into a real depth buffer.
    ResolveDepth,
    /// Resolve per-pixel material ids into the material depth buffer.
    ResolveMaterialDepth,
    /// Final depth pyramid rebuild for the next frame's first pass.
    DownsampleDepthFinal,
}

/// One compute workgroup covers 128 cluster-instance threads.
pub const CULLING_WORKGROUP_SIZE: u32 = 128;

/// Workgroups needed to cover every cluster-instance thread.
pub fn culling_workgroups(scene_meshlet_count: u32) -> (w: u32)
    ensures
        w == (scene_meshlet_count + CULLING_WORKGROUP_SIZE - 1) as int / (
        CULLING_WORKGROUP_SIZE as int),
{
    let q = scene_meshlet_count / CULLING_WORKGROUP_SIZE;
    let r = scene_meshlet_count % CULLING_WORKGROUP_SIZE;
    proof {
        let c = scene_meshlet_count as int;
        let d = CULLING_WORKGROUP_SIZE as int;
        vstd::arithmetic::div_mod::lemma_fundamental_div_mod(c, d);
        vstd::arithmetic::div_mod::lemma_mod_bound(c, d);
        vstd::arithmetic::div_mod::lemma_hoist_over_denominator(
            (c % d) + d - 1,
            c / d,
            d as nat,
        );
        if c % d == 0 {
            vstd::arithmetic::div_mod::lemma_basic_div(d - 1, d);
        } else {
            vstd::arithmetic::div_mod::lemma_fundamental_div_mod((c % d) + d - 1, d);
            vstd::arithmetic::div_mod::lemma_mod_bound((c % d) + d - 1, d);
            assert(((c % d) + d - 1) / d == 1) by {
                vstd::arithmetic::div_mod::lemma_div_basics_4((c % d) + d - 1, d);
                vstd::arithmetic::div_mod::lemma_div_is_strictly_smaller((c % d) + d - 1, d);
                vstd::arithmetic::div_mod::lemma_small_div_converse((c % d) - 1, d);
                vstd::arithmetic::div_mod::lemma_div_plus_one((c % d) - 1, d);
            }
        }
    }
    if r == 0 {
        q
    } else {
        q + 1
    }
}

/// The pass sequence of one view's meshlet frame: the cluster buffers are
/// filled once per frame by its first view, every view culls and
/// rasterizes in two phases around a depth pyramid rebuild, resolves
/// depth, resolves material ids unless it is a shadow view, and leaves a
/// fresh depth pyramid for the next frame.
pub open spec fn expected_pass_sequence(
    scene_meshlet_count: u32,
    first_node: bool,
    is_shadow_view: bool,
) -> Seq<MeshletPassStep> {
    let w = (((scene_meshlet_count + CULLING_WORKGROUP_SIZE - 1) as int / (
    CULLING_WORKGROUP_SIZE as int)) as u32);
    (if first_node {
        seq![MeshletPassStep::FillClusterBuffers { workgroups: w }]
    } else {
        Seq::<MeshletPassStep>::empty()
    }) + seq![
        MeshletPassStep::CullFirst { workgroups: w },
        MeshletPassStep::RasterFirst,
        MeshletPassStep::DownsampleDepth,
        MeshletPassStep::CullSecond { workgroups: w },
        MeshletPassStep::RasterSecond,
        MeshletPassStep::ResolveDepth,
    ] + (if is_shadow_view {
        Seq::<MeshletPassStep>::empty()
    } else {
        seq![MeshletPassStep::ResolveMaterialDepth]
    }) + seq![MeshletPassStep::DownsampleDepthFinal]
}

/// Plans one view's meshlet passes: the exact two-phase sequence when the
/// pipelines are compiled and the view's resources exist, and nothing —
/// the view silently skips its meshlet rendering this frame — otherwise.
pub fn plan_view_passes(
    pipelines_ready: bool,
    resources_present: bool,
    scene_meshlet_count: u32,
    first_node: bool,
    is_shadow_view: bool,
) -> (steps: Vec<MeshletPassStep>)
    ensures
        !(pipelines_ready && resources_present) ==> steps@ == Seq::<MeshletPassStep>::empty(),
        pipelines_ready && resources_present ==> steps@ == expected_pass_sequence(
            scene_meshlet_count,
            first_node,
            is_shadow_view,
        ),
{
    let mut steps: Vec<MeshletPassStep> = Vec::new();
    if !pipelines_ready || !resources_present {
        proof {
            assert(steps@ =~= Seq::<MeshletPassStep>::empty());
        }
        return steps;
    }
    let w = culling_workgroups(scene_meshlet_count);
    if first_node {
        steps.push(MeshletPassStep::FillClusterBuffers { workgroups: w });
    }
    steps.push(MeshletPassStep::CullFirst { workgroups: w });
    steps.push(MeshletPassStep::RasterFirst);
    steps.push(MeshletPassStep::DownsampleDepth);
    steps.push(MeshletPassStep::CullSecond { workgroups: w });
    steps.push(MeshletPassStep::RasterSecond);
    steps.push(MeshletPassStep::ResolveDepth);
    if !is_shadow_view {
        steps.push(MeshletPassStep::ResolveMaterialDepth);
    }
    steps.push(MeshletPassStep::DownsampleDepthFinal);
    proof {
        assert(steps@ =~= expected_pass_sequence(
            scene_meshlet_count,
            first_node,
            is_shadow_view,
        ));
    }
    steps
}

/// The cluster selection rule of the culling passes: a cluster is drawn
/// exactly when its own error is within the threshold while its parent's
/// error is not, so each instance renders exactly one cut through the
/// level-of-detail hierarchy.
pub fn cluster_lod_selected(self_error: u32, parent_error: u32, threshold: u32) -> (drawn:
    bool)
    ensures
        drawn == (self_error <= threshold && parent_error > threshold),
{
    self_error <= threshold && parent_error > threshold
}

/// The selection rule picks at most one of a child-and-parent pair whose
/// errors respect the hierarchy: the cut through the hierarchy is
/// unambiguous.
pub proof fn lemma_lod_cut_unambiguous(
    child_self: u32,
    child_parent: u32,
    parent_self: u32,
    threshold: u32,
)
    requires
        // The parent cluster's own error is the child's parent error.
        parent_self == child_parent,
        child_self <= child_parent,
    ensures
        !((child_self <= threshold && child_parent > threshold) && parent_self <= threshold),
{
}

} // verus!
