//! The per-view pass schedule of the indirect-draw variant of the
//! visibility-buffer pipeline.
//!
//! This schedule drives the hardware rasterizer through indirect draws
//! whose arguments the culling passes wrote: each view culls and draws
//! twice around a depth pyramid rebuild, and a camera view then copies
//! the material ids into the material depth buffer for the shading
//! passes. Shadow views draw depth only and skip the copy. A view whose
//! pipelines are still compiling, or whose resources are missing, skips
//! its meshlet rendering for the frame.

use vstd::prelude::*;
use crate::visibility_buffer_raster_node::CULLING_WORKGROUP_SIZE;

verus! {

/// One step of a view's frame under the indirect-draw schedule.
#[derive(Clone, Copy, PartialEq, Eq, Structural, Debug)]
pub enum VisibilityBufferPassStep {
    /// First culling pass, against the previous frame's occlusion state.
    CullFirst { workgroups: u32 },
    /// Draw the first pass's survivors through the indirect arguments the
    /// cull wrote.
    DrawFirst,
    /// Rebuild the depth pyramid from the fresh depth.
    DownsampleDepth,
    /// Second culling pass, against the fresh depth pyramid.
    CullSecond { workgroups: u32 },
    /// Draw the newly exposed clusters.
    DrawSecond,
    /// Copy the per-pixel material ids into the material depth buffer.
    CopyMaterialDepth,
}

/// The pass sequence of one view under the indirect-draw schedule: cull
/// and draw twice around a depth pyramid rebuild; a camera view then
/// copies the material depth, a shadow view (drawing depth only) does
/// not.
pub open spec fn expected_visibility_buffer_sequence(
    scene_meshlet_count: u32,
    is_shadow_view: bool,
) -> Seq<VisibilityBufferPassStep> {
    let w = (((scene_meshlet_count + CULLING_WORKGROUP_SIZE - 1) as int / (
    CULLING_WORKGROUP_SIZE as int)) as u32);
    seq![
        VisibilityBufferPassStep::CullFirst { workgroups: w },
        VisibilityBufferPassStep::DrawFirst,
        VisibilityBufferPassStep::DownsampleDepth,
        VisibilityBufferPassStep::CullSecond { workgroups: w },
        VisibilityBufferPassStep::DrawSecond,
    ] + (if is_shadow_view {
        Seq::<VisibilityBufferPassStep>::empty()
    } else {
        seq![VisibilityBufferPassStep::CopyMaterialDepth]
    })
}

/// Plans one view's passes under the indirect-draw schedule: the exact
/// sequence when the pipelines are compiled and the view's resources
/// exist, and nothing — the view silently skips the frame — otherwise.
pub fn plan_visibility_buffer_passes(
    pipelines_ready: bool,
    resources_present: bool,
    scene_meshlet_count: u32,
    is_shadow_view: bool,
) -> (steps: Vec<VisibilityBufferPassStep>)
    ensures
        !(pipelines_ready && resources_present) ==> steps@ == Seq::<
            VisibilityBufferPassStep,
        >::empty(),
        pipelines_ready && resources_present ==> steps@ == expected_visibility_buffer_sequence(
            scene_meshlet_count,
            is_shadow_view,
        ),
{
    let mut steps: Vec<VisibilityBufferPassStep> = Vec::new();
    if !pipelines_ready || !resources_present {
        proof {
            assert(steps@ =~= Seq::<VisibilityBufferPassStep>::empty());
        }
        return steps;
    }
    let w = crate::visibility_buffer_raster_node::culling_workgroups(scene_meshlet_count);
    steps.push(VisibilityBufferPassStep::CullFirst { workgroups: w });
    steps.push(VisibilityBufferPassStep::DrawFirst);
    steps.push(VisibilityBufferPassStep::DownsampleDepth);
    steps.push(VisibilityBufferPassStep::CullSecond { workgroups: w });
    steps.push(VisibilityBufferPassStep::DrawSecond);
    if !is_shadow_view {
        steps.push(VisibilityBufferPassStep::CopyMaterialDepth);
    }
    proof {
        assert(steps@ =~= expected_visibility_buffer_sequence(
            scene_meshlet_count,
            is_shadow_view,
        ));
    }
    steps
}

} // verus!
