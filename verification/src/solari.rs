//! Ray-traced global illumination types, as far as the meshlet renderer
//! relates to them: the scene bind group layout and the screen-probe
//! filtering pipeline, by identity.

use vstd::prelude::*;

verus! {

/// The layout of the ray-traced scene's bind group, by identity.
#[derive(Clone, Copy, PartialEq, Eq, Structural, Debug)]
pub struct SolariSceneBindGroupLayout(pub u64);

/// The screen-probe filtering pipeline's layouts, by identity.
#[derive(Clone, Copy, PartialEq, Eq, Structural, Debug)]
pub struct SolariFilterScreenProbesPipeline {
    pub scene_bind_group_layout: u64,
    pub bind_group_layout: u64,
}

/// The screen-probe filtering pipeline has no specialization axes.
#[derive(Clone, Copy, PartialEq, Eq, Structural, Debug)]
pub struct SolariFilterScreenProbesPipelineKey;

/// A view's specialized screen-probe filtering pipeline, by identity.
#[derive(Clone, Copy, PartialEq, Eq, Structural, Debug)]
pub struct SolariFilterScreenProbesPipelineId(pub u32);

/// The world-cache compute resources, by identity and size.
pub struct SolariWorldCacheResources {
    pub bind_group_layout: u64,
    pub bind_group_layout_no_dispatch: u64,
    pub bind_group: u64,
    pub bind_group_no_dispatch: u64,
    pub active_cells_dispatch_buffer_size: u64,
}

} // verus!
