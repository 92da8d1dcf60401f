//! The fixed set of compute and render pipelines the meshlet renderer
//! uses, and the all-or-nothing readiness check that gates a frame.
//!
//! Pipelines compile asynchronously; a frame's meshlet work runs only
//! once every pipeline of the set is ready, and silently skips otherwise.

use vstd::prelude::*;

verus! {

/// A model of the asynchronous pipeline compiler: which queued pipeline
/// ids have finished compiling.
pub struct PipelineCache {
    ready: Vec<u32>,
}

impl PipelineCache {
    /// The ids of the pipelines that finished compiling.
    pub closed spec fn spec_ready(self) -> Seq<u32> {
        self.ready@
    }

    /// A cache with the given finished pipeline ids.
    pub fn new(ready: Vec<u32>) -> (c: PipelineCache)
        ensures
            c.spec_ready() == ready@,
    {
        PipelineCache { ready }
    }

    /// Whether the pipeline with the given id finished compiling.
    pub fn is_ready(&self, id: u32) -> (r: bool)
        ensures
            r == self.spec_ready().contains(id),
    {
        let mut i: usize = 0;
        while i < self.ready.len()
            invariant
                0 <= i <= self.spec_ready().len(),
                forall|k: int| 0 <= k < i ==> #[trigger] self.spec_ready()[k] != id,
            decreases self.spec_ready().len() - i,
        {
            if self.ready[i] == id {
                proof {
                    assert(self.spec_ready()[i as int] == id);
                }
                return true;
            }
            i = i + 1;
        }
        proof {
            if self.spec_ready().contains(id) {
                let k = choose|k: int|
                    0 <= k < self.spec_ready().len() && self.spec_ready()[k] == id;
                assert(self.spec_ready()[k] != id);
            }
        }
        false
    }
}

/// The ready pipelines of the meshlet renderer, one handle per pass kind.
#[derive(Clone, Copy, PartialEq, Eq, Structural, Debug)]
pub struct MeshletPipelineHandles {
    pub fill_cluster_buffers: u32,
    pub cull_first: u32,
    pub cull_second: u32,
    pub downsample_depth_first: u32,
    pub downsample_depth_second: u32,
    pub visibility_buffer_hardware_raster: u32,
    pub visibility_buffer_hardware_raster_depth_only: u32,
    pub visibility_buffer_hardware_raster_depth_only_clamp_ortho: u32,
    pub resolve_material_depth: u32,
}

/// The queued pipeline ids of the meshlet renderer.
pub struct MeshletPipelines {
    handles: MeshletPipelineHandles,
}

impl MeshletPipelines {
    /// The queued pipeline ids.
    pub closed spec fn spec_handles(self) -> MeshletPipelineHandles {
        self.handles
    }

    /// Whether every pipeline of the set finished compiling.
    pub open spec fn spec_all_ready(self, cache: PipelineCache) -> bool {
        &&& cache.spec_ready().contains(self.spec_handles().fill_cluster_buffers)
        &&& cache.spec_ready().contains(self.spec_handles().cull_first)
        &&& cache.spec_ready().contains(self.spec_handles().cull_second)
        &&& cache.spec_ready().contains(self.spec_handles().downsample_depth_first)
        &&& cache.spec_ready().contains(self.spec_handles().downsample_depth_second)
        &&& cache.spec_ready().contains(self.spec_handles().visibility_buffer_hardware_raster)
        &&& cache.spec_ready().contains(
            self.spec_handles().visibility_buffer_hardware_raster_depth_only,
        )
        &&& cache.spec_ready().contains(
            self.spec_handles().visibility_buffer_hardware_raster_depth_only_clamp_ortho,
        )
        &&& cache.spec_ready().contains(self.spec_handles().resolve_material_depth)
    }

    /// Records the queued pipeline ids.
    pub fn new(handles: MeshletPipelineHandles) -> (p: MeshletPipelines)
        ensures
            p.spec_handles() == handles,
    {
        MeshletPipelines { handles }
    }

    /// The full pipeline set, or nothing while any of it is still
    /// compiling.
    pub fn get(&self, cache: &PipelineCache) -> (r: Option<MeshletPipelineHandles>)
        ensures
            r == (if self.spec_all_ready(*cache) {
                Some(self.spec_handles())
            } else {
                None::<MeshletPipelineHandles>
            }),
    {
        if cache.is_ready(self.handles.fill_cluster_buffers) && cache.is_ready(
            self.handles.cull_first,
        ) && cache.is_ready(self.handles.cull_second) && cache.is_ready(
            self.handles.downsample_depth_first,
        ) && cache.is_ready(self.handles.downsample_depth_second) && cache.is_ready(
            self.handles.visibility_buffer_hardware_raster,
        ) && cache.is_ready(self.handles.visibility_buffer_hardware_raster_depth_only)
            && cache.is_ready(
            self.handles.visibility_buffer_hardware_raster_depth_only_clamp_ortho,
        ) && cache.is_ready(self.handles.resolve_material_depth) {
            Some(self.handles)
        } else {
            None
        }
    }
}

} // verus!
