//! Pass planning, pipeline readiness, per-view sizing, uniform batching
//! and the smaller rendering types.

use meshlet::batched_uniform_buffer::{batch_size, BatchedUniformBuffer, GpuBufferIndex};
use meshlet::bind_group_layout_entries::{BindGroupLayoutEntries, BindGroupLayoutEntryExt};
use meshlet::blas::{map_buffer_info, BlasStorage, GpuBufferInfo, IndexFormat};
use meshlet::from_mesh::PrimitiveTopology;
use meshlet::fsr2::{max_monitor_size, Fsr2Plugin};
use meshlet::material_draw_prepare::{
    material_eligible, mesh_view_key, DebandDither, Projection, ShadowFilteringMethod,
    Tonemapping, VIEW_KEY_DEBAND_DITHER, VIEW_KEY_DEPTH_PREPASS, VIEW_KEY_HDR,
    VIEW_KEY_PROJECTION_PERSPECTIVE, VIEW_KEY_SHADOW_FILTER_FIELD, VIEW_KEY_TEMPORAL_JITTER,
    VIEW_KEY_TONEMAP_IN_SHADER, VIEW_KEY_TONEMAP_METHOD_FIELD,
    VIEW_KEY_TOPOLOGY_TRIANGLE_LIST,
};
use meshlet::pipelines::{MeshletPipelineHandles, MeshletPipelines, PipelineCache};
use meshlet::round_up;
use meshlet::taa::{TemporalAntialiasBundle, TemporalAntialiasSettings};
use meshlet::view_resources::{
    advance_draw_index_buffer, advance_occlusion_buffers, occlusion_buffer_size,
    per_frame_preparation_runs, plan_downsample_bind_groups, prepare_view_resources,
    previous_power_of_two, visibility_buffer_index_buffer_size, DownsampleSource,
};
use meshlet::visibility_buffer_node::{plan_visibility_buffer_passes, VisibilityBufferPassStep};
use meshlet::visibility_buffer_raster_node::{
    cluster_lod_selected, culling_workgroups, plan_view_passes, MeshletPassStep,
};

#[test]
fn round_up_values() {
    assert_eq!(round_up(0, 256), 0);
    assert_eq!(round_up(1, 256), 256);
    assert_eq!(round_up(256, 256), 256);
    assert_eq!(round_up(257, 256), 512);
}

#[test]
fn batch_size_caps_binding_size() {
    assert_eq!(batch_size(65536, 16), 4096);
    // A device reporting a huge limit is capped at one megabyte.
    assert_eq!(batch_size(u32::MAX, 16), (1 << 20) / 16);
}

#[test]
fn batched_buffer_push_and_flush() {
    // Binding limit 64, alignment 32, stride 16: four elements per chunk.
    let mut buffer: BatchedUniformBuffer<u64> = BatchedUniformBuffer::new(64, 32, 16);
    assert_eq!(buffer.size(), 64);
    let first = buffer.push(100);
    assert_eq!(first, GpuBufferIndex { instance_index: 0, dynamic_offset: Some(0) });
    buffer.push(101);
    buffer.push(102);
    // The fourth push fills the chunk, flushing it; the offset advances
    // by the chunk's aligned size.
    let fourth = buffer.push(103);
    assert_eq!(fourth, GpuBufferIndex { instance_index: 3, dynamic_offset: Some(0) });
    let fifth = buffer.push(104);
    assert_eq!(fifth, GpuBufferIndex { instance_index: 0, dynamic_offset: Some(64) });
    buffer.flush();
    let after_flush = buffer.push(105);
    assert_eq!(after_flush, GpuBufferIndex { instance_index: 0, dynamic_offset: Some(128) });
    buffer.clear();
    let after_clear = buffer.push(106);
    assert_eq!(after_clear, GpuBufferIndex { instance_index: 0, dynamic_offset: Some(0) });
}

#[test]
fn bind_group_entries_sequential_assigns_bindings() {
    let entries = vec![
        BindGroupLayoutEntryExt { ty: 10, visibility: None, count: None },
        BindGroupLayoutEntryExt { ty: 11, visibility: Some(4), count: Some(2) },
    ];
    let layout = BindGroupLayoutEntries::sequential(1, &entries);
    assert_eq!(layout.entries.len(), 2);
    assert_eq!(layout.entries[0].binding, 0);
    assert_eq!(layout.entries[0].visibility, 1);
    assert_eq!(layout.entries[1].binding, 1);
    assert_eq!(layout.entries[1].visibility, 4);
    assert_eq!(layout.entries[1].count, Some(2));
}

#[test]
fn bind_group_entries_with_indices_keeps_bindings() {
    let entries = vec![
        (5, BindGroupLayoutEntryExt { ty: 10, visibility: None, count: None }),
        (9, BindGroupLayoutEntryExt { ty: 11, visibility: Some(2), count: None }),
    ];
    let layout = BindGroupLayoutEntries::with_indices(8, &entries);
    assert_eq!(layout.entries[0].binding, 5);
    assert_eq!(layout.entries[0].visibility, 8);
    assert_eq!(layout.entries[1].binding, 9);
    assert_eq!(layout.entries[1].visibility, 2);
}

#[test]
fn buffer_info_mapping() {
    let indexed = GpuBufferInfo::Indexed { buffer: 77, count: 36, index_format: IndexFormat::Uint32 };
    assert_eq!(
        map_buffer_info(&indexed),
        (Some(77), Some(36), Some(IndexFormat::Uint32), Some(0))
    );
    assert_eq!(map_buffer_info(&GpuBufferInfo::NonIndexed), (None, None, None, None));
}

#[test]
fn blas_storage_tracks_builds() {
    let mut storage = BlasStorage::new();
    assert!(storage.needs_build(5, PrimitiveTopology::TriangleList));
    assert!(!storage.needs_build(5, PrimitiveTopology::LineList));
    storage.insert(5, 900);
    assert!(!storage.needs_build(5, PrimitiveTopology::TriangleList));
    assert_eq!(storage.get(5), Some(900));
    assert_eq!(storage.get(6), None);
}

#[test]
fn occlusion_and_index_buffer_sizing() {
    assert_eq!(occlusion_buffer_size(0), 0);
    assert_eq!(occlusion_buffer_size(1), 4);
    assert_eq!(occlusion_buffer_size(32), 4);
    assert_eq!(occlusion_buffer_size(33), 8);
    assert_eq!(visibility_buffer_index_buffer_size(9), 36);
}

#[test]
fn depth_pyramid_sizing_is_conservative() {
    assert_eq!(previous_power_of_two(1), 1);
    assert_eq!(previous_power_of_two(1920), 1024);
    assert_eq!(previous_power_of_two(1024), 1024);
    let r = prepare_view_resources(100, 1920, 1080, false);
    assert_eq!(r.depth_pyramid_width, 1024);
    assert_eq!(r.depth_pyramid_height, 1024);
    assert_eq!(r.depth_pyramid_mip_count, 11);
    assert!(r.visibility_buffer_present);
    assert!(r.material_depth_present);
    let shadow = prepare_view_resources(100, 512, 256, true);
    assert_eq!(shadow.depth_pyramid_mip_count, 10);
    assert!(!shadow.visibility_buffer_present);
    assert!(!shadow.material_depth_present);
}

#[test]
fn occlusion_buffers_swap_each_frame() {
    // First frame: both bitsets created at the needed size.
    assert_eq!(advance_occlusion_buffers(None, 8), (8, 8));
    // Steady state: the pair swaps.
    assert_eq!(advance_occlusion_buffers(Some((8, 8)), 8), (8, 8));
    // The scene grew: the reused slot is too small and is recreated.
    assert_eq!(advance_occlusion_buffers(Some((8, 8)), 12), (12, 8));
}

#[test]
fn culling_workgroup_counts() {
    assert_eq!(culling_workgroups(0), 0);
    assert_eq!(culling_workgroups(1), 1);
    assert_eq!(culling_workgroups(128), 1);
    assert_eq!(culling_workgroups(129), 2);
}

#[test]
fn pass_plan_runs_two_phases() {
    let steps = plan_view_passes(true, true, 256, true, false);
    assert_eq!(
        steps,
        vec![
            MeshletPassStep::FillClusterBuffers { workgroups: 2 },
            MeshletPassStep::CullFirst { workgroups: 2 },
            MeshletPassStep::RasterFirst,
            MeshletPassStep::DownsampleDepth,
            MeshletPassStep::CullSecond { workgroups: 2 },
            MeshletPassStep::RasterSecond,
            MeshletPassStep::ResolveDepth,
            MeshletPassStep::ResolveMaterialDepth,
            MeshletPassStep::DownsampleDepthFinal,
        ]
    );
}

#[test]
fn pass_plan_skips_material_depth_for_shadow_views() {
    let steps = plan_view_passes(true, true, 1, false, true);
    assert!(!steps.contains(&MeshletPassStep::ResolveMaterialDepth));
    assert!(!steps.iter().any(|s| matches!(s, MeshletPassStep::FillClusterBuffers { .. })));
}

#[test]
fn pass_plan_skips_views_until_pipelines_compile() {
    assert!(plan_view_passes(false, true, 256, true, false).is_empty());
    assert!(plan_view_passes(true, false, 256, true, false).is_empty());
}

#[test]
fn lod_selection_picks_one_cut() {
    // Child drawn: own error fine, parent too coarse.
    assert!(cluster_lod_selected(1, 10, 5));
    // Parent drawn instead once the threshold passes its error.
    assert!(!cluster_lod_selected(1, 10, 10));
    assert!(cluster_lod_selected(10, u32::MAX, 10));
}

#[test]
fn pipeline_set_is_all_or_nothing() {
    let handles = MeshletPipelineHandles {
        fill_cluster_buffers: 1,
        cull_first: 2,
        cull_second: 3,
        downsample_depth_first: 4,
        downsample_depth_second: 5,
        visibility_buffer_hardware_raster: 6,
        visibility_buffer_hardware_raster_depth_only: 7,
        visibility_buffer_hardware_raster_depth_only_clamp_ortho: 8,
        resolve_material_depth: 9,
    };
    let pipelines = MeshletPipelines::new(handles);
    let all = PipelineCache::new(vec![1, 2, 3, 4, 5, 6, 7, 8, 9]);
    assert_eq!(pipelines.get(&all), Some(handles));
    let missing_one = PipelineCache::new(vec![1, 2, 3, 4, 5, 6, 7, 8]);
    assert_eq!(pipelines.get(&missing_one), None);
}

#[test]
fn view_key_bits_compose() {
    // A featureless view still carries the defaulted shadow filter and
    // the fixed triangle-list topology field.
    let baseline = 2 * VIEW_KEY_SHADOW_FILTER_FIELD + VIEW_KEY_TOPOLOGY_TRIANGLE_LIST;
    assert_eq!(
        mesh_view_key(false, false, false, false, false, false, false, None, None, None, None, false),
        baseline
    );
    assert_eq!(
        mesh_view_key(
            true, false, true, false, false, true, false,
            Some(Projection::Perspective), Some(ShadowFilteringMethod::Hardware2x2),
            None, None, false,
        ),
        VIEW_KEY_HDR + VIEW_KEY_DEPTH_PREPASS + VIEW_KEY_TEMPORAL_JITTER
            + VIEW_KEY_PROJECTION_PERSPECTIVE + VIEW_KEY_SHADOW_FILTER_FIELD
            + VIEW_KEY_TOPOLOGY_TRIANGLE_LIST
    );
}

#[test]
fn view_key_tonemapping_applies_to_non_hdr_only() {
    let base = 2 * VIEW_KEY_SHADOW_FILTER_FIELD + VIEW_KEY_TOPOLOGY_TRIANGLE_LIST;
    // Non-HDR: tonemapping and dithering land in the key.
    assert_eq!(
        mesh_view_key(
            false, false, false, false, false, false, false, None, None,
            Some(Tonemapping::AcesFitted), Some(DebandDither::Enabled), false,
        ),
        base + VIEW_KEY_TONEMAP_IN_SHADER + 3 * VIEW_KEY_TONEMAP_METHOD_FIELD
            + VIEW_KEY_DEBAND_DITHER
    );
    // HDR: both are ignored.
    assert_eq!(
        mesh_view_key(
            true, false, false, false, false, false, false, None, None,
            Some(Tonemapping::AcesFitted), Some(DebandDither::Enabled), false,
        ),
        VIEW_KEY_HDR + base
    );
}

#[test]
fn material_eligibility_is_opaque_non_transmissive() {
    assert!(material_eligible(true, false));
    assert!(!material_eligible(false, false));
    assert!(!material_eligible(true, true));
}

#[test]
fn monitor_size_maximum() {
    assert_eq!(max_monitor_size(&vec![]), (0, 0));
    assert_eq!(max_monitor_size(&vec![(1920, 1080), (2560, 1440), (1024, 768)]), (2560, 1440));
    let plugin = Fsr2Plugin { hdr: true };
    assert!(plugin.hdr);
}

#[test]
fn taa_defaults() {
    let bundle = TemporalAntialiasBundle::default();
    assert_eq!(bundle.settings, TemporalAntialiasSettings);
    assert_eq!(bundle.jitter.offset_x, 0);
}

#[test]
fn indirect_draw_schedule_runs_two_phases() {
    let steps = plan_visibility_buffer_passes(true, true, 256, false);
    assert_eq!(
        steps,
        vec![
            VisibilityBufferPassStep::CullFirst { workgroups: 2 },
            VisibilityBufferPassStep::DrawFirst,
            VisibilityBufferPassStep::DownsampleDepth,
            VisibilityBufferPassStep::CullSecond { workgroups: 2 },
            VisibilityBufferPassStep::DrawSecond,
            VisibilityBufferPassStep::CopyMaterialDepth,
        ]
    );
    // Shadow views draw depth only and skip the material copy; an
    // unready view skips everything.
    let shadow = plan_visibility_buffer_passes(true, true, 256, true);
    assert!(!shadow.contains(&VisibilityBufferPassStep::CopyMaterialDepth));
    assert_eq!(shadow.len(), 5);
    assert!(plan_visibility_buffer_passes(false, true, 256, false).is_empty());
}

#[test]
fn downsample_bind_groups_chain_the_mips() {
    let plan = plan_downsample_bind_groups(4);
    assert_eq!(
        plan,
        vec![
            DownsampleSource::ViewDepth,
            DownsampleSource::PyramidMip(0),
            DownsampleSource::PyramidMip(1),
            DownsampleSource::PyramidMip(2),
        ]
    );
    assert!(plan_downsample_bind_groups(0).is_empty());
}

#[test]
fn frame_preparation_skips_empty_scenes_and_reuses_index_buffer() {
    assert!(!per_frame_preparation_runs(0));
    assert!(per_frame_preparation_runs(1));
    assert_eq!(advance_draw_index_buffer(None, 64), 64);
    assert_eq!(advance_draw_index_buffer(Some(128), 64), 128);
    assert_eq!(advance_draw_index_buffer(Some(32), 64), 64);
}

#[test]
fn degenerate_zero_capacity_buffer_only_accumulates() {
    // An element stride above the binding limit leaves no room per
    // chunk: pushes accumulate and never flush on their own.
    let mut buffer: BatchedUniformBuffer<u64> = BatchedUniformBuffer::new(64, 32, 128);
    assert_eq!(buffer.size(), 128);
    let first = buffer.push(1);
    let second = buffer.push(2);
    assert_eq!(first, GpuBufferIndex { instance_index: 0, dynamic_offset: Some(0) });
    assert_eq!(second, GpuBufferIndex { instance_index: 1, dynamic_offset: Some(0) });
}
