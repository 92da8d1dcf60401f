//! Per-frame scene aggregation: upload sharing, thread bookkeeping,
//! temporal correspondence and material assignment.

use meshlet::asset::{Meshlet, MeshletBoundingSphere, MeshletMesh};
use meshlet::gpu_scene::{mesh_flags, MeshletGpuScene, MESH_FLAGS_SHADOW_RECEIVER,
    MESH_FLAGS_SIGN_DETERMINANT_MODEL_3X3};

/// A well-formed mesh with `n` clusters of one triangle each.
fn test_mesh(n: u32) -> MeshletMesh {
    let mut vertex_ids = Vec::new();
    let mut indices = Vec::new();
    let mut meshlets = Vec::new();
    let mut spheres = Vec::new();
    let mut errors = Vec::new();
    for i in 0..n {
        vertex_ids.extend_from_slice(&[3 * i, 3 * i + 1, 3 * i + 2]);
        indices.extend_from_slice(&[0, 1, 2]);
        meshlets.push(Meshlet {
            start_vertex_id: 3 * i,
            start_index_id: 3 * i,
            triangle_count: 1,
        });
        let s = MeshletBoundingSphere { center_x: i, center_y: 0, center_z: 0, radius: 1 };
        spheres.push(s);
        spheres.push(s);
        errors.push(0);
        errors.push(u32::MAX);
    }
    MeshletMesh {
        vertex_data: vec![7u8; (3 * n as usize) * 48],
        vertex_ids,
        indices,
        meshlets,
        meshlet_bounding_spheres: spheres,
        meshlet_lod_errors: errors,
        total_meshlet_indices: 3 * n as u64,
        worst_case_meshlet_triangles: n as u64,
    }
}

#[test]
fn shared_mesh_reuses_buffer_range() {
    let mut scene = MeshletGpuScene::new();
    let mesh = test_mesh(2);
    let slice_a = scene.queue_meshlet_mesh_upload(1, 42, &mesh, 0);
    let vertex_data_size = scene.vertex_data_buffer().virtual_size();
    let slice_b = scene.queue_meshlet_mesh_upload(2, 42, &mesh, 1);
    // The second instance resolves to the identical cluster byte range,
    // with no further upload.
    assert_eq!(slice_a, slice_b);
    assert_eq!(scene.vertex_data_buffer().virtual_size(), vertex_data_size);
    assert_eq!(slice_a.cluster_start, 0);
    assert_eq!(slice_a.cluster_end, 2);
}

#[test]
fn distinct_meshes_get_distinct_ranges() {
    let mut scene = MeshletGpuScene::new();
    let mesh_a = test_mesh(2);
    let mesh_b = test_mesh(3);
    let slice_a = scene.queue_meshlet_mesh_upload(1, 42, &mesh_a, 0);
    let slice_b = scene.queue_meshlet_mesh_upload(2, 43, &mesh_b, 1);
    assert_eq!(slice_a.cluster_start, 0);
    assert_eq!(slice_a.cluster_end, 2);
    assert_eq!(slice_b.cluster_start, 2);
    assert_eq!(slice_b.cluster_end, 5);
}

#[test]
fn thread_count_is_sum_of_cluster_counts() {
    let mut scene = MeshletGpuScene::new();
    let mesh_a = test_mesh(2);
    let mesh_b = test_mesh(3);
    scene.queue_meshlet_mesh_upload(1, 42, &mesh_a, 0);
    scene.queue_meshlet_mesh_upload(2, 43, &mesh_b, 1);
    assert_eq!(scene.scene_meshlet_count(), 5);
    assert_eq!(scene.scene_index_count(), 6 + 9);
    assert_eq!(scene.thread_instance_ids().len(), 5);
    assert_eq!(scene.thread_meshlet_ids().len(), 5);

    // Dropping one instance and rebuilding the frame shrinks the count by
    // exactly that instance's cluster count.
    scene.reset();
    scene.queue_meshlet_mesh_upload(2, 43, &mesh_b, 0);
    assert_eq!(scene.scene_meshlet_count(), 3);
}

#[test]
fn thread_ranges_follow_submission_order_without_gaps() {
    let mut scene = MeshletGpuScene::new();
    let mesh = test_mesh(2);
    scene.queue_meshlet_mesh_upload(10, 42, &mesh, 0);
    scene.queue_meshlet_mesh_upload(11, 42, &mesh, 1);
    // Two instances sharing one mesh: consecutive blocks, in order.
    assert_eq!(scene.thread_instance_ids(), &vec![0, 0, 1, 1]);
    assert_eq!(scene.thread_meshlet_ids(), &vec![0, 1, 0, 1]);
}

#[test]
fn temporal_correspondence_carries_thread_starts() {
    let mut scene = MeshletGpuScene::new();
    let mesh = test_mesh(2);
    // First frame: instance 7 occupies threads 0..2, instance 8 threads
    // 2..4. Both are first appearances: occlusion unknown, previous ids
    // start at zero.
    scene.queue_meshlet_mesh_upload(7, 42, &mesh, 0);
    scene.queue_meshlet_mesh_upload(8, 42, &mesh, 1);
    assert_eq!(scene.previous_thread_ids(), &vec![0, 1, 0, 1]);

    // Second frame: instance 8 first. Its previous-frame threads were
    // 2..4; instance 7's were 0..2.
    scene.reset();
    scene.queue_meshlet_mesh_upload(8, 42, &mesh, 0);
    scene.queue_meshlet_mesh_upload(7, 42, &mesh, 1);
    assert_eq!(scene.previous_thread_ids(), &vec![2, 3, 0, 1]);

    // A new instance's previous ids start at zero: unknown, not occluded.
    scene.reset();
    scene.queue_meshlet_mesh_upload(9, 42, &mesh, 0);
    assert_eq!(scene.previous_thread_ids(), &vec![0, 1]);
}

#[test]
fn pruning_forgets_absent_instances() {
    let mut scene = MeshletGpuScene::new();
    let mesh = test_mesh(2);
    scene.queue_meshlet_mesh_upload(7, 42, &mesh, 0);
    // Instance 7 skips a frame, and its entry is pruned.
    scene.reset();
    scene.prune_inactive_instances();
    scene.queue_meshlet_mesh_upload(7, 42, &mesh, 0);
    // Back to a first appearance.
    assert_eq!(scene.previous_thread_ids(), &vec![0, 1]);
}

#[test]
fn material_ids_are_dense_and_stable_within_a_frame() {
    let mut scene = MeshletGpuScene::new();
    let id_a = scene.get_material_id(1000);
    let id_b = scene.get_material_id(2000);
    assert_eq!(id_a, 1);
    assert_eq!(id_b, 2);
    assert_eq!(scene.get_material_id(1000), 1);
    // Ids are not stable across frames: a reset clears the lookup and
    // the counter, so the next frame hands out ids from one again.
    scene.reset();
    assert_eq!(scene.get_material_id(3000), 1);
    assert_eq!(scene.get_material_id(1000), 2);
}

#[test]
fn material_assignment_tags_instances_and_scene() {
    let mut scene = MeshletGpuScene::new();
    let mesh = test_mesh(1);
    scene.queue_meshlet_mesh_upload(7, 42, &mesh, 0);
    scene.queue_meshlet_mesh_upload(8, 42, &mesh, 1);
    let id = scene.get_material_id(1000);
    assert!(!scene.material_present_in_scene(&id));
    // Instance 7 uses material 1000; instance 8 has no known material.
    scene.queue_material_meshlet_meshes(&vec![(7, 1000)]);
    assert!(scene.material_present_in_scene(&id));
    assert_eq!(scene.instance_material_ids(), &vec![id, 0]);
}

#[test]
fn performed_writes_rewrite_offsets_and_preserve_bytes() {
    let mut scene = MeshletGpuScene::new();
    let mesh_a = test_mesh(1);
    scene.queue_meshlet_mesh_upload(1, 42, &mesh_a, 0);
    scene.perform_pending_meshlet_mesh_writes();
    let vertex_data_after_a = scene.vertex_data_buffer().arena_bytes().clone();
    assert_eq!(&vertex_data_after_a[..mesh_a.vertex_data.len()], &mesh_a.vertex_data[..]);

    // The first mesh's cluster references land unshifted.
    let meshlet_bytes = scene.meshlets_buffer().arena_bytes();
    assert_eq!(&meshlet_bytes[0..4], &[0, 0, 0, 0]); // start_vertex_id 0
    assert_eq!(&meshlet_bytes[4..8], &[0, 0, 0, 0]); // start_index_id 0
    assert_eq!(&meshlet_bytes[8..12], &[1, 0, 0, 0]); // one triangle

    // A second, distinct mesh lands after the first, its references
    // rewritten by where its runs begin; earlier bytes are untouched.
    let mesh_b = test_mesh(1);
    scene.queue_meshlet_mesh_upload(2, 43, &mesh_b, 1);
    scene.perform_pending_meshlet_mesh_writes();
    let vertex_data_bytes = scene.vertex_data_buffer().arena_bytes();
    assert_eq!(&vertex_data_bytes[..mesh_a.vertex_data.len()], &vertex_data_after_a[..mesh_a.vertex_data.len()]);
    let meshlet_bytes = scene.meshlets_buffer().arena_bytes();
    // Second mesh's single cluster: vertex ids begin at id 3 (12 bytes
    // in, four bytes per id), indices at byte 3.
    assert_eq!(&meshlet_bytes[12..16], &[3, 0, 0, 0]);
    assert_eq!(&meshlet_bytes[16..20], &[3, 0, 0, 0]);
    assert_eq!(&meshlet_bytes[20..24], &[1, 0, 0, 0]);

    // Vertex ids of the second mesh are shifted by the first mesh's
    // vertex count (three vertices), little endian.
    let vertex_id_bytes = scene.vertex_ids_buffer().arena_bytes();
    assert_eq!(&vertex_id_bytes[0..4], &[0, 0, 0, 0]);
    assert_eq!(&vertex_id_bytes[12..16], &[3, 0, 0, 0]);
    assert_eq!(&vertex_id_bytes[16..20], &[4, 0, 0, 0]);
}

#[test]
fn sphere_bytes_are_word_serialized() {
    let mut scene = MeshletGpuScene::new();
    let mesh = test_mesh(2);
    scene.queue_meshlet_mesh_upload(1, 42, &mesh, 0);
    scene.perform_pending_meshlet_mesh_writes();
    let bytes = scene.bounding_spheres_buffer().arena_bytes();
    // Two spheres per cluster, sixteen bytes per sphere; the second
    // cluster's spheres carry its center word.
    assert_eq!(bytes.len(), 64);
    assert_eq!(&bytes[32..36], &[1, 0, 0, 0]);
    assert_eq!(&bytes[44..48], &[1, 0, 0, 0]);
}

#[test]
fn mesh_flag_bits() {
    assert_eq!(mesh_flags(true, false), 0);
    assert_eq!(mesh_flags(false, false), MESH_FLAGS_SHADOW_RECEIVER);
    assert_eq!(
        mesh_flags(false, true),
        MESH_FLAGS_SHADOW_RECEIVER + MESH_FLAGS_SIGN_DETERMINANT_MODEL_3X3
    );
    assert_eq!(mesh_flags(true, true), MESH_FLAGS_SIGN_DETERMINANT_MODEL_3X3);
}

#[test]
fn buffer_growth_preserves_committed_bytes() {
    let mut scene = MeshletGpuScene::new();
    let mesh_a = test_mesh(1);
    scene.queue_meshlet_mesh_upload(1, 1, &mesh_a, 0);
    scene.perform_pending_meshlet_mesh_writes();
    let before = scene.indices_buffer().arena_bytes().clone();
    // A later upload grows the buffer; every committed byte survives.
    let mesh_b = test_mesh(4);
    scene.reset();
    scene.queue_meshlet_mesh_upload(1, 1, &mesh_a, 0);
    scene.queue_meshlet_mesh_upload(2, 2, &mesh_b, 1);
    scene.perform_pending_meshlet_mesh_writes();
    let after = scene.indices_buffer().arena_bytes();
    assert_eq!(&after[..before.len()], &before[..]);
}
