//! Mesh validation and level-of-detail build behaviour.

use meshlet::asset::{Meshlet, MeshletBoundingSphere};
use meshlet::from_mesh::{
    apply_simplified_group, build_group_indices, collect_triangle_edges_per_meshlet,
    find_connected_meshlets, finish_mesh, group_meshlets, lod_build_begin,
    lod_build_finish_level, lod_build_should_continue, triangle_total_fits, validate_input_mesh,
    vertex_ids_below, Cluster, ClusterSet,
    Indices, Mesh, MeshToMeshletMeshConversionError, PrimitiveTopology, ATTRIBUTE_NORMAL_ID,
    ATTRIBUTE_POSITION_ID, ATTRIBUTE_TANGENT_ID, ATTRIBUTE_UV_0_ID,
};

fn required_attributes() -> Vec<u64> {
    vec![
        ATTRIBUTE_POSITION_ID,
        ATTRIBUTE_NORMAL_ID,
        ATTRIBUTE_UV_0_ID,
        ATTRIBUTE_TANGENT_ID,
    ]
}

fn valid_mesh() -> Mesh {
    Mesh {
        primitive_topology: PrimitiveTopology::TriangleList,
        attribute_ids: required_attributes(),
        vertex_buffer: vec![0u8; 4 * 48],
        indices: Some(Indices::U32(vec![0, 1, 2, 1, 2, 3])),
    }
}

#[test]
fn validation_rejects_wrong_topology() {
    let mut mesh = valid_mesh();
    mesh.primitive_topology = PrimitiveTopology::TriangleStrip;
    assert!(matches!(
        validate_input_mesh(&mesh),
        Err(MeshToMeshletMeshConversionError::WrongMeshPrimitiveTopology)
    ));
}

#[test]
fn validation_rejects_wrong_attributes() {
    let mut mesh = valid_mesh();
    mesh.attribute_ids = vec![ATTRIBUTE_POSITION_ID, ATTRIBUTE_NORMAL_ID];
    assert!(matches!(
        validate_input_mesh(&mesh),
        Err(MeshToMeshletMeshConversionError::WrongMeshVertexAttributes)
    ));
}

#[test]
fn validation_rejects_missing_indices() {
    let mut mesh = valid_mesh();
    mesh.indices = None;
    assert!(matches!(
        validate_input_mesh(&mesh),
        Err(MeshToMeshletMeshConversionError::MeshMissingIndices)
    ));
}

#[test]
fn validation_returns_u32_indices() {
    let mesh = valid_mesh();
    assert_eq!(validate_input_mesh(&mesh).unwrap(), vec![0, 1, 2, 1, 2, 3]);
}

#[test]
fn validation_widens_u16_indices() {
    let mut mesh = valid_mesh();
    mesh.indices = Some(Indices::U16(vec![3, 2, 1]));
    assert_eq!(validate_input_mesh(&mesh).unwrap(), vec![3u32, 2, 1]);
}

#[test]
fn validation_error_messages() {
    assert_eq!(
        MeshToMeshletMeshConversionError::WrongMeshPrimitiveTopology.message(),
        "Mesh primitive topology was not TriangleList"
    );
    assert_eq!(
        MeshToMeshletMeshConversionError::MeshMissingIndices.message(),
        "Mesh had no indices"
    );
}

/// A set of `n` placeholder clusters with no geometry, for exercising the
/// level-of-detail loop without real meshes.
fn empty_clusters(n: u32) -> ClusterSet {
    let clusters = (0..n)
        .map(|_| Cluster { vertex_offset: 0, triangle_offset: 0, vertex_count: 0, triangle_count: 0 })
        .collect();
    ClusterSet { vertices: Vec::new(), triangles: Vec::new(), clusters }
}

fn sphere(radius: u32) -> MeshletBoundingSphere {
    MeshletBoundingSphere { center_x: 0, center_y: 0, center_z: 0, radius }
}

#[test]
fn lod_build_converging_queue_terminates_before_cap() {
    // 200 clusters at the first level; each level merges the whole queue
    // into one group that simplifies to half as many clusters.
    let mut st = lod_build_begin(empty_clusters(200));
    let mut levels = 0u32;
    while lod_build_should_continue(&st) {
        let queue_start = st.queue_start;
        let queue_len = st.clusters.clusters.len() as u32 - queue_start;
        let next_lod_start = st.clusters.clusters.len() as u32;
        let group: Vec<u32> = (queue_start..queue_start + queue_len).collect();
        apply_simplified_group(&mut st, &group, levels + 1, sphere(1), &empty_clusters(queue_len / 2));
        lod_build_finish_level(&mut st, next_lod_start);
        levels += 1;
    }
    // 200 -> 100 -> 50 -> 25 -> 12 -> 6 -> 3 -> 1: seven levels, then the
    // queue holds a single cluster and building stops before the cap.
    assert_eq!(levels, 7);
    assert_eq!(st.lod_level, 7);
    let queue_len = st.clusters.clusters.len() as u32 - st.queue_start;
    assert_eq!(queue_len, 1);
}

#[test]
fn lod_build_pathological_queue_stops_at_level_cap() {
    // Each level "simplifies" to just as many clusters: never converges.
    let mut st = lod_build_begin(empty_clusters(200));
    let mut levels = 0u32;
    while lod_build_should_continue(&st) {
        let queue_start = st.queue_start;
        let queue_len = st.clusters.clusters.len() as u32 - queue_start;
        let next_lod_start = st.clusters.clusters.len() as u32;
        let group: Vec<u32> = (queue_start..queue_start + queue_len).collect();
        apply_simplified_group(&mut st, &group, 1, sphere(1), &empty_clusters(queue_len));
        lod_build_finish_level(&mut st, next_lod_start);
        levels += 1;
    }
    assert_eq!(levels, 10);
    assert_eq!(st.lod_level, 10);
}

#[test]
fn finished_mesh_errors_stay_monotonic() {
    // Two build levels with distinct group errors; every cluster of the
    // finished asset must have parent_error >= self_error.
    let mut st = lod_build_begin(empty_clusters(4));
    let next = st.clusters.clusters.len() as u32;
    apply_simplified_group(&mut st, &vec![0, 1, 2, 3], 5, sphere(2), &empty_clusters(2));
    lod_build_finish_level(&mut st, next);
    let next = st.clusters.clusters.len() as u32;
    apply_simplified_group(&mut st, &vec![4, 5], 3, sphere(3), &empty_clusters(1));
    lod_build_finish_level(&mut st, next);

    let n = st.clusters.clusters.len();
    let own_spheres: Vec<MeshletBoundingSphere> = (0..n).map(|_| sphere(9)).collect();
    let mesh = finish_mesh(st, &own_spheres, Vec::new());
    assert_eq!(mesh.meshlets.len(), 7);
    for i in 0..mesh.meshlets.len() {
        let self_error = mesh.meshlet_lod_errors[2 * i];
        let parent_error = mesh.meshlet_lod_errors[2 * i + 1];
        assert!(parent_error >= self_error, "cluster {i}: {parent_error} < {self_error}");
    }
    // The second level's group error is raised to its children's error.
    assert_eq!(mesh.meshlet_lod_errors[2 * 4], 5);
    assert_eq!(mesh.meshlet_lod_errors[2 * 4 + 1], 5);
}

#[test]
fn finished_mesh_cluster_ranges_in_bounds() {
    // Real geometry: two triangles over four vertices.
    let cs = ClusterSet {
        vertices: vec![0, 1, 2, 1, 2, 3],
        triangles: vec![0, 1, 2, 0, 1, 2],
        clusters: vec![
            Cluster { vertex_offset: 0, triangle_offset: 0, vertex_count: 3, triangle_count: 1 },
            Cluster { vertex_offset: 3, triangle_offset: 3, vertex_count: 3, triangle_count: 1 },
        ],
    };
    let st = lod_build_begin(cs);
    let own_spheres = vec![sphere(1), sphere(1)];
    let mesh = finish_mesh(st, &own_spheres, vec![0u8; 4 * 48]);
    assert_eq!(mesh.total_meshlet_indices, 6);
    assert_eq!(mesh.worst_case_meshlet_triangles, 2);
    assert_eq!(mesh.meshlet_bounding_spheres.len(), 4);
    for m in &mesh.meshlets {
        assert!((m.start_vertex_id as usize) <= mesh.vertex_ids.len());
        assert!((m.start_index_id as usize + 3 * m.triangle_count as usize) <= mesh.indices.len());
    }
}

/// Two clusters over four vertices sharing the edge (1, 2).
fn two_connected_clusters() -> ClusterSet {
    ClusterSet {
        vertices: vec![0, 1, 2, 1, 2, 3],
        triangles: vec![0, 1, 2, 0, 1, 2],
        clusters: vec![
            Cluster { vertex_offset: 0, triangle_offset: 0, vertex_count: 3, triangle_count: 1 },
            Cluster { vertex_offset: 3, triangle_offset: 3, vertex_count: 3, triangle_count: 1 },
        ],
    }
}

#[test]
fn edge_collection_and_connectivity() {
    let cs = two_connected_clusters();
    let edges = collect_triangle_edges_per_meshlet(0, &cs);
    assert_eq!(edges.len(), 2);
    assert!(edges[0].contains(&(0, 1)));
    assert!(edges[0].contains(&(1, 2)));
    assert!(edges[0].contains(&(0, 2)));
    assert!(edges[1].contains(&(1, 2)));
    assert!(edges[1].contains(&(2, 3)));
    let connected = find_connected_meshlets(&edges);
    // The two clusters share exactly the edge (1, 2).
    assert_eq!(connected[0], vec![(1, 1)]);
    assert_eq!(connected[1], vec![(0, 1)]);
}

#[test]
fn group_indices_concatenate_triangles() {
    let cs = two_connected_clusters();
    let indices = build_group_indices(&vec![0, 1], &cs);
    assert_eq!(indices, vec![0, 1, 2, 1, 2, 3]);
}

#[test]
fn grouping_places_every_cluster_exactly_once() {
    // Eight clusters in a chain, each sharing one edge with the next, so
    // the partitioner runs with two parts.
    let mut vertices = Vec::new();
    let mut triangles = Vec::new();
    let mut clusters = Vec::new();
    for i in 0u32..8 {
        vertices.extend_from_slice(&[i, i + 1, 100 + i]);
        triangles.extend_from_slice(&[0, 1, 2]);
        clusters.push(Cluster {
            vertex_offset: 3 * i,
            triangle_offset: 3 * i,
            vertex_count: 3,
            triangle_count: 1,
        });
    }
    let cs = ClusterSet { vertices, triangles, clusters };
    let edges = collect_triangle_edges_per_meshlet(0, &cs);
    let connected = find_connected_meshlets(&edges);
    let groups = group_meshlets(0, &connected);
    let mut seen = vec![0u32; 8];
    for group in &groups {
        for &id in group {
            assert!(id < 8);
            seen[id as usize] += 1;
        }
    }
    assert_eq!(seen, vec![1; 8]);
}

#[test]
fn single_cluster_mesh_skips_lod_building() {
    // A mesh that never produces more than one cluster is a valid
    // single-level mesh: building terminates immediately.
    let st = lod_build_begin(empty_clusters(1));
    assert!(!lod_build_should_continue(&st));
    assert_eq!(st.lod_level, 0);
    let mesh = finish_mesh(st, &vec![sphere(1)], Vec::new());
    assert_eq!(mesh.meshlets.len(), 1);
    assert_eq!(mesh.meshlet_lod_errors, vec![0, 0]);
}

#[test]
fn empty_mesh_produces_no_clusters() {
    let st = lod_build_begin(empty_clusters(0));
    assert!(!lod_build_should_continue(&st));
    let mesh = finish_mesh(st, &Vec::new(), Vec::new());
    assert_eq!(mesh.meshlets.len(), 0);
    assert_eq!(mesh.total_meshlet_indices, 0);
}

#[test]
fn worst_case_counts_the_initial_clustering_only() {
    // One initial cluster of one triangle; one simplified level appends
    // another cluster. The worst case a frame can rasterize is the
    // finest level alone, not the whole hierarchy.
    let initial = ClusterSet {
        vertices: vec![0, 1, 2],
        triangles: vec![0, 1, 2],
        clusters: vec![Cluster {
            vertex_offset: 0,
            triangle_offset: 0,
            vertex_count: 3,
            triangle_count: 1,
        }],
    };
    let coarser = ClusterSet {
        vertices: vec![0, 1, 2],
        triangles: vec![0, 1, 2],
        clusters: vec![Cluster {
            vertex_offset: 0,
            triangle_offset: 0,
            vertex_count: 3,
            triangle_count: 1,
        }],
    };
    let mut st = lod_build_begin(initial);
    apply_simplified_group(&mut st, &vec![0], 2, sphere(1), &coarser);
    let mesh = finish_mesh(st, &vec![sphere(1), sphere(1)], vec![0u8; 3 * 48]);
    assert_eq!(mesh.meshlets.len(), 2);
    assert_eq!(mesh.total_meshlet_indices, 6);
    assert_eq!(mesh.worst_case_meshlet_triangles, 1);
}

#[test]
fn cluster_set_checks_reject_malformed_data() {
    let good = two_connected_clusters();
    assert!(good.check_wf());
    let mut bad_range = two_connected_clusters();
    bad_range.clusters[1].vertex_count = 9;
    assert!(!bad_range.check_wf());
    let mut bad_local = two_connected_clusters();
    bad_local.triangles[1] = 3;
    assert!(!bad_local.check_wf());

    assert!(vertex_ids_below(&good, 4));
    assert!(!vertex_ids_below(&good, 3));
    assert!(triangle_total_fits(&good));
}
