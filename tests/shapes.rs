use meshgen::generator::MeshGenerator;
use meshgen::shapes::{
    generate_cube, generate_uv_sphere, icosahedron_indices, midpoint_sources, subdivide,
    uv_sphere_indices, ICOSAHEDRON_VERTEX_COUNT,
};
use meshgen::terrain::{heightmap_samples, is_non_positive, Terrain, TerrainError};
use meshgen::vertex::Vertex;

#[test]
fn cube_has_eight_vertices_and_twelve_faces() {
    let mut cube = generate_cube();
    assert_eq!(cube.mut_ref_vertices().len(), 8);
    assert_eq!(cube.mut_ref_vertices()[6].position, [0.5f32.to_bits(); 3]);
    assert_eq!(cube.mut_ref_vertices()[0].position, [(-0.5f32).to_bits(); 3]);
    assert_eq!(cube.faces().len(), 12);
    let indices = cube.mut_ref_indices().clone();
    assert_eq!(indices.len(), 36);
    assert!(indices.iter().all(|&i| i < 8));
    assert_eq!(&indices[0..6], &[0, 1, 5, 5, 4, 0]);
}

#[test]
fn uv_sphere_indices_of_a_small_sphere() {
    assert_eq!(uv_sphere_indices(1, 4), Vec::<u32>::new());
    let idx = uv_sphere_indices(2, 2);
    assert_eq!(idx, vec![1, 3, 4, 2, 4, 5, 3, 6, 4, 4, 7, 5]);
    let idx = uv_sphere_indices(3, 4);
    assert_eq!(idx.len(), 6 * 2 * 4);
    assert!(idx.iter().all(|&i| i < 20));
}

#[test]
fn uv_sphere_mesh_keeps_vertices() {
    let vertices: Vec<Vertex> = (0..9).map(|i| Vertex::new([i, 0, 0])).collect();
    let mut g = generate_uv_sphere(&vertices, 2, 2);
    assert_eq!(g.mut_ref_vertices().len(), 9);
    assert_eq!(g.mut_ref_indices().len(), 12);
    assert_eq!(g.faces().len(), 4);
}

#[test]
fn icosahedron_and_one_subdivision() {
    let base = icosahedron_indices();
    assert_eq!(base.len(), 60);
    assert_eq!(ICOSAHEDRON_VERTEX_COUNT, 22);
    assert!(base.iter().all(|&i| (i as usize) < ICOSAHEDRON_VERTEX_COUNT));
    assert_eq!(*base.iter().max().unwrap(), 21);
    let fine = subdivide(&base, ICOSAHEDRON_VERTEX_COUNT);
    assert_eq!(fine.len(), 240);
    assert!(fine.iter().all(|&i| i < 22 + 60));
}

#[test]
fn subdivision_of_one_triangle() {
    let out = subdivide(&[0, 1, 2], 3);
    assert_eq!(out, vec![0, 3, 5, 3, 1, 4, 3, 4, 5, 5, 4, 2]);
    assert_eq!(midpoint_sources(&[0, 1, 2]), vec![[0, 1], [1, 2], [0, 2]]);
    let out = subdivide(&[0, 1, 2, 2, 1, 3], 4);
    assert_eq!(&out[12..], &[2, 7, 9, 7, 1, 8, 7, 8, 9, 9, 8, 3]);
}

fn one() -> u32 {
    1.0f32.to_bits()
}

fn grid(chunk_size: usize) -> Vec<[u32; 3]> {
    (0..(chunk_size + 1) * (chunk_size + 1)).map(|i| [i as u32, 0, 0]).collect()
}

#[test]
fn terrain_rejects_zero_size_and_bad_scale() {
    assert_eq!(Terrain::generate(0, [one(); 3], &[]).err(), Some(TerrainError::ZeroSize));
    assert_eq!(
        Terrain::generate(0, [0.0f32.to_bits(); 3], &[]).err(),
        Some(TerrainError::ZeroSize)
    );
    let bad = [
        [0.0f32.to_bits(), one(), one()],
        [one(), (-2.0f32).to_bits(), one()],
        [one(), one(), (-0.0f32).to_bits()],
    ];
    for scale in bad {
        assert_eq!(
            Terrain::generate(2, scale, &grid(2)).err(),
            Some(TerrainError::InvalidScale)
        );
    }
    assert_eq!(
        Terrain::generate(2, [one(); 3], &grid(1)).err(),
        Some(TerrainError::PositionCount)
    );
}

#[test]
fn non_positive_bits() {
    assert!(is_non_positive(0.0f32.to_bits()));
    assert!(is_non_positive((-0.0f32).to_bits()));
    assert!(is_non_positive((-3.5f32).to_bits()));
    assert!(is_non_positive(f32::NEG_INFINITY.to_bits()));
    assert!(!is_non_positive(1.0e-30f32.to_bits()));
    assert!(!is_non_positive(f32::INFINITY.to_bits()));
    assert!(!is_non_positive(f32::NAN.to_bits()));
}

#[test]
fn terrain_of_one_cell() {
    let mut t = Terrain::generate(1, [one(); 3], &grid(1)).unwrap();
    assert_eq!(t.chunk_size(), 1);
    assert_eq!(*t.scale(), [one(); 3]);
    let m = t.mesh_mut();
    assert_eq!(*m.mut_ref_indices(), vec![0, 1, 2, 1, 3, 2]);
}

fn scanned_adjacency(g: &MeshGenerator) -> Vec<Vec<usize>> {
    let faces = g.faces();
    g.vertex_face_adjacency(&faces)
}

#[test]
fn terrain_adjacency_matches_a_full_scan() {
    for cs in 1..7 {
        let t = Terrain::generate(cs, [one(); 3], &grid(cs)).unwrap();
        let mut g = t.mesh().clone();
        let stored = g.mut_ref_vertex_face_adjacency_list().clone().unwrap();
        assert_eq!(stored.len(), (cs + 1) * (cs + 1));
        assert_eq!(stored, scanned_adjacency(&g), "chunk size {}", cs);
    }
}

#[test]
fn terrain_corner_cases() {
    let t = Terrain::generate(2, [one(); 3], &grid(2)).unwrap();
    let mut g = t.mesh().clone();
    let adj = g.mut_ref_vertex_face_adjacency_list().clone().unwrap();
    assert_eq!(adj[0], vec![0]);
    assert_eq!(adj[2], vec![2, 3]);
    assert_eq!(adj[6], vec![4, 5]);
    assert_eq!(adj[8], vec![7]);
    assert_eq!(adj[4], vec![1, 2, 3, 4, 5, 6]);
    let faces = g.prepare_normal_synthesis().unwrap();
    assert_eq!(faces.len(), 8);
}

#[test]
fn heightmap_reads_the_red_channel() {
    let data: Vec<u8> = (0..16).collect();
    assert_eq!(heightmap_samples(&data, 2, 2).unwrap(), vec![0, 4, 8, 12]);
    assert!(heightmap_samples(&data, 4, 1).is_err());
    assert_eq!(heightmap_samples(&[], 0, 0).unwrap(), Vec::<u8>::new());
}
