use meshgen::generator::{Face, MeshError, MeshGenerator};
use meshgen::mesh::MeshMode;
use meshgen::vertex::Vertex;

fn vertex(i: u32) -> Vertex {
    Vertex::new([i, i + 1, i + 2])
}

fn le(words: &[u32]) -> Vec<u8> {
    words.iter().flat_map(|w| w.to_le_bytes()).collect()
}

#[test]
fn push_index_starts_the_list() {
    let mut g = MeshGenerator::new(None, None, None);
    g.push_index(3);
    g.push_index_slice(&[4, 5]);
    assert_eq!(*g.mut_ref_indices(), vec![3, 4, 5]);
}

#[test]
fn faces_from_indices_and_from_vertex_triples() {
    let mut g = MeshGenerator::new(Some(4), Some(6), Some(2));
    for i in 0..4 {
        g.push_vertex(&vertex(i));
    }
    g.push_index_slice(&[0, 1, 2, 2, 3, 0]);
    assert!(g.is_triangulable());
    let faces = g.faces();
    assert_eq!(faces.len(), 2);
    assert_eq!(faces[1], Face { vertex_0_index: 2, vertex_1_index: 3, vertex_2_index: 0 });

    let mut h = MeshGenerator::new(None, None, None);
    for i in 0..6 {
        h.push_vertex(&vertex(i));
    }
    let faces = h.faces();
    assert_eq!(faces.len(), 2);
    assert_eq!(faces[1], Face { vertex_0_index: 3, vertex_1_index: 4, vertex_2_index: 5 });
}

#[test]
fn adjacency_lists_touching_faces_in_order() {
    let mut g = MeshGenerator::new(None, None, None);
    for i in 0..5 {
        g.push_vertex(&vertex(i));
    }
    g.push_index_slice(&[0, 1, 2, 2, 3, 0, 0, 3, 1]);
    let faces = g.faces();
    let adj = g.vertex_face_adjacency(&faces);
    assert_eq!(adj.len(), 5);
    assert_eq!(adj[0], vec![0, 1, 2]);
    assert_eq!(adj[1], vec![0, 2]);
    assert_eq!(adj[2], vec![0, 1]);
    assert_eq!(adj[3], vec![1, 2]);
    assert_eq!(adj[4], Vec::<usize>::new());
}

#[test]
fn untriangulable_meshes_are_rejected() {
    let mut g = MeshGenerator::new(None, None, None);
    for i in 0..3 {
        g.push_vertex(&vertex(i));
    }
    g.push_index_slice(&[0, 1, 3]);
    assert!(!g.is_triangulable());
    assert_eq!(g.prepare_normal_synthesis().err(), Some(MeshError::InvalidTopology));
    let mut h = MeshGenerator::new(None, None, None);
    for i in 0..4 {
        h.push_vertex(&vertex(i));
    }
    assert_eq!(h.prepare_normal_synthesis().err(), Some(MeshError::InvalidTopology));
}

#[test]
fn stored_adjacency_must_fit() {
    let mut g = MeshGenerator::new(None, None, None);
    for i in 0..3 {
        g.push_vertex(&vertex(i));
    }
    g.push_index_slice(&[0, 1, 2]);
    *g.mut_ref_vertex_face_adjacency_list() = Some(vec![vec![0], vec![0], vec![1]]);
    assert_eq!(g.prepare_normal_synthesis().err(), Some(MeshError::InvalidAdjacency));
    *g.mut_ref_vertex_face_adjacency_list() = Some(vec![vec![0], vec![0]]);
    assert_eq!(g.prepare_normal_synthesis().err(), Some(MeshError::InvalidAdjacency));
}

#[test]
fn prepare_builds_and_keeps_the_adjacency() {
    let mut g = MeshGenerator::new(None, None, None);
    for i in 0..4 {
        g.push_vertex(&vertex(i));
    }
    g.push_index_slice(&[0, 1, 2, 1, 3, 2]);
    let faces = g.prepare_normal_synthesis().unwrap();
    assert_eq!(faces.len(), 2);
    assert_eq!(
        g.mut_ref_vertex_face_adjacency_list().clone(),
        Some(vec![vec![0], vec![0, 1], vec![0, 1], vec![1]])
    );
    g.push_adjacent_faces(&[7]);
    assert_eq!(g.mut_ref_vertex_face_adjacency_list().as_ref().unwrap().len(), 5);
    g.push_vertex(&vertex(9));
    assert!(g.mut_ref_vertex_face_adjacency_list().is_none());
}

#[test]
fn synthesis_is_needed_for_triangles_without_normals() {
    let mut g = MeshGenerator::new(None, None, None);
    assert!(g.needs_normal_synthesis(MeshMode::Triangles));
    assert!(!g.needs_normal_synthesis(MeshMode::IndexedTriangles));
    g.push_vertex(&vertex(0));
    assert!(g.needs_normal_synthesis(MeshMode::IndexedTriangles));
    assert!(!g.needs_normal_synthesis(MeshMode::Points));
    assert!(!g.needs_normal_synthesis(MeshMode::TriangleFan));
    g.set_normal_and_tangent(0, [1, 2, 3], [4, 5, 6]);
    assert!(!g.needs_normal_synthesis(MeshMode::IndexedTriangles));
    assert_eq!(g.mut_ref_vertices()[0].as_slice(), vec![0, 1, 2, 1, 2, 3, 4, 5, 6]);
}

#[test]
fn packed_buffer_is_one_stride_per_vertex() {
    let mut g = MeshGenerator::new(None, None, None);
    for i in 0..3 {
        let mut v = vertex(10 * i);
        v.normal = Some([i, i, i]);
        v.texcoord_0 = Some([0x0102_0304, 0xa0b0_c0d0]);
        g.push_vertex(&v);
    }
    let (bytes, views) = g.attribute_buffer();
    assert_eq!(bytes.len(), 3 * 32);
    assert_eq!(&bytes[0..12], &le(&[0, 1, 2])[..]);
    assert_eq!(&bytes[24..32], &[4, 3, 2, 1, 0xd0, 0xc0, 0xb0, 0xa0]);
    assert_eq!(views.position.length, 96);
    assert_eq!(views.normal.unwrap().offset, 12);
    assert_eq!(views.texcoord_0.unwrap().offset, 24);
    assert!(views.tangent.is_none());
    assert!(views.bitangent.is_none());
}

#[test]
fn index_buffer_is_four_bytes_per_index() {
    let mut g = MeshGenerator::new(None, None, None);
    for i in 0..3 {
        g.push_vertex(&vertex(i));
    }
    g.push_index_slice(&[2, 1, 0x0100_0000]);
    let (bytes, view) = g.index_buffer();
    assert_eq!(bytes, vec![2, 0, 0, 0, 1, 0, 0, 0, 0, 0, 0, 1]);
    assert_eq!(view.buffer, 1);
    assert_eq!(view.length, 12);
    assert_eq!(view.component_count, 3);
    assert_eq!(view.component_type, 5125);
}

#[test]
fn pack_by_mode() {
    let mut g = MeshGenerator::new(None, None, None);
    for i in 0..3 {
        g.push_vertex(&vertex(i));
    }
    g.push_index_slice(&[0, 1, 2]);
    let p = g.pack(MeshMode::IndexedTriangles).unwrap();
    assert_eq!(p.buffers.len(), 2);
    assert_eq!(p.buffers[0].len(), 36);
    assert_eq!(p.buffers[1].len(), 12);
    assert_eq!(p.index_view.unwrap().component_count, 3);
    assert_eq!(p.mode, 4);
    let q = g.pack(MeshMode::TriangleFan).unwrap();
    assert_eq!(q.buffers.len(), 1);
    assert!(q.index_view.is_none());
    assert_eq!(q.mode, 6);
}

#[test]
fn pack_rejects_empty_and_mixed_meshes() {
    let g = MeshGenerator::new(None, None, None);
    assert_eq!(g.pack(MeshMode::Points).err(), Some(MeshError::NoVertices));
    let mut h = MeshGenerator::new(None, None, None);
    h.push_vertex(&vertex(0));
    h.push_vertex(&Vertex::new_with_normal([0, 0, 0], [1, 1, 1]));
    assert_eq!(h.pack(MeshMode::Points).err(), Some(MeshError::MixedAttributes));
}

#[test]
fn defaults_are_empty() {
    let v = Vertex::default();
    assert_eq!(v.as_slice(), vec![0, 0, 0]);
    assert_eq!(v.stride(), 12);
    let mut g = MeshGenerator::default();
    assert_eq!(g.vertex_count(), 0);
    assert_eq!(g.index_count(), None);
    assert!(g.vertex_face_adjacency_list().is_none());
    g.push_index(1);
    assert_eq!(g.index_count(), Some(1));
}
