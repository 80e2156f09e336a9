use meshgen::buffer_view::{BufferView, BufferViewConfig, FLOAT};
use meshgen::mesh::{AttributeBufferViews, MeshMode};
use meshgen::vertex::Vertex;

#[test]
fn lib_it_works() {
    assert_eq!(2 + 2, 4);
}

fn bits(v: [f32; 3]) -> [u32; 3] {
    [v[0].to_bits(), v[1].to_bits(), v[2].to_bits()]
}

fn config(id: &str, buffer: usize, offset: Option<i32>) -> BufferViewConfig {
    BufferViewConfig {
        id: id.to_string(),
        buffer,
        length: 96,
        buffer_offset: Some(4),
        offset,
        stride: None,
        component_size: 3,
        component_count: 8,
        component_type: FLOAT,
    }
}

#[test]
fn stride_counts_present_attributes() {
    let mut v = Vertex::new(bits([1.0, 2.0, 3.0]));
    assert_eq!(v.stride(), 12);
    v.normal = Some(bits([0.0, 1.0, 0.0]));
    assert_eq!(v.stride(), 24);
    v.tangent = Some(bits([1.0, 0.0, 0.0]));
    assert_eq!(v.stride(), 36);
    v.texcoord_0 = Some([0.5f32.to_bits(), 0.25f32.to_bits()]);
    assert_eq!(v.stride(), 44);
    let t = Vertex {
        texcoord_0: Some([0, 0]),
        ..Vertex::new([0, 0, 0])
    };
    assert_eq!(t.stride(), 20);
}

#[test]
fn as_slice_keeps_attribute_order() {
    let v = Vertex {
        position: [1, 2, 3],
        normal: None,
        tangent: Some([4, 5, 6]),
        texcoord_0: Some([7, 8]),
    };
    assert_eq!(v.as_slice(), vec![1, 2, 3, 4, 5, 6, 7, 8]);
    let w = Vertex::new_with_normal([1, 2, 3], [9, 9, 9]);
    assert_eq!(w.as_slice(), vec![1, 2, 3, 9, 9, 9]);
}

#[test]
fn views_follow_the_layout() {
    let v = Vertex {
        position: [0, 0, 0],
        normal: Some([0, 0, 0]),
        tangent: None,
        texcoord_0: Some([0, 0]),
    };
    let p = v.position_view(10);
    assert_eq!(p.length, 320);
    assert_eq!(p.stride, 32);
    assert_eq!(p.offset, 0);
    assert_eq!(p.component_size, 3);
    assert_eq!(p.component_count, 10);
    assert_eq!(p.component_type, FLOAT);
    let n = v.normal_view(10).unwrap();
    assert_eq!(n.offset, 12);
    assert_eq!(n.combined_offset, 12);
    assert!(v.tangent_view(10).is_none());
    let t = v.texcoord_0_view(10).unwrap();
    assert_eq!(t.offset, 24);
    assert_eq!(t.component_size, 2);
    let full = Vertex {
        tangent: Some([0, 0, 0]),
        ..v
    };
    assert_eq!(full.tangent_view(3).unwrap().offset, 24);
    assert_eq!(full.texcoord_0_view(3).unwrap().offset, 36);
    assert_eq!(full.texcoord_0_view(3).unwrap().length, 132);
}

#[test]
fn buffer_view_from_config_defaults_to_zero() {
    let c = config("POSITION", 2, Some(8));
    let v = BufferView::new(&c);
    assert_eq!(v.buffer, 2);
    assert_eq!(v.length, 96);
    assert_eq!(v.buffer_offset, 4);
    assert_eq!(v.offset, 8);
    assert_eq!(v.combined_offset, 12);
    assert_eq!(v.stride, 0);
    let bare = BufferViewConfig {
        buffer_offset: None,
        offset: None,
        stride: Some(16),
        ..c
    };
    let w = BufferView::new(&bare);
    assert_eq!(w.combined_offset, 0);
    assert_eq!(w.stride, 16);
}

#[test]
fn attribute_views_need_a_position() {
    let views = vec![config("NORMAL", 0, None), config("COLOR", 0, None)];
    assert!(AttributeBufferViews::try_from(&views).is_err());
    assert!(AttributeBufferViews::try_from(&[]).is_err());
}

#[test]
fn attribute_views_take_the_last_of_each_name() {
    let views = vec![
        config("POSITION", 0, Some(1)),
        config("TEXCOORD_1", 1, None),
        config("UNKNOWN", 2, None),
        config("POSITION", 3, Some(2)),
    ];
    let a = AttributeBufferViews::try_from(&views).unwrap();
    assert_eq!(a.position.buffer, 3);
    assert_eq!(a.position.combined_offset, 6);
    assert_eq!(a.texcoord_1.unwrap().buffer, 1);
    assert!(a.normal.is_none());
    assert!(a.texcoord_0.is_none());
}

#[test]
fn modes_map_to_primitives() {
    assert_eq!(MeshMode::Points.primitive(), 0);
    assert_eq!(MeshMode::TriangleFan.primitive(), 6);
    assert_eq!(MeshMode::Triangles.primitive(), 4);
    assert_eq!(MeshMode::IndexedTriangles.primitive(), 4);
}
