use meshgen::config::{AttributeConfig, UniformConfig};
use meshgen::input::{InputEvents, MouseEvent, MouseEventKind};
use meshgen::program::{missing_uniform_warnings, program_logs, resolve_attributes};
use meshgen::scene_graph::{NodeData, NodeTypeData, SceneGraph, Transform};
use meshgen::texture::{is_power_of_2, texture_setup, texture_units, Sampler};
use meshgen::warning::{ShaderWarning, Warning};

type Mat = [i64; 4];

fn mat_mul(a: Mat, b: Mat) -> Mat {
    [
        a[0] * b[0] + a[1] * b[2],
        a[0] * b[1] + a[1] * b[3],
        a[2] * b[0] + a[3] * b[2],
        a[2] * b[1] + a[3] * b[3],
    ]
}

const ID: Mat = [1, 0, 0, 1];

fn node(m: Mat, mesh: Option<&'static str>) -> NodeData<Mat, &'static str> {
    let kind = match mesh {
        Some(name) => NodeTypeData::Mesh(name),
        None => NodeTypeData::Transform,
    };
    NodeData::new(Transform::new(&m), kind)
}

#[test]
fn world_matrices_are_chain_products() {
    let mut g = SceneGraph::new(node(ID, None));
    let a = g.add_child(0, node([1, 2, 0, 1], None), &mat_mul);
    let b = g.add_child(a, node([0, 1, 1, 0], Some("cube")), &mat_mul);
    let c = g.add_child(0, node([2, 0, 0, 3], Some("sphere")), &mat_mul);
    let d = g.add_child(b, node([1, 0, 5, 1], None), &mat_mul);
    let root = [3, 1, 1, 1];
    g.set_local_matrix(0, &root, &mat_mul);
    let la = g.transform(a).local_matrix();
    let lb = g.transform(b).local_matrix();
    let lc = g.transform(c).local_matrix();
    let ld = g.transform(d).local_matrix();
    assert_eq!(g.transform(0).world_matrix(), root);
    assert_eq!(g.transform(a).world_matrix(), mat_mul(root, la));
    assert_eq!(g.transform(b).world_matrix(), mat_mul(mat_mul(root, la), lb));
    assert_eq!(g.transform(c).world_matrix(), mat_mul(root, lc));
    assert_eq!(
        g.transform(d).world_matrix(),
        mat_mul(mat_mul(mat_mul(root, la), lb), ld)
    );
    assert_ne!(mat_mul(la, lb), mat_mul(lb, la));
}

#[test]
fn setting_a_subtree_leaves_the_rest() {
    let mut g = SceneGraph::new(node([2, 0, 0, 2], None));
    let a = g.add_child(0, node(ID, None), &mat_mul);
    let b = g.add_child(a, node([1, 1, 0, 1], None), &mat_mul);
    let c = g.add_child(0, node([0, 1, 1, 0], None), &mat_mul);
    let before_c = g.transform(c).world_matrix();
    g.set_local_matrix(a, &[1, 0, 4, 1], &mat_mul);
    assert_eq!(g.transform(a).world_matrix(), mat_mul([2, 0, 0, 2], [1, 0, 4, 1]));
    assert_eq!(
        g.transform(b).world_matrix(),
        mat_mul(mat_mul([2, 0, 0, 2], [1, 0, 4, 1]), [1, 1, 0, 1])
    );
    assert_eq!(g.transform(c).world_matrix(), before_c);
    assert_eq!(g.parent(b), a);
    assert_eq!(g.len(), 4);
}

#[test]
fn node_kinds_are_exclusive() {
    let mut g = SceneGraph::new(node(ID, None));
    let m = g.add_child(0, node(ID, Some("mesh")), &mat_mul);
    assert!(g.node_type_data(0).is_transform());
    assert!(!g.node_type_data(0).is_mesh());
    assert!(g.node_type_data(m).is_mesh());
    assert!(!g.node_type_data(m).is_transform());
    let b = g.add_child(0, node(ID, Some("sibling")), &mat_mul);
    let _ = g.add_child(0, node(ID, None), &mat_mul);
    let k = g.add_child(m, node(ID, Some("child")), &mat_mul);
    assert_eq!(g.draw_list(), vec![m, k, b]);
    let n = node([1, 2, 3, 4], None);
    assert_eq!(n.ref_transform().world_matrix(), [1, 2, 3, 4]);
    assert_eq!(n.ref_transform().local_matrix(), [1, 2, 3, 4]);
}

#[test]
fn mouse_buttons_from_mask() {
    let e = MouseEvent::from_parts(10, -4, 0b10_0101, true, false, false, true);
    assert_eq!(e.x, 10);
    assert_eq!(e.y, -4);
    assert!(e.left_btn);
    assert!(!e.right_btn);
    assert!(e.middle_btn);
    assert!(!e.aux_btn);
    assert!(!e.back_btn);
    assert!(e.forward_btn);
    assert!(e.ctrl && !e.shift && !e.alt && e.meta);
    let d = MouseEvent::default();
    assert_eq!(d, MouseEvent::from_parts(0, 0, 0, false, false, false, false));
}

#[test]
fn warning_texts() {
    let a = ShaderWarning::AttributeNotFound("a_position".to_string());
    assert_eq!(a.to_string(), "Warning: Attribute not found a_position");
    let u = ShaderWarning::UniformNotFound("MODEL_MATRIX".to_string());
    assert_eq!(Warning::from(&u).to_string(), "Warning: Uniform not found MODEL_MATRIX");
    assert_eq!(Warning::Custom("plain".to_string()).to_string(), "plain");
}

#[test]
fn sampler_defaults_and_mipmap_sizes() {
    let s = Sampler::default();
    assert_eq!(s.mag_filter, 9729);
    assert_eq!(s.min_filter, 9729);
    assert_eq!(s.wrap_s, 33071);
    assert_eq!(s.wrap_t, 33071);
    assert!(is_power_of_2(2));
    assert!(is_power_of_2(4096));
    assert!(!is_power_of_2(1));
    assert!(!is_power_of_2(8192));
    assert!(!is_power_of_2(100));
}

#[test]
fn attribute_locations_split_into_found_and_missing() {
    let attrs: Vec<AttributeConfig> = ["a", "b", "c"]
        .iter()
        .map(|n| AttributeConfig { name: n.to_string() })
        .collect();
    let (found, missing) = resolve_attributes(&attrs, &[0, -1, 3]);
    assert_eq!(found, vec![("a".to_string(), 0), ("c".to_string(), 3)]);
    assert_eq!(missing.len(), 1);
    assert_eq!(missing[0].to_string(), "Warning: Attribute not found b");
}

#[test]
fn missing_uniforms_warn_in_order() {
    let uniforms: Vec<UniformConfig> = ["M", "V", "P"]
        .iter()
        .map(|n| UniformConfig { name: n.to_string() })
        .collect();
    let w = missing_uniform_warnings(&uniforms, &[false, true, false]);
    let texts: Vec<String> = w.iter().map(|w| w.to_string()).collect();
    assert_eq!(
        texts,
        vec!["Warning: Uniform not found M", "Warning: Uniform not found P"]
    );
}

#[test]
fn link_logs_are_assembled() {
    assert_eq!(
        program_logs("p", "v", "f"),
        "Program Log:\np\nVertex Log:\nv\nFragment Log:\nf\n"
    );
}

#[test]
fn textures_get_mipmaps_and_units() {
    let s = Sampler::default();
    let a = texture_setup(256, 512, 0, &s);
    assert!(a.use_mipmap);
    assert_eq!(a.min_filter, 9987);
    assert_eq!(a.format, 6408);
    let b = texture_setup(300, 512, 1, &s);
    assert!(!b.use_mipmap);
    assert_eq!(b.min_filter, 9729);
    assert_eq!(b.format, 6407);
    assert_eq!(
        texture_units([true, false, true, true]),
        [Some(0), None, Some(1), Some(2)]
    );
    assert_eq!(texture_units([false; 4]), [None; 4]);
}

#[test]
fn input_events_queue_until_flushed() {
    let mut q = InputEvents::new();
    let a = MouseEvent::from_parts(1, 2, 0, false, false, false, false);
    let b = MouseEvent::from_parts(3, 4, 1, false, false, false, false);
    q.record(MouseEventKind::Move, a);
    q.record(MouseEventKind::Move, b);
    q.record(MouseEventKind::Enter, a);
    q.record(MouseEventKind::Enter, b);
    assert_eq!(q.pending(MouseEventKind::Move), vec![a, b]);
    assert_eq!(q.pending(MouseEventKind::Enter), vec![b]);
    assert!(q.pending(MouseEventKind::Down).is_empty());
    q.flush_events();
    assert!(q.pending(MouseEventKind::Move).is_empty());
    assert!(q.pending(MouseEventKind::Enter).is_empty());
}
