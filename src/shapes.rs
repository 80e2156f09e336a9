//! Index topologies of the parametric shapes, and the unit cube.
use vstd::prelude::*;
use vstd::arithmetic::div_mod::lemma_fundamental_div_mod_converse;

use crate::generator::{MeshGenerator, faces_in_range, spec_faces, triangulable};
use crate::vertex::Vertex;

verus! {

/// Bit pattern of the float 0.5.
pub const HALF: u32 = 0x3f00_0000;

/// Bit pattern of the float -0.5.
pub const MINUS_HALF: u32 = 0xbf00_0000;

/// The corners of the unit cube centred on the origin, bottom face first.
pub open spec fn cube_positions() -> Seq<[u32; 3]> {
    seq![
        [MINUS_HALF, MINUS_HALF, MINUS_HALF],
        [HALF, MINUS_HALF, MINUS_HALF],
        [HALF, MINUS_HALF, HALF],
        [MINUS_HALF, MINUS_HALF, HALF],
        [MINUS_HALF, HALF, MINUS_HALF],
        [HALF, HALF, MINUS_HALF],
        [HALF, HALF, HALF],
        [MINUS_HALF, HALF, HALF],
    ]
}

/// Two triangles per side of the cube.
pub open spec fn cube_indices() -> Seq<u32> {
    seq![
        0u32, 1, 5, 5, 4, 0,
        1, 2, 6, 6, 5, 1,
        2, 3, 7, 7, 6, 2,
        3, 0, 4, 4, 7, 3,
        0, 1, 2, 2, 3, 0,
        4, 5, 6, 6, 7, 4,
    ]
}

/// The unit cube: eight corners without optional attributes and thirty-six
/// indices, two triangles per side.
pub fn generate_cube() -> (r: MeshGenerator)
    ensures
        r.vertices_view().len() == 8,
        forall|i: int|
            0 <= i < 8 ==> (#[trigger] r.vertices_view()[i]).position == cube_positions()[i]
                && r.vertices_view()[i].normal is None && r.vertices_view()[i].tangent is None
                && r.vertices_view()[i].texcoord_0 is None,
        r.indices_view() == Some(cube_indices()),
        r.adjacency_view() is None,
        cube_indices().len() == 36,
        r.faces_view().len() == 12,
        forall|i: int| 0 <= i < 36 ==> #[trigger] cube_indices()[i] < 8,
        triangulable(r.indices_view(), 8),
        faces_in_range(r.faces_view(), 8),
{
    let mut generator = MeshGenerator::new(Some(8), Some(36), Some(12));
    generator.push_vertex(&Vertex::new([MINUS_HALF, MINUS_HALF, MINUS_HALF]));
    generator.push_vertex(&Vertex::new([HALF, MINUS_HALF, MINUS_HALF]));
    generator.push_vertex(&Vertex::new([HALF, MINUS_HALF, HALF]));
    generator.push_vertex(&Vertex::new([MINUS_HALF, MINUS_HALF, HALF]));
    generator.push_vertex(&Vertex::new([MINUS_HALF, HALF, MINUS_HALF]));
    generator.push_vertex(&Vertex::new([HALF, HALF, MINUS_HALF]));
    generator.push_vertex(&Vertex::new([HALF, HALF, HALF]));
    generator.push_vertex(&Vertex::new([MINUS_HALF, HALF, HALF]));
    let indices: [u32; 36] = [
        0, 1, 5, 5, 4, 0,
        1, 2, 6, 6, 5, 1,
        2, 3, 7, 7, 6, 2,
        3, 0, 4, 4, 7, 3,
        0, 1, 2, 2, 3, 0,
        4, 5, 6, 6, 7, 4,
    ];
    generator.push_index_slice(&indices);
    proof {
        assert(indices@ =~= cube_indices());
        assert(generator.vertices_view()[0].position == cube_positions()[0]);
        crate::generator::lemma_triangulable_faces_in_range(generator.indices_view(), 8);
    }
    generator
}

/// The triangles of stack `i`, sector `j` of a sphere of `v` stacks and `h`
/// sectors: the top stack has only its lower triangle, the bottom stack only
/// its upper one.
pub open spec fn uv_cell(v: int, h: int, i: int, j: int) -> Seq<u32> {
    let k1 = i * (h + 1) + j;
    let k2 = k1 + h + 1;
    (if i != 0 {
        seq![k1 as u32, k2 as u32, (k1 + 1) as u32]
    } else {
        Seq::empty()
    }) + (if i != v - 1 {
        seq![(k1 + 1) as u32, k2 as u32, (k2 + 1) as u32]
    } else {
        Seq::empty()
    })
}

/// The indices of the first `n` sectors of stack `i`.
pub open spec fn uv_stack(v: int, h: int, i: int, n: int) -> Seq<u32>
    decreases n,
{
    if n <= 0 {
        Seq::empty()
    } else {
        uv_stack(v, h, i, n - 1) + uv_cell(v, h, i, n - 1)
    }
}

/// The indices of the first `m` stacks.
pub open spec fn uv_stacks(v: int, h: int, m: int) -> Seq<u32>
    decreases m,
{
    if m <= 0 {
        Seq::empty()
    } else {
        uv_stacks(v, h, m - 1) + uv_stack(v, h, m - 1, h)
    }
}

/// A sphere of this many stacks and sectors can be indexed with `u32`.
pub open spec fn uv_sphere_fits(v: int, h: int) -> bool {
    &&& 1 <= v
    &&& (v + 1) * (h + 1) <= u32::MAX
    &&& 6 * v * h + 6 <= usize::MAX
}

proof fn lemma_uv_cell_bounds(v: int, h: int, i: int, j: int)
    requires
        0 <= i < v,
        0 <= j < h,
        uv_sphere_fits(v, h),
    ensures
        forall|k: int|
            0 <= k < uv_cell(v, h, i, j).len() ==> #[trigger] uv_cell(v, h, i, j)[k] < (v + 1) * (h
                + 1),
        uv_cell(v, h, i, j).len() <= 6,
{
    let k1 = i * (h + 1) + j;
    assert(k1 + h + 2 < (v + 1) * (h + 1)) by (nonlinear_arith)
        requires
            0 <= i < v,
            0 <= j < h,
            k1 == i * (h + 1) + j,
    ;
}

proof fn lemma_uv_stacks_bounds(v: int, h: int, m: int, n: int)
    requires
        0 <= m < v,
        0 <= n <= h,
        uv_sphere_fits(v, h),
    ensures
        forall|k: int|
            0 <= k < (uv_stacks(v, h, m) + uv_stack(v, h, m, n)).len() ==> #[trigger] (uv_stacks(
                v,
                h,
                m,
            ) + uv_stack(v, h, m, n))[k] < (v + 1) * (h + 1),
        (uv_stacks(v, h, m) + uv_stack(v, h, m, n)).len() <= 6 * (m * h + n),
    decreases m, n,
{
    let all = uv_stacks(v, h, m) + uv_stack(v, h, m, n);
    if n > 0 {
        lemma_uv_stacks_bounds(v, h, m, n - 1);
        lemma_uv_cell_bounds(v, h, m, n - 1);
        let prev = uv_stacks(v, h, m) + uv_stack(v, h, m, n - 1);
        assert(all =~= prev + uv_cell(v, h, m, n - 1));
        assert forall|k: int| 0 <= k < all.len() implies #[trigger] all[k] < (v + 1) * (h + 1) by {
            if k < prev.len() {
                assert(all[k] == prev[k]);
            } else {
                assert(all[k] == uv_cell(v, h, m, n - 1)[k - prev.len()]);
            }
        }
    } else if m > 0 {
        lemma_uv_stacks_bounds(v, h, m - 1, h);
        assert(all =~= uv_stacks(v, h, m - 1) + uv_stack(v, h, m - 1, h));
        assert(6 * ((m - 1) * h + h) == 6 * (m * h + 0)) by (nonlinear_arith);
    } else {
        assert(all =~= Seq::<u32>::empty());
    }
}

/// The indices of a latitude-longitude sphere of `vertical_subdivisions` stacks
/// and `horizontal_subdivisions` sectors, over its vertex grid of
/// `(vertical_subdivisions + 1) × (horizontal_subdivisions + 1)` vertices
/// (stack by stack). The poles' stacks contribute one triangle per sector, the
/// others two.
pub fn uv_sphere_indices(vertical_subdivisions: usize, horizontal_subdivisions: usize) -> (r: Vec<
    u32,
>)
    requires
        uv_sphere_fits(vertical_subdivisions as int, horizontal_subdivisions as int),
    ensures
        r@ == uv_stacks(
            vertical_subdivisions as int,
            horizontal_subdivisions as int,
            vertical_subdivisions as int,
        ),
        forall|k: int|
            0 <= k < r@.len() ==> #[trigger] r@[k] < (vertical_subdivisions + 1) * (
            horizontal_subdivisions + 1),
{
    let v = vertical_subdivisions;
    let h = horizontal_subdivisions;
    let mut indices: Vec<u32> = Vec::new();
    let mut i: usize = 0;
    while i < v
        invariant
            i <= v,
            uv_sphere_fits(v as int, h as int),
            indices@ == uv_stacks(v as int, h as int, i as int),
        decreases v - i,
    {
        let ghost base = indices@;
        proof {
            assert(i * (h + 1) + h + h + 2 <= (v + 1) * (h + 1)) by (nonlinear_arith)
                requires
                    i < v,
            ;
        }
        let mut k1: usize = i * (h + 1);
        let mut k2: usize = k1 + h + 1;
        let mut j: usize = 0;
        while j < h
            invariant
                i < v,
                j <= h,
                uv_sphere_fits(v as int, h as int),
                i * (h + 1) + h + h + 2 <= (v + 1) * (h + 1),
                k1 == i * (h + 1) + j,
                k2 == k1 + h + 1,
                base == uv_stacks(v as int, h as int, i as int),
                indices@ == base + uv_stack(v as int, h as int, i as int, j as int),
            decreases h - j,
        {
            let ghost before = indices@;
            if i != 0 {
                indices.push(k1 as u32);
                indices.push(k2 as u32);
                indices.push((k1 + 1) as u32);
            }
            if i != v - 1 {
                indices.push((k1 + 1) as u32);
                indices.push(k2 as u32);
                indices.push((k2 + 1) as u32);
            }
            assert(indices@ =~= before + uv_cell(v as int, h as int, i as int, j as int));
            assert(base + uv_stack(v as int, h as int, i as int, j + 1) =~= before + uv_cell(
                v as int,
                h as int,
                i as int,
                j as int,
            ));
            k1 = k1 + 1;
            k2 = k2 + 1;
            j = j + 1;
        }
        i = i + 1;
    }
    proof {
        if v > 0 {
            lemma_uv_stacks_bounds(v as int, h as int, v - 1, h as int);
        }
    }
    indices
}

/// A latitude-longitude sphere from its vertex grid (stack by stack) and its
/// stack and sector counts.
pub fn generate_uv_sphere(
    vertices: &[Vertex],
    vertical_subdivisions: usize,
    horizontal_subdivisions: usize,
) -> (r: MeshGenerator)
    requires
        uv_sphere_fits(vertical_subdivisions as int, horizontal_subdivisions as int),
        vertices@.len() == (vertical_subdivisions + 1) * (horizontal_subdivisions + 1),
    ensures
        r.vertices_view() == vertices@,
        r.indices_view() == Some(
            uv_stacks(
                vertical_subdivisions as int,
                horizontal_subdivisions as int,
                vertical_subdivisions as int,
            ),
        ),
        r.adjacency_view() is None,
        forall|k: int|
            0 <= k < r.indices_view()->Some_0.len() ==> #[trigger] r.indices_view()->Some_0[k]
                < vertices@.len(),
{
    let vertex_count = vertices.len();
    let indices = uv_sphere_indices(vertical_subdivisions, horizontal_subdivisions);
    let mut generator = MeshGenerator::new(Some(vertex_count), Some(indices.len()), None);
    let mut i: usize = 0;
    while i < vertices.len()
        invariant
            i <= vertices@.len(),
            generator.vertices_view() == vertices@.subrange(0, i as int),
            generator.indices_view() == Some(Seq::<u32>::empty()),
        decreases vertices@.len() - i,
    {
        generator.push_vertex(&vertices[i]);
        i = i + 1;
        assert(generator.vertices_view() =~= vertices@.subrange(0, i as int));
    }
    assert(vertices@.subrange(0, i as int) =~= vertices@);
    generator.push_index_slice(indices.as_slice());
    assert(Seq::<u32>::empty() + indices@ =~= indices@);
    generator
}

/// The twenty triangles of the base icosahedron over its twenty-two vertices
/// (five top and five bottom copies of the poles, four seam copies, eight
/// shared ring vertices).
pub open spec fn icosahedron_index_seq() -> Seq<u32> {
    seq![
        0u32, 10, 14, 1, 14, 15, 2, 15, 16, 3, 16, 17, 4, 17, 11,
        10, 12, 14, 12, 18, 14, 14, 18, 15, 18, 19, 15, 15, 19, 16,
        19, 20, 16, 16, 20, 17, 20, 21, 17, 17, 21, 11, 21, 13, 11,
        5, 18, 12, 6, 19, 18, 7, 20, 19, 8, 21, 20, 9, 13, 21,
    ]
}

/// Number of vertices of the base icosahedron with its texture seams.
pub const ICOSAHEDRON_VERTEX_COUNT: usize = 22;

/// The indices of the base icosahedron.
pub fn icosahedron_indices() -> (r: Vec<u32>)
    ensures
        r@ == icosahedron_index_seq(),
        r@.len() == 60,
        forall|k: int| 0 <= k < r@.len() ==> #[trigger] r@[k] < ICOSAHEDRON_VERTEX_COUNT,
{
    let v: Vec<u32> = vec![
        0, 10, 14, 1, 14, 15, 2, 15, 16, 3, 16, 17, 4, 17, 11,
        10, 12, 14, 12, 18, 14, 14, 18, 15, 18, 19, 15, 15, 19, 16,
        19, 20, 16, 16, 20, 17, 20, 21, 17, 17, 21, 11, 21, 13, 11,
        5, 18, 12, 6, 19, 18, 7, 20, 19, 8, 21, 20, 9, 13, 21,
    ];
    assert(v@ =~= icosahedron_index_seq());
    v
}

/// The four triangles replacing triangle `t` of `idx`, whose edge midpoints are
/// the new vertices `vc + 3t` (first-second), `vc + 3t + 1` (second-third) and
/// `vc + 3t + 2` (first-third).
pub open spec fn subdivided_block(idx: Seq<u32>, vc: int, t: int) -> Seq<u32> {
    let a = idx[3 * t];
    let b = idx[3 * t + 1];
    let c = idx[3 * t + 2];
    let n1 = (vc + 3 * t) as u32;
    let n2 = (vc + 3 * t + 1) as u32;
    let n3 = (vc + 3 * t + 2) as u32;
    seq![a, n1, n3, n1, b, n2, n1, n2, n3, n3, n2, c]
}

/// The subdivided indices of the first `t` triangles.
pub open spec fn subdivided(idx: Seq<u32>, vc: int, t: int) -> Seq<u32>
    decreases t,
{
    if t <= 0 {
        Seq::empty()
    } else {
        subdivided(idx, vc, t - 1) + subdivided_block(idx, vc, t - 1)
    }
}

/// The pairs of vertices whose midpoints the subdivision of the first `t`
/// triangles appends, in order.
pub open spec fn midpoint_pairs(idx: Seq<u32>, t: int) -> Seq<[u32; 2]>
    decreases t,
{
    if t <= 0 {
        Seq::empty()
    } else {
        let s = 3 * (t - 1);
        midpoint_pairs(idx, t - 1) + seq![
            [idx[s], idx[s + 1]],
            [idx[s + 1], idx[s + 2]],
            [idx[s], idx[s + 2]],
        ]
    }
}

/// For each triangle of `indices`, the vertex pairs whose midpoints one
/// subdivision step adds: first-second, second-third, first-third.
pub fn midpoint_sources(indices: &[u32]) -> (r: Vec<[u32; 2]>)
    requires
        indices@.len() % 3 == 0,
    ensures
        r@ == midpoint_pairs(indices@, (indices@.len() / 3) as int),
        r@.len() == indices@.len(),
{
    let n = indices.len();
    let count = n / 3;
    let mut pairs: Vec<[u32; 2]> = Vec::new();
    let mut t: usize = 0;
    while t < count
        invariant
            t <= count,
            n == indices@.len(),
            count == indices@.len() / 3,
            indices@.len() % 3 == 0,
            pairs@ == midpoint_pairs(indices@, t as int),
            pairs@.len() == 3 * t,
        decreases count - t,
    {
        assert(3 * t + 2 < indices@.len()) by (nonlinear_arith)
            requires
                t < indices@.len() / 3,
                indices@.len() % 3 == 0,
        ;
        let s = 3 * t;
        let a = indices[s];
        let b = indices[s + 1];
        let c = indices[s + 2];
        pairs.push([a, b]);
        pairs.push([b, c]);
        pairs.push([a, c]);
        t = t + 1;
        assert(pairs@ =~= midpoint_pairs(indices@, t as int));
    }
    pairs
}

proof fn lemma_subdivided_bounds(idx: Seq<u32>, vc: int, t: int)
    requires
        0 <= t <= idx.len() / 3,
        idx.len() % 3 == 0,
        vc + idx.len() <= u32::MAX,
        forall|k: int| 0 <= k < idx.len() ==> #[trigger] idx[k] < vc,
    ensures
        subdivided(idx, vc, t).len() == 12 * t,
        forall|k: int|
            0 <= k < subdivided(idx, vc, t).len() ==> #[trigger] subdivided(idx, vc, t)[k] < vc
                + idx.len(),
    decreases t,
{
    if t > 0 {
        lemma_subdivided_bounds(idx, vc, t - 1);
        let prev = subdivided(idx, vc, t - 1);
        let blk = subdivided_block(idx, vc, t - 1);
        assert(idx[3 * (t - 1)] < vc);
        assert(idx[3 * (t - 1) + 1] < vc);
        assert(idx[3 * (t - 1) + 2] < vc);
        assert forall|k: int| 0 <= k < subdivided(idx, vc, t).len() implies #[trigger] subdivided(
            idx,
            vc,
            t,
        )[k] < vc + idx.len() by {
            if k < prev.len() {
                assert(subdivided(idx, vc, t)[k] == prev[k]);
            } else {
                assert(subdivided(idx, vc, t)[k] == blk[k - prev.len()]);
            }
        }
    }
}

/// One subdivision step: each triangle of `indices` becomes four, through the
/// midpoints of its edges, which are new vertices appended after the
/// `vertex_count` existing ones in the order of `midpoint_sources`. Shared
/// edges are not welded: each triangle gets midpoints of its own.
pub fn subdivide(indices: &[u32], vertex_count: usize) -> (r: Vec<u32>)
    requires
        indices@.len() % 3 == 0,
        vertex_count + indices@.len() <= u32::MAX,
    ensures
        r@ == subdivided(indices@, vertex_count as int, (indices@.len() / 3) as int),
        r@.len() == 4 * indices@.len(),
        (forall|k: int| 0 <= k < indices@.len() ==> #[trigger] indices@[k] < vertex_count) ==> (
        forall|k: int| 0 <= k < r@.len() ==> #[trigger] r@[k] < vertex_count + indices@.len()),
{
    let count = indices.len() / 3;
    let mut out: Vec<u32> = Vec::new();
    let mut t: usize = 0;
    while t < count
        invariant
            t <= count,
            count == indices@.len() / 3,
            indices@.len() % 3 == 0,
            vertex_count + indices@.len() <= u32::MAX,
            out@ == subdivided(indices@, vertex_count as int, t as int),
        decreases count - t,
    {
        let s = 3 * t;
        let a = indices[s];
        let b = indices[s + 1];
        let c = indices[s + 2];
        let n1 = (vertex_count + s) as u32;
        let n2 = (vertex_count + s + 1) as u32;
        let n3 = (vertex_count + s + 2) as u32;
        let ghost before = out@;
        out.push(a);
        out.push(n1);
        out.push(n3);
        out.push(n1);
        out.push(b);
        out.push(n2);
        out.push(n1);
        out.push(n2);
        out.push(n3);
        out.push(n3);
        out.push(n2);
        out.push(c);
        assert(out@ =~= before + subdivided_block(indices@, vertex_count as int, t as int));
        t = t + 1;
    }
    proof {
        if forall|k: int| 0 <= k < indices@.len() ==> #[trigger] indices@[k] < vertex_count {
            lemma_subdivided_bounds(indices@, vertex_count as int, count as int);
        }
        lemma_subdivided_len(indices@, vertex_count as int, count as int);
    }
    out
}

proof fn lemma_subdivided_len(idx: Seq<u32>, vc: int, t: int)
    requires
        0 <= t,
    ensures
        subdivided(idx, vc, t).len() == 12 * t,
    decreases t,
{
    if t > 0 {
        lemma_subdivided_len(idx, vc, t - 1);
    }
}

} // verus!
