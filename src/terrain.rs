//! Heightmap terrain: a square grid of `(chunk_size + 1)²` vertices, two
//! triangles per cell, and a closed-form vertex-to-face adjacency.
use vstd::prelude::*;
use vstd::arithmetic::div_mod::{
    lemma_fundamental_div_mod,
    lemma_fundamental_div_mod_converse,
    lemma_mod_pos_bound,
};

use crate::generator::{
    Face,
    MeshGenerator,
    adjacency_fits,
    faces_in_range,
    lists_view,
    spec_faces,
    touches,
};
use crate::vertex::Vertex;

verus! {

/// Why a terrain could not be generated.
#[derive(Copy, Clone, Debug, PartialEq, Eq, Structural)]
pub enum TerrainError {
    /// The chunk size is zero.
    ZeroSize,
    /// Some scale component is zero or negative.
    InvalidScale,
    /// The number of positions is not the number of grid vertices.
    PositionCount,
}

/// The float with bit pattern `b` is zero or negative (NaN is neither).
pub open spec fn spec_non_positive(b: u32) -> bool {
    let is_nan = (b & 0x7f80_0000) == 0x7f80_0000 && (b & 0x007f_ffff) != 0;
    !is_nan && ((b & 0x7fff_ffff) == 0 || (b >> 31u32) == 1)
}

/// Whether the float with bit pattern `b` is zero or negative.
pub fn is_non_positive(b: u32) -> (r: bool)
    ensures
        r == spec_non_positive(b),
{
    let is_nan = (b & 0x7f80_0000) == 0x7f80_0000 && (b & 0x007f_ffff) != 0;
    !is_nan && ((b & 0x7fff_ffff) == 0 || (b >> 31u32) == 1)
}

/// A grid of this size can be indexed with `u32` and packed in memory.
pub open spec fn terrain_fits(chunk_size: int) -> bool {
    &&& (chunk_size + 1) * (chunk_size + 1) <= u32::MAX
    &&& (chunk_size + 1) * (chunk_size + 1) * 48 <= usize::MAX
}

/// The index of the grid vertex in column `x` and row `z`.
pub open spec fn grid_vertex(cs: int, x: int, z: int) -> int {
    z * (cs + 1) + x
}

/// Face `f` of the grid: cell `f / 2` (row-major), lower triangle when `f` is
/// even, upper triangle when odd.
pub open spec fn terrain_face(cs: int, f: int) -> Face {
    let cell = f / 2;
    let r = cell / cs;
    let c = cell % cs;
    let ll = grid_vertex(cs, c, r);
    if f % 2 == 0 {
        Face {
            vertex_0_index: ll as usize,
            vertex_1_index: (ll + 1) as usize,
            vertex_2_index: (ll + cs + 1) as usize,
        }
    } else {
        Face {
            vertex_0_index: (ll + 1) as usize,
            vertex_1_index: (ll + cs + 2) as usize,
            vertex_2_index: (ll + cs + 1) as usize,
        }
    }
}

/// The faces of a grid of `cs × cs` cells.
pub open spec fn terrain_faces(cs: int) -> Seq<Face> {
    Seq::new((2 * cs * cs) as nat, |f: int| terrain_face(cs, f))
}

/// The faces touching grid vertex `(x, z)`: per corner, edge and interior case.
pub open spec fn terrain_adjacent(cs: int, x: int, z: int) -> Seq<usize> {
    let m2 = 2 * cs;
    if x == 0 && z == 0 {
        seq![0usize]
    } else if x == cs && z == 0 {
        seq![(m2 - 2) as usize, (m2 - 1) as usize]
    } else if x == 0 && z == cs {
        let s = m2 * (cs - 1);
        seq![s as usize, (s + 1) as usize]
    } else if x == cs && z == cs {
        seq![(2 * cs * cs - 1) as usize]
    } else if z == 0 {
        let s = 2 * x;
        seq![(s - 2) as usize, (s - 1) as usize, s as usize]
    } else if z == cs {
        let s = m2 * (z - 1) + 2 * x;
        seq![(s - 1) as usize, s as usize, (s + 1) as usize]
    } else if x == 0 {
        let s = m2 * (z - 1);
        seq![s as usize, (s + 1) as usize, (s + m2) as usize]
    } else if x == cs {
        let s = m2 * z - 1;
        seq![s as usize, (s + m2 - 1) as usize, (s + m2) as usize]
    } else {
        let b = m2 * (z - 1) + 2 * (x - 1);
        let a = b + m2;
        seq![
            (b + 1) as usize,
            (b + 2) as usize,
            (b + 3) as usize,
            a as usize,
            (a + 1) as usize,
            (a + 2) as usize,
        ]
    }
}

/// The closed-form adjacency list of the whole grid, one entry per vertex.
pub open spec fn terrain_adjacency(cs: int) -> Seq<Seq<usize>> {
    Seq::new(
        ((cs + 1) * (cs + 1)) as nat,
        |v: int| terrain_adjacent(cs, v % (cs + 1), v / (cs + 1)),
    )
}

/// The two faces of cell `(r, c)`.
pub proof fn lemma_cell_faces(cs: int, r: int, c: int)
    requires
        0 <= r < cs,
        0 <= c < cs,
    ensures
        0 <= 2 * (r * cs + c) + 1 < 2 * cs * cs,
        terrain_face(cs, 2 * (r * cs + c)) == (Face {
            vertex_0_index: grid_vertex(cs, c, r) as usize,
            vertex_1_index: (grid_vertex(cs, c, r) + 1) as usize,
            vertex_2_index: (grid_vertex(cs, c, r) + cs + 1) as usize,
        }),
        terrain_face(cs, 2 * (r * cs + c) + 1) == (Face {
            vertex_0_index: (grid_vertex(cs, c, r) + 1) as usize,
            vertex_1_index: (grid_vertex(cs, c, r) + cs + 2) as usize,
            vertex_2_index: (grid_vertex(cs, c, r) + cs + 1) as usize,
        }),
{
    let cell = r * cs + c;
    assert(0 <= cell < cs * cs) by (nonlinear_arith)
        requires
            0 <= r < cs,
            0 <= c < cs,
            cell == r * cs + c,
    ;
    assert(2 * cs * cs == 2 * (cs * cs)) by (nonlinear_arith);
    lemma_fundamental_div_mod_converse(2 * cell, 2, cell, 0);
    lemma_fundamental_div_mod_converse(2 * cell + 1, 2, cell, 1);
    lemma_fundamental_div_mod_converse(cell, cs, r, c);
}

/// Vertex `(x, z)` is a corner of triangle `t` of cell `(r, c)`.
pub open spec fn is_corner(r: int, c: int, t: int, x: int, z: int) -> bool {
    if t == 0 {
        (x == c && z == r) || (x == c + 1 && z == r) || (x == c && z == r + 1)
    } else {
        (x == c + 1 && z == r) || (x == c + 1 && z == r + 1) || (x == c && z == r + 1)
    }
}

pub proof fn lemma_corner_touches(cs: int, r: int, c: int, t: int, x: int, z: int)
    requires
        0 <= r < cs,
        0 <= c < cs,
        t == 0 || t == 1,
        is_corner(r, c, t, x, z),
        terrain_fits(cs),
    ensures
        0 <= 2 * (r * cs + c) + t < 2 * cs * cs,
        touches(terrain_face(cs, 2 * (r * cs + c) + t), grid_vertex(cs, x, z)),
{
    lemma_cell_faces(cs, r, c);
    let ll = grid_vertex(cs, c, r);
    assert(grid_vertex(cs, c + 1, r) == ll + 1);
    assert(grid_vertex(cs, c, r + 1) == ll + cs + 1) by (nonlinear_arith)
        requires
            ll == r * (cs + 1) + c,
    ;
    assert(grid_vertex(cs, c + 1, r + 1) == ll + cs + 2) by (nonlinear_arith)
        requires
            ll == r * (cs + 1) + c,
    ;
    assert(0 <= ll + cs + 2 <= (cs + 1) * (cs + 1)) by (nonlinear_arith)
        requires
            ll == r * (cs + 1) + c,
            0 <= r < cs,
            0 <= c < cs,
    ;
}

/// Face `f` exists and has grid vertex `(x, z)` as a corner.
pub open spec fn sound_entry(cs: int, x: int, z: int, f: int) -> bool {
    0 <= f < 2 * cs * cs && touches(terrain_face(cs, f), grid_vertex(cs, x, z))
}

proof fn lemma_entry(cs: int, r: int, c: int, t: int, x: int, z: int, f: int)
    requires
        0 <= r < cs,
        0 <= c < cs,
        t == 0 || t == 1,
        is_corner(r, c, t, x, z),
        terrain_fits(cs),
        f == 2 * (r * cs + c) + t,
    ensures
        sound_entry(cs, x, z, f),
        0 <= f <= usize::MAX,
        (f as usize) as int == f,
{
    lemma_corner_touches(cs, r, c, t, x, z);
    assert(2 * cs * cs <= (cs + 1) * (cs + 1) * 48) by (nonlinear_arith)
        requires
            cs >= 0,
    ;
}

/// Every face that the case table lists for a grid vertex exists and touches it.
#[verifier::spinoff_prover]
#[verifier::rlimit(40)]
pub proof fn lemma_terrain_adjacent_sound(cs: int, x: int, z: int)
    requires
        1 <= cs,
        0 <= x <= cs,
        0 <= z <= cs,
        terrain_fits(cs),
    ensures
        forall|k: int|
            0 <= k < terrain_adjacent(cs, x, z).len() ==> sound_entry(
                cs,
                x,
                z,
                #[trigger] terrain_adjacent(cs, x, z)[k] as int,
            ),
{
    let adj = terrain_adjacent(cs, x, z);
    let m2 = 2 * cs;
    if x == 0 && z == 0 {
        lemma_entry(cs, 0, 0, 0, x, z, 0);
    } else if x == cs && z == 0 {
        assert(2 * (0 * cs + (cs - 1)) == m2 - 2) by (nonlinear_arith)
            requires
                m2 == 2 * cs,
        ;
        lemma_entry(cs, 0, cs - 1, 0, x, z, m2 - 2);
        lemma_entry(cs, 0, cs - 1, 1, x, z, m2 - 1);
    } else if x == 0 && z == cs {
        let s0 = m2 * (cs - 1);
        assert(2 * ((cs - 1) * cs + 0) == s0) by (nonlinear_arith)
            requires
                m2 == 2 * cs,
                s0 == m2 * (cs - 1),
        ;
        lemma_entry(cs, cs - 1, 0, 0, x, z, s0);
        lemma_entry(cs, cs - 1, 0, 1, x, z, s0 + 1);
    } else if x == cs && z == cs {
        assert(2 * ((cs - 1) * cs + (cs - 1)) + 1 == 2 * cs * cs - 1) by (nonlinear_arith);
        lemma_entry(cs, cs - 1, cs - 1, 1, x, z, 2 * cs * cs - 1);
    } else if z == 0 {
        let s0 = 2 * x;
        lemma_entry(cs, 0, x - 1, 0, x, z, s0 - 2);
        lemma_entry(cs, 0, x - 1, 1, x, z, s0 - 1);
        lemma_entry(cs, 0, x, 0, x, z, s0);
    } else if z == cs {
        let s0 = m2 * (z - 1) + 2 * x;
        assert(2 * ((z - 1) * cs + (x - 1)) + 1 == s0 - 1) by (nonlinear_arith)
            requires
                m2 == 2 * cs,
                s0 == m2 * (z - 1) + 2 * x,
        ;
        lemma_entry(cs, z - 1, x - 1, 1, x, z, s0 - 1);
        lemma_entry(cs, z - 1, x, 0, x, z, s0);
        lemma_entry(cs, z - 1, x, 1, x, z, s0 + 1);
    } else if x == 0 {
        let s0 = m2 * (z - 1);
        assert(2 * ((z - 1) * cs + 0) == s0 && 2 * (z * cs + 0) == s0 + m2) by (nonlinear_arith)
            requires
                m2 == 2 * cs,
                s0 == m2 * (z - 1),
        ;
        lemma_entry(cs, z - 1, 0, 0, x, z, s0);
        lemma_entry(cs, z - 1, 0, 1, x, z, s0 + 1);
        lemma_entry(cs, z, 0, 0, x, z, s0 + m2);
    } else if x == cs {
        let s0 = m2 * z - 1;
        assert(2 * ((z - 1) * cs + (cs - 1)) + 1 == s0 && 2 * (z * cs + (cs - 1)) == s0 + m2 - 1)
            by (nonlinear_arith)
            requires
                m2 == 2 * cs,
                s0 == m2 * z - 1,
        ;
        lemma_entry(cs, z - 1, cs - 1, 1, x, z, s0);
        lemma_entry(cs, z, cs - 1, 0, x, z, s0 + m2 - 1);
        lemma_entry(cs, z, cs - 1, 1, x, z, s0 + m2);
    } else {
        let b = m2 * (z - 1) + 2 * (x - 1);
        let a = b + m2;
        assert(2 * ((z - 1) * cs + (x - 1)) + 1 == b + 1 && 2 * ((z - 1) * cs + x) == b + 2 && 2 * (
        z * cs + (x - 1)) == a && 2 * (z * cs + x) == a + 2) by (nonlinear_arith)
            requires
                m2 == 2 * cs,
                b == m2 * (z - 1) + 2 * (x - 1),
                a == b + m2,
        ;
        lemma_entry(cs, z - 1, x - 1, 1, x, z, b + 1);
        lemma_entry(cs, z - 1, x, 0, x, z, b + 2);
        lemma_entry(cs, z - 1, x, 1, x, z, b + 3);
        lemma_entry(cs, z, x - 1, 0, x, z, a);
        lemma_entry(cs, z, x - 1, 1, x, z, a + 1);
        lemma_entry(cs, z, x, 0, x, z, a + 2);
    }
}

/// `idx` lists the corners of the grid's faces, three per face, in face order.
pub open spec fn is_terrain_indices(idx: Seq<u32>, cs: int) -> bool {
    &&& idx.len() == 6 * cs * cs
    &&& forall|f: int|
        0 <= f < 2 * cs * cs ==> {
            &&& idx[3 * f] as int == (#[trigger] terrain_face(cs, f)).vertex_0_index as int
            &&& idx[3 * f + 1] as int == terrain_face(cs, f).vertex_1_index as int
            &&& idx[3 * f + 2] as int == terrain_face(cs, f).vertex_2_index as int
        }
}

fn push_cell(indices: &mut Vec<u32>, chunk_size: usize, r: usize, c: usize)
    requires
        0 <= r < chunk_size,
        0 <= c < chunk_size,
        terrain_fits(chunk_size as int),
        old(indices)@.len() == 6 * (r * chunk_size + c),
        forall|f: int|
            0 <= f < 2 * (r * chunk_size + c) ==> {
                &&& old(indices)@[3 * f] as int == (#[trigger] terrain_face(
                    chunk_size as int,
                    f,
                )).vertex_0_index as int
                &&& old(indices)@[3 * f + 1] as int == terrain_face(
                    chunk_size as int,
                    f,
                ).vertex_1_index as int
                &&& old(indices)@[3 * f + 2] as int == terrain_face(
                    chunk_size as int,
                    f,
                ).vertex_2_index as int
            },
    ensures
        final(indices)@.len() == 6 * (r * chunk_size + c + 1),
        forall|f: int|
            0 <= f < 2 * (r * chunk_size + c + 1) ==> {
                &&& final(indices)@[3 * f] as int == (#[trigger] terrain_face(
                    chunk_size as int,
                    f,
                )).vertex_0_index as int
                &&& final(indices)@[3 * f + 1] as int == terrain_face(
                    chunk_size as int,
                    f,
                ).vertex_1_index as int
                &&& final(indices)@[3 * f + 2] as int == terrain_face(
                    chunk_size as int,
                    f,
                ).vertex_2_index as int
            },
{
    let cs = chunk_size;
    proof {
        lemma_cell_faces(cs as int, r as int, c as int);
        assert(r * (cs + 1) + c + cs + 2 <= (cs + 1) * (cs + 1)) by (nonlinear_arith)
            requires
                r < cs,
                c < cs,
        ;
    }
    let ll = r * (cs + 1) + c;
    let ghost before = indices@;
    let ghost cell = r * cs + c;
    indices.push(ll as u32);
    indices.push((ll + 1) as u32);
    indices.push((ll + cs + 1) as u32);
    indices.push((ll + 1) as u32);
    indices.push((ll + cs + 2) as u32);
    indices.push((ll + cs + 1) as u32);
    proof {
        assert forall|f: int| 0 <= f < 2 * (cell + 1) implies {
            &&& indices@[3 * f] as int == (#[trigger] terrain_face(cs as int, f)).vertex_0_index as int
            &&& indices@[3 * f + 1] as int == terrain_face(cs as int, f).vertex_1_index as int
            &&& indices@[3 * f + 2] as int == terrain_face(cs as int, f).vertex_2_index as int
        } by {
            if f < 2 * cell {
                assert(indices@[3 * f] == before[3 * f]);
                assert(indices@[3 * f + 1] == before[3 * f + 1]);
                assert(indices@[3 * f + 2] == before[3 * f + 2]);
            }
        }
    }
}

/// The indices of a grid of `chunk_size × chunk_size` cells: per cell, row by
/// row, the lower triangle then the upper one.
fn init_indices(indices: &mut Vec<u32>, chunk_size: usize)
    requires
        old(indices)@.len() == 0,
        terrain_fits(chunk_size as int),
    ensures
        is_terrain_indices(final(indices)@, chunk_size as int),
{
    let cs = chunk_size;
    let mut r: usize = 0;
    while r < cs
        invariant
            r <= cs,
            terrain_fits(cs as int),
            indices@.len() == 6 * (r * cs),
            forall|f: int|
                0 <= f < 2 * (r * cs) ==> {
                    &&& indices@[3 * f] as int == (#[trigger] terrain_face(
                        cs as int,
                        f,
                    )).vertex_0_index as int
                    &&& indices@[3 * f + 1] as int == terrain_face(cs as int, f).vertex_1_index as int
                    &&& indices@[3 * f + 2] as int == terrain_face(cs as int, f).vertex_2_index as int
                },
        decreases cs - r,
    {
        let mut c: usize = 0;
        while c < cs
            invariant
                r < cs,
                c <= cs,
                terrain_fits(cs as int),
                indices@.len() == 6 * (r * cs + c),
                forall|f: int|
                    0 <= f < 2 * (r * cs + c) ==> {
                        &&& indices@[3 * f] as int == (#[trigger] terrain_face(
                            cs as int,
                            f,
                        )).vertex_0_index as int
                        &&& indices@[3 * f + 1] as int == terrain_face(
                            cs as int,
                            f,
                        ).vertex_1_index as int
                        &&& indices@[3 * f + 2] as int == terrain_face(
                            cs as int,
                            f,
                        ).vertex_2_index as int
                    },
            decreases cs - c,
        {
            push_cell(indices, cs, r, c);
            c = c + 1;
        }
        assert(r * cs + cs == (r + 1) * cs) by (nonlinear_arith);
        r = r + 1;
    }
    assert(2 * (cs * cs) == 2 * cs * cs && 6 * (cs * cs) == 6 * cs * cs) by (nonlinear_arith);
}

/// The faces touching grid vertex `(x, z)`, from the case table.
fn adjacent_faces_at(chunk_size: usize, x: usize, z: usize) -> (r: Vec<usize>)
    requires
        1 <= chunk_size,
        x <= chunk_size,
        z <= chunk_size,
        terrain_fits(chunk_size as int),
    ensures
        r@ == terrain_adjacent(chunk_size as int, x as int, z as int),
{
    let cs = chunk_size;
    proof {
        assert(2 * cs * cs + 4 * cs + 8 <= (cs + 1) * (cs + 1) * 48) by (nonlinear_arith);
        assert(2 * cs * z <= 2 * cs * cs) by (nonlinear_arith)
            requires
                z <= cs,
        ;
        if z >= 1 {
            assert(2 * cs * (z - 1) <= 2 * cs * cs - 2 * cs && 2 * cs * z >= 2) by (nonlinear_arith)
                requires
                    1 <= z <= cs,
            ;
        }
        assert(2 * cs * (cs - 1) <= 2 * cs * cs) by (nonlinear_arith)
            requires
                1 <= cs,
        ;
    }
    let m2 = 2 * cs;
    let v: Vec<usize> = if x == 0 && z == 0 {
        vec![0]
    } else if x == cs && z == 0 {
        vec![m2 - 2, m2 - 1]
    } else if x == 0 && z == cs {
        let start = m2 * (cs - 1);
        vec![start, start + 1]
    } else if x == cs && z == cs {
        vec![m2 * cs - 1]
    } else if z == 0 {
        let start = x * 2;
        vec![start - 2, start - 1, start]
    } else if z == cs {
        let start = m2 * (z - 1) + x * 2;
        vec![start - 1, start, start + 1]
    } else if x == 0 {
        let start = m2 * (z - 1);
        vec![start, start + 1, start + m2]
    } else if x == cs {
        let start = m2 * z - 1;
        vec![start, start + m2 - 1, start + m2]
    } else {
        let start_below = m2 * (z - 1) + (x - 1) * 2;
        let start_above = start_below + m2;
        vec![
            start_below + 1,
            start_below + 2,
            start_below + 3,
            start_above,
            start_above + 1,
            start_above + 2,
        ]
    };
    assert(v@ =~= terrain_adjacent(cs as int, x as int, z as int));
    v
}

/// The closed-form adjacency list of a grid, one entry per vertex, row by row.
fn init_vertex_face_adjacency_list(chunk_size: usize) -> (r: Vec<Vec<usize>>)
    requires
        1 <= chunk_size,
        terrain_fits(chunk_size as int),
    ensures
        lists_view(r@) == terrain_adjacency(chunk_size as int),
{
    let cs = chunk_size;
    let mut list: Vec<Vec<usize>> = Vec::new();
    let ghost target = terrain_adjacency(cs as int);
    let mut z: usize = 0;
    while z <= cs
        invariant
            z <= cs + 1,
            1 <= cs,
            terrain_fits(cs as int),
            target == terrain_adjacency(cs as int),
            list@.len() == z * (cs + 1),
            forall|v: int| 0 <= v < list@.len() ==> #[trigger] lists_view(list@)[v] == target[v],
        decreases cs + 1 - z,
    {
        let mut x: usize = 0;
        while x <= cs
            invariant
                z <= cs,
                x <= cs + 1,
                1 <= cs,
                terrain_fits(cs as int),
                target == terrain_adjacency(cs as int),
                list@.len() == z * (cs + 1) + x,
                forall|v: int|
                    0 <= v < list@.len() ==> #[trigger] lists_view(list@)[v] == target[v],
            decreases cs + 1 - x,
        {
            let entry = adjacent_faces_at(cs, x, z);
            proof {
                let v = z * (cs + 1) + x;
                lemma_fundamental_div_mod_converse(v, cs + 1, z as int, x as int);
                assert(v < (cs + 1) * (cs + 1)) by (nonlinear_arith)
                    requires
                        z <= cs,
                        x <= cs,
                        v == z * (cs + 1) + x,
                ;
            }
            let ghost before = list@;
            list.push(entry);
            proof {
                assert forall|v: int| 0 <= v < list@.len() implies #[trigger] lists_view(list@)[v]
                    == target[v] by {
                    if v < before.len() {
                        assert(list@[v] == before[v]);
                        assert(lists_view(before)[v] == target[v]);
                    }
                }
            }
            x = x + 1;
        }
        assert(z * (cs + 1) + cs + 1 == (z + 1) * (cs + 1)) by (nonlinear_arith);
        z = z + 1;
    }
    assert(lists_view(list@) =~= target);
    list
}

/// The height samples of an RGBA image of `width × height` pixels: the red
/// channel of each pixel, row by row. Only square images are heightmaps.
pub fn heightmap_samples(data: &[u8], width: usize, height: usize) -> (r: Result<
    Vec<u8>,
    &'static str,
>)
    requires
        4 * width * height <= data@.len(),
    ensures
        r is Err <==> width != height,
        r is Ok ==> r->Ok_0@ == Seq::new((width * height) as nat, |k: int| data@[4 * k]),
{
    if width != height {
        return Err("Height map must have equal dimensions");
    }
    let n = data.len();
    proof {
        assert(width * height <= 4 * width * height) by (nonlinear_arith);
        assert(4 * (width * height) == 4 * width * height) by (nonlinear_arith);
    }
    let count = width * height;
    let mut heights: Vec<u8> = Vec::with_capacity(count);
    let mut k: usize = 0;
    while k < count
        invariant
            k <= count,
            count == width * height,
            4 * count <= data@.len(),
            n == data@.len(),
            heights@ == Seq::new(k as nat, |j: int| data@[4 * j]),
        decreases count - k,
    {
        heights.push(data[4 * k]);
        k = k + 1;
        assert(heights@ =~= Seq::new(k as nat, |j: int| data@[4 * j]));
    }
    Ok(heights)
}

/// The vertices at `positions`, with no optional attribute.
pub open spec fn plain_vertices(positions: Seq<[u32; 3]>) -> Seq<Vertex> {
    Seq::new(
        positions.len(),
        |i: int| Vertex { position: positions[i], normal: None, tangent: None, texcoord_0: None },
    )
}

/// A heightmap terrain: its size, its scale (as float bit patterns) and its mesh.
#[derive(Clone, Debug)]
pub struct Terrain {
    chunk_size: usize,
    scale: [u32; 3],
    mesh: MeshGenerator,
}

impl Terrain {
    pub closed spec fn chunk_size_view(&self) -> usize {
        self.chunk_size
    }

    pub closed spec fn scale_view(&self) -> [u32; 3] {
        self.scale
    }

    pub closed spec fn mesh_view(&self) -> MeshGenerator {
        self.mesh
    }

    /// The number of cells along each side.
    pub fn chunk_size(&self) -> (r: usize)
        ensures
            r == self.chunk_size_view(),
    {
        self.chunk_size
    }

    /// The scale along x, y and z, as float bit patterns.
    pub fn scale(&self) -> (r: &[u32; 3])
        ensures
            *r == self.scale_view(),
    {
        &self.scale
    }

    /// The terrain's mesh.
    pub fn mesh(&self) -> (r: &MeshGenerator)
        ensures
            *r == self.mesh_view(),
    {
        &self.mesh
    }

    /// The terrain's mesh, to complete with normals before packing.
    pub fn mesh_mut(&mut self) -> (r: &mut MeshGenerator)
        ensures
            *r == old(self).mesh_view(),
            final(self).mesh_view() == *final(r),
            final(self).chunk_size_view() == old(self).chunk_size_view(),
            final(self).scale_view() == old(self).scale_view(),
    {
        &mut self.mesh
    }

    /// Builds a terrain of `chunk_size × chunk_size` cells from the positions of
    /// its grid vertices, row by row. Rejects a zero size, then a scale with a
    /// component that is zero or negative, then a wrong number of positions.
    pub fn generate(chunk_size: usize, scale: [u32; 3], positions: &[[u32; 3]]) -> (r: Result<
        Terrain,
        TerrainError,
    >)
        requires
            terrain_fits(chunk_size as int),
        ensures
            r == Err::<Terrain, TerrainError>(TerrainError::ZeroSize) <==> chunk_size == 0,
            r == Err::<Terrain, TerrainError>(TerrainError::InvalidScale) <==> chunk_size != 0 && (
            spec_non_positive(scale[0]) || spec_non_positive(scale[1]) || spec_non_positive(
                scale[2],
            )),
            r == Err::<Terrain, TerrainError>(TerrainError::PositionCount) <==> chunk_size != 0
                && !(spec_non_positive(scale[0]) || spec_non_positive(scale[1])
                || spec_non_positive(scale[2])) && positions@.len() != (chunk_size + 1) * (
            chunk_size + 1),
            r is Err ==> r == Err::<Terrain, TerrainError>(TerrainError::ZeroSize) || r == Err::<
                Terrain,
                TerrainError,
            >(TerrainError::InvalidScale) || r == Err::<Terrain, TerrainError>(
                TerrainError::PositionCount,
            ),
            r is Ok ==> {
                let t = r->Ok_0;
                let m = t.mesh_view();
                &&& t.chunk_size_view() == chunk_size
                &&& t.scale_view() == scale
                &&& m.vertices_view() == plain_vertices(positions@)
                &&& m.indices_view() is Some
                &&& is_terrain_indices(m.indices_view()->Some_0, chunk_size as int)
                &&& m.adjacency_view() == Some(terrain_adjacency(chunk_size as int))
            },
    {
        if chunk_size == 0 {
            return Err(TerrainError::ZeroSize);
        }
        if is_non_positive(scale[0]) || is_non_positive(scale[1]) || is_non_positive(scale[2]) {
            return Err(TerrainError::InvalidScale);
        }
        let cs = chunk_size;
        proof {
            assert((cs + 1) * (cs + 1) * 48 >= (cs + 1) * (cs + 1)) by (nonlinear_arith);
            assert(6 * cs * cs <= (cs + 1) * (cs + 1) * 48) by (nonlinear_arith);
            assert(cs + 1 <= (cs + 1) * (cs + 1) && cs * cs <= (cs + 1) * (cs + 1)) by (
            nonlinear_arith);
            assert(cs * cs * 2 == 2 * cs * cs) by (nonlinear_arith);
        }
        let vertex_count = (cs + 1) * (cs + 1);
        if positions.len() != vertex_count {
            return Err(TerrainError::PositionCount);
        }
        let face_count = cs * cs * 2;
        let mut generator = MeshGenerator::new(
            Some(vertex_count),
            Some(face_count * 3),
            Some(face_count),
        );
        {
            let vertices = generator.mut_ref_vertices();
            let mut i: usize = 0;
            while i < positions.len()
                invariant
                    i <= positions@.len(),
                    vertices@ == plain_vertices(positions@).subrange(0, i as int),
                decreases positions@.len() - i,
            {
                vertices.push(Vertex::new(positions[i]));
                i = i + 1;
                assert(vertices@ =~= plain_vertices(positions@).subrange(0, i as int));
            }
            assert(vertices@ =~= plain_vertices(positions@));
        }
        {
            let indices = generator.mut_ref_indices();
            init_indices(indices, cs);
        }
        {
            let adjacency = generator.mut_ref_vertex_face_adjacency_list();
            *adjacency = Some(init_vertex_face_adjacency_list(cs));
        }
        Ok(Terrain { chunk_size, scale, mesh: generator })
    }
}

/// Every corner of every grid face is a grid vertex.
pub proof fn lemma_terrain_face_in_range(cs: int, f: int)
    requires
        1 <= cs,
        0 <= f < 2 * cs * cs,
        terrain_fits(cs),
    ensures
        terrain_face(cs, f).vertex_0_index < (cs + 1) * (cs + 1),
        terrain_face(cs, f).vertex_1_index < (cs + 1) * (cs + 1),
        terrain_face(cs, f).vertex_2_index < (cs + 1) * (cs + 1),
{
    let cell = f / 2;
    let t = f % 2;
    lemma_fundamental_div_mod(cell, cs);
    lemma_mod_pos_bound(cell, cs);
    let r = cell / cs;
    let c = cell % cs;
    assert(2 * cs * cs == 2 * (cs * cs)) by (nonlinear_arith);
    assert(0 <= cell < cs * cs);
    assert(0 <= r < cs) by (nonlinear_arith)
        requires
            cell == cs * r + c,
            0 <= c < cs,
            0 <= cell < cs * cs,
            1 <= cs,
    ;
    assert(f == 2 * (r * cs + c) + t) by (nonlinear_arith)
        requires
            cell == cs * r + c,
            f == 2 * cell + t,
    ;
    lemma_cell_faces(cs, r, c);
    assert(r * (cs + 1) + c + cs + 2 < (cs + 1) * (cs + 1)) by (nonlinear_arith)
        requires
            0 <= r < cs,
            0 <= c < cs,
    ;
    if t == 0 {
        assert(terrain_face(cs, f) == terrain_face(cs, 2 * (r * cs + c)));
    } else {
        assert(terrain_face(cs, f) == terrain_face(cs, 2 * (r * cs + c) + 1));
    }
}

/// The mesh of a terrain is consistent: its faces are the grid's faces, every
/// corner is a vertex, and the closed-form adjacency list is the one that
/// scanning the faces builds: one entry per vertex, listing exactly the
/// existing faces that touch it.
pub proof fn lemma_terrain_mesh_consistent(cs: int, idx: Seq<u32>)
    requires
        1 <= cs,
        terrain_fits(cs),
        is_terrain_indices(idx, cs),
    ensures
        spec_faces(Some(idx), (cs + 1) * (cs + 1)) == terrain_faces(cs),
        faces_in_range(terrain_faces(cs), (cs + 1) * (cs + 1)),
        adjacency_fits(terrain_adjacency(cs), (cs + 1) * (cs + 1), 2 * cs * cs),
        crate::generator::is_adjacency(
            terrain_adjacency(cs),
            spec_faces(Some(idx), (cs + 1) * (cs + 1)),
            (cs + 1) * (cs + 1),
        ),
        forall|v: int, k: int|
            0 <= v < (cs + 1) * (cs + 1) && 0 <= k < terrain_adjacency(cs)[v].len() ==> touches(
                terrain_faces(cs)[#[trigger] terrain_adjacency(cs)[v][k] as int],
                v,
            ),
{
    let n = (cs + 1) * (cs + 1);
    let faces = spec_faces(Some(idx), n);
    lemma_terrain_adjacency_is_scan(cs);
    assert(6 * cs * cs == 3 * (2 * cs * cs)) by (nonlinear_arith);
    assert(faces.len() == 2 * cs * cs);
    assert forall|f: int| 0 <= f < 2 * cs * cs implies #[trigger] faces[f] == terrain_face(cs, f) by {
        lemma_terrain_face_in_range(cs, f);
    }
    assert(faces =~= terrain_faces(cs));
    assert forall|f: int| 0 <= f < terrain_faces(cs).len() implies {
        &&& (#[trigger] terrain_faces(cs)[f]).vertex_0_index < n
        &&& terrain_faces(cs)[f].vertex_1_index < n
        &&& terrain_faces(cs)[f].vertex_2_index < n
    } by {
        lemma_terrain_face_in_range(cs, f);
    }
    let adj = terrain_adjacency(cs);
    assert forall|v: int, k: int| 0 <= v < adj.len() && 0 <= k < adj[v].len() implies {
        &&& #[trigger] adj[v][k] < 2 * cs * cs
        &&& touches(terrain_faces(cs)[adj[v][k] as int], v)
    } by {
        let x = v % (cs + 1);
        let z = v / (cs + 1);
        lemma_fundamental_div_mod(v, cs + 1);
        lemma_mod_pos_bound(v, cs + 1);
        assert(0 <= z <= cs) by (nonlinear_arith)
            requires
                v == (cs + 1) * z + x,
                0 <= x < cs + 1,
                0 <= v < (cs + 1) * (cs + 1),
        ;
        assert(grid_vertex(cs, x, z) == v) by (nonlinear_arith)
            requires
                v == (cs + 1) * z + x,
        ;
        lemma_terrain_adjacent_sound(cs, x, z);
        assert(sound_entry(cs, x, z, terrain_adjacent(cs, x, z)[k] as int));
    }
}

proof fn lemma_grid_vertex_injective(cs: int, x1: int, z1: int, x2: int, z2: int)
    requires
        0 <= cs,
        0 <= x1 <= cs,
        0 <= x2 <= cs,
        0 <= z1,
        0 <= z2,
        grid_vertex(cs, x1, z1) == grid_vertex(cs, x2, z2),
    ensures
        x1 == x2,
        z1 == z2,
{
    let v = grid_vertex(cs, x1, z1);
    assert(v == z1 * (cs + 1) + x1);
    lemma_fundamental_div_mod_converse(v, cs + 1, z1, x1);
    lemma_fundamental_div_mod_converse(v, cs + 1, z2, x2);
}

/// A face touching a grid vertex has it as a corner of its triangle.
proof fn lemma_touch_is_corner(cs: int, f: int, x: int, z: int) -> (rct: (int, int, int))
    requires
        1 <= cs,
        0 <= f < 2 * cs * cs,
        0 <= x <= cs,
        0 <= z <= cs,
        terrain_fits(cs),
        touches(terrain_face(cs, f), grid_vertex(cs, x, z)),
    ensures
        0 <= rct.0 < cs,
        0 <= rct.1 < cs,
        rct.2 == 0 || rct.2 == 1,
        f == 2 * (rct.0 * cs + rct.1) + rct.2,
        is_corner(rct.0, rct.1, rct.2, x, z),
{
    let cell = f / 2;
    let t = f % 2;
    lemma_fundamental_div_mod(cell, cs);
    lemma_mod_pos_bound(cell, cs);
    let r = cell / cs;
    let c = cell % cs;
    assert(2 * cs * cs == 2 * (cs * cs)) by (nonlinear_arith);
    assert(0 <= r < cs) by (nonlinear_arith)
        requires
            cell == cs * r + c,
            0 <= c < cs,
            0 <= cell < cs * cs,
            1 <= cs,
    ;
    assert(f == 2 * (r * cs + c) + t) by (nonlinear_arith)
        requires
            cell == cs * r + c,
            f == 2 * cell + t,
    ;
    let ll = grid_vertex(cs, c, r);
    assert(grid_vertex(cs, c + 1, r) == ll + 1);
    assert(grid_vertex(cs, c, r + 1) == ll + cs + 1) by (nonlinear_arith)
        requires
            ll == r * (cs + 1) + c,
    ;
    assert(grid_vertex(cs, c + 1, r + 1) == ll + cs + 2) by (nonlinear_arith)
        requires
            ll == r * (cs + 1) + c,
    ;
    lemma_cell_faces(cs, r, c);
    assert(ll + cs + 2 < (cs + 1) * (cs + 1)) by (nonlinear_arith)
        requires
            ll == r * (cs + 1) + c,
            0 <= r < cs,
            0 <= c < cs,
    ;
    let v = grid_vertex(cs, x, z);
    let face = terrain_face(cs, f);
    if t == 0 {
        assert(face == terrain_face(cs, 2 * (r * cs + c)));
        if face.vertex_0_index == v {
            lemma_grid_vertex_injective(cs, x, z, c, r);
        } else if face.vertex_1_index == v {
            lemma_grid_vertex_injective(cs, x, z, c + 1, r);
        } else {
            lemma_grid_vertex_injective(cs, x, z, c, r + 1);
        }
    } else {
        assert(face == terrain_face(cs, 2 * (r * cs + c) + 1));
        if face.vertex_0_index == v {
            lemma_grid_vertex_injective(cs, x, z, c + 1, r);
        } else if face.vertex_1_index == v {
            lemma_grid_vertex_injective(cs, x, z, c + 1, r + 1);
        } else {
            lemma_grid_vertex_injective(cs, x, z, c, r + 1);
        }
    }
    (r, c, t)
}

/// The case table lists every face that has the vertex as a corner.
#[verifier::spinoff_prover]
#[verifier::rlimit(60)]
proof fn lemma_corner_listed(cs: int, x: int, z: int, r: int, c: int, t: int)
    requires
        1 <= cs,
        0 <= x <= cs,
        0 <= z <= cs,
        0 <= r < cs,
        0 <= c < cs,
        t == 0 || t == 1,
        is_corner(r, c, t, x, z),
        terrain_fits(cs),
    ensures
        terrain_adjacent(cs, x, z).contains((2 * (r * cs + c) + t) as usize),
{
    let adj = terrain_adjacent(cs, x, z);
    let f = 2 * (r * cs + c) + t;
    let zc = z * cs;
    let cc = cs * cs;
    assert(2 * cs * (z - 1) == 2 * zc - 2 * cs && 2 * cs * z == 2 * zc && 2 * cs * (cs - 1) == 2
        * cc - 2 * cs && 2 * cs * cs == 2 * cc && (z - 1) * cs == zc - cs) by (nonlinear_arith)
        requires
            zc == z * cs,
            cc == cs * cs,
    ;
    assert(r * cs == if r == z {
        zc
    } else {
        zc - cs
    }) by (nonlinear_arith)
        requires
            zc == z * cs,
            r == z || r == z - 1,
    ;
    assert(z == cs ==> zc == cc) by (nonlinear_arith)
        requires
            zc == z * cs,
            cc == cs * cs,
    ;
    assert(0 <= zc <= cc && 2 * cc + 4 * cs + 8 <= usize::MAX) by (nonlinear_arith)
        requires
            zc == z * cs,
            cc == cs * cs,
            0 <= z <= cs,
            terrain_fits(cs),
    ;
    assert(z >= 1 ==> zc >= cs) by (nonlinear_arith)
        requires
            zc == z * cs,
            1 <= cs,
    ;
    assert(z <= cs - 1 ==> zc <= cc - cs) by (nonlinear_arith)
        requires
            zc == z * cs,
            cc == cs * cs,
            1 <= cs,
    ;
    let hit = adj[0] as int == f || (adj.len() > 1 && adj[1] as int == f) || (adj.len() > 2
        && adj[2] as int == f) || (adj.len() > 3 && adj[3] as int == f) || (adj.len() > 4
        && adj[4] as int == f) || (adj.len() > 5 && adj[5] as int == f);
    if t == 0 {
        if c == x && r == z {
            assert(f == 2 * zc + 2 * x);
            assert(hit);
        } else if c == x - 1 && r == z {
            assert(f == 2 * zc + 2 * x - 2);
            assert(hit);
        } else {
            assert(f == 2 * zc - 2 * cs + 2 * x);
            assert(hit);
        }
    } else {
        if c == x - 1 && r == z {
            assert(f == 2 * zc + 2 * x - 1);
            assert(hit);
        } else if c == x - 1 && r == z - 1 {
            assert(f == 2 * zc - 2 * cs + 2 * x - 1);
            assert(hit);
        } else {
            assert(f == 2 * zc - 2 * cs + 2 * x + 1);
            assert(hit);
        }
    }
    if adj[0] as int == f {
        assert(adj[0] == f as usize);
    } else if adj.len() > 1 && adj[1] as int == f {
        assert(adj[1] == f as usize);
    } else if adj.len() > 2 && adj[2] as int == f {
        assert(adj[2] == f as usize);
    } else if adj.len() > 3 && adj[3] as int == f {
        assert(adj[3] == f as usize);
    } else if adj.len() > 4 && adj[4] as int == f {
        assert(adj[4] == f as usize);
    } else {
        assert(adj[5] == f as usize);
    }
}

/// The case table lists each vertex's faces in increasing order.
proof fn lemma_table_increasing(cs: int, x: int, z: int)
    requires
        1 <= cs,
        0 <= x <= cs,
        0 <= z <= cs,
        terrain_fits(cs),
    ensures
        crate::generator::strictly_increasing(terrain_adjacent(cs, x, z)),
{
    let adj = terrain_adjacent(cs, x, z);
    let zc = z * cs;
    let cc = cs * cs;
    assert(2 * cs * (z - 1) == 2 * zc - 2 * cs && 2 * cs * z == 2 * zc && 2 * cs * (cs - 1) == 2
        * cc - 2 * cs && 2 * cs * cs == 2 * cc) by (nonlinear_arith)
        requires
            zc == z * cs,
            cc == cs * cs,
    ;
    assert(0 <= zc <= cc && 2 * cc + 4 * cs + 8 <= usize::MAX) by (nonlinear_arith)
        requires
            zc == z * cs,
            cc == cs * cs,
            0 <= z <= cs,
            terrain_fits(cs),
    ;
    assert(z >= 1 ==> zc >= cs) by (nonlinear_arith)
        requires
            zc == z * cs,
            1 <= cs,
    ;
    assert forall|i: int, j: int| 0 <= i < j < adj.len() implies adj[i] < adj[j] by {
    }
}

/// The closed-form adjacency of a grid is exactly the list that scanning its
/// faces builds: for each vertex, every face touching it, in increasing order.
pub proof fn lemma_terrain_adjacency_is_scan(cs: int)
    requires
        1 <= cs,
        terrain_fits(cs),
    ensures
        crate::generator::is_adjacency(
            terrain_adjacency(cs),
            terrain_faces(cs),
            (cs + 1) * (cs + 1),
        ),
{
    let faces = terrain_faces(cs);
    let n = (cs + 1) * (cs + 1);
    assert(2 * cs * cs <= usize::MAX) by (nonlinear_arith)
        requires
            terrain_fits(cs),
            1 <= cs,
    ;
    assert forall|v: int| 0 <= v < n implies #[trigger] terrain_adjacency(cs)[v]
        == crate::generator::spec_adjacent_faces(faces, v) by {
        let x = v % (cs + 1);
        let z = v / (cs + 1);
        lemma_fundamental_div_mod(v, cs + 1);
        lemma_mod_pos_bound(v, cs + 1);
        assert(0 <= z <= cs) by (nonlinear_arith)
            requires
                v == (cs + 1) * z + x,
                0 <= x < cs + 1,
                0 <= v < (cs + 1) * (cs + 1),
        ;
        assert(grid_vertex(cs, x, z) == v) by (nonlinear_arith)
            requires
                v == (cs + 1) * z + x,
        ;
        let table = terrain_adjacent(cs, x, z);
        let scan = crate::generator::spec_adjacent_faces(faces, v);
        crate::generator::lemma_adjacent_upto_members(faces, v, faces.len() as int);
        crate::generator::lemma_adjacent_upto_increasing(faces, v, faces.len() as int);
        lemma_table_increasing(cs, x, z);
        lemma_terrain_adjacent_sound(cs, x, z);
        assert forall|e: usize| table.contains(e) <==> scan.contains(e) by {
            if table.contains(e) {
                let k = choose|k: int| 0 <= k < table.len() && table[k] == e;
                assert(sound_entry(cs, x, z, table[k] as int));
                assert(faces[e as int] == terrain_face(cs, e as int));
            }
            if scan.contains(e) {
                let k = choose|k: int| 0 <= k < scan.len() && scan[k] == e;
                assert(scan[k] < faces.len());
                assert(touches(faces[scan[k] as int], v));
                let rct = lemma_touch_is_corner(cs, e as int, x, z);
                lemma_corner_listed(cs, x, z, rct.0, rct.1, rct.2);
            }
        }
        crate::generator::lemma_increasing_unique(table, scan);
    }
}

} // verus!
