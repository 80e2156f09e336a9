//! The mesh builder: accumulates vertices and indices, derives faces and the
//! vertex-to-face adjacency, and packs interleaved vertex and index buffers.
use vstd::prelude::*;

use crate::buffer_view::{BufferView, UNSIGNED_INT};
use crate::mesh::{AttributeBufferViews, MeshMode, spec_primitive};
use crate::vertex::{
    Vertex,
    attribute_view,
    layout_of,
    lemma_stride_bounds,
    spec_components,
    spec_stride,
    view_fits,
};

verus! {

/// A triangle: three indices into the vertex list of its mesh.
#[derive(Copy, Clone, Debug, PartialEq, Eq, Structural)]
pub struct Face {
    pub vertex_0_index: usize,
    pub vertex_1_index: usize,
    pub vertex_2_index: usize,
}

/// Face `f` has vertex `v` as one of its corners.
pub open spec fn touches(f: Face, v: int) -> bool {
    f.vertex_0_index == v || f.vertex_1_index == v || f.vertex_2_index == v
}

/// The indices, ascending, of the faces among the first `n` that touch `v`.
pub open spec fn adjacent_upto(faces: Seq<Face>, v: int, n: int) -> Seq<usize>
    decreases n,
{
    if n <= 0 {
        Seq::empty()
    } else {
        adjacent_upto(faces, v, n - 1) + if touches(faces[n - 1], v) {
            seq![(n - 1) as usize]
        } else {
            Seq::empty()
        }
    }
}

/// The indices, ascending, of all faces that touch `v`.
pub open spec fn spec_adjacent_faces(faces: Seq<Face>, v: int) -> Seq<usize> {
    adjacent_upto(faces, v, faces.len() as int)
}

/// `adj` lists, for each of `vertex_count` vertices, the faces that touch it.
pub open spec fn is_adjacency(adj: Seq<Seq<usize>>, faces: Seq<Face>, vertex_count: int) -> bool {
    &&& adj.len() == vertex_count
    &&& forall|v: int| 0 <= v < vertex_count ==> #[trigger] adj[v] == spec_adjacent_faces(faces, v)
}

/// Every corner of every face indexes one of `vertex_count` vertices.
pub open spec fn faces_in_range(faces: Seq<Face>, vertex_count: int) -> bool {
    forall|k: int|
        0 <= k < faces.len() ==> {
            &&& (#[trigger] faces[k]).vertex_0_index < vertex_count
            &&& faces[k].vertex_1_index < vertex_count
            &&& faces[k].vertex_2_index < vertex_count
        }
}

/// An entry of an adjacency list is the index of a face touching its vertex,
/// and every face touching the vertex is listed.
pub proof fn lemma_adjacent_upto_members(faces: Seq<Face>, v: int, n: int)
    requires
        0 <= n <= faces.len(),
        faces.len() <= usize::MAX,
    ensures
        forall|k: int|
            0 <= k < adjacent_upto(faces, v, n).len() ==> {
                &&& (#[trigger] adjacent_upto(faces, v, n)[k]) < n
                &&& touches(faces[adjacent_upto(faces, v, n)[k] as int], v)
            },
        forall|f: int|
            0 <= f < n && touches(#[trigger] faces[f], v) ==> adjacent_upto(
                faces,
                v,
                n,
            ).contains(f as usize),
    decreases n,
{
    if n > 0 {
        lemma_adjacent_upto_members(faces, v, n - 1);
        let prev = adjacent_upto(faces, v, n - 1);
        let cur = adjacent_upto(faces, v, n);
        assert forall|k: int| 0 <= k < cur.len() implies {
            &&& (#[trigger] cur[k]) < n
            &&& touches(faces[cur[k] as int], v)
        } by {
            if k < prev.len() {
                assert(cur[k] == prev[k]);
            } else {
                if !touches(faces[n - 1], v) {
                    assert(cur =~= prev);
                }
                assert(cur[k] == (n - 1) as usize);
            }
        }
        assert forall|f: int| 0 <= f < n && touches(#[trigger] faces[f], v) implies cur.contains(
            f as usize,
        ) by {
            if f < n - 1 {
                let k = choose|k: int| 0 <= k < prev.len() && prev[k] == f as usize;
                assert(cur[k] == prev[k]);
            } else {
                assert(cur[prev.len() as int] == f as usize);
            }
        }
    }
}

/// Each element is smaller than the next.
pub open spec fn strictly_increasing(s: Seq<usize>) -> bool {
    forall|i: int, j: int| 0 <= i < j < s.len() ==> s[i] < s[j]
}

/// An adjacency entry lists its faces in increasing order.
pub proof fn lemma_adjacent_upto_increasing(faces: Seq<Face>, v: int, n: int)
    requires
        0 <= n <= faces.len(),
        faces.len() <= usize::MAX,
    ensures
        strictly_increasing(adjacent_upto(faces, v, n)),
    decreases n,
{
    if n > 0 {
        lemma_adjacent_upto_increasing(faces, v, n - 1);
        lemma_adjacent_upto_members(faces, v, n - 1);
        let prev = adjacent_upto(faces, v, n - 1);
        let cur = adjacent_upto(faces, v, n);
        assert forall|i: int, j: int| 0 <= i < j < cur.len() implies cur[i] < cur[j] by {
            if j >= prev.len() {
                assert(cur[i] == prev[i]);
                assert(prev[i] < n - 1);
                assert(cur[j] == (n - 1) as usize);
            } else {
                assert(cur[i] == prev[i] && cur[j] == prev[j]);
            }
        }
    }
}

/// Two increasing sequences with the same elements are equal.
pub proof fn lemma_increasing_unique(a: Seq<usize>, b: Seq<usize>)
    requires
        strictly_increasing(a),
        strictly_increasing(b),
        forall|x: usize| a.contains(x) <==> b.contains(x),
    ensures
        a == b,
    decreases a.len() + b.len(),
{
    if a.len() == 0 {
        if b.len() > 0 {
            assert(b.contains(b[0]));
        }
        assert(a =~= b);
    } else if b.len() == 0 {
        assert(a.contains(a[0]));
    } else {
        let la = a.last();
        let lb = b.last();
        assert(a.contains(la));
        assert(b.contains(lb));
        let ib = choose|i: int| 0 <= i < b.len() && b[i] == la;
        let ia = choose|i: int| 0 <= i < a.len() && a[i] == lb;
        if ib < b.len() - 1 {
            assert(b[ib] < lb);
        }
        if ia < a.len() - 1 {
            assert(a[ia] < la);
        }
        assert(la == lb);
        let a2 = a.drop_last();
        let b2 = b.drop_last();
        assert forall|x: usize| a2.contains(x) <==> b2.contains(x) by {
            if a2.contains(x) {
                let i = choose|i: int| 0 <= i < a2.len() && a2[i] == x;
                assert(a[i] == x && x < la);
                assert(a.contains(x));
                let j = choose|j: int| 0 <= j < b.len() && b[j] == x;
                assert(j != b.len() - 1);
                assert(b2[j] == x);
            }
            if b2.contains(x) {
                let i = choose|i: int| 0 <= i < b2.len() && b2[i] == x;
                assert(b[i] == x && x < lb);
                assert(b.contains(x));
                let j = choose|j: int| 0 <= j < a.len() && a[j] == x;
                assert(j != a.len() - 1);
                assert(a2[j] == x);
            }
        }
        lemma_increasing_unique(a2, b2);
        assert(a =~= a2.push(la));
        assert(b =~= b2.push(lb));
    }
}

/// A byte sequence: each word little-endian, in order.
pub open spec fn word_bytes(x: u32) -> Seq<u8> {
    seq![(x & 0xff) as u8, ((x >> 8) & 0xff) as u8, ((x >> 16) & 0xff) as u8, ((x >> 24) & 0xff) as u8]
}

pub open spec fn le_bytes(words: Seq<u32>) -> Seq<u8>
    decreases words.len(),
{
    if words.len() == 0 {
        Seq::empty()
    } else {
        le_bytes(words.drop_last()) + word_bytes(words.last())
    }
}

/// The components of a list of vertices, one vertex after the other.
pub open spec fn flat_components(vs: Seq<Vertex>) -> Seq<u32>
    decreases vs.len(),
{
    if vs.len() == 0 {
        Seq::empty()
    } else {
        flat_components(vs.drop_last()) + spec_components(vs.last())
    }
}

/// All vertices carry the optional attributes of the first one.
pub open spec fn uniform_layout(vs: Seq<Vertex>) -> bool {
    forall|i: int| 0 <= i < vs.len() ==> layout_of(#[trigger] vs[i]) == layout_of(vs[0])
}

pub proof fn lemma_le_bytes_len(words: Seq<u32>)
    ensures
        le_bytes(words).len() == 4 * words.len(),
    decreases words.len(),
{
    if words.len() > 0 {
        lemma_le_bytes_len(words.drop_last());
    }
}

pub proof fn lemma_flat_components_len(vs: Seq<Vertex>, n: int)
    requires
        uniform_layout(vs),
        vs.len() > 0,
        0 <= n <= vs.len(),
    ensures
        flat_components(vs.subrange(0, n)).len() * 4 == n * spec_stride(vs[0]),
    decreases n,
{
    if n > 0 {
        let sub = vs.subrange(0, n);
        assert(sub.drop_last() =~= vs.subrange(0, n - 1));
        assert(flat_components(sub) == flat_components(vs.subrange(0, n - 1)) + spec_components(
            vs[n - 1],
        ));
        lemma_flat_components_len(vs, n - 1);
        lemma_stride_bounds(vs[n - 1]);
        assert(layout_of(vs[n - 1]) == layout_of(vs[0]));
        assert(spec_stride(vs[n - 1]) == spec_stride(vs[0]));
        let a = flat_components(vs.subrange(0, n - 1)).len();
        let c = spec_components(vs[n - 1]).len();
        assert(flat_components(sub).len() == a + c);
        assert((a + c) * 4 == a * 4 + c * 4);
        assert(a * 4 == (n - 1) * spec_stride(vs[0]));
        assert(c * 4 == spec_stride(vs[0]));
        assert(n * spec_stride(vs[0]) == (n - 1) * spec_stride(vs[0]) + spec_stride(vs[0]))
            by (nonlinear_arith);
    } else {
        assert(vs.subrange(0, n) =~= Seq::<Vertex>::empty());
    }
}

/// A packed mesh, ready to hand to the graphics device: its buffers, the view
/// of its index buffer, the views of its attributes and its primitive code.
#[derive(Clone, Debug)]
pub struct PackedMesh {
    pub buffers: Vec<Vec<u8>>,
    pub index_view: Option<BufferView>,
    pub attribute_buffer_views: AttributeBufferViews,
    pub mode: u32,
}

/// Why a mesh could not be packed.
#[derive(Copy, Clone, Debug, PartialEq, Eq, Structural)]
pub enum MeshError {
    /// The mesh has no vertex.
    NoVertices,
    /// Some vertex carries other optional attributes than the first one.
    MixedAttributes,
    /// The indices do not group into triangles of existing vertices.
    InvalidTopology,
    /// A stored adjacency list does not describe the faces of the mesh.
    InvalidAdjacency,
}

/// Accumulates the geometry of a mesh.
#[derive(Clone, Debug)]
pub struct MeshGenerator {
    vertices: Vec<Vertex>,
    indices: Vec<u32>,
    has_indices: bool,
    vertex_face_adjacency_list: Option<Vec<Vec<usize>>>,
    faces_hint: usize,
}

pub open spec fn lists_view(l: Seq<Vec<usize>>) -> Seq<Seq<usize>> {
    l.map_values(|v: Vec<usize>| v@)
}

pub open spec fn opt_lists_view(o: Option<Vec<Vec<usize>>>) -> Option<Seq<Seq<usize>>> {
    match o {
        Some(v) => Some(lists_view(v@)),
        None => None,
    }
}

/// The faces that `indices` (or, without them, consecutive vertex triples) describe.
pub open spec fn spec_faces(indices: Option<Seq<u32>>, vertex_count: int) -> Seq<Face> {
    match indices {
        Some(idx) => Seq::new(
            (idx.len() / 3) as nat,
            |k: int|
                Face {
                    vertex_0_index: idx[3 * k] as usize,
                    vertex_1_index: idx[3 * k + 1] as usize,
                    vertex_2_index: idx[3 * k + 2] as usize,
                },
        ),
        None => Seq::new(
            (vertex_count / 3) as nat,
            |k: int|
                Face {
                    vertex_0_index: (3 * k) as usize,
                    vertex_1_index: (3 * k + 1) as usize,
                    vertex_2_index: (3 * k + 2) as usize,
                },
        ),
    }
}

/// The indices (or the vertices, without indices) group into whole triangles
/// whose corners are all existing vertices.
pub open spec fn triangulable(indices: Option<Seq<u32>>, vertex_count: int) -> bool {
    match indices {
        Some(idx) => idx.len() % 3 == 0 && forall|i: int|
            0 <= i < idx.len() ==> #[trigger] idx[i] < vertex_count,
        None => vertex_count % 3 == 0,
    }
}

pub proof fn lemma_triangulable_faces_in_range(indices: Option<Seq<u32>>, vertex_count: int)
    requires
        triangulable(indices, vertex_count),
        0 <= vertex_count <= usize::MAX,
    ensures
        faces_in_range(spec_faces(indices, vertex_count), vertex_count),
{
    let faces = spec_faces(indices, vertex_count);
    match indices {
        Some(idx) => {
            assert forall|k: int| 0 <= k < faces.len() implies {
                &&& (#[trigger] faces[k]).vertex_0_index < vertex_count
                &&& faces[k].vertex_1_index < vertex_count
                &&& faces[k].vertex_2_index < vertex_count
            } by {
                assert(3 * k + 2 < idx.len()) by (nonlinear_arith)
                    requires
                        0 <= k < idx.len() / 3,
                ;
                assert(idx[3 * k] < vertex_count);
                assert(idx[3 * k + 1] < vertex_count);
                assert(idx[3 * k + 2] < vertex_count);
            }
        },
        None => {
            assert forall|k: int| 0 <= k < faces.len() implies {
                &&& (#[trigger] faces[k]).vertex_0_index < vertex_count
                &&& faces[k].vertex_1_index < vertex_count
                &&& faces[k].vertex_2_index < vertex_count
            } by {
                assert(3 * k + 2 < vertex_count) by (nonlinear_arith)
                    requires
                        0 <= k < vertex_count / 3,
                        vertex_count % 3 == 0,
                ;
            }
        },
    }
}

/// `adj` has one entry per vertex, and each lists existing faces only.
pub open spec fn adjacency_fits(adj: Seq<Seq<usize>>, vertex_count: int, face_count: int) -> bool {
    &&& adj.len() == vertex_count
    &&& forall|v: int, k: int|
        0 <= v < adj.len() && 0 <= k < adj[v].len() ==> #[trigger] adj[v][k] < face_count
}

/// The bytes of the interleaved attribute buffer of `vs`.
pub open spec fn spec_attribute_bytes(vs: Seq<Vertex>) -> Seq<u8> {
    le_bytes(flat_components(vs))
}

/// The attribute views of `count` vertices laid out like `v`.
pub open spec fn spec_attribute_views(v: Vertex, count: usize) -> AttributeBufferViews {
    let stride = spec_stride(v);
    let normal = if v.normal is Some { 12int } else { 0 };
    let tangent = if v.tangent is Some { 12int } else { 0 };
    AttributeBufferViews {
        position: attribute_view(count, stride, 0, 3),
        normal: if v.normal is Some {
            Some(attribute_view(count, stride, 12, 3))
        } else {
            None
        },
        tangent: if v.tangent is Some {
            Some(attribute_view(count, stride, 12 + normal, 3))
        } else {
            None
        },
        bitangent: None,
        color: None,
        texcoord_0: if v.texcoord_0 is Some {
            Some(attribute_view(count, stride, 12 + normal + tangent, 2))
        } else {
            None
        },
        texcoord_1: None,
        texcoord_2: None,
        texcoord_3: None,
    }
}

/// The view of an index buffer holding `count` indices.
pub open spec fn spec_index_view(count: usize) -> BufferView {
    BufferView {
        buffer: 1,
        length: (4 * count) as usize,
        buffer_offset: 0,
        offset: 0,
        combined_offset: 0,
        stride: 0,
        component_size: 1,
        component_count: count as i32,
        component_type: UNSIGNED_INT,
    }
}

/// Appends the little-endian bytes of `x`.
fn push_word(bytes: &mut Vec<u8>, x: u32)
    ensures
        final(bytes)@ == old(bytes)@ + word_bytes(x),
{
    bytes.push((x & 0xff) as u8);
    bytes.push(((x >> 8) & 0xff) as u8);
    bytes.push(((x >> 16) & 0xff) as u8);
    bytes.push(((x >> 24) & 0xff) as u8);
    assert(final(bytes)@ =~= old(bytes)@ + word_bytes(x));
}

/// The little-endian bytes of a list of words.
fn words_to_bytes(words: &Vec<u32>) -> (r: Vec<u8>)
    requires
        words@.len() * 4 <= usize::MAX,
    ensures
        r@ == le_bytes(words@),
        r@.len() == 4 * words@.len(),
{
    let mut bytes: Vec<u8> = Vec::with_capacity(words.len() * 4);
    let mut i: usize = 0;
    while i < words.len()
        invariant
            i <= words@.len(),
            bytes@ == le_bytes(words@.subrange(0, i as int)),
        decreases words@.len() - i,
    {
        push_word(&mut bytes, words[i]);
        proof {
            let next = words@.subrange(0, i + 1);
            assert(next.drop_last() =~= words@.subrange(0, i as int));
        }
        i = i + 1;
    }
    assert(words@.subrange(0, i as int) =~= words@);
    proof {
        lemma_le_bytes_len(words@);
    }
    bytes
}

/// An adjacency list built by scanning the faces fits the mesh.
pub proof fn lemma_adjacency_fits(adj: Seq<Seq<usize>>, faces: Seq<Face>, vertex_count: int)
    requires
        is_adjacency(adj, faces, vertex_count),
        faces.len() <= usize::MAX,
    ensures
        adjacency_fits(adj, vertex_count, faces.len() as int),
{
    assert forall|v: int, k: int| 0 <= v < adj.len() && 0 <= k < adj[v].len() implies #[trigger] adj[v][k]
        < faces.len() by {
        lemma_adjacent_upto_members(faces, v, faces.len() as int);
        assert(adj[v] == spec_adjacent_faces(faces, v));
        assert(adjacent_upto(faces, v, faces.len() as int)[k] < faces.len());
    }
}

/// The interleaved buffer of vertices that share one layout holds exactly one
/// stride of bytes per vertex, whatever the attributes.
pub proof fn lemma_attribute_bytes_len(vs: Seq<Vertex>)
    requires
        vs.len() > 0,
        uniform_layout(vs),
    ensures
        spec_attribute_bytes(vs).len() == vs.len() * spec_stride(vs[0]),
{
    lemma_flat_components_len(vs, vs.len() as int);
    assert(vs.subrange(0, vs.len() as int) =~= vs);
    lemma_le_bytes_len(flat_components(vs));
}

/// For any mesh whose indices group into triangles of existing vertices, the
/// adjacency list built by scanning its faces has one entry per vertex, every
/// corner of every face is a vertex, and each entry lists existing faces that
/// touch its vertex, all of them.
pub proof fn lemma_mesh_adjacency(
    indices: Option<Seq<u32>>,
    vertex_count: int,
    adj: Seq<Seq<usize>>,
)
    requires
        triangulable(indices, vertex_count),
        0 <= vertex_count <= usize::MAX,
        indices is Some ==> indices->Some_0.len() <= usize::MAX,
        is_adjacency(adj, spec_faces(indices, vertex_count), vertex_count),
    ensures
        adj.len() == vertex_count,
        faces_in_range(spec_faces(indices, vertex_count), vertex_count),
        adjacency_fits(adj, vertex_count, spec_faces(indices, vertex_count).len() as int),
        forall|v: int, k: int|
            0 <= v < vertex_count && 0 <= k < adj[v].len() ==> touches(
                spec_faces(indices, vertex_count)[#[trigger] adj[v][k] as int],
                v,
            ),
        forall|v: int, f: int|
            0 <= v < vertex_count && 0 <= f < spec_faces(indices, vertex_count).len() && #[trigger] touches(
                spec_faces(indices, vertex_count)[f],
                v,
            ) ==> adj[v].contains(f as usize),
{
    let faces = spec_faces(indices, vertex_count);
    lemma_triangulable_faces_in_range(indices, vertex_count);
    lemma_adjacency_fits(adj, faces, vertex_count);
    assert forall|v: int, k: int| 0 <= v < vertex_count && 0 <= k < adj[v].len() implies touches(
        faces[#[trigger] adj[v][k] as int],
        v,
    ) by {
        lemma_adjacent_upto_members(faces, v, faces.len() as int);
        assert(adj[v] == spec_adjacent_faces(faces, v));
    }
    assert forall|v: int, f: int|
        0 <= v < vertex_count && 0 <= f < faces.len() && #[trigger] touches(
            faces[f],
            v,
        ) implies adj[v].contains(f as usize) by {
        lemma_adjacent_upto_members(faces, v, faces.len() as int);
        assert(adj[v] == spec_adjacent_faces(faces, v));
    }
}

/// Whether `adj` has `vertex_count` entries that list faces below `face_count` only.
fn lists_fit(adj: &Vec<Vec<usize>>, vertex_count: usize, face_count: usize) -> (r: bool)
    ensures
        r == adjacency_fits(lists_view(adj@), vertex_count as int, face_count as int),
{
    if adj.len() != vertex_count {
        return false;
    }
    let mut v: usize = 0;
    while v < adj.len()
        invariant
            v <= adj@.len(),
            adj@.len() == vertex_count,
            forall|w: int, k: int|
                0 <= w < v && 0 <= k < lists_view(adj@)[w].len() ==> #[trigger] lists_view(
                    adj@,
                )[w][k] < face_count,
        decreases adj@.len() - v,
    {
        let entry = &adj[v];
        let mut k: usize = 0;
        while k < entry.len()
            invariant
                k <= entry@.len(),
                v < adj@.len(),
                *entry == adj@[v as int],
                forall|j: int| 0 <= j < k ==> #[trigger] entry@[j] < face_count,
            decreases entry@.len() - k,
        {
            if entry[k] >= face_count {
                assert(lists_view(adj@)[v as int][k as int] == entry@[k as int]);
                return false;
            }
            k = k + 1;
        }
        assert(lists_view(adj@)[v as int] == entry@);
        v = v + 1;
    }
    true
}

impl Default for MeshGenerator {
    /// An empty builder without an index list.
    fn default() -> (r: MeshGenerator)
        ensures
            r.vertices_view() == Seq::<Vertex>::empty(),
            r.indices_view() is None,
            r.adjacency_view() is None,
    {
        MeshGenerator {
            vertices: Vec::with_capacity(16),
            indices: Vec::new(),
            has_indices: false,
            vertex_face_adjacency_list: None,
            faces_hint: 16,
        }
    }
}

impl MeshGenerator {
    pub closed spec fn vertices_view(&self) -> Seq<Vertex> {
        self.vertices@
    }

    pub closed spec fn indices_view(&self) -> Option<Seq<u32>> {
        if self.has_indices {
            Some(self.indices@)
        } else {
            None
        }
    }

    pub closed spec fn adjacency_view(&self) -> Option<Seq<Seq<usize>>> {
        opt_lists_view(self.vertex_face_adjacency_list)
    }

    /// The faces of the mesh as it stands.
    pub open spec fn faces_view(&self) -> Seq<Face> {
        spec_faces(self.indices_view(), self.vertices_view().len() as int)
    }

    /// An empty builder; an index hint starts an (empty) index list.
    pub fn new(
        vertices_hint: Option<usize>,
        indices_hint: Option<usize>,
        faces_hint: Option<usize>,
    ) -> (r: MeshGenerator)
        ensures
            r.vertices_view() == Seq::<Vertex>::empty(),
            r.indices_view() == if indices_hint is Some {
                Some(Seq::<u32>::empty())
            } else {
                None
            },
            r.adjacency_view() is None,
    {
        let vertices: Vec<Vertex> = match vertices_hint {
            Some(n) => Vec::with_capacity(n),
            None => Vec::with_capacity(16),
        };
        let indices: Vec<u32> = match indices_hint {
            Some(n) => Vec::with_capacity(n),
            None => Vec::new(),
        };
        let faces_hint: usize = match faces_hint {
            Some(n) => n,
            None => 16,
        };
        MeshGenerator {
            vertices,
            indices,
            has_indices: indices_hint.is_some(),
            vertex_face_adjacency_list: None,
            faces_hint,
        }
    }

    /// Appends a vertex; a stored adjacency list no longer applies and is dropped.
    pub fn push_vertex(&mut self, vertex: &Vertex)
        ensures
            final(self).vertices_view() == old(self).vertices_view().push(*vertex),
            final(self).indices_view() == old(self).indices_view(),
            final(self).adjacency_view() is None,
    {
        self.vertices.push(*vertex);
        self.vertex_face_adjacency_list = None;
    }

    /// Appends an index, starting the index list if there is none.
    pub fn push_index(&mut self, index: u32)
        ensures
            final(self).vertices_view() == old(self).vertices_view(),
            final(self).indices_view() == Some(
                match old(self).indices_view() {
                    Some(s) => s,
                    None => Seq::<u32>::empty(),
                }.push(index),
            ),
            final(self).adjacency_view() is None,
    {
        if !self.has_indices {
            self.indices = Vec::new();
            self.has_indices = true;
        }
        self.indices.push(index);
        self.vertex_face_adjacency_list = None;
    }

    /// Appends indices, starting the index list if there is none.
    pub fn push_index_slice(&mut self, new_indices: &[u32])
        ensures
            final(self).vertices_view() == old(self).vertices_view(),
            final(self).indices_view() == Some(
                match old(self).indices_view() {
                    Some(s) => s,
                    None => Seq::<u32>::empty(),
                } + new_indices@,
            ),
            final(self).adjacency_view() is None,
    {
        if !self.has_indices {
            self.indices = Vec::new();
            self.has_indices = true;
        }
        let ghost start = self.indices@;
        let mut i: usize = 0;
        while i < new_indices.len()
            invariant
                i <= new_indices@.len(),
                self.has_indices,
                self.vertices@ == old(self).vertices@,
                self.indices@ == start + new_indices@.subrange(0, i as int),
            decreases new_indices@.len() - i,
        {
            self.indices.push(new_indices[i]);
            i = i + 1;
            assert(self.indices@ =~= start + new_indices@.subrange(0, i as int));
        }
        assert(new_indices@.subrange(0, i as int) =~= new_indices@);
        self.vertex_face_adjacency_list = None;
    }

    /// Appends the adjacent faces of the next vertex to the stored adjacency list.
    pub fn push_adjacent_faces(&mut self, adjacent_faces: &[usize])
        ensures
            final(self).vertices_view() == old(self).vertices_view(),
            final(self).indices_view() == old(self).indices_view(),
            final(self).adjacency_view() == Some(
                match old(self).adjacency_view() {
                    Some(s) => s,
                    None => Seq::<Seq<usize>>::empty(),
                }.push(adjacent_faces@),
            ),
    {
        let mut faces: Vec<usize> = Vec::new();
        let mut i: usize = 0;
        while i < adjacent_faces.len()
            invariant
                i <= adjacent_faces@.len(),
                faces@ == adjacent_faces@.subrange(0, i as int),
            decreases adjacent_faces@.len() - i,
        {
            faces.push(adjacent_faces[i]);
            i = i + 1;
            assert(faces@ =~= adjacent_faces@.subrange(0, i as int));
        }
        assert(faces@ =~= adjacent_faces@);
        let mut list: Vec<Vec<usize>> = match self.vertex_face_adjacency_list.take() {
            Some(l) => l,
            None => Vec::new(),
        };
        let ghost before = lists_view(list@);
        list.push(faces);
        assert(lists_view(list@) =~= before.push(adjacent_faces@));
        self.vertex_face_adjacency_list = Some(list);
    }

    /// The vertex list, to fill in place; a stored adjacency list is dropped.
    pub fn mut_ref_vertices(&mut self) -> (r: &mut Vec<Vertex>)
        ensures
            r@ == old(self).vertices_view(),
            final(self).vertices_view() == final(r)@,
            final(self).indices_view() == old(self).indices_view(),
            final(self).adjacency_view() is None,
    {
        self.vertex_face_adjacency_list = None;
        &mut self.vertices
    }

    /// The index list, started empty if there is none, to fill in place; a
    /// stored adjacency list is dropped.
    pub fn mut_ref_indices(&mut self) -> (r: &mut Vec<u32>)
        ensures
            r@ == match old(self).indices_view() {
                Some(s) => s,
                None => Seq::<u32>::empty(),
            },
            final(self).vertices_view() == old(self).vertices_view(),
            final(self).indices_view() == Some(final(r)@),
            final(self).adjacency_view() is None,
    {
        self.vertex_face_adjacency_list = None;
        if !self.has_indices {
            self.indices = Vec::new();
            self.has_indices = true;
        }
        &mut self.indices
    }

    /// The vertex list.
    pub fn vertices(&self) -> (r: &Vec<Vertex>)
        ensures
            r@ == self.vertices_view(),
    {
        &self.vertices
    }

    /// The stored adjacency list, if any.
    pub fn vertex_face_adjacency_list(&self) -> (r: &Option<Vec<Vec<usize>>>)
        ensures
            opt_lists_view(*r) == self.adjacency_view(),
    {
        &self.vertex_face_adjacency_list
    }

    /// Number of vertices.
    pub fn vertex_count(&self) -> (r: usize)
        ensures
            r == self.vertices_view().len(),
    {
        self.vertices.len()
    }

    /// Number of indices, when there is an index list.
    pub fn index_count(&self) -> (r: Option<usize>)
        ensures
            r == match self.indices_view() {
                Some(s) => Some(s.len() as usize),
                None => None::<usize>,
            },
    {
        if self.has_indices {
            Some(self.indices.len())
        } else {
            None
        }
    }

    /// The stored adjacency list, to set or fill in place.
    pub fn mut_ref_vertex_face_adjacency_list(&mut self) -> (r: &mut Option<Vec<Vec<usize>>>)
        ensures
            opt_lists_view(*r) == old(self).adjacency_view(),
            final(self).vertices_view() == old(self).vertices_view(),
            final(self).indices_view() == old(self).indices_view(),
            final(self).adjacency_view() == opt_lists_view(*final(r)),
    {
        &mut self.vertex_face_adjacency_list
    }

    /// Replaces the normal and the tangent of vertex `i`.
    pub fn set_normal_and_tangent(&mut self, i: usize, normal: [u32; 3], tangent: [u32; 3])
        requires
            i < old(self).vertices_view().len(),
        ensures
            final(self).vertices_view() == old(self).vertices_view().update(
                i as int,
                Vertex {
                    normal: Some(normal),
                    tangent: Some(tangent),
                    ..old(self).vertices_view()[i as int]
                },
            ),
            final(self).indices_view() == old(self).indices_view(),
            final(self).adjacency_view() == old(self).adjacency_view(),
    {
        let mut v = self.vertices[i];
        v.normal = Some(normal);
        v.tangent = Some(tangent);
        self.vertices.set(i, v);
    }

    /// Whether the indices (or the vertices) group into triangles of existing vertices.
    pub fn is_triangulable(&self) -> (r: bool)
        ensures
            r == triangulable(self.indices_view(), self.vertices_view().len() as int),
    {
        let n = self.vertices.len();
        if self.has_indices {
            if self.indices.len() % 3 != 0 {
                return false;
            }
            let mut i: usize = 0;
            while i < self.indices.len()
                invariant
                    i <= self.indices@.len(),
                    self.has_indices,
                    n == self.vertices@.len(),
                    forall|k: int| 0 <= k < i ==> #[trigger] self.indices@[k] < n,
                decreases self.indices@.len() - i,
            {
                if self.indices[i] as usize >= n {
                    assert(self.indices_view() == Some(self.indices@));
                    assert(!(self.indices@[i as int] < n));
                    return false;
                }
                i = i + 1;
            }
            assert(self.indices_view() == Some(self.indices@));
            true
        } else {
            n % 3 == 0
        }
    }

    /// The faces of the mesh: one per index triple, or, without indices, one per
    /// triple of consecutive vertices.
    pub fn faces(&self) -> (r: Vec<Face>)
        requires
            triangulable(self.indices_view(), self.vertices_view().len() as int),
        ensures
            r@ == self.faces_view(),
            faces_in_range(r@, self.vertices_view().len() as int),
    {
        let n = self.vertices.len();
        proof {
            lemma_triangulable_faces_in_range(self.indices_view(), n as int);
        }
        let ghost target = self.faces_view();
        let mut faces: Vec<Face> = Vec::with_capacity(self.faces_hint);
        let count: usize = if self.has_indices {
            self.indices.len() / 3
        } else {
            self.vertices.len() / 3
        };
        let ni = self.indices.len();
        let mut k: usize = 0;
        while k < count
            invariant
                k <= count,
                ni == self.indices@.len(),
                n == self.vertices@.len(),
                count == target.len(),
                target == self.faces_view(),
                triangulable(self.indices_view(), self.vertices_view().len() as int),
                faces@ == target.subrange(0, k as int),
            decreases count - k,
        {
            let face = if self.has_indices {
                assert(3 * k + 2 < self.indices@.len()) by (nonlinear_arith)
                    requires
                        k < self.indices@.len() / 3,
                ;
                Face {
                    vertex_0_index: self.indices[3 * k] as usize,
                    vertex_1_index: self.indices[3 * k + 1] as usize,
                    vertex_2_index: self.indices[3 * k + 2] as usize,
                }
            } else {
                assert(3 * k + 2 < self.vertices@.len()) by (nonlinear_arith)
                    requires
                        k < self.vertices@.len() / 3,
                        self.vertices@.len() % 3 == 0,
                ;
                Face {
                    vertex_0_index: 3 * k,
                    vertex_1_index: 3 * k + 1,
                    vertex_2_index: 3 * k + 2,
                }
            };
            faces.push(face);
            k = k + 1;
            assert(faces@ =~= target.subrange(0, k as int));
        }
        assert(faces@ =~= target);
        faces
    }

    /// Whether every vertex carries the optional attributes of the first one.
    pub fn has_uniform_layout(&self) -> (r: bool)
        ensures
            r == uniform_layout(self.vertices_view()),
    {
        if self.vertices.len() == 0 {
            return true;
        }
        let first = self.vertices[0];
        let mut i: usize = 0;
        while i < self.vertices.len()
            invariant
                i <= self.vertices@.len(),
                self.vertices@.len() > 0,
                first == self.vertices@[0],
                forall|k: int| 0 <= k < i ==> layout_of(#[trigger] self.vertices@[k]) == layout_of(
                    self.vertices@[0],
                ),
            decreases self.vertices@.len() - i,
        {
            let v = self.vertices[i];
            if v.normal.is_some() != first.normal.is_some() || v.tangent.is_some()
                != first.tangent.is_some() || v.texcoord_0.is_some()
                != first.texcoord_0.is_some() {
                assert(layout_of(self.vertices@[i as int]) != layout_of(self.vertices@[0]));
                return false;
            }
            i = i + 1;
        }
        true
    }

    /// The interleaved attribute buffer (each vertex's components in attribute
    /// order, each component little-endian) and the views of its attributes.
    pub fn attribute_buffer(&self) -> (r: (Vec<u8>, AttributeBufferViews))
        requires
            self.vertices_view().len() > 0,
            uniform_layout(self.vertices_view()),
            view_fits(self.vertices_view().len() as usize),
        ensures
            r.0@ == spec_attribute_bytes(self.vertices_view()),
            r.0@.len() == self.vertices_view().len() * spec_stride(self.vertices_view()[0]),
            r.1 == spec_attribute_views(
                self.vertices_view()[0],
                self.vertices_view().len() as usize,
            ),
    {
        let n = self.vertices.len();
        let mut words: Vec<u32> = Vec::new();
        let mut i: usize = 0;
        proof {
            lemma_stride_bounds(self.vertices@[0]);
        }
        while i < n
            invariant
                i <= n,
                n == self.vertices@.len(),
                n > 0,
                view_fits(n),
                uniform_layout(self.vertices@),
                words@ == flat_components(self.vertices@.subrange(0, i as int)),
            decreases n - i,
        {
            let mut comps = self.vertices[i].as_slice();
            proof {
                let next = self.vertices@.subrange(0, i + 1);
                assert(next.drop_last() =~= self.vertices@.subrange(0, i as int));
                lemma_flat_components_len(self.vertices@, i as int);
                lemma_stride_bounds(self.vertices@[0]);
                assert(i * spec_stride(self.vertices@[0]) <= n * 44) by (nonlinear_arith)
                    requires
                        i <= n,
                        spec_stride(self.vertices@[0]) <= 44,
                ;
            }
            words.append(&mut comps);
            i = i + 1;
        }
        assert(self.vertices@.subrange(0, n as int) =~= self.vertices@);
        proof {
            lemma_flat_components_len(self.vertices@, n as int);
            lemma_stride_bounds(self.vertices@[0]);
            assert(n * spec_stride(self.vertices@[0]) <= n * 44) by (nonlinear_arith)
                requires
                    spec_stride(self.vertices@[0]) <= 44,
            ;
        }
        let bytes = words_to_bytes(&words);
        let first = &self.vertices[0];
        let views = AttributeBufferViews {
            position: first.position_view(n),
            normal: first.normal_view(n),
            tangent: first.tangent_view(n),
            bitangent: None,
            color: None,
            texcoord_0: first.texcoord_0_view(n),
            texcoord_1: None,
            texcoord_2: None,
            texcoord_3: None,
        };
        (bytes, views)
    }

    /// The index buffer (each index little-endian) and its view.
    pub fn index_buffer(&self) -> (r: (Vec<u8>, BufferView))
        requires
            self.indices_view() is Some,
            self.indices_view()->Some_0.len() * 4 <= usize::MAX,
        ensures
            r.0@ == le_bytes(self.indices_view()->Some_0),
            r.0@.len() == 4 * self.indices_view()->Some_0.len(),
            r.1 == spec_index_view(self.indices_view()->Some_0.len() as usize),
    {
        let bytes = words_to_bytes(&self.indices);
        let count = self.indices.len();
        let view = BufferView {
            buffer: 1,
            length: bytes.len(),
            buffer_offset: 0,
            offset: 0,
            combined_offset: 0,
            stride: 0,
            component_size: 1,
            component_count: count as i32,
            component_type: UNSIGNED_INT,
        };
        (bytes, view)
    }

    /// Whether packing in `mode` first needs normals and tangents synthesized from
    /// the faces: always for plain triangles, and for indexed triangles when the
    /// first vertex has no normal.
    pub fn needs_normal_synthesis(&self, mode: MeshMode) -> (r: bool)
        ensures
            r == match mode {
                MeshMode::Triangles => true,
                MeshMode::IndexedTriangles => self.vertices_view().len() > 0
                    && self.vertices_view()[0].normal is None,
                _ => false,
            },
    {
        match mode {
            MeshMode::Triangles => true,
            MeshMode::IndexedTriangles => self.vertices.len() > 0 && self.vertices[0].normal.is_none(),
            _ => false,
        }
    }

    /// Derives the faces for normal synthesis, and builds the adjacency list
    /// unless one is stored already; a stored one must have an entry per vertex
    /// that lists existing faces only.
    pub fn prepare_normal_synthesis(&mut self) -> (r: Result<Vec<Face>, MeshError>)
        ensures
            final(self).vertices_view() == old(self).vertices_view(),
            final(self).indices_view() == old(self).indices_view(),
            r == Err::<Vec<Face>, MeshError>(MeshError::InvalidTopology) <==> !triangulable(
                old(self).indices_view(),
                old(self).vertices_view().len() as int,
            ),
            r == Err::<Vec<Face>, MeshError>(MeshError::InvalidAdjacency) <==> triangulable(
                old(self).indices_view(),
                old(self).vertices_view().len() as int,
            ) && old(self).adjacency_view() is Some && !adjacency_fits(
                old(self).adjacency_view()->Some_0,
                old(self).vertices_view().len() as int,
                old(self).faces_view().len() as int,
            ),
            r is Ok ==> {
                let faces = r->Ok_0@;
                &&& faces == old(self).faces_view()
                &&& faces_in_range(faces, old(self).vertices_view().len() as int)
                &&& final(self).adjacency_view() is Some
                &&& adjacency_fits(
                    final(self).adjacency_view()->Some_0,
                    old(self).vertices_view().len() as int,
                    faces.len() as int,
                )
                &&& old(self).adjacency_view() is None ==> is_adjacency(
                    final(self).adjacency_view()->Some_0,
                    faces,
                    old(self).vertices_view().len() as int,
                )
                &&& old(self).adjacency_view() is Some ==> final(self).adjacency_view()
                    == old(self).adjacency_view()
            },
            r is Err ==> final(self).adjacency_view() == old(self).adjacency_view() && (r
                == Err::<Vec<Face>, MeshError>(MeshError::InvalidTopology) || r == Err::<
                Vec<Face>,
                MeshError,
            >(MeshError::InvalidAdjacency)),
    {
        if !self.is_triangulable() {
            return Err(MeshError::InvalidTopology);
        }
        let faces = self.faces();
        let n = self.vertices.len();
        let fits = match &self.vertex_face_adjacency_list {
            Some(adj) => lists_fit(adj, n, faces.len()),
            None => {
                let nf = faces.len();
                let adj = self.vertex_face_adjacency(faces.as_slice());
                proof {
                    lemma_adjacency_fits(lists_view(adj@), faces@, n as int);
                }
                self.vertex_face_adjacency_list = Some(adj);
                true
            },
        };
        if !fits {
            return Err(MeshError::InvalidAdjacency);
        }
        Ok(faces)
    }

    /// Packs the mesh for drawing in `mode`: one interleaved attribute buffer,
    /// followed, for indexed triangles, by the index buffer.
    pub fn pack(&self, mode: MeshMode) -> (r: Result<PackedMesh, MeshError>)
        requires
            view_fits(self.vertices_view().len() as usize),
            mode == MeshMode::IndexedTriangles ==> self.indices_view() is Some
                && self.indices_view()->Some_0.len() * 4 <= usize::MAX,
        ensures
            r == Err::<PackedMesh, MeshError>(MeshError::NoVertices) <==> self.vertices_view().len()
                == 0,
            r == Err::<PackedMesh, MeshError>(MeshError::MixedAttributes) <==> (
            self.vertices_view().len() > 0 && !uniform_layout(self.vertices_view())),
            r is Err ==> r == Err::<PackedMesh, MeshError>(MeshError::NoVertices) || r == Err::<
                PackedMesh,
                MeshError,
            >(MeshError::MixedAttributes),
            r is Ok ==> {
                let p = r->Ok_0;
                let vs = self.vertices_view();
                &&& p.buffers@[0]@ == spec_attribute_bytes(vs)
                &&& p.buffers@[0]@.len() == vs.len() * spec_stride(vs[0])
                &&& p.attribute_buffer_views == spec_attribute_views(vs[0], vs.len() as usize)
                &&& p.mode == spec_primitive(mode)
                &&& if mode == MeshMode::IndexedTriangles {
                    &&& p.buffers@.len() == 2
                    &&& p.buffers@[1]@ == le_bytes(self.indices_view()->Some_0)
                    &&& p.buffers@[1]@.len() == 4 * self.indices_view()->Some_0.len()
                    &&& p.index_view == Some(
                        spec_index_view(self.indices_view()->Some_0.len() as usize),
                    )
                } else {
                    &&& p.buffers@.len() == 1
                    &&& p.index_view is None
                }
            },
    {
        if self.vertices.len() == 0 {
            return Err(MeshError::NoVertices);
        }
        if !self.has_uniform_layout() {
            return Err(MeshError::MixedAttributes);
        }
        let (attributes, views) = self.attribute_buffer();
        let mut buffers: Vec<Vec<u8>> = Vec::new();
        buffers.push(attributes);
        let index_view = match mode {
            MeshMode::IndexedTriangles => {
                let (indices, view) = self.index_buffer();
                buffers.push(indices);
                Some(view)
            },
            _ => None,
        };
        Ok(
            PackedMesh {
                buffers,
                index_view,
                attribute_buffer_views: views,
                mode: mode.primitive(),
            },
        )
    }

    /// For each vertex, the indices (ascending) of the faces that touch it.
    pub fn vertex_face_adjacency(&self, faces: &[Face]) -> (r: Vec<Vec<usize>>)
        ensures
            is_adjacency(lists_view(r@), faces@, self.vertices_view().len() as int),
    {
        let n = self.vertices.len();
        let mut list: Vec<Vec<usize>> = Vec::with_capacity(n);
        let mut v: usize = 0;
        while v < n
            invariant
                v <= n,
                n == self.vertices@.len(),
                lists_view(list@).len() == v,
                forall|w: int|
                    0 <= w < v ==> #[trigger] lists_view(list@)[w] == spec_adjacent_faces(
                        faces@,
                        w,
                    ),
            decreases n - v,
        {
            let mut adjacent: Vec<usize> = Vec::new();
            let mut j: usize = 0;
            while j < faces.len()
                invariant
                    j <= faces@.len(),
                    adjacent@ == adjacent_upto(faces@, v as int, j as int),
                decreases faces@.len() - j,
            {
                let f = faces[j];
                if f.vertex_0_index == v || f.vertex_1_index == v || f.vertex_2_index == v {
                    adjacent.push(j);
                }
                j = j + 1;
                assert(adjacent@ =~= adjacent_upto(faces@, v as int, j as int));
            }
            let ghost before = list@;
            list.push(adjacent);
            assert(lists_view(list@) =~= lists_view(before).push(
                spec_adjacent_faces(faces@, v as int),
            ));
            v = v + 1;
        }
        list
    }
}

} // verus!
