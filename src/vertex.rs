//! Per-vertex data and the interleaved layout derived from it.
//!
//! Every component is the bit pattern of a 32-bit IEEE-754 float, as the
//! graphics device reads it; the layout and packing logic never looks inside.
use vstd::prelude::*;

use crate::buffer_view::{BufferView, FLOAT};

verus! {

/// Bytes taken by a position (three floats).
pub const POSITION_SIZE: i32 = 12;

/// Bytes taken by a normal (three floats).
pub const NORMAL_SIZE: i32 = 12;

/// Bytes taken by a tangent (three floats).
pub const TANGENT_SIZE: i32 = 12;

/// Bytes taken by a texture coordinate (two floats).
pub const TEXCOORD_SIZE: i32 = 8;

/// A vertex: a required position and optional normal, tangent and texture coordinate.
#[derive(Copy, Clone, Debug, PartialEq, Eq)]
pub struct Vertex {
    pub position: [u32; 3],
    pub normal: Option<[u32; 3]>,
    pub tangent: Option<[u32; 3]>,
    pub texcoord_0: Option<[u32; 2]>,
}

/// Which optional attributes a vertex carries.
pub open spec fn layout_of(v: Vertex) -> (bool, bool, bool) {
    (v.normal is Some, v.tangent is Some, v.texcoord_0 is Some)
}

pub open spec fn size_if(present: bool, size: int) -> int {
    if present {
        size
    } else {
        0
    }
}

/// Bytes of one vertex in the interleaved buffer.
pub open spec fn spec_stride(v: Vertex) -> int {
    POSITION_SIZE + size_if(v.normal is Some, NORMAL_SIZE as int) + size_if(
        v.tangent is Some,
        TANGENT_SIZE as int,
    ) + size_if(v.texcoord_0 is Some, TEXCOORD_SIZE as int)
}

/// The floats of a vertex in attribute order: position, normal, tangent, texture coordinate.
pub open spec fn spec_components(v: Vertex) -> Seq<u32> {
    v.position@ + match v.normal {
        Some(n) => n@,
        None => Seq::empty(),
    } + match v.tangent {
        Some(t) => t@,
        None => Seq::empty(),
    } + match v.texcoord_0 {
        Some(t) => t@,
        None => Seq::empty(),
    }
}

/// The view of an attribute of `count` vertices laid out with `stride`.
pub open spec fn attribute_view(
    count: usize,
    stride: int,
    offset: int,
    component_size: int,
) -> BufferView {
    BufferView {
        buffer: 0,
        length: (count * stride) as usize,
        buffer_offset: 0,
        offset: offset as i32,
        combined_offset: offset as i32,
        stride: stride as i32,
        component_size: component_size as i32,
        component_count: count as i32,
        component_type: FLOAT,
    }
}

/// The packed attribute data of `count` vertices fits in memory.
pub open spec fn view_fits(count: usize) -> bool {
    count * 44 <= usize::MAX
}

pub proof fn lemma_stride_bounds(v: Vertex)
    ensures
        12 <= spec_stride(v) <= 44,
        spec_components(v).len() * 4 == spec_stride(v),
{
}

impl Default for Vertex {
    /// A vertex at the origin with no optional attributes.
    fn default() -> (r: Vertex)
        ensures
            r.position == [0u32, 0, 0],
            r.normal is None,
            r.tangent is None,
            r.texcoord_0 is None,
    {
        Vertex { position: [0, 0, 0], normal: None, tangent: None, texcoord_0: None }
    }
}

impl Vertex {
    /// A vertex at `position` with no optional attributes.
    pub fn new(position: [u32; 3]) -> (r: Vertex)
        ensures
            r.position == position,
            r.normal is None,
            r.tangent is None,
            r.texcoord_0 is None,
    {
        Vertex { position, normal: None, tangent: None, texcoord_0: None }
    }

    /// A vertex at `position` with a normal and no other optional attribute.
    pub fn new_with_normal(position: [u32; 3], normal: [u32; 3]) -> (r: Vertex)
        ensures
            r.position == position,
            r.normal == Some(normal),
            r.tangent is None,
            r.texcoord_0 is None,
    {
        Vertex { position, normal: Some(normal), tangent: None, texcoord_0: None }
    }

    /// The components of this vertex, flattened in attribute order.
    pub fn as_slice(&self) -> (r: Vec<u32>)
        ensures
            r@ == spec_components(*self),
    {
        let mut data: Vec<u32> = Vec::new();
        let mut i: usize = 0;
        while i < 3
            invariant
                i <= 3,
                data@ == self.position@.subrange(0, i as int),
            decreases 3 - i,
        {
            data.push(self.position[i]);
            i = i + 1;
            assert(data@ =~= self.position@.subrange(0, i as int));
        }
        assert(data@ =~= self.position@);
        let ghost base = data@;
        match self.normal {
            Some(n) => {
                data.push(n[0]);
                data.push(n[1]);
                data.push(n[2]);
                assert(data@ =~= base + n@);
            },
            None => {
                assert(data@ =~= base + Seq::<u32>::empty());
            },
        }
        let ghost base = data@;
        match self.tangent {
            Some(t) => {
                data.push(t[0]);
                data.push(t[1]);
                data.push(t[2]);
                assert(data@ =~= base + t@);
            },
            None => {
                assert(data@ =~= base + Seq::<u32>::empty());
            },
        }
        let ghost base = data@;
        match self.texcoord_0 {
            Some(t) => {
                data.push(t[0]);
                data.push(t[1]);
                assert(data@ =~= base + t@);
            },
            None => {
                assert(data@ =~= base + Seq::<u32>::empty());
            },
        }
        data
    }

    /// Bytes of this vertex in an interleaved buffer.
    pub fn stride(&self) -> (r: i32)
        ensures
            r == spec_stride(*self),
    {
        let normal: i32 = if self.normal.is_some() {
            NORMAL_SIZE
        } else {
            0
        };
        let tangent: i32 = if self.tangent.is_some() {
            TANGENT_SIZE
        } else {
            0
        };
        let texcoord: i32 = if self.texcoord_0.is_some() {
            TEXCOORD_SIZE
        } else {
            0
        };
        POSITION_SIZE + normal + tangent + texcoord
    }

    fn view_helper(&self, vertex_count: usize, offset: i32, component_size: i32) -> (r:
        BufferView)
        requires
            view_fits(vertex_count),
        ensures
            r == attribute_view(vertex_count, spec_stride(*self), offset as int, component_size as int),
    {
        let stride = self.stride();
        proof {
            lemma_stride_bounds(*self);
            assert(vertex_count * spec_stride(*self) <= vertex_count * 44) by (nonlinear_arith)
                requires
                    spec_stride(*self) <= 44,
            ;
        }
        BufferView {
            buffer: 0,
            length: vertex_count * (stride as usize),
            buffer_offset: 0,
            offset,
            combined_offset: offset,
            stride,
            component_size,
            component_count: vertex_count as i32,
            component_type: FLOAT,
        }
    }

    /// The view of the positions of `vertex_count` vertices laid out like this one.
    pub fn position_view(&self, vertex_count: usize) -> (r: BufferView)
        requires
            view_fits(vertex_count),
        ensures
            r == attribute_view(vertex_count, spec_stride(*self), 0, 3),
    {
        self.view_helper(vertex_count, 0, 3)
    }

    /// The view of the normals, which follow the position.
    pub fn normal_view(&self, vertex_count: usize) -> (r: Option<BufferView>)
        requires
            view_fits(vertex_count),
        ensures
            r == if self.normal is Some {
                Some(attribute_view(vertex_count, spec_stride(*self), POSITION_SIZE as int, 3))
            } else {
                None
            },
    {
        if self.normal.is_some() {
            Some(self.view_helper(vertex_count, POSITION_SIZE, 3))
        } else {
            None
        }
    }

    /// The view of the tangents, which follow the position and the normal.
    pub fn tangent_view(&self, vertex_count: usize) -> (r: Option<BufferView>)
        requires
            view_fits(vertex_count),
        ensures
            r == if self.tangent is Some {
                Some(
                    attribute_view(
                        vertex_count,
                        spec_stride(*self),
                        POSITION_SIZE + size_if(self.normal is Some, NORMAL_SIZE as int),
                        3,
                    ),
                )
            } else {
                None
            },
    {
        if self.tangent.is_some() {
            let normal: i32 = if self.normal.is_some() {
                NORMAL_SIZE
            } else {
                0
            };
            Some(self.view_helper(vertex_count, POSITION_SIZE + normal, 3))
        } else {
            None
        }
    }

    /// The view of the texture coordinates, which come last.
    pub fn texcoord_0_view(&self, vertex_count: usize) -> (r: Option<BufferView>)
        requires
            view_fits(vertex_count),
        ensures
            r == if self.texcoord_0 is Some {
                Some(
                    attribute_view(
                        vertex_count,
                        spec_stride(*self),
                        POSITION_SIZE + size_if(self.normal is Some, NORMAL_SIZE as int) + size_if(
                            self.tangent is Some,
                            TANGENT_SIZE as int,
                        ),
                        2,
                    ),
                )
            } else {
                None
            },
    {
        if self.texcoord_0.is_some() {
            let normal: i32 = if self.normal.is_some() {
                NORMAL_SIZE
            } else {
                0
            };
            let tangent: i32 = if self.tangent.is_some() {
                TANGENT_SIZE
            } else {
                0
            };
            Some(self.view_helper(vertex_count, POSITION_SIZE + normal + tangent, 2))
        } else {
            None
        }
    }
}

} // verus!
