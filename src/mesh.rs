//! Renderable mesh records: topologies and the views of each attribute.
use vstd::prelude::*;
use vstd::string::StringExecFns;

use crate::buffer_view::{BufferView, BufferViewConfig, config_offsets_fit, unwrap_or_zero};

verus! {

/// Primitive code of points.
pub const POINTS: u32 = 0;

/// Primitive code of triangles.
pub const TRIANGLES: u32 = 4;

/// Primitive code of a triangle fan.
pub const TRIANGLE_FAN: u32 = 6;

/// How vertices are assembled into primitives.
#[derive(Copy, Clone, Debug, PartialEq, Eq, Structural)]
pub enum MeshMode {
    Points,
    TriangleFan,
    Triangles,
    IndexedTriangles,
}

/// The primitive code the device draws for a mode.
pub open spec fn spec_primitive(mode: MeshMode) -> u32 {
    match mode {
        MeshMode::Points => POINTS,
        MeshMode::TriangleFan => TRIANGLE_FAN,
        MeshMode::Triangles => TRIANGLES,
        MeshMode::IndexedTriangles => TRIANGLES,
    }
}

impl MeshMode {
    /// The primitive code the device draws for this mode.
    pub fn primitive(&self) -> (r: u32)
        ensures
            r == spec_primitive(*self),
    {
        match self {
            MeshMode::Points => POINTS,
            MeshMode::TriangleFan => TRIANGLE_FAN,
            MeshMode::Triangles => TRIANGLES,
            MeshMode::IndexedTriangles => TRIANGLES,
        }
    }
}

/// The views of each named attribute of a mesh; only the position is required.
#[derive(Copy, Clone, Debug, PartialEq, Eq, Structural)]
pub struct AttributeBufferViews {
    pub position: BufferView,
    pub normal: Option<BufferView>,
    pub tangent: Option<BufferView>,
    pub bitangent: Option<BufferView>,
    pub color: Option<BufferView>,
    pub texcoord_0: Option<BufferView>,
    pub texcoord_1: Option<BufferView>,
    pub texcoord_2: Option<BufferView>,
    pub texcoord_3: Option<BufferView>,
}

/// The view that `BufferView::new` builds from a configuration.
pub open spec fn view_from_config(c: BufferViewConfig) -> BufferView {
    BufferView {
        buffer: c.buffer,
        length: c.length,
        buffer_offset: unwrap_or_zero(c.buffer_offset),
        offset: unwrap_or_zero(c.offset),
        combined_offset: (unwrap_or_zero(c.buffer_offset) + unwrap_or_zero(c.offset)) as i32,
        stride: unwrap_or_zero(c.stride),
        component_size: c.component_size,
        component_count: c.component_count,
        component_type: c.component_type,
    }
}

/// The view of the last configuration among the first `n` whose id is `name`.
pub open spec fn last_named(views: Seq<BufferViewConfig>, name: Seq<char>, n: int) -> Option<
    BufferView,
>
    decreases n,
{
    if n <= 0 {
        None
    } else if views[n - 1].id@ == name {
        Some(view_from_config(views[n - 1]))
    } else {
        last_named(views, name, n - 1)
    }
}

pub open spec fn named(views: Seq<BufferViewConfig>, name: &str) -> Option<BufferView> {
    last_named(views, name@, views.len() as int)
}

/// The attribute views that a list of configured views describes.
pub open spec fn views_from_configs(views: Seq<BufferViewConfig>) -> AttributeBufferViews {
    AttributeBufferViews {
        position: named(views, "POSITION")->Some_0,
        normal: named(views, "NORMAL"),
        tangent: named(views, "TANGENT"),
        bitangent: named(views, "BITANGENT"),
        color: named(views, "COLOR"),
        texcoord_0: named(views, "TEXCOORD_0"),
        texcoord_1: named(views, "TEXCOORD_1"),
        texcoord_2: named(views, "TEXCOORD_2"),
        texcoord_3: named(views, "TEXCOORD_3"),
    }
}

fn keep_if_named(
    slot: Option<BufferView>,
    view: &BufferViewConfig,
    name: &str,
) -> (r: Option<BufferView>)
    requires
        config_offsets_fit(*view),
    ensures
        r == if view.id@ == name@ {
            Some(view_from_config(*view))
        } else {
            slot
        },
{
    if view.id == String::from_str(name) {
        Some(BufferView::new(view))
    } else {
        slot
    }
}

impl AttributeBufferViews {
    /// Collects the views of an authored mesh by id; a later view with the same
    /// id replaces an earlier one, and unknown ids are ignored. Fails when no
    /// view is named `POSITION`.
    pub fn try_from(views: &[BufferViewConfig]) -> (r: Result<AttributeBufferViews, &'static str>)
        requires
            forall|i: int| 0 <= i < views@.len() ==> config_offsets_fit(#[trigger] views@[i]),
        ensures
            r is Err <==> named(views@, "POSITION") is None,
            r is Ok ==> r->Ok_0 == views_from_configs(views@),
    {
        let mut position: Option<BufferView> = None;
        let mut normal: Option<BufferView> = None;
        let mut tangent: Option<BufferView> = None;
        let mut bitangent: Option<BufferView> = None;
        let mut color: Option<BufferView> = None;
        let mut texcoord_0: Option<BufferView> = None;
        let mut texcoord_1: Option<BufferView> = None;
        let mut texcoord_2: Option<BufferView> = None;
        let mut texcoord_3: Option<BufferView> = None;
        let mut i: usize = 0;
        while i < views.len()
            invariant
                i <= views@.len(),
                forall|k: int| 0 <= k < views@.len() ==> config_offsets_fit(#[trigger] views@[k]),
                position == last_named(views@, "POSITION"@, i as int),
                normal == last_named(views@, "NORMAL"@, i as int),
                tangent == last_named(views@, "TANGENT"@, i as int),
                bitangent == last_named(views@, "BITANGENT"@, i as int),
                color == last_named(views@, "COLOR"@, i as int),
                texcoord_0 == last_named(views@, "TEXCOORD_0"@, i as int),
                texcoord_1 == last_named(views@, "TEXCOORD_1"@, i as int),
                texcoord_2 == last_named(views@, "TEXCOORD_2"@, i as int),
                texcoord_3 == last_named(views@, "TEXCOORD_3"@, i as int),
            decreases views@.len() - i,
        {
            let view = &views[i];
            position = keep_if_named(position, view, "POSITION");
            normal = keep_if_named(normal, view, "NORMAL");
            tangent = keep_if_named(tangent, view, "TANGENT");
            bitangent = keep_if_named(bitangent, view, "BITANGENT");
            color = keep_if_named(color, view, "COLOR");
            texcoord_0 = keep_if_named(texcoord_0, view, "TEXCOORD_0");
            texcoord_1 = keep_if_named(texcoord_1, view, "TEXCOORD_1");
            texcoord_2 = keep_if_named(texcoord_2, view, "TEXCOORD_2");
            texcoord_3 = keep_if_named(texcoord_3, view, "TEXCOORD_3");
            i = i + 1;
        }
        match position {
            None => Err("Attribute views must contain a position view"),
            Some(position) => Ok(
                AttributeBufferViews {
                    position,
                    normal,
                    tangent,
                    bitangent,
                    color,
                    texcoord_0,
                    texcoord_1,
                    texcoord_2,
                    texcoord_3,
                },
            ),
        }
    }
}

} // verus!
