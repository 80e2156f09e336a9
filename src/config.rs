//! Already parsed configuration records of the engine and of a scene.
use vstd::prelude::*;

use crate::buffer_view::BufferViewConfig;

verus! {

/// The canvas to render into and its size.
#[derive(Clone, Debug)]
pub struct EngineConfig {
    pub canvas_id: String,
    pub width: u32,
    pub height: u32,
}

/// A shader source and the names of its attributes and uniforms.
#[derive(Clone, Debug)]
pub struct ShaderConfig {
    pub id: String,
    pub kind: String,
    pub path: String,
    pub attributes: Vec<AttributeConfig>,
    pub uniforms: Vec<UniformConfig>,
}

/// A program linking a vertex and a fragment shader.
#[derive(Clone, Debug)]
pub struct ProgramConfig {
    pub id: String,
    pub vertex_id: String,
    pub fragment_id: String,
}

/// A shader attribute.
#[derive(Clone, Debug)]
pub struct AttributeConfig {
    pub name: String,
}

/// A shader uniform.
#[derive(Clone, Debug)]
pub struct UniformConfig {
    pub name: String,
}

/// The type of a shader input.
#[derive(Copy, Clone, Debug, PartialEq, Eq, Structural)]
pub enum WebGLType {
    Bool,
    Int,
    LongInt,
    Short,
    Float,
    Double,
    Vec2,
    Vec3,
    Vec4,
    Mat2,
    Mat3,
    Mat4,
}

/// The raw bytes of an authored buffer.
#[derive(Clone, Debug)]
pub struct BufferConfig(pub Vec<u8>);

/// An authored mesh: its index view, its attribute views and its material.
#[derive(Clone, Debug)]
pub struct MeshConfig {
    pub index_view: Option<BufferViewConfig>,
    pub buffer_views: Vec<BufferViewConfig>,
    pub material: Option<u32>,
}

/// An authored material: the texture of each of its parts.
#[derive(Clone, Debug)]
pub struct MaterialConfig {
    pub id: String,
    pub diffuse: Option<u32>,
    pub normal: Option<u32>,
    pub metallic_roughness: Option<u32>,
    pub occlusion: Option<u32>,
}

} // verus!
