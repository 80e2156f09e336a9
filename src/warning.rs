//! Warnings that loading shaders and programs can raise.
use vstd::prelude::*;
use vstd::string::StringExecFns;

verus! {

/// A shader input that the compiled program does not expose.
#[derive(Clone, Debug)]
pub enum ShaderWarning {
    AttributeNotFound(String),
    UniformNotFound(String),
}

/// A warning: about a shader, or any other message.
#[derive(Clone, Debug)]
pub enum Warning {
    ShaderWarning(ShaderWarning),
    Custom(String),
}

/// The text of a shader warning.
pub open spec fn shader_warning_text(w: ShaderWarning) -> Seq<char> {
    match w {
        ShaderWarning::AttributeNotFound(a) => "Warning: Attribute not found "@ + a@,
        ShaderWarning::UniformNotFound(u) => "Warning: Uniform not found "@ + u@,
    }
}

impl ShaderWarning {
    /// The text of this warning, naming the missing input.
    pub fn to_string(&self) -> (r: String)
        ensures
            r@ == shader_warning_text(*self),
    {
        match self {
            ShaderWarning::AttributeNotFound(attribute) => String::from_str(
                "Warning: Attribute not found ",
            ).concat(attribute.as_str()),
            ShaderWarning::UniformNotFound(uniform) => String::from_str(
                "Warning: Uniform not found ",
            ).concat(uniform.as_str()),
        }
    }
}

impl Warning {
    /// The text of this warning.
    pub fn to_string(&self) -> (r: String)
        ensures
            r@ == match *self {
                Warning::ShaderWarning(w) => shader_warning_text(w),
                Warning::Custom(s) => s@,
            },
    {
        match self {
            Warning::ShaderWarning(w) => w.to_string(),
            Warning::Custom(s) => String::from_str(s.as_str()),
        }
    }

    /// Wraps a shader warning.
    pub fn from(shader_warning: &ShaderWarning) -> (r: Warning)
        ensures
            r == Warning::ShaderWarning(*shader_warning),
    {
        let copy = match shader_warning {
            ShaderWarning::AttributeNotFound(a) => ShaderWarning::AttributeNotFound(a.clone()),
            ShaderWarning::UniformNotFound(u) => ShaderWarning::UniformNotFound(u.clone()),
        };
        Warning::ShaderWarning(copy)
    }
}

} // verus!
