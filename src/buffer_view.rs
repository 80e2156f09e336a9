//! Buffer views: how a byte range of a buffer reads as typed data.
use vstd::prelude::*;

verus! {

/// Component type code of 32-bit floats.
pub const FLOAT: u32 = 5126;

/// Component type code of 32-bit unsigned integers.
pub const UNSIGNED_INT: u32 = 5125;

/// Describes how to interpret a byte range of a buffer as attribute or index data.
#[derive(Copy, Clone, Debug, PartialEq, Eq, Structural)]
pub struct BufferView {
    pub buffer: usize,
    pub length: usize,
    pub buffer_offset: i32,
    pub offset: i32,
    pub combined_offset: i32,
    pub stride: i32,
    pub component_size: i32,
    pub component_count: i32,
    pub component_type: u32,
}

/// An already parsed description of a buffer view of an authored model.
#[derive(Clone, Debug)]
pub struct BufferViewConfig {
    pub id: String,
    pub buffer: usize,
    pub length: usize,
    pub buffer_offset: Option<i32>,
    pub offset: Option<i32>,
    pub stride: Option<i32>,
    pub component_size: i32,
    pub component_count: i32,
    pub component_type: u32,
}

pub open spec fn unwrap_or_zero(o: Option<i32>) -> i32 {
    match o {
        Some(v) => v,
        None => 0,
    }
}

/// The combined offset of a configured view fits in an `i32`.
pub open spec fn config_offsets_fit(c: BufferViewConfig) -> bool {
    i32::MIN <= unwrap_or_zero(c.buffer_offset) + unwrap_or_zero(c.offset) <= i32::MAX
}

impl BufferView {
    /// Builds a view from its configuration; absent offsets and stride are zero.
    pub fn new(intermediate: &BufferViewConfig) -> (r: BufferView)
        requires
            config_offsets_fit(*intermediate),
        ensures
            r.buffer == intermediate.buffer,
            r.length == intermediate.length,
            r.buffer_offset == unwrap_or_zero(intermediate.buffer_offset),
            r.offset == unwrap_or_zero(intermediate.offset),
            r.combined_offset == unwrap_or_zero(intermediate.buffer_offset) + unwrap_or_zero(
                intermediate.offset,
            ),
            r.stride == unwrap_or_zero(intermediate.stride),
            r.component_size == intermediate.component_size,
            r.component_count == intermediate.component_count,
            r.component_type == intermediate.component_type,
    {
        let buffer_offset: i32 = match intermediate.buffer_offset {
            Some(v) => v,
            None => 0,
        };
        let offset: i32 = match intermediate.offset {
            Some(v) => v,
            None => 0,
        };
        let stride: i32 = match intermediate.stride {
            Some(v) => v,
            None => 0,
        };
        BufferView {
            buffer: intermediate.buffer,
            length: intermediate.length,
            buffer_offset,
            offset,
            combined_offset: buffer_offset + offset,
            stride,
            component_size: intermediate.component_size,
            component_count: intermediate.component_count,
            component_type: intermediate.component_type,
        }
    }
}

} // verus!
