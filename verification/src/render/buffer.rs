use vstd::prelude::*;

use crate::render::types::ShaderStages;

verus! {

/// Handle of a GPU buffer in the render registry.
#[derive(Clone, Copy, PartialEq, Eq, PartialOrd, Ord)]
pub struct BufferHandle(pub slotmap::KeyData);

/// Describes how a buffer is bound for shaders.
pub struct BufferResourceDescriptor {
    /// The shader stages the buffer is visible from.
    pub visibility: ShaderStages,
    /// Uniform (read only, small) or storage (read and write, larger).
    pub buffer_type: wgpu::BufferBindingType,
}

/// What filling a buffer of `capacity` elements with `len` elements does.
#[derive(Debug, Clone, Copy, PartialEq, Eq, Structural)]
pub enum FillPlan {
    /// The data do not fit: a buffer overflow of `len` elements is reported.
    Overflow(usize),
    /// The data are written.
    Write,
    /// There is nothing to write.
    Nothing,
}

/// The decision of an exact fill: more elements than the capacity is an
/// overflow, no elements writes nothing, anything else is written.
pub fn plan_fill_exact(capacity: usize, len: usize) -> (p: FillPlan)
    ensures
        p == if len > capacity {
            FillPlan::Overflow(len)
        } else if len == 0 {
            FillPlan::Nothing
        } else {
            FillPlan::Write
        },
{
    if len > capacity {
        FillPlan::Overflow(len)
    } else if len == 0 {
        FillPlan::Nothing
    } else {
        FillPlan::Write
    }
}

} // verus!
