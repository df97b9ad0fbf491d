use vstd::prelude::*;

verus! {

/// Shader stages a buffer is visible to, as a bit set.
pub const STAGE_VERTEX: u32 = 1;

pub const STAGE_FRAGMENT: u32 = 2;

pub const STAGE_COMPUTE: u32 = 4;

/// A buffer to bind for the shaders, and the stages that see it.
pub struct BufferDescriptor<'a> {
    pub buffer_type: BindGroupBufferType<'a>,
    pub shader_stages: u32,
}

pub enum BindGroupBufferType<'a> {
    Uniform(Uniform<'a>),
    SSBO(SSBO<'a>),
}

/// A storage buffer's contents.
pub struct SSBO<'a> {
    pub data: &'a [u8],
    pub read_only: bool,
}

/// A uniform buffer's contents.
pub struct Uniform<'a> {
    pub data: &'a [u8],
}

} // verus!
