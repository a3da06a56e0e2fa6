//! The GPU description types that the render logic reads or produces. Those
//! whose values the logic inspects are the library's own, with the same
//! variants and bits as the GPU library's; the rest are the GPU library's
//! types, carried through unopened.

use vstd::prelude::*;

verus! {

#[verifier::external_type_specification]
#[verifier::external_body]
pub struct ExTextureFormat(wgpu::TextureFormat);

#[verifier::external_type_specification]
#[verifier::external_body]
pub struct ExTextureSampleType(wgpu::TextureSampleType);

#[verifier::external_type_specification]
#[verifier::external_body]
pub struct ExSamplerBindingType(wgpu::SamplerBindingType);

#[verifier::external_type_specification]
#[verifier::external_body]
pub struct ExBufferBindingType(wgpu::BufferBindingType);

#[verifier::external_type_specification]
#[verifier::external_body]
pub struct ExTextureView(wgpu::TextureView);

/// `Clone` of `TextureFormat`, a `Copy` type whose derived `clone` gives
/// back the value itself.
pub assume_specification[ <wgpu::TextureFormat as Clone>::clone ](f: &wgpu::TextureFormat) -> (r: wgpu::TextureFormat)
    ensures
        r == *f,
;

/// Shader stages a binding is visible from, as bits: vertex `1`, fragment
/// `2`, compute `4`, task `8`, mesh `16`.
#[derive(Debug, Clone, Copy, PartialEq, Eq, Structural)]
pub struct ShaderStages(pub u32);

impl ShaderStages {
    pub fn vertex() -> (s: ShaderStages)
        ensures
            s.0 == 1,
    {
        ShaderStages(1)
    }

    pub fn fragment() -> (s: ShaderStages)
        ensures
            s.0 == 2,
    {
        ShaderStages(2)
    }

    pub fn compute() -> (s: ShaderStages)
        ensures
            s.0 == 4,
    {
        ShaderStages(4)
    }

    /// The stages of both sets.
    pub fn union(self, other: ShaderStages) -> (s: ShaderStages)
        ensures
            s.0 == self.0 | other.0,
    {
        ShaderStages(self.0 | other.0)
    }
}

/// How a texture may be used, as bits: copy source `1`, copy destination
/// `2`, sampled binding `4`, storage binding `8`, render attachment `16`.
#[derive(Debug, Clone, Copy, PartialEq, Eq, Structural)]
pub struct TextureUsages(pub u32);

impl TextureUsages {
    pub fn copy_src() -> (u: TextureUsages)
        ensures
            u.0 == 1,
    {
        TextureUsages(1)
    }

    pub fn copy_dst() -> (u: TextureUsages)
        ensures
            u.0 == 2,
    {
        TextureUsages(2)
    }

    pub fn texture_binding() -> (u: TextureUsages)
        ensures
            u.0 == 4,
    {
        TextureUsages(4)
    }

    pub fn storage_binding() -> (u: TextureUsages)
        ensures
            u.0 == 8,
    {
        TextureUsages(8)
    }

    pub fn render_attachment() -> (u: TextureUsages)
        ensures
            u.0 == 16,
    {
        TextureUsages(16)
    }

    /// The usages of both sets.
    pub fn union(self, other: TextureUsages) -> (u: TextureUsages)
        ensures
            u.0 == self.0 | other.0,
    {
        TextureUsages(self.0 | other.0)
    }
}

/// Texel filtering when a texture is sampled.
#[derive(Debug, Clone, Copy, PartialEq, Eq, Structural)]
pub enum FilterMode {
    Nearest,
    Linear,
}

/// Dimensionality of a texture.
#[derive(Debug, Clone, Copy, PartialEq, Eq, Structural)]
pub enum TextureDimension {
    D1,
    D2,
    D3,
}

/// Dimensionality of a view of a texture.
#[derive(Debug, Clone, Copy, PartialEq, Eq, Structural)]
pub enum TextureViewDimension {
    D1,
    D2,
    D2Array,
    Cube,
    CubeArray,
    D3,
}

/// Access a shader has to a storage texture.
#[derive(Debug, Clone, Copy, PartialEq, Eq, Structural)]
pub enum StorageTextureAccess {
    WriteOnly,
    ReadOnly,
    ReadWrite,
    Atomic,
}

} // verus!
