use vstd::prelude::*;

use crate::render::types::{FilterMode, TextureDimension, TextureUsages};

verus! {

#[verifier::external_type_specification]
#[verifier::external_body]
pub struct ExKeyData(slotmap::KeyData);

/// Handle of a texture in the render registry.
#[derive(Clone, Copy, PartialEq, Eq, PartialOrd, Ord)]
pub struct TextureHandle(pub slotmap::KeyData);

/// Describes a texture: its size, format, usage and filtering.
#[derive(Debug, Clone)]
pub struct TextureDescriptor {
    /// Width of the texture in pixels.
    pub width: u32,
    /// Height of the texture in pixels.
    pub height: u32,
    /// Depth, for 3D textures.
    pub depth: Option<u32>,
    /// Filtering used when the texture is sampled.
    pub filter: FilterMode,
    /// Dimensionality of the texture.
    pub dimension: TextureDimension,
    /// How the texture will be used.
    pub usage: TextureUsages,
    /// Texel format of the texture.
    pub format: wgpu::TextureFormat,
    /// Number of mip levels.
    pub mip_level_count: u32,
    /// Label shown in errors about the texture.
    pub label: String,
}

/// The texel format textures get unless told otherwise: 8-bit RGBA in the
/// sRGB color space (`TextureFormat::Rgba8UnormSrgb`). Nothing is stated of
/// the value, which the library only carries.
#[verifier::external_body]
fn default_format() -> wgpu::TextureFormat {
    wgpu::TextureFormat::Rgba8UnormSrgb
}

impl Default for TextureDescriptor {
    /// A 1 by 1 linear-filtered 2D texture with one mip level, usable as a
    /// sampled binding and as a copy destination, in the default format.
    fn default() -> (d: TextureDescriptor)
        ensures
            d.width == 1,
            d.height == 1,
            d.depth is None,
            d.filter == FilterMode::Linear,
            d.dimension == TextureDimension::D2,
            d.usage.0 == 6,
            d.mip_level_count == 1,
            d.label@ == "Unnamed Texture"@,
    {
        let usage = TextureUsages::texture_binding().union(TextureUsages::copy_dst());
        assert(4u32 | 2u32 == 6u32) by (bit_vector);
        TextureDescriptor {
            width: 1,
            height: 1,
            depth: None,
            filter: FilterMode::Linear,
            dimension: TextureDimension::D2,
            usage,
            format: default_format(),
            mip_level_count: 1,
            label: String::from_str("Unnamed Texture"),
        }
    }
}

/// How a texture resource is used in shaders, as bits: sampled texture `1`,
/// sampler `2`, storage texture `4`.
#[derive(Debug, Clone, Copy, PartialEq, Eq, Structural)]
pub struct TextureResourceUsage {
    bits: u8,
}

impl View for TextureResourceUsage {
    type V = u8;

    closed spec fn view(&self) -> u8 {
        self.bits
    }
}

impl TextureResourceUsage {
    /// The texture is used as a sampled texture.
    pub fn texture() -> (u: TextureResourceUsage)
        ensures
            u@ == 1,
    {
        TextureResourceUsage { bits: 1 }
    }

    /// The texture is used with a sampler.
    pub fn sampler() -> (u: TextureResourceUsage)
        ensures
            u@ == 2,
    {
        TextureResourceUsage { bits: 2 }
    }

    /// The texture is used as a storage texture.
    pub fn storage() -> (u: TextureResourceUsage)
        ensures
            u@ == 4,
    {
        TextureResourceUsage { bits: 4 }
    }

    /// No use.
    pub fn empty() -> (u: TextureResourceUsage)
        ensures
            u@ == 0,
    {
        TextureResourceUsage { bits: 0 }
    }

    /// The uses of both sets.
    pub fn union(self, other: TextureResourceUsage) -> (u: TextureResourceUsage)
        ensures
            u@ == self@ | other@,
    {
        TextureResourceUsage { bits: self.bits | other.bits }
    }

    /// Whether every use of `other` is one of `self`.
    pub fn contains(&self, other: TextureResourceUsage) -> (r: bool)
        ensures
            r == (self@ & other@ == other@),
    {
        self.bits & other.bits == other.bits
    }

    /// The bits of the set.
    pub fn bits(&self) -> (b: u8)
        ensures
            b == self@,
    {
        self.bits
    }
}

/// Describes how a texture is bound for shaders.
pub struct TextureResourceDescriptor {
    /// How the texture is used.
    pub usage: TextureResourceUsage,
    /// The sample type, needed when the texture is used as a sampled texture.
    pub sample_type: Option<wgpu::TextureSampleType>,
    /// The sampler binding type, needed when the texture is used with a
    /// sampler.
    pub sampler_binding_type: Option<wgpu::SamplerBindingType>,
    /// Dimensionality of the texture.
    pub dimension: TextureDimension,
    /// Texel format, for storage textures.
    pub format: wgpu::TextureFormat,
}

} // verus!
