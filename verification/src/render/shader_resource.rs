//! Building the binding layouts and binding lists of shader resources: each
//! buffer or texture added takes the next binding numbers.

use vstd::prelude::*;

use crate::render::buffer::BufferResourceDescriptor;
use crate::render::texture::{TextureResourceDescriptor, TextureResourceUsage};
use crate::render::types::{ShaderStages, StorageTextureAccess, TextureDimension, TextureViewDimension};

verus! {

/// What a binding of a layout holds.
#[derive(Debug, Clone, Copy, PartialEq)]
pub enum BindingType {
    Buffer { ty: wgpu::BufferBindingType, has_dynamic_offset: bool },
    Sampler(wgpu::SamplerBindingType),
    Texture { sample_type: wgpu::TextureSampleType, view_dimension: TextureViewDimension, multisampled: bool },
    StorageTexture { access: StorageTextureAccess, format: wgpu::TextureFormat, view_dimension: TextureViewDimension },
}

/// One binding of a layout. The builder never sets a minimum binding size
/// or an array count.
#[derive(Debug, Clone, Copy, PartialEq)]
pub struct BindGroupLayoutEntry {
    pub binding: u32,
    pub visibility: ShaderStages,
    pub ty: BindingType,
}

/// The view dimension a texture of dimension `d` is bound with.
pub open spec fn view_dimension_of(d: TextureDimension) -> TextureViewDimension {
    match d {
        TextureDimension::D1 => TextureViewDimension::D1,
        TextureDimension::D2 => TextureViewDimension::D2,
        TextureDimension::D3 => TextureViewDimension::D3,
    }
}

/// The layout entry for the buffer described by `d`, at `binding`.
pub open spec fn buffer_layout_entry(d: BufferResourceDescriptor, binding: u32) -> BindGroupLayoutEntry {
    BindGroupLayoutEntry {
        binding,
        visibility: d.visibility,
        ty: BindingType::Buffer { ty: d.buffer_type, has_dynamic_offset: false },
    }
}

/// The uses set in `bits`, in the order texture, sampler, storage, each as
/// its bit.
pub open spec fn uses_of(bits: u8) -> Seq<u8> {
    (if bits & 1 != 0 { seq![1u8] } else { Seq::empty() })
        + (if bits & 2 != 0 { seq![2u8] } else { Seq::empty() })
        + (if bits & 4 != 0 { seq![4u8] } else { Seq::empty() })
}

/// The layout entry for use `u` of the texture described by `d`, at
/// `binding`; texture bindings are visible from the fragment and compute
/// stages.
pub open spec fn texture_layout_entry(d: TextureResourceDescriptor, u: u8, binding: u32) -> BindGroupLayoutEntry {
    BindGroupLayoutEntry {
        binding,
        visibility: ShaderStages(6),
        ty: if u == 1 {
            BindingType::Texture {
                sample_type: d.sample_type.unwrap(),
                view_dimension: view_dimension_of(d.dimension),
                multisampled: false,
            }
        } else if u == 2 {
            BindingType::Sampler(d.sampler_binding_type.unwrap())
        } else {
            BindingType::StorageTexture {
                access: StorageTextureAccess::WriteOnly,
                format: d.format,
                view_dimension: view_dimension_of(d.dimension),
            }
        },
    }
}

/// The entries added for the texture described by `d` after `base` entries:
/// one per use, numbered on from `base`.
pub open spec fn texture_layout_entries(d: TextureResourceDescriptor, base: int) -> Seq<BindGroupLayoutEntry> {
    let uses = uses_of(d.usage@);
    Seq::new(uses.len(), |k: int| texture_layout_entry(d, uses[k], (base + k) as u32))
}

/// Entry `k` has binding number `k`.
pub open spec fn numbered_layout(entries: Seq<BindGroupLayoutEntry>) -> bool {
    forall|k: int| 0 <= k < entries.len() ==> (#[trigger] entries[k]).binding == k as u32
}

/// Adding a buffer or a texture to a layout whose bindings are numbered
/// from zero keeps them so: bindings are handed out consecutively, and a
/// texture takes one binding per use.
pub proof fn lemma_layout_numbering(entries: Seq<BindGroupLayoutEntry>, buffer: BufferResourceDescriptor, texture: TextureResourceDescriptor)
    requires
        numbered_layout(entries),
    ensures
        numbered_layout(entries.push(buffer_layout_entry(buffer, entries.len() as u32))),
        numbered_layout(entries + texture_layout_entries(texture, entries.len() as int)),
        texture_layout_entries(texture, entries.len() as int).len() == uses_of(texture.usage@).len(),
{
    let t = entries + texture_layout_entries(texture, entries.len() as int);
    assert forall|k: int| 0 <= k < t.len() implies (#[trigger] t[k]).binding == k as u32 by {
        if k >= entries.len() {
            assert(t[k] == texture_layout_entries(texture, entries.len() as int)[k - entries.len()]);
        }
    }
}

/// Collects the bindings of a shader resource layout.
pub struct ShaderResourceLayoutBuilder {
    label: Option<String>,
    bind_group_layout_entries: Vec<BindGroupLayoutEntry>,
}

impl View for ShaderResourceLayoutBuilder {
    type V = (Option<Seq<char>>, Seq<BindGroupLayoutEntry>);

    /// The label, if any, and the entries so far.
    closed spec fn view(&self) -> (Option<Seq<char>>, Seq<BindGroupLayoutEntry>) {
        (
            match self.label {
                Some(l) => Some(l@),
                None => None,
            },
            self.bind_group_layout_entries@,
        )
    }
}

impl ShaderResourceLayoutBuilder {
    /// No label, no entry.
    pub fn new() -> (b: ShaderResourceLayoutBuilder)
        ensures
            b@.0 is None,
            b@.1 == Seq::<BindGroupLayoutEntry>::empty(),
    {
        ShaderResourceLayoutBuilder { label: None, bind_group_layout_entries: Vec::new() }
    }

    /// Names the layout.
    pub fn with_label(self, label: String) -> (b: ShaderResourceLayoutBuilder)
        ensures
            b@ == (Some(label@), self@.1),
    {
        let mut b = self;
        b.label = Some(label);
        b
    }

    /// Adds a buffer binding, numbered after the entries so far.
    pub fn with_buffer(self, descriptor: &BufferResourceDescriptor) -> (b: ShaderResourceLayoutBuilder)
        ensures
            b@ == (self@.0, self@.1.push(buffer_layout_entry(*descriptor, self@.1.len() as u32))),
    {
        let mut b = self;
        let binding = b.bind_group_layout_entries.len() as u32;
        b.bind_group_layout_entries.push(BindGroupLayoutEntry {
            binding,
            visibility: descriptor.visibility,
            ty: BindingType::Buffer { ty: descriptor.buffer_type, has_dynamic_offset: false },
        });
        b
    }

    /// Adds the bindings of a texture: one for each use, in the order
    /// texture, sampler, storage, numbered on after the entries so far.
    pub fn with_texture(self, descriptor: &TextureResourceDescriptor) -> (b: ShaderResourceLayoutBuilder)
        requires
            descriptor.usage@ & 1 != 0 ==> descriptor.sample_type is Some,
            descriptor.usage@ & 2 != 0 ==> descriptor.sampler_binding_type is Some,
            self@.1.len() + 3 <= usize::MAX,
        ensures
            b@ == (self@.0, self@.1 + texture_layout_entries(*descriptor, self@.1.len() as int)),
    {
        let view_dimension = match descriptor.dimension {
            TextureDimension::D1 => TextureViewDimension::D1,
            TextureDimension::D2 => TextureViewDimension::D2,
            TextureDimension::D3 => TextureViewDimension::D3,
        };
        let visibility = ShaderStages::fragment().union(ShaderStages::compute());
        assert(2u32 | 4u32 == 6u32) by (bit_vector);
        let bits = descriptor.usage.bits();
        let mut b = self;
        let base = b.bind_group_layout_entries.len();
        let mut i: usize = 0;
        if bits & 1 != 0 {
            let sample_type = match descriptor.sample_type {
                Some(t) => t,
                None => {
                    assert(false);
                    return b;
                },
            };
            b.bind_group_layout_entries.push(BindGroupLayoutEntry {
                binding: (base + i) as u32,
                visibility,
                ty: BindingType::Texture { sample_type, view_dimension, multisampled: false },
            });
            i = i + 1;
        }
        if bits & 2 != 0 {
            let sampler_type = match descriptor.sampler_binding_type {
                Some(t) => t,
                None => {
                    assert(false);
                    return b;
                },
            };
            b.bind_group_layout_entries.push(BindGroupLayoutEntry {
                binding: (base + i) as u32,
                visibility,
                ty: BindingType::Sampler(sampler_type),
            });
            i = i + 1;
        }
        if bits & 4 != 0 {
            b.bind_group_layout_entries.push(BindGroupLayoutEntry {
                binding: (base + i) as u32,
                visibility,
                ty: BindingType::StorageTexture {
                    access: StorageTextureAccess::WriteOnly,
                    format: descriptor.format,
                    view_dimension,
                },
            });
        }
        proof {
            let added = texture_layout_entries(*descriptor, base as int);
            assert(b.bind_group_layout_entries@ =~= self@.1 + added);
        }
        b
    }

    /// The label of the layout, if any.
    pub fn label(&self) -> (l: &Option<String>)
        ensures
            match l {
                Some(s) => self@.0 == Some(s@),
                None => self@.0 is None,
            },
    {
        &self.label
    }

    /// The entries so far.
    pub fn entries(&self) -> (e: &[BindGroupLayoutEntry])
        ensures
            e@ == self@.1,
    {
        self.bind_group_layout_entries.as_slice()
    }
}

/// What a binding of a shader resource refers to: a whole buffer, or the
/// view or the sampler of a texture.
pub enum BindingResource<'a, B, T> {
    EntireBuffer(&'a B),
    TextureView(&'a T),
    Sampler(&'a T),
}

/// One binding of a shader resource.
pub struct BindGroupEntry<'a, B, T> {
    pub binding: u32,
    pub resource: BindingResource<'a, B, T>,
}

/// The entry for use `u` of `texture` at `binding`: its sampler for the
/// sampler use, its view otherwise.
pub open spec fn texture_entry<'a, B, T>(texture: &'a T, u: u8, binding: u32) -> BindGroupEntry<'a, B, T> {
    BindGroupEntry {
        binding,
        resource: if u == 2 {
            BindingResource::Sampler(texture)
        } else {
            BindingResource::TextureView(texture)
        },
    }
}

/// The entries added for `texture` with uses `usage` after `base` entries:
/// one per use, numbered on from `base`.
pub open spec fn texture_entries<'a, B, T>(texture: &'a T, usage: TextureResourceUsage, base: int) -> Seq<BindGroupEntry<'a, B, T>> {
    let uses = uses_of(usage@);
    Seq::new(uses.len(), |k: int| texture_entry(texture, uses[k], (base + k) as u32))
}

/// Entry `k` has binding number `k`.
pub open spec fn numbered_resource<'a, B, T>(entries: Seq<BindGroupEntry<'a, B, T>>) -> bool {
    forall|k: int| 0 <= k < entries.len() ==> (#[trigger] entries[k]).binding == k as u32
}

/// Adding a buffer or a texture to a shader resource whose bindings are
/// numbered from zero keeps them so, a texture taking one binding per use;
/// its bindings thus line up with those of a layout built from the same
/// uses.
pub proof fn lemma_resource_numbering<'a, B, T>(entries: Seq<BindGroupEntry<'a, B, T>>, buffer: &'a B, texture: &'a T, usage: TextureResourceUsage)
    requires
        numbered_resource(entries),
    ensures
        numbered_resource(
            entries.push(BindGroupEntry { binding: entries.len() as u32, resource: BindingResource::EntireBuffer(buffer) }),
        ),
        numbered_resource(entries + texture_entries(texture, usage, entries.len() as int)),
        texture_entries::<B, T>(texture, usage, entries.len() as int).len() == uses_of(usage@).len(),
{
    let t = entries + texture_entries(texture, usage, entries.len() as int);
    assert forall|k: int| 0 <= k < t.len() implies (#[trigger] t[k]).binding == k as u32 by {
        if k >= entries.len() {
            assert(t[k] == texture_entries::<B, T>(texture, usage, entries.len() as int)[k - entries.len()]);
        }
    }
    let p = entries.push(BindGroupEntry { binding: entries.len() as u32, resource: BindingResource::EntireBuffer(buffer) });
    assert forall|k: int| 0 <= k < p.len() implies (#[trigger] p[k]).binding == k as u32 by {
        if k < entries.len() {
            assert(p[k] == entries[k]);
        }
    }
}

/// Collects the bindings of a shader resource, over buffers of type `B` and
/// textures of type `T`.
pub struct ShaderResourceBuilder<'a, B, T> {
    bind_group_entries: Vec<BindGroupEntry<'a, B, T>>,
}

impl<'a, B, T> View for ShaderResourceBuilder<'a, B, T> {
    type V = Seq<BindGroupEntry<'a, B, T>>;

    /// The entries so far.
    closed spec fn view(&self) -> Seq<BindGroupEntry<'a, B, T>> {
        self.bind_group_entries@
    }
}

impl<'a, B, T> ShaderResourceBuilder<'a, B, T> {
    /// No entry.
    pub fn new() -> (b: ShaderResourceBuilder<'a, B, T>)
        ensures
            b@ == Seq::<BindGroupEntry<'a, B, T>>::empty(),
    {
        ShaderResourceBuilder { bind_group_entries: Vec::new() }
    }

    /// Binds the whole of `buffer`, numbered after the entries so far.
    pub fn with_buffer(self, buffer: &'a B) -> (b: ShaderResourceBuilder<'a, B, T>)
        ensures
            b@ == self@.push(BindGroupEntry { binding: self@.len() as u32, resource: BindingResource::EntireBuffer(buffer) }),
    {
        let mut b = self;
        let binding = b.bind_group_entries.len() as u32;
        b.bind_group_entries.push(BindGroupEntry { binding, resource: BindingResource::EntireBuffer(buffer) });
        b
    }

    /// Binds `texture` once for each use in `usage`, in the order texture,
    /// sampler, storage, numbered on after the entries so far.
    pub fn with_texture(self, texture: &'a T, usage: TextureResourceUsage) -> (b: ShaderResourceBuilder<'a, B, T>)
        requires
            self@.len() + 3 <= usize::MAX,
        ensures
            b@ == self@ + texture_entries(texture, usage, self@.len() as int),
    {
        let bits = usage.bits();
        let mut b = self;
        let base = b.bind_group_entries.len();
        let mut i: usize = 0;
        if bits & 1 != 0 {
            b.bind_group_entries.push(BindGroupEntry {
                binding: (base + i) as u32,
                resource: BindingResource::TextureView(texture),
            });
            i = i + 1;
        }
        if bits & 2 != 0 {
            b.bind_group_entries.push(BindGroupEntry {
                binding: (base + i) as u32,
                resource: BindingResource::Sampler(texture),
            });
            i = i + 1;
        }
        if bits & 4 != 0 {
            b.bind_group_entries.push(BindGroupEntry {
                binding: (base + i) as u32,
                resource: BindingResource::TextureView(texture),
            });
        }
        proof {
            let added = texture_entries::<B, T>(texture, usage, base as int);
            assert(b.bind_group_entries@ =~= self@ + added);
        }
        b
    }

    /// The entries so far.
    pub fn entries(&self) -> (e: &[BindGroupEntry<'a, B, T>])
        ensures
            e@ == self@,
    {
        self.bind_group_entries.as_slice()
    }
}

} // verus!
