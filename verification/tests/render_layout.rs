use xastge::render::buffer::BufferResourceDescriptor;
use xastge::render::shader_resource::{
    BindGroupLayoutEntry, BindingResource, BindingType, ShaderResourceBuilder, ShaderResourceLayoutBuilder,
};
use xastge::render::texture::{TextureDescriptor, TextureResourceDescriptor, TextureResourceUsage};
use xastge::render::types::{
    FilterMode, ShaderStages, StorageTextureAccess, TextureDimension, TextureUsages, TextureViewDimension,
};

fn sampled_texture(usage: TextureResourceUsage, dimension: TextureDimension) -> TextureResourceDescriptor {
    TextureResourceDescriptor {
        usage,
        sample_type: Some(wgpu::TextureSampleType::Float { filterable: true }),
        sampler_binding_type: Some(wgpu::SamplerBindingType::Filtering),
        dimension,
        format: wgpu::TextureFormat::R8Unorm,
    }
}

#[test]
fn material_layout_numbers_texture_sampler_then_buffer() {
    let layout = ShaderResourceLayoutBuilder::new()
        .with_texture(&sampled_texture(
            TextureResourceUsage::texture().union(TextureResourceUsage::sampler()),
            TextureDimension::D2,
        ))
        .with_buffer(&BufferResourceDescriptor {
            visibility: ShaderStages::fragment(),
            buffer_type: wgpu::BufferBindingType::Uniform,
        });
    let entries = layout.entries();
    assert_eq!(entries.len(), 3);
    assert_eq!(
        entries[0],
        BindGroupLayoutEntry {
            binding: 0,
            visibility: ShaderStages(6),
            ty: BindingType::Texture {
                sample_type: wgpu::TextureSampleType::Float { filterable: true },
                view_dimension: TextureViewDimension::D2,
                multisampled: false,
            },
        }
    );
    assert_eq!(
        entries[1],
        BindGroupLayoutEntry {
            binding: 1,
            visibility: ShaderStages(6),
            ty: BindingType::Sampler(wgpu::SamplerBindingType::Filtering),
        }
    );
    assert_eq!(
        entries[2],
        BindGroupLayoutEntry {
            binding: 2,
            visibility: ShaderStages(2),
            ty: BindingType::Buffer { ty: wgpu::BufferBindingType::Uniform, has_dynamic_offset: false },
        }
    );
    assert!(layout.label().is_none());
}

#[test]
fn storage_texture_after_buffer() {
    let layout = ShaderResourceLayoutBuilder::new()
        .with_label("compute".to_string())
        .with_buffer(&BufferResourceDescriptor {
            visibility: ShaderStages::compute(),
            buffer_type: wgpu::BufferBindingType::Storage { read_only: false },
        })
        .with_texture(&TextureResourceDescriptor {
            usage: TextureResourceUsage::storage(),
            sample_type: None,
            sampler_binding_type: None,
            dimension: TextureDimension::D3,
            format: wgpu::TextureFormat::Rgba8Unorm,
        });
    let entries = layout.entries();
    assert_eq!(entries.len(), 2);
    assert_eq!(
        entries[1],
        BindGroupLayoutEntry {
            binding: 1,
            visibility: ShaderStages(6),
            ty: BindingType::StorageTexture {
                access: StorageTextureAccess::WriteOnly,
                format: wgpu::TextureFormat::Rgba8Unorm,
                view_dimension: TextureViewDimension::D3,
            },
        }
    );
    assert_eq!(layout.label().as_deref(), Some("compute"));
}

#[test]
fn all_three_uses_take_consecutive_bindings() {
    let usage = TextureResourceUsage::texture()
        .union(TextureResourceUsage::sampler())
        .union(TextureResourceUsage::storage());
    assert_eq!(usage.bits(), 7);
    let layout = ShaderResourceLayoutBuilder::new().with_texture(&sampled_texture(usage, TextureDimension::D1));
    let entries = layout.entries();
    let bindings: Vec<u32> = entries.iter().map(|e| e.binding).collect();
    assert_eq!(bindings, vec![0, 1, 2]);
    assert!(matches!(
        entries[0].ty,
        BindingType::Texture { view_dimension: TextureViewDimension::D1, .. }
    ));
    assert!(matches!(entries[1].ty, BindingType::Sampler(_)));
    assert!(matches!(
        entries[2].ty,
        BindingType::StorageTexture { view_dimension: TextureViewDimension::D1, .. }
    ));
}

#[test]
fn empty_usage_adds_nothing() {
    let layout = ShaderResourceLayoutBuilder::new()
        .with_texture(&TextureResourceDescriptor {
            usage: TextureResourceUsage::empty(),
            sample_type: None,
            sampler_binding_type: None,
            dimension: TextureDimension::D2,
            format: wgpu::TextureFormat::R8Unorm,
        });
    assert!(layout.entries().is_empty());
}

#[test]
fn sampler_only_usage_starts_at_next_binding() {
    let layout = ShaderResourceLayoutBuilder::new()
        .with_buffer(&BufferResourceDescriptor {
            visibility: ShaderStages::vertex().union(ShaderStages::fragment()),
            buffer_type: wgpu::BufferBindingType::Uniform,
        })
        .with_texture(&sampled_texture(TextureResourceUsage::sampler(), TextureDimension::D2));
    let entries = layout.entries();
    assert_eq!(entries[0].visibility, ShaderStages(3));
    assert_eq!(entries.len(), 2);
    assert_eq!(entries[1].binding, 1);
    assert!(matches!(entries[1].ty, BindingType::Sampler(wgpu::SamplerBindingType::Filtering)));
}

#[test]
fn resource_entries_follow_usage_order() {
    let buffer: u32 = 5;
    let texture: &str = "tex";
    let res: ShaderResourceBuilder<u32, &str> = ShaderResourceBuilder::new()
        .with_buffer(&buffer)
        .with_texture(&texture, TextureResourceUsage::texture().union(TextureResourceUsage::sampler()));
    let entries = res.entries();
    assert_eq!(entries.len(), 3);
    assert_eq!(entries[0].binding, 0);
    assert!(matches!(entries[0].resource, BindingResource::EntireBuffer(b) if *b == 5));
    assert_eq!(entries[1].binding, 1);
    assert!(matches!(entries[1].resource, BindingResource::TextureView(t) if *t == "tex"));
    assert_eq!(entries[2].binding, 2);
    assert!(matches!(entries[2].resource, BindingResource::Sampler(_)));
}

#[test]
fn storage_resource_binds_view() {
    let texture: u8 = 1;
    let res: ShaderResourceBuilder<u8, u8> =
        ShaderResourceBuilder::new().with_texture(&texture, TextureResourceUsage::storage());
    let entries = res.entries();
    assert_eq!(entries.len(), 1);
    assert!(matches!(entries[0].resource, BindingResource::TextureView(_)));
}

#[test]
fn usage_contains_and_union() {
    let ts = TextureResourceUsage::texture().union(TextureResourceUsage::sampler());
    assert!(ts.contains(TextureResourceUsage::texture()));
    assert!(ts.contains(TextureResourceUsage::sampler()));
    assert!(!ts.contains(TextureResourceUsage::storage()));
    assert!(ts.contains(TextureResourceUsage::empty()));
    assert_eq!(ts.bits(), 3);
}

#[test]
fn texture_descriptor_default() {
    let d = TextureDescriptor::default();
    assert_eq!(d.width, 1);
    assert_eq!(d.height, 1);
    assert_eq!(d.depth, None);
    assert_eq!(d.filter, FilterMode::Linear);
    assert_eq!(d.dimension, TextureDimension::D2);
    assert_eq!(d.usage, TextureUsages::texture_binding().union(TextureUsages::copy_dst()));
    assert_eq!(d.usage, TextureUsages(6));
    assert_eq!(d.format, wgpu::TextureFormat::Rgba8UnormSrgb);
    assert_eq!(d.mip_level_count, 1);
    assert_eq!(d.label, "Unnamed Texture");
}
