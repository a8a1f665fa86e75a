use hell_engine::config::ShaderLimits;
use hell_engine::error::HellErrorKind;
use hell_engine::generic_vulkan_shader::{
    GenericShaderScope, GenericVulkanShaderBuilder, InstanceState, UniformHandle, UniformInfo,
};
use hell_engine::render_types::{MemRange, NumberFormat};
use hell_engine::renderer_resources::{ResourceHandle, TextureManager};
use hell_engine::vulkan_shader;

fn limits() -> ShaderLimits {
    ShaderLimits { ubo_alignment: 256, push_constant_stride: 128, max_material_count: 4 }
}

fn builder() -> GenericVulkanShaderBuilder {
    GenericVulkanShaderBuilder::new("shaders/generic", limits())
        .with_attribute(NumberFormat::R32G32B32A32_SFLOAT)
        .with_global_bindings()
        .with_instance_bindings()
        .with_global_uniform::<[f32; 16]>("view")
        .with_instance_uniform::<[f32; 4]>("tint")
        .with_global_sampler("atlas", ResourceHandle::new(3))
        .unwrap()
}

#[test]
fn scope_sets() {
    assert_eq!(GenericShaderScope::Global.set_idx(), Some(0));
    assert_eq!(GenericShaderScope::Instance.set_idx(), Some(1));
    assert_eq!(GenericShaderScope::Local.set_idx(), None);
    assert!(GenericShaderScope::Instance.supports_samplers());
    assert!(!GenericShaderScope::Local.supports_samplers());
    assert_eq!(GenericShaderScope::Local.index(), 2);
}

#[test]
fn draft_scopes_share_set_zero() {
    assert_eq!(vulkan_shader::GenericShaderScope::Global.set_idx(), Some(0));
    assert_eq!(vulkan_shader::GenericShaderScope::Instance.set_idx(), Some(0));
    assert_eq!(vulkan_shader::GenericShaderScope::Local.set_idx(), None);
}

#[test]
fn small_types() {
    assert_eq!(UniformHandle::new(GenericShaderScope::Local, 1).idx, 1);
    let u = UniformInfo::new_push_constant("m", 2, MemRange::new(0, 64));
    assert_eq!(u.scope, GenericShaderScope::Local);
    let v = UniformInfo::new_uniform("v", GenericShaderScope::Global, 0, MemRange::new(0, 64));
    assert_eq!(v.name, "v");
    assert_eq!(InstanceState::default(), InstanceState { is_valid: false, idx: 0, offset: 0 });
}

#[test]
fn local_set_is_refused() {
    let e = GenericVulkanShaderBuilder::new("s", limits()).with_set_bindings(GenericShaderScope::Local).unwrap_err();
    assert_eq!(e.kind, HellErrorKind::RenderError);
    assert_eq!(e.msg, "trying to use bindings for invalid set");
    assert!(GenericVulkanShaderBuilder::new("s", limits()).with_set_bindings(GenericShaderScope::Instance).is_ok());
}

#[test]
fn layout_of_generic_shader() {
    let b = builder();
    assert_eq!(b.calculate_ubo_stride(GenericShaderScope::Global), 256);
    let l = b.layout();
    assert_eq!(l.vertex_stride, 16);
    assert_eq!(l.set_layouts.len(), 2);
    assert_eq!(l.set_layouts[0].samplers.unwrap().count, 1);
    assert!(l.set_layouts[1].samplers.is_none());
    assert_eq!(l.global_ubo_stride, 256);
    assert_eq!(l.instance_ubo_stride, 256);
    // the global entry, then room for four material entries
    assert_eq!(l.total_buffer_size, 256 + 256 * 4);
    assert_eq!(l.ubo_ranges, vec![MemRange::new(0, 256), MemRange::new(256, 256)]);
}

#[test]
fn sets_stop_at_first_unused() {
    let l = GenericVulkanShaderBuilder::new("s", limits()).with_instance_bindings().layout();
    assert_eq!(l.set_layouts.len(), 0);
    let l = GenericVulkanShaderBuilder::new("s", limits()).with_global_bindings().layout();
    assert_eq!(l.set_layouts.len(), 1);
}

#[test]
fn push_constants_take_masked_ranges() {
    let b = GenericVulkanShaderBuilder::new("s", limits())
        .with_uniform::<[u8; 6]>("a", GenericShaderScope::Local)
        .with_uniform::<[u8; 3]>("b", GenericShaderScope::Local);
    // offset: (0 + 5) & !5 = 0; range: (0 + 3) & !3 = 0
    let l = b.layout();
    assert_eq!(l.total_buffer_size, 0);
}

#[test]
fn generic_shader_uniforms_and_entries() {
    let mut s = builder().build([1, 2, 3]);
    assert_eq!(s.buffer().len(), 1280);
    assert_eq!(s.uniform_handle("tint"), Some(UniformHandle::new(GenericShaderScope::Instance, 0)));
    assert_eq!(s.uniform_handle("atlas"), Some(UniformHandle::new(GenericShaderScope::Global, 1)));
    assert_eq!(s.uniform_handle("nope"), None);
    let t = s.uniform_handle("tint").unwrap();
    s.set_uniform(t, &[5, 6]).unwrap();
    assert_eq!(&s.buffer()[256..258], &[5, 6]);
    assert!(s.has_instance_layout());
    let h = s.acquire_instance_resource([7, 8, 9]).unwrap();
    assert_eq!(h, ResourceHandle::new(0));
    let tm = textures(5);
    let b = s.apply_instance_scope(1, &tm, h, &[ResourceHandle::new(4)]).unwrap();
    assert_eq!(b.desc_set, 8);
    assert_eq!(b.buffer_offset, 256);
    assert_eq!(b.buffer_range, 256);
    assert_eq!(b.textures, vec![ResourceHandle::new(4)]);
    assert_eq!(b.first_set, 0);
    let g = s.apply_global_scope(2, &tm).unwrap();
    assert_eq!(g.desc_set, 3);
    assert_eq!(g.textures, vec![ResourceHandle::new(3)]);
}

#[test]
fn instance_entry_needs_instance_set() {
    let mut s = GenericVulkanShaderBuilder::new("s", limits()).with_global_bindings().build([0, 0, 0]);
    assert!(!s.has_instance_layout());
    let e = s.acquire_instance_resource([1, 1, 1]).unwrap_err();
    assert_eq!(e.msg, "failed to get instance desc-layout");
}

fn textures(n: usize) -> TextureManager<(), u32> {
    let mut tm: TextureManager<(), u32> = TextureManager::new();
    for i in 0..n {
        tm.acquire_textuer(format!("tex{}.png", i), (), i as u32);
    }
    tm
}

#[test]
fn generic_apply_with_unknown_texture() {
    let mut s = builder().build([1, 2, 3]);
    let h = s.acquire_instance_resource([7, 8, 9]).unwrap();
    let tm = textures(3);
    let e = s.apply_instance_scope(0, &tm, h, &[ResourceHandle::new(4)]).unwrap_err();
    assert_eq!(e.kind, HellErrorKind::RenderError);
    assert_eq!(e.msg, "failed to get texture");
    // the global texture is handle 3, one past the last of three
    let e = s.apply_global_scope(0, &tm).unwrap_err();
    assert_eq!(e.msg, "failed to get texture");
    let tm = textures(4);
    assert_eq!(s.apply_global_scope(0, &tm).unwrap().desc_set, 1);
}
