use hell_engine::config::ShaderLimits;
use hell_engine::error::HellErrorKind;
use hell_engine::render_types::{MemRange, NumberFormat, ValueRange};
use hell_engine::renderer_resources::{ResourceHandle, TextureManager};
use hell_engine::shader_program::{
    get_aligned, get_aligned_range, AttributeInfo, DescriptorKind, ScopeState, ShaderProgram, ShaderProgramBuilder,
    ShaderScope, UniformHandle, UniformInfo,
};

fn limits() -> ShaderLimits {
    ShaderLimits { ubo_alignment: 256, push_constant_stride: 128, max_material_count: 4 }
}

fn sprite_builder() -> ShaderProgramBuilder {
    ShaderProgramBuilder::new("shaders/sprite", limits())
        .with_attribute(NumberFormat::R32G32B32_SFLOAT)
        .with_attribute(NumberFormat::R32G32_SFLOAT)
        .with_global_uniform::<[f32; 16]>("view")
        .with_global_uniform::<[f32; 4]>("tint")
        .with_global_sampler("atlas", ResourceHandle::new(7))
        .unwrap()
        .with_instance_uniform::<[f32; 4]>("color")
        .with_instance_sampler("albedo")
        .unwrap()
}

fn sprite_program() -> ShaderProgram {
    sprite_builder().build([1, 2, 3])
}

#[test]
fn aligned_values() {
    assert_eq!(get_aligned(13, 8), 16);
    assert_eq!(get_aligned(16, 8), 16);
    assert_eq!(get_aligned(0, 256), 0);
    assert_eq!(get_aligned(1, 256), 256);
    let r = get_aligned_range(10, 4, 16);
    assert_eq!(r, ValueRange::new(12, 16));
}

#[test]
fn scope_indices() {
    assert_eq!(ShaderScope::from_index(0), ShaderScope::Global);
    assert_eq!(ShaderScope::from_index(3), ShaderScope::Local);
    assert_eq!(ShaderScope::Instance.index(), 2);
    assert_eq!(UniformHandle::new(ShaderScope::Shared, 4), UniformHandle { scope: ShaderScope::Shared, idx: 4 });
}

#[test]
fn uniform_info_constructors() {
    let u = UniformInfo::new_uniform("tint", ShaderScope::Global, 1, MemRange::new(64, 16));
    assert_eq!(u.name, "tint");
    assert_eq!(u.scope, ShaderScope::Global);
    assert_eq!(u.range, MemRange::new(64, 16));
    let p = UniformInfo::new_push_constant("model", 0, MemRange::new(0, 64));
    assert_eq!(p.scope, ShaderScope::Local);
    assert_eq!(p.idx, 0);
    let a = AttributeInfo::default();
    assert_eq!(a.format, NumberFormat::UNDEFINED);
    assert_eq!(a.location, 0);
}

#[test]
fn scope_state_accessors() {
    let s = ScopeState {
        idx: 0,
        buffer_offset: 256,
        buffer_stride: 256,
        buffer_desc_sets: [4, 5, 6],
        textures: vec![ResourceHandle::new(2)],
    };
    assert_eq!(s.buffer_desc_set(2), 6);
    assert_eq!(s.textures(), &[ResourceHandle::new(2)]);
}

#[test]
fn builder_strides() {
    let b = sprite_builder();
    assert_eq!(b.calculate_ubo_stride(ShaderScope::Global), 256);
    assert_eq!(b.calculate_ubo_stride(ShaderScope::Instance), 256);
    assert_eq!(b.calculate_ubo_stride(ShaderScope::Shared), 0);
    let small = ShaderProgramBuilder::new("s", ShaderLimits { ubo_alignment: 64, ..limits() })
        .with_global_uniform::<[u8; 65]>("a");
    assert_eq!(small.calculate_ubo_stride(ShaderScope::Global), 128);
}

#[test]
fn layout_of_sprite_program() {
    let l = sprite_builder().layout();
    assert_eq!(l.vertex_attributes.len(), 2);
    assert_eq!(l.vertex_attributes[0].offset, 0);
    assert_eq!(l.vertex_attributes[1].offset, 12);
    assert_eq!(l.vertex_attributes[1].location, 1);
    assert_eq!(l.vertex_attributes[1].format, NumberFormat::R32G32_SFLOAT);
    assert_eq!(l.vertex_stride, 20);
    // the used scopes get consecutive sets in scope order
    assert_eq!(l.scope_set_mapping, vec![Some(0), None, Some(1), None]);
    assert_eq!(l.set_layouts.len(), 2);
    assert_eq!(l.set_layouts[0].scope, ShaderScope::Global);
    assert_eq!(l.set_layouts[1].scope, ShaderScope::Instance);
    assert_eq!(l.set_layouts[0].ubo.kind, DescriptorKind::UniformBuffer);
    assert!(l.set_layouts[0].ubo.vertex_stage && l.set_layouts[0].ubo.fragment_stage);
    let samplers = l.set_layouts[1].samplers.unwrap();
    assert_eq!(samplers.binding, 1);
    assert_eq!(samplers.count, 1);
    assert_eq!(samplers.kind, DescriptorKind::CombinedImageSampler);
    assert!(!samplers.vertex_stage);
    // ranges follow one another: the global entry, then four instance entries
    assert_eq!(l.scope_ranges, vec![Some(MemRange::new(0, 256)), None, Some(MemRange::new(256, 1024)), None]);
    assert_eq!(l.scope_strides, vec![256, 0, 256, 0]);
    assert_eq!(l.total_buffer_size, 1280);
    assert!(!l.depth_test_enabled);
}

#[test]
fn layout_flags_and_empty_scopes() {
    let l = ShaderProgramBuilder::new("s", limits()).with_depth_test().with_wireframe().layout();
    assert!(l.depth_test_enabled && l.is_wireframe);
    assert_eq!(l.set_layouts.len(), 0);
    assert_eq!(l.total_buffer_size, 0);
    assert_eq!(l.vertex_stride, 0);
}

#[test]
fn lookup_finds_added_uniforms() {
    let p = sprite_program();
    assert_eq!(p.uniform_handle("view"), Some(UniformHandle::new(ShaderScope::Global, 0)));
    assert_eq!(p.uniform_handle("tint"), Some(UniformHandle::new(ShaderScope::Global, 1)));
    assert_eq!(p.uniform_handle("atlas"), Some(UniformHandle::new(ShaderScope::Global, 2)));
    assert_eq!(p.uniform_handle("color"), Some(UniformHandle::new(ShaderScope::Instance, 0)));
    assert_eq!(p.uniform_handle("albedo"), Some(UniformHandle::new(ShaderScope::Instance, 1)));
    assert_eq!(p.uniform_handle("missing"), None);
    let e = p.uniform_handle_res("missing").unwrap_err();
    assert_eq!(e.kind, HellErrorKind::RenderError);
    assert_eq!(e.msg, "failed to get uniform");
    assert_eq!(p.uniform_handle_res("tint").unwrap(), UniformHandle::new(ShaderScope::Global, 1));
}

#[test]
fn build_starts_with_zeroed_buffer_and_global_entry() {
    let p = sprite_program();
    assert_eq!(p.buffer().len(), 1280);
    assert!(p.buffer().iter().all(|b| *b == 0));
    assert_eq!(p.entry_count(ShaderScope::Global), 1);
    assert_eq!(p.entry_count(ShaderScope::Instance), 0);
    assert!(p.has_scope_layout(ShaderScope::Global));
    assert!(!p.has_scope_layout(ShaderScope::Shared));
}

#[test]
fn write_lands_at_bound_entry_plus_uniform_offset() {
    let mut p = sprite_program();
    p.bind_global();
    let h = p.uniform_handle("tint").unwrap();
    p.set_uniform(h, &[1, 2, 3, 4]).unwrap();
    assert_eq!(&p.buffer()[64..68], &[1, 2, 3, 4]);
    assert_eq!(p.buffer()[63], 0);
    assert_eq!(p.buffer()[68], 0);

    let e0 = p.acquire_instance_resource(&[ResourceHandle::new(9)], [10, 11, 12]).unwrap();
    let e1 = p.acquire_instance_resource(&[ResourceHandle::new(8)], [13, 14, 15]).unwrap();
    assert_eq!(e0, ResourceHandle::new(0));
    assert_eq!(e1, ResourceHandle::new(1));
    p.bind_instance(1);
    let c = p.uniform_handle("color").unwrap();
    p.set_uniform(c, &[9, 9]).unwrap();
    // entry 1 of the instance range starts one stride after the range
    assert_eq!(&p.buffer()[512..514], &[9, 9]);
    assert_eq!(p.buffer()[256], 0);
}

#[test]
fn buffer_offsets_of_entries() {
    let p = sprite_program();
    assert_eq!(p.calc_buffer_offset_and_size(ShaderScope::Instance, 3).unwrap(), (1024, 256));
    assert_eq!(p.calc_buffer_offset_and_size(ShaderScope::Global, 0).unwrap(), (0, 256));
    let e = p.calc_buffer_offset_and_size(ShaderScope::Shared, 0).unwrap_err();
    assert_eq!(e.msg, "failed to get scope range");
}

#[test]
fn acquire_without_layout_is_refused() {
    let mut p = sprite_program();
    let e = p.acquire_shared_resource(&[], [1, 1, 1]).unwrap_err();
    assert_eq!(e.kind, HellErrorKind::RenderError);
    assert_eq!(e.msg, "failed to get scope desc-layout");
    assert_eq!(p.entry_count(ShaderScope::Shared), 0);
    let e = p.acquire_local_resource(&[], [1, 1, 1]).unwrap_err();
    assert_eq!(e.msg, "failed to get scope desc-layout");
}

#[test]
fn apply_scopes() {
    let tm = textures(10);
    let mut p = sprite_program();
    let g = p.apply_global_scope(1, &tm).unwrap();
    assert_eq!(g.desc_set, 2);
    assert_eq!(g.buffer_offset, 0);
    assert_eq!(g.buffer_stride, 256);
    assert_eq!(g.textures, vec![ResourceHandle::new(7)]);
    assert_eq!(g.first_set, 0);

    p.acquire_instance_resource(&[ResourceHandle::new(9)], [10, 11, 12]).unwrap();
    let e1 = p.acquire_instance_resource(&[ResourceHandle::new(8)], [13, 14, 15]).unwrap();
    let b = p.apply_instance_scope(2, &tm, e1).unwrap();
    assert_eq!(b.desc_set, 15);
    assert_eq!(b.buffer_offset, 512);
    assert_eq!(b.textures, vec![ResourceHandle::new(8)]);
    assert_eq!(b.first_set, 1);

    let e = p.apply_instance_scope(0, &tm, ResourceHandle::new(5)).unwrap_err();
    assert_eq!(e.msg, "failed to get scope state");
    let e = p.apply_shared_scope(0, &tm, ResourceHandle::new(0)).unwrap_err();
    assert_eq!(e.msg, "failed to get scope state");
    let e = p.apply_local_scope(0, &tm, ResourceHandle::new(0)).unwrap_err();
    assert_eq!(e.msg, "failed to get scope state");
}

#[test]
fn apply_with_missing_textures_or_set() {
    let tm = textures(10);
    // a global sampler added without a texture
    let p = ShaderProgramBuilder::new("s", limits())
        .with_global_uniform::<u32>("t")
        .with_sampler("atlas", ShaderScope::Global)
        .unwrap()
        .build([1, 2, 3]);
    let e = p.apply_global_scope(0, &tm).unwrap_err();
    assert_eq!(e.kind, HellErrorKind::RenderError);
    assert_eq!(e.msg, "sampler-count and tex-count do not match");

    // the global scope unused: its entry has no set
    let p = ShaderProgramBuilder::new("s", limits()).with_local_uniform::<u32>("x").build([1, 2, 3]);
    let e = p.apply_global_scope(0, &tm).unwrap_err();
    assert_eq!(e.msg, "failed to get scope mapping");
}

#[test]
fn local_entries_and_binding() {
    let mut p = ShaderProgramBuilder::new("s", ShaderLimits { ubo_alignment: 64, push_constant_stride: 128, max_material_count: 2 })
        .with_shared_uniform::<[u8; 8]>("a")
        .with_pass_sampler("shadow")
        .unwrap()
        .with_local_uniform::<[u8; 100]>("m")
        .with_local_sampler("mask")
        .unwrap()
        .build([0, 0, 0]);
    // shared: 64 x 2 at 0; local: 128 x 2 at 128
    assert_eq!(p.calc_buffer_offset_and_size(ShaderScope::Local, 1).unwrap(), (256, 128));
    let e = p.acquire_local_resource(&[ResourceHandle::new(1)], [7, 8, 9]).unwrap();
    assert_eq!(e.id, 0);
    let s = p.acquire_shared_resource(&[ResourceHandle::new(2)], [4, 5, 6]).unwrap();
    assert_eq!(s.id, 0);
    p.bind_local(0);
    p.bind_shared(0);
    let tm = textures(2);
    let b = p.apply_local_scope(0, &tm, e).unwrap();
    assert_eq!(b.buffer_offset, 128);
    assert_eq!(b.first_set, 1);
    assert_eq!(b.desc_set, 7);
}

fn textures(n: usize) -> TextureManager<(), u32> {
    let mut tm: TextureManager<(), u32> = TextureManager::new();
    for i in 0..n {
        tm.acquire_textuer(format!("tex{}.png", i), (), i as u32);
    }
    tm
}

#[test]
fn apply_with_unknown_texture() {
    let mut p = sprite_program();
    let e1 = p.acquire_instance_resource(&[ResourceHandle::new(8)], [13, 14, 15]).unwrap();
    // only textures 0..8 are loaded: handle 8 names none
    let tm = textures(8);
    let e = p.apply_instance_scope(0, &tm, e1).unwrap_err();
    assert_eq!(e.kind, HellErrorKind::RenderError);
    assert_eq!(e.msg, "failed to get texture");
    // the global texture 7 is there
    let g = p.apply_global_scope(0, &tm).unwrap();
    assert_eq!(g.textures, vec![ResourceHandle::new(7)]);
    let tm = textures(9);
    assert_eq!(p.apply_instance_scope(0, &tm, e1).unwrap().desc_set, 13);
}

#[test]
fn entries_stay_inside_their_range() {
    let mut p = ShaderProgramBuilder::new("s", ShaderLimits { ubo_alignment: 64, push_constant_stride: 128, max_material_count: 2 })
        .with_local_uniform::<[u8; 100]>("m")
        .build([0, 0, 0]);
    // local: 128 x 2 at 0
    assert_eq!(p.buffer().len(), 256);
    let e0 = p.acquire_local_resource(&[], [1, 1, 1]).unwrap();
    let e1 = p.acquire_local_resource(&[], [2, 2, 2]).unwrap();
    let tm = textures(0);
    let b0 = p.apply_local_scope(0, &tm, e0).unwrap();
    let b1 = p.apply_local_scope(0, &tm, e1).unwrap();
    assert_eq!((b0.buffer_offset, b0.buffer_stride), (0, 128));
    assert_eq!(b1.buffer_offset + b1.buffer_stride, 256);
}
