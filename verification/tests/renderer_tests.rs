use hell_engine::error::HellErrorKind;
use hell_engine::gravity_system::GravitySystem;
use hell_engine::pipeline::{pipeline_settings, DynamicState, PolygonMode, PushConstantRange};
use hell_engine::render_data::{RenderData, RenderPackage};
use hell_engine::renderer_resources::{ResourceHandle as RenderHandle, ShaderManager, TextureManager};
use hell_engine::resources::ResourceHandle;
use hell_engine::shader_data::{
    array_entry_offset, calculate_aligned_size, object_data_total_size, quad_indices, scene_data_total_size,
};
use hell_engine::shader_utils;
use hell_engine::swapchain::{swapchain_sharing, Extent2D, SurfaceCapabilities, SurfaceFormat, VulkanSwapchainSupport};
use hell_engine::vulkan_backend::{clear_values, present_outcome, record_world_steps, ClearValueKind, DrawStep};
use hell_engine::vulkan_image::{
    determine_aspect_mask, find_memory_type, transition_image_layout, AccessMask, AspectMask, DepthImage, ImageLayout,
    PipelineStage, TextureImage,
};

fn caps() -> SurfaceCapabilities {
    SurfaceCapabilities {
        current_extent: Extent2D { width: 800, height: 600 },
        min_image_extent: Extent2D { width: 100, height: 100 },
        max_image_extent: Extent2D { width: 1000, height: 1000 },
        min_image_count: 2,
        max_image_count: 3,
    }
}

fn support(formats: Vec<SurfaceFormat>, modes: Vec<i32>, caps: SurfaceCapabilities) -> VulkanSwapchainSupport {
    VulkanSwapchainSupport { capabilities: caps, formats, present_modes: modes }
}

#[test]
fn swapchain_format_choice() {
    let other = SurfaceFormat { format: 44, color_space: 0 };
    let srgb = SurfaceFormat { format: 50, color_space: 0 };
    let s = support(vec![other, srgb], vec![2], caps());
    assert!(s.is_suitable());
    assert_eq!(s.choose_swap_surface_format().unwrap(), srgb);
    let s = support(vec![other, SurfaceFormat { format: 50, color_space: 1 }], vec![2], caps());
    assert_eq!(s.choose_swap_surface_format().unwrap(), other);
    let s = support(vec![], vec![2], caps());
    assert!(!s.is_suitable());
    assert_eq!(s.choose_swap_surface_format().unwrap_err().kind, HellErrorKind::RenderError);
}

#[test]
fn swapchain_present_mode_choice() {
    assert_eq!(support(vec![], vec![0, 1, 2], caps()).choose_swap_present_mode(), 1);
    assert_eq!(support(vec![], vec![0, 2], caps()).choose_swap_present_mode(), 2);
    assert_eq!(support(vec![], vec![], caps()).choose_swap_present_mode(), 2);
}

#[test]
fn swapchain_extent_choice() {
    let s = support(vec![], vec![], caps());
    assert_eq!(s.choose_swap_extend(5000, 5000), Extent2D { width: 800, height: 600 });
    let free = SurfaceCapabilities { current_extent: Extent2D { width: u32::MAX, height: u32::MAX }, ..caps() };
    let s = support(vec![], vec![], free);
    assert_eq!(s.choose_swap_extend(5000, 50), Extent2D { width: 1000, height: 100 });
    assert_eq!(s.choose_swap_extend(640, 480), Extent2D { width: 640, height: 480 });
}

#[test]
fn swapchain_image_count() {
    assert_eq!(support(vec![], vec![], caps()).choose_img_count(), 3);
    let tight = SurfaceCapabilities { min_image_count: 3, max_image_count: 3, ..caps() };
    assert_eq!(support(vec![], vec![], tight).choose_img_count(), 3);
    let unlimited = SurfaceCapabilities { min_image_count: 3, max_image_count: 0, ..caps() };
    assert_eq!(support(vec![], vec![], unlimited).choose_img_count(), 4);
}

#[test]
fn layout_transitions() {
    let b = transition_image_layout(false, ImageLayout::Undefined, ImageLayout::TransferDstOptimal);
    assert_eq!(b.src_stage, PipelineStage::TopOfPipe);
    assert_eq!(b.dst_stage, PipelineStage::Transfer);
    assert!(b.dst_access.transfer_write && !b.src_access.transfer_write);
    assert_eq!(b.aspect_mask, AspectMask { color: true, depth: false, stencil: false });

    let b = transition_image_layout(false, ImageLayout::TransferDstOptimal, ImageLayout::ShaderReadOnlyOptimal);
    assert_eq!(b.src_stage, PipelineStage::Transfer);
    assert_eq!(b.dst_stage, PipelineStage::FragmentShader);
    assert!(b.src_access.transfer_write && b.dst_access.shader_read);

    let b = transition_image_layout(true, ImageLayout::Undefined, ImageLayout::DepthStencilAttachmentOptimal);
    assert_eq!(b.dst_stage, PipelineStage::EarlyFragmentTests);
    assert!(b.dst_access.depth_stencil_attachment_read && b.dst_access.depth_stencil_attachment_write);
    assert_eq!(b.aspect_mask, AspectMask { color: false, depth: true, stencil: true });
}

#[test]
fn aspect_masks() {
    assert_eq!(
        determine_aspect_mask(false, ImageLayout::DepthStencilAttachmentOptimal),
        AspectMask { color: false, depth: true, stencil: false }
    );
    assert_eq!(determine_aspect_mask(true, ImageLayout::ShaderReadOnlyOptimal), AspectMask { color: true, depth: false, stencil: false });
}

#[test]
fn memory_type_selection() {
    // host visible (2) | host coherent (4) wanted; type 1 lacks coherent
    let flags = [1, 2, 6, 7];
    assert_eq!(find_memory_type(&flags, 0b1111, 6), 2);
    // the filter excludes type 2
    assert_eq!(find_memory_type(&flags, 0b1011, 6), 3);
    assert_eq!(find_memory_type(&flags, 0b0001, 1), 0);
}

#[test]
fn aligned_sizes() {
    assert_eq!(calculate_aligned_size(0, 13), 13);
    assert_eq!(calculate_aligned_size(256, 1), 256);
    assert_eq!(calculate_aligned_size(256, 256), 256);
    assert_eq!(calculate_aligned_size(64, 65), 128);
    assert_eq!(shader_utils::calculate_aligned_size(16, 48), 48);
    assert_eq!(scene_data_total_size(48, 256, 3), 768);
    assert_eq!(object_data_total_size(64, 10000), 640000);
    assert_eq!(array_entry_offset(48, 256, 2), 512);
    assert_eq!(array_entry_offset(48, 0, 2), 96);
}

#[test]
fn present_outcomes() {
    assert_eq!(present_outcome(Ok(false)).unwrap(), false);
    assert_eq!(present_outcome(Ok(true)).unwrap(), true);
    assert_eq!(present_outcome(Err(-1000001004)).unwrap(), true);
    assert_eq!(present_outcome(Err(1000001003)).unwrap(), true);
    let e = present_outcome(Err(-4)).unwrap_err();
    assert_eq!(e.kind, HellErrorKind::RenderError);
    assert_eq!(e.msg, "failed to aquire next image");
}

#[test]
fn world_steps_bind_only_on_change() {
    let m0 = ResourceHandle { id: 0 };
    let m1 = ResourceHandle { id: 1 };
    let steps = record_world_steps(&[m0, m0, m1, m1], &[0, 1, 1, 1]);
    assert_eq!(
        steps,
        vec![
            DrawStep { bind_material: Some(m0), bind_mesh: Some(0), first_instance: 0 },
            DrawStep { bind_material: None, bind_mesh: Some(1), first_instance: 1 },
            DrawStep { bind_material: Some(m1), bind_mesh: None, first_instance: 2 },
            DrawStep { bind_material: None, bind_mesh: None, first_instance: 3 },
        ]
    );
    assert!(record_world_steps(&[], &[]).is_empty());
}

#[test]
fn render_data_entries() {
    let mut rd: RenderData<(f32, f32)> = RenderData::new();
    assert!(rd.is_empty());
    assert_eq!(rd.add_data(3, ResourceHandle { id: 1 }, (1.0, 2.0)), 1);
    assert_eq!(rd.add_data(4, ResourceHandle { id: 2 }, (3.0, 4.0)), 2);
    assert_eq!(rd.len(), 2);
    let c = rd.data_at(1);
    assert_eq!(c.mesh_idx, 4);
    assert_eq!(*c.transform, (3.0, 4.0));
    assert_eq!(c.material.id, 2);
    let mut it = rd.iter();
    assert_eq!(it.next().unwrap().mesh_idx, 3);
    assert_eq!(it.next().unwrap().mesh_idx, 4);
    assert!(it.next().is_none());
    assert!(it.next().is_none());
    let pkg: RenderPackage<u8> = RenderPackage::new();
    assert!(pkg.world.is_empty() && pkg.ui.is_empty());
}

#[test]
fn texture_manager_handles() {
    let mut tm: TextureManager<&str, u32> = TextureManager::new();
    assert_eq!(tm.handle("a.png"), None);
    let h = tm.acquire_textuer("a.png".to_string(), "img-a", 100);
    assert_eq!(h, RenderHandle::new(0));
    let h2 = tm.acquire_textuer("b.png".to_string(), "img-b", 200);
    assert_eq!(h2.id, 1);
    // the same path keeps its texture
    assert_eq!(tm.acquire_textuer("a.png".to_string(), "img-x", 999), h);
    assert_eq!(tm.textures(), &[100, 200]);
    assert_eq!(tm.texture(h2), Some(&200));
    assert_eq!(tm.texture(RenderHandle::new(2)), None);
    assert_eq!(tm.handle("b.png"), Some(h2));
    assert_eq!(tm.texture_res(h2).unwrap(), &200);
    let e = tm.texture_res(RenderHandle::new(2)).unwrap_err();
    assert_eq!(e.kind, HellErrorKind::RenderError);
    assert_eq!(e.msg, "failed to get texture");
}

#[test]
fn shader_manager_handles() {
    let mut sm: ShaderManager<String> = ShaderManager::new();
    let h = sm.create_shader("world", "shader-world".to_string()).unwrap();
    assert_eq!(h.id, 0);
    assert_eq!(sm.create_shader("world", "other".to_string()).unwrap(), h);
    assert_eq!(sm.create_shader("ui", "shader-ui".to_string()).unwrap().id, 1);
    assert_eq!(sm.shader(h), "shader-world");
    assert_eq!(sm.handle("ui"), Some(RenderHandle::new(1)));
    assert_eq!(sm.handle("x"), None);
    assert_eq!(RenderHandle::invalid().id, usize::MAX);
}

#[test]
fn gravity_system_keeps_config() {
    let g = GravitySystem::new(9.81f32);
    assert_eq!(*g.config(), 9.81);
}

#[test]
fn pipeline_settings_follow_flags() {
    let s = pipeline_settings(&[11, 12, 13], true, false);
    assert_eq!(s.polygon_mode, PolygonMode::Fill);
    assert!(s.depth.unwrap().write_enable);
    assert_eq!(s.set_layouts, vec![11, 12, 13]);
    assert_eq!(
        s.push_constants,
        vec![PushConstantRange { offset: 0, size: 64, vertex_stage: true, fragment_stage: false }]
    );
    assert_eq!(s.dynamic_states, vec![DynamicState::Viewport, DynamicState::Scissor]);
    let s = pipeline_settings(&[], false, true);
    assert_eq!(s.polygon_mode, PolygonMode::Line);
    assert!(s.depth.is_none());
    assert!(s.set_layouts.is_empty());
    assert_eq!(s.push_constants[0].size, 64);
    assert!(s.cull_back_faces && s.blend_enable);
}

#[test]
fn swapchain_sharing_modes() {
    let p = swapchain_sharing(true, &[0, 0]);
    assert!(p.exclusive);
    assert!(p.queue_family_indices.is_empty());
    let p = swapchain_sharing(false, &[0, 2]);
    assert!(!p.exclusive);
    assert_eq!(p.queue_family_indices, vec![0, 2]);
}

#[test]
fn render_pass_clear_values() {
    assert_eq!(clear_values(true, true, 7), vec![ClearValueKind::Color, ClearValueKind::DepthStencil { stencil: 7 }]);
    assert_eq!(clear_values(true, false, 7), vec![ClearValueKind::Color, ClearValueKind::DepthStencil { stencil: 0 }]);
    // without the color flag nothing is cleared, the stencil flag alone included
    assert!(clear_values(false, true, 7).is_empty());
}

#[test]
fn quad_mesh_indices() {
    assert_eq!(quad_indices(), vec![0, 1, 2, 2, 3, 0]);
}

#[test]
fn texture_upload_barriers() {
    let t = TextureImage::from(4, 2);
    assert_eq!(t.staging_size, 32);
    let none = AccessMask {
        transfer_write: false,
        shader_read: false,
        depth_stencil_attachment_read: false,
        depth_stencil_attachment_write: false,
    };
    assert_eq!(t.to_transfer.src_access, none);
    assert_eq!(t.to_transfer.dst_access, AccessMask { transfer_write: true, ..none });
    assert_eq!(t.to_transfer.src_stage, PipelineStage::TopOfPipe);
    assert_eq!(t.to_transfer.dst_stage, PipelineStage::Transfer);
    assert_eq!(t.to_shader.src_access, AccessMask { transfer_write: true, ..none });
    assert_eq!(t.to_shader.dst_access, AccessMask { shader_read: true, ..none });
    assert_eq!(t.to_shader.dst_stage, PipelineStage::FragmentShader);
    let d = DepthImage::new(800, 600, true);
    assert_eq!(d.barrier.dst_access, AccessMask {
        depth_stencil_attachment_read: true,
        depth_stencil_attachment_write: true,
        ..none
    });
    assert_eq!(d.barrier.aspect_mask, AspectMask { color: false, depth: true, stencil: true });
}

#[test]
fn swapchain_plan_puts_choices_together() {
    let srgb = SurfaceFormat { format: 50, color_space: 0 };
    let other = SurfaceFormat { format: 44, color_space: 0 };
    let free = SurfaceCapabilities { current_extent: Extent2D { width: u32::MAX, height: u32::MAX }, ..caps() };
    let s = support(vec![other, srgb], vec![2, 1], free);
    let p = s.swapchain_plan(5000, 50, false, &[0, 1]).unwrap();
    assert_eq!(p.surface_format, srgb);
    assert_eq!(p.present_mode, 1);
    assert_eq!(p.extent, Extent2D { width: 1000, height: 100 });
    assert_eq!(p.image_count, 3);
    assert!(!p.sharing.exclusive);
    assert_eq!(p.sharing.queue_family_indices, vec![0, 1]);
    assert_eq!(p.image_array_layers, 1);
    assert!(p.composite_alpha_opaque && p.clipped);
    let p = support(vec![other], vec![], caps()).swapchain_plan(10, 10, true, &[0, 0]).unwrap();
    assert_eq!(p.surface_format, other);
    assert_eq!(p.present_mode, 2);
    assert_eq!(p.extent, Extent2D { width: 800, height: 600 });
    assert!(p.sharing.exclusive && p.sharing.queue_family_indices.is_empty());
    let e = support(vec![], vec![1], caps()).swapchain_plan(10, 10, true, &[]).unwrap_err();
    assert_eq!(e.kind, HellErrorKind::RenderError);
    assert_eq!(e.msg, "failed to get surface format");
}
