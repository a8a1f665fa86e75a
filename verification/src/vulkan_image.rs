//! Decisions behind image layout transitions and memory-type selection.

use vstd::prelude::*;

verus! {

/// The image layouts the renderer transitions between.
#[derive(Debug, Clone, Copy, PartialEq, Eq, Structural)]
pub enum ImageLayout {
    Undefined,
    TransferDstOptimal,
    ShaderReadOnlyOptimal,
    DepthStencilAttachmentOptimal,
    ColorAttachmentOptimal,
    PresentSrc,
}

/// Memory accesses a barrier waits for or makes visible.
#[derive(Debug, Clone, Copy, PartialEq, Eq, Structural)]
pub struct AccessMask {
    pub transfer_write: bool,
    pub shader_read: bool,
    pub depth_stencil_attachment_read: bool,
    pub depth_stencil_attachment_write: bool,
}

/// A pipeline stage a barrier synchronizes.
#[derive(Debug, Clone, Copy, PartialEq, Eq, Structural)]
pub enum PipelineStage {
    TopOfPipe,
    Transfer,
    FragmentShader,
    EarlyFragmentTests,
}

/// The aspects of an image a view or barrier covers.
#[derive(Debug, Clone, Copy, PartialEq, Eq, Structural)]
pub struct AspectMask {
    pub color: bool,
    pub depth: bool,
    pub stencil: bool,
}

/// The barrier recorded for one layout transition.
#[derive(Debug, Clone, Copy, PartialEq, Eq, Structural)]
pub struct LayoutBarrier {
    pub old_layout: ImageLayout,
    pub new_layout: ImageLayout,
    pub aspect_mask: AspectMask,
    pub src_access: AccessMask,
    pub dst_access: AccessMask,
    pub src_stage: PipelineStage,
    pub dst_stage: PipelineStage,
}

pub open spec fn no_access() -> AccessMask {
    AccessMask {
        transfer_write: false,
        shader_read: false,
        depth_stencil_attachment_read: false,
        depth_stencil_attachment_write: false,
    }
}

/// The transitions the renderer knows how to make: an undefined image to a
/// transfer target or a depth attachment, and a transfer target to a sampled
/// image.
pub open spec fn supported_transition(old_layout: ImageLayout, new_layout: ImageLayout) -> bool {
    ||| old_layout == ImageLayout::Undefined && new_layout == ImageLayout::TransferDstOptimal
    ||| old_layout == ImageLayout::TransferDstOptimal && new_layout == ImageLayout::ShaderReadOnlyOptimal
    ||| old_layout == ImageLayout::Undefined && new_layout == ImageLayout::DepthStencilAttachmentOptimal
}

/// Depth (and stencil, if the format has one) for a depth attachment, color
/// otherwise.
pub fn determine_aspect_mask(has_stencil: bool, layout: ImageLayout) -> (r: AspectMask)
    ensures
        r == (if layout == ImageLayout::DepthStencilAttachmentOptimal {
            AspectMask { color: false, depth: true, stencil: has_stencil }
        } else {
            AspectMask { color: true, depth: false, stencil: false }
        }),
{
    if layout == ImageLayout::DepthStencilAttachmentOptimal {
        if has_stencil {
            AspectMask { color: false, depth: true, stencil: true }
        } else {
            AspectMask { color: false, depth: true, stencil: false }
        }
    } else {
        AspectMask { color: true, depth: false, stencil: false }
    }
}

/// The barrier for moving an image (whose format has a stencil component if
/// `has_stencil`) from `old_layout` to `new_layout`.
pub fn transition_image_layout(has_stencil: bool, old_layout: ImageLayout, new_layout: ImageLayout) -> (r:
    LayoutBarrier)
    requires
        supported_transition(old_layout, new_layout),
    ensures
        r.old_layout == old_layout,
        r.new_layout == new_layout,
        r.aspect_mask == (if new_layout == ImageLayout::DepthStencilAttachmentOptimal {
            AspectMask { color: false, depth: true, stencil: has_stencil }
        } else {
            AspectMask { color: true, depth: false, stencil: false }
        }),
        new_layout == ImageLayout::TransferDstOptimal ==> r.src_access == no_access() && r.dst_access == (
        AccessMask { transfer_write: true, ..no_access() }) && r.src_stage == PipelineStage::TopOfPipe && r.dst_stage
            == PipelineStage::Transfer,
        new_layout == ImageLayout::ShaderReadOnlyOptimal ==> r.src_access == (AccessMask {
            transfer_write: true,
            ..no_access()
        }) && r.dst_access == (AccessMask { shader_read: true, ..no_access() }) && r.src_stage
            == PipelineStage::Transfer && r.dst_stage == PipelineStage::FragmentShader,
        new_layout == ImageLayout::DepthStencilAttachmentOptimal ==> r.src_access == no_access() && r.dst_access == (
        AccessMask { depth_stencil_attachment_read: true, depth_stencil_attachment_write: true, ..no_access() })
            && r.src_stage == PipelineStage::TopOfPipe && r.dst_stage == PipelineStage::EarlyFragmentTests,
{
    let aspect_mask = determine_aspect_mask(has_stencil, new_layout);
    let none = AccessMask {
        transfer_write: false,
        shader_read: false,
        depth_stencil_attachment_read: false,
        depth_stencil_attachment_write: false,
    };
    match new_layout {
        ImageLayout::TransferDstOptimal => LayoutBarrier {
            old_layout,
            new_layout,
            aspect_mask,
            src_access: none,
            dst_access: AccessMask { transfer_write: true, ..none },
            src_stage: PipelineStage::TopOfPipe,
            dst_stage: PipelineStage::Transfer,
        },
        ImageLayout::ShaderReadOnlyOptimal => LayoutBarrier {
            old_layout,
            new_layout,
            aspect_mask,
            src_access: AccessMask { transfer_write: true, ..none },
            dst_access: AccessMask { shader_read: true, ..none },
            src_stage: PipelineStage::Transfer,
            dst_stage: PipelineStage::FragmentShader,
        },
        _ => LayoutBarrier {
            old_layout,
            new_layout,
            aspect_mask,
            src_access: none,
            dst_access: AccessMask {
                depth_stencil_attachment_read: true,
                depth_stencil_attachment_write: true,
                ..none
            },
            src_stage: PipelineStage::TopOfPipe,
            dst_stage: PipelineStage::EarlyFragmentTests,
        },
    }
}

// ----------------------------------------------------------------------------
// memory types
// ----------------------------------------------------------------------------

/// `ash::vk::MemoryPropertyFlags::contains` on raw flag values: whether every
/// bit of `other` is set in `flags` (`self.0 & other.0 == other.0` in the crate).
#[verifier::external_body]
fn flags_contains(flags: u32, other: u32) -> (r: bool)
    ensures
        r == (flags & other == other),
{
    ash::vk::MemoryPropertyFlags::from_raw(flags).contains(ash::vk::MemoryPropertyFlags::from_raw(other))
}

/// Memory type `i` is allowed by `type_filter` and has all of `properties`.
pub open spec fn memory_type_fits(flags: Seq<u32>, type_filter: u32, properties: u32, i: int) -> bool {
    &&& type_filter & ((1u32 << (i as u32)) as u32) > 0
    &&& flags[i] & properties == properties
}

/// The first memory type (of the device's list of property flags) that the
/// filter allows and that has all of `properties`.
pub fn find_memory_type(memory_type_flags: &[u32], type_filter: u32, properties: u32) -> (r: u32)
    requires
        memory_type_flags@.len() <= 32,
        exists|i: int| 0 <= i < memory_type_flags@.len() && memory_type_fits(memory_type_flags@, type_filter, properties, i),
    ensures
        r < memory_type_flags@.len(),
        memory_type_fits(memory_type_flags@, type_filter, properties, r as int),
        forall|j: int| 0 <= j < r ==> !memory_type_fits(memory_type_flags@, type_filter, properties, j),
{
    let mut i: usize = 0;
    while i < memory_type_flags.len()
        invariant
            i <= memory_type_flags@.len() <= 32,
            exists|k: int| i <= k < memory_type_flags@.len() && memory_type_fits(memory_type_flags@, type_filter, properties, k),
            forall|j: int| 0 <= j < i ==> !memory_type_fits(memory_type_flags@, type_filter, properties, j),
        decreases memory_type_flags@.len() - i,
    {
        let bit: u32 = 1u32 << (i as u32);
        let fits = (type_filter & bit) > 0 && flags_contains(memory_type_flags[i], properties);
        if fits {
            return i as u32;
        }
        i = i + 1;
    }
    0
}

} // verus!

verus! {

// ----------------------------------------------------------------------------
// images
// ----------------------------------------------------------------------------

/// The depth attachment of a swapchain extent: its size and the transition
/// that makes it a depth attachment.
#[derive(Debug, Clone, Copy, PartialEq, Eq, Structural)]
pub struct DepthImage {
    pub width: u32,
    pub height: u32,
    pub barrier: LayoutBarrier,
}

impl DepthImage {
    /// The depth image of a `width` x `height` swapchain, for a depth format
    /// with a stencil component if `has_stencil`.
    pub fn new(width: u32, height: u32, has_stencil: bool) -> (r: DepthImage)
        ensures
            r.width == width,
            r.height == height,
            r.barrier == (LayoutBarrier {
                old_layout: ImageLayout::Undefined,
                new_layout: ImageLayout::DepthStencilAttachmentOptimal,
                aspect_mask: AspectMask { color: false, depth: true, stencil: has_stencil },
                src_access: no_access(),
                dst_access: AccessMask {
                    depth_stencil_attachment_read: true,
                    depth_stencil_attachment_write: true,
                    ..no_access()
                },
                src_stage: PipelineStage::TopOfPipe,
                dst_stage: PipelineStage::EarlyFragmentTests,
            }),
    {
        let barrier = transition_image_layout(
            has_stencil,
            ImageLayout::Undefined,
            ImageLayout::DepthStencilAttachmentOptimal,
        );
        DepthImage { width, height, barrier }
    }
}

/// A sampled RGBA texture uploaded through a staging buffer: its size, the
/// staging buffer's size, and the transitions before and after the copy.
#[derive(Debug, Clone, Copy, PartialEq, Eq, Structural)]
pub struct TextureImage {
    pub width: u32,
    pub height: u32,
    pub staging_size: u64,
    pub to_transfer: LayoutBarrier,
    pub to_shader: LayoutBarrier,
}

impl TextureImage {
    /// The upload of a `width` x `height` RGBA image (four bytes a pixel,
    /// which must not be empty).
    pub fn from(width: u32, height: u32) -> (r: TextureImage)
        requires
            width * height * 4 <= u32::MAX,
            width * height > 0,
        ensures
            r.width == width,
            r.height == height,
            r.staging_size == width * height * 4,
            r.to_transfer == (LayoutBarrier {
                old_layout: ImageLayout::Undefined,
                new_layout: ImageLayout::TransferDstOptimal,
                aspect_mask: AspectMask { color: true, depth: false, stencil: false },
                src_access: no_access(),
                dst_access: AccessMask { transfer_write: true, ..no_access() },
                src_stage: PipelineStage::TopOfPipe,
                dst_stage: PipelineStage::Transfer,
            }),
            r.to_shader == (LayoutBarrier {
                old_layout: ImageLayout::TransferDstOptimal,
                new_layout: ImageLayout::ShaderReadOnlyOptimal,
                aspect_mask: AspectMask { color: true, depth: false, stencil: false },
                src_access: AccessMask { transfer_write: true, ..no_access() },
                dst_access: AccessMask { shader_read: true, ..no_access() },
                src_stage: PipelineStage::Transfer,
                dst_stage: PipelineStage::FragmentShader,
            }),
    {
        proof {
            assert(width * height >= 0) by (nonlinear_arith)
                requires
                    width >= 0,
                    height >= 0,
            ;
        }
        let pixels: u32 = width * height;
        let staging_size: u64 = (pixels * 4) as u64;
        let to_transfer = transition_image_layout(false, ImageLayout::Undefined, ImageLayout::TransferDstOptimal);
        let to_shader = transition_image_layout(
            false,
            ImageLayout::TransferDstOptimal,
            ImageLayout::ShaderReadOnlyOptimal,
        );
        TextureImage { width, height, staging_size, to_transfer, to_shader }
    }
}

} // verus!
