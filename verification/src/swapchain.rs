//! How the swapchain is configured from what the surface supports.

use vstd::prelude::*;
use crate::error::{HellError, HellErrorKind, HellResult};

verus! {

/// `ash::vk::Format::B8G8R8A8_SRGB`, whose raw value the crate defines as 50.
#[verifier::external_body]
fn format_b8g8r8a8_srgb() -> (r: i32)
    ensures
        r == 50,
{
    ash::vk::Format::B8G8R8A8_SRGB.as_raw()
}

/// `ash::vk::ColorSpaceKHR::SRGB_NONLINEAR`, whose raw value the crate defines as 0.
#[verifier::external_body]
fn color_space_srgb_nonlinear() -> (r: i32)
    ensures
        r == 0,
{
    ash::vk::ColorSpaceKHR::SRGB_NONLINEAR.as_raw()
}

/// `ash::vk::PresentModeKHR::MAILBOX`, whose raw value the crate defines as 1.
#[verifier::external_body]
fn present_mode_mailbox() -> (r: i32)
    ensures
        r == 1,
{
    ash::vk::PresentModeKHR::MAILBOX.as_raw()
}

/// `ash::vk::PresentModeKHR::FIFO`, whose raw value the crate defines as 2.
#[verifier::external_body]
fn present_mode_fifo() -> (r: i32)
    ensures
        r == 2,
{
    ash::vk::PresentModeKHR::FIFO.as_raw()
}

/// `num::clamp` on `u32`: `min` below `min`, `max` above `max`, else the input
/// (its source; it asserts `min <= max` in debug builds).
#[verifier::external_body]
fn clamp_u32(input: u32, min: u32, max: u32) -> (r: u32)
    requires
        min <= max,
    ensures
        r == (if input < min {
            min
        } else if input > max {
            max
        } else {
            input
        }),
{
    num::clamp(input, min, max)
}

/// A width and a height in pixels.
#[derive(Debug, Clone, Copy, PartialEq, Eq, Structural)]
pub struct Extent2D {
    pub width: u32,
    pub height: u32,
}

/// A surface format: raw Vulkan format and color-space values.
#[derive(Debug, Clone, Copy, PartialEq, Eq, Structural)]
pub struct SurfaceFormat {
    pub format: i32,
    pub color_space: i32,
}

/// What the surface reports of the images it can present.
#[derive(Debug, Clone, Copy, PartialEq, Eq, Structural)]
pub struct SurfaceCapabilities {
    pub current_extent: Extent2D,
    pub min_image_extent: Extent2D,
    pub max_image_extent: Extent2D,
    pub min_image_count: u32,
    /// 0 when there is no limit.
    pub max_image_count: u32,
}

/// The swapchain support of a device for a surface: its capabilities, the
/// formats (raw values) and present modes (raw values) it offers.
#[derive(Debug)]
pub struct VulkanSwapchainSupport {
    pub capabilities: SurfaceCapabilities,
    pub formats: Vec<SurfaceFormat>,
    pub present_modes: Vec<i32>,
}

/// 8-bit BGRA in sRGB with the nonlinear sRGB color space.
pub open spec fn is_preferred_format(f: SurfaceFormat) -> bool {
    f.format == 50 && f.color_space == 0
}

/// `f` is the first preferred format of `formats`, or, when none is
/// preferred, the first format.
pub open spec fn is_format_choice(formats: Seq<SurfaceFormat>, f: SurfaceFormat) -> bool {
    ||| exists|i: int|
        0 <= i < formats.len() && f == formats[i] && is_preferred_format(f) && forall|j: int|
            0 <= j < i ==> !is_preferred_format(#[trigger] formats[j])
    ||| (forall|j: int| 0 <= j < formats.len() ==> !is_preferred_format(#[trigger] formats[j])) && formats.len() > 0
        && f == formats[0]
}

pub open spec fn clamp_spec(input: u32, min: u32, max: u32) -> u32 {
    if input < min {
        min
    } else if input > max {
        max
    } else {
        input
    }
}

impl VulkanSwapchainSupport {
    /// A device can present to the surface when it offers a format and a mode.
    pub fn is_suitable(&self) -> (r: bool)
        ensures
            r == (self.formats@.len() > 0 && self.present_modes@.len() > 0),
    {
        self.formats.len() > 0 && self.present_modes.len() > 0
    }

    /// The first preferred format offered, else the first format offered.
    pub fn choose_swap_surface_format(&self) -> (r: HellResult<SurfaceFormat>)
        ensures
            match r {
                Ok(f) => is_format_choice(self.formats@, f),
                Err(e) => self.formats@.len() == 0 && e.kind == HellErrorKind::RenderError && e.msg@
                    == "failed to get surface format"@,
            },
    {
        let srgb = format_b8g8r8a8_srgb();
        let nonlinear = color_space_srgb_nonlinear();
        let mut i: usize = 0;
        while i < self.formats.len()
            invariant
                srgb == 50,
                nonlinear == 0,
                i <= self.formats@.len(),
                forall|j: int| 0 <= j < i ==> !is_preferred_format(#[trigger] self.formats@[j]),
            decreases self.formats@.len() - i,
        {
            let f = self.formats[i];
            if f.format == srgb && f.color_space == nonlinear {
                return Ok(f);
            }
            i = i + 1;
        }
        if self.formats.len() > 0 {
            Ok(self.formats[0])
        } else {
            Err(HellError::render_msg_err("failed to get surface format"))
        }
    }

    /// Mailbox if offered, else FIFO, which every device supports.
    pub fn choose_swap_present_mode(&self) -> (r: i32)
        ensures
            r == (if self.present_modes@.contains(1) {
                1i32
            } else {
                2i32
            }),
    {
        let mailbox = present_mode_mailbox();
        let mut i: usize = 0;
        while i < self.present_modes.len()
            invariant
                mailbox == 1,
                i <= self.present_modes@.len(),
                forall|j: int| 0 <= j < i ==> self.present_modes@[j] != 1,
            decreases self.present_modes@.len() - i,
        {
            if self.present_modes[i] == mailbox {
                return mailbox;
            }
            i = i + 1;
        }
        present_mode_fifo()
    }

    /// The surface's current extent, or, when the surface leaves it to the
    /// swapchain (width `u32::MAX`), the window's size clamped to the limits.
    pub fn choose_swap_extend(&self, win_width: u32, win_height: u32) -> (r: Extent2D)
        requires
            self.capabilities.current_extent.width == u32::MAX ==> self.capabilities.min_image_extent.width
                <= self.capabilities.max_image_extent.width && self.capabilities.min_image_extent.height
                <= self.capabilities.max_image_extent.height,
        ensures
            r == (if self.capabilities.current_extent.width != u32::MAX {
                self.capabilities.current_extent
            } else {
                Extent2D {
                    width: clamp_spec(
                        win_width,
                        self.capabilities.min_image_extent.width,
                        self.capabilities.max_image_extent.width,
                    ),
                    height: clamp_spec(
                        win_height,
                        self.capabilities.min_image_extent.height,
                        self.capabilities.max_image_extent.height,
                    ),
                }
            }),
    {
        let caps = self.capabilities;
        if caps.current_extent.width != u32::MAX {
            caps.current_extent
        } else {
            Extent2D {
                width: clamp_u32(win_width, caps.min_image_extent.width, caps.max_image_extent.width),
                height: clamp_u32(win_height, caps.min_image_extent.height, caps.max_image_extent.height),
            }
        }
    }

    /// One image more than the minimum, capped by the maximum unless there is
    /// none.
    pub fn choose_img_count(&self) -> (r: u32)
        requires
            self.capabilities.min_image_count < u32::MAX,
        ensures
            ({
                let desired = (self.capabilities.min_image_count + 1) as u32;
                let max = self.capabilities.max_image_count;
                r == if max == 0 || desired <= max {
                    desired
                } else {
                    max
                }
            }),
    {
        let desired_img_count = self.capabilities.min_image_count + 1;
        if self.capabilities.max_image_count == 0 {
            desired_img_count
        } else if desired_img_count <= self.capabilities.max_image_count {
            desired_img_count
        } else {
            self.capabilities.max_image_count
        }
    }
}

} // verus!

verus! {

/// How the swapchain's images are shared between queue families: exclusive,
/// or concurrent between the listed families.
#[derive(Debug)]
pub struct SharingPlan {
    pub exclusive: bool,
    pub queue_family_indices: Vec<u32>,
}

/// Exclusive with no families listed when one queue family serves both
/// graphics and presentation; concurrent between all of `queue_indices`
/// otherwise.
pub fn swapchain_sharing(is_single_queue: bool, queue_indices: &[u32]) -> (r: SharingPlan)
    ensures
        r.exclusive == is_single_queue,
        r.queue_family_indices@ == (if is_single_queue {
            Seq::<u32>::empty()
        } else {
            queue_indices@
        }),
{
    let mut indices: Vec<u32> = Vec::new();
    if !is_single_queue {
        let mut i: usize = 0;
        while i < queue_indices.len()
            invariant
                i <= queue_indices@.len(),
                indices@ == queue_indices@.subrange(0, i as int),
            decreases queue_indices@.len() - i,
        {
            indices.push(queue_indices[i]);
            i = i + 1;
            assert(indices@ =~= queue_indices@.subrange(0, i as int));
        }
        assert(indices@ =~= queue_indices@);
    }
    SharingPlan { exclusive: is_single_queue, queue_family_indices: indices }
}

} // verus!

verus! {

/// Everything the swapchain is created with that the library decides: the
/// chosen format, present mode, extent and image count, how its images are
/// shared, and the fixed choices (one array layer, opaque composition,
/// obscured pixels clipped).
#[derive(Debug)]
pub struct SwapchainPlan {
    pub surface_format: SurfaceFormat,
    pub present_mode: i32,
    pub extent: Extent2D,
    pub image_count: u32,
    pub sharing: SharingPlan,
    pub image_array_layers: u32,
    pub composite_alpha_opaque: bool,
    pub clipped: bool,
}

impl VulkanSwapchainSupport {
    /// The swapchain for a `win_width` x `win_height` window, with queue
    /// families `queue_indices` (one family for graphics and presentation if
    /// `is_single_queue`); a render error when the surface offers no format.
    pub fn swapchain_plan(&self, win_width: u32, win_height: u32, is_single_queue: bool, queue_indices: &[u32]) -> (r:
        HellResult<SwapchainPlan>)
        requires
            self.capabilities.current_extent.width == u32::MAX ==> self.capabilities.min_image_extent.width
                <= self.capabilities.max_image_extent.width && self.capabilities.min_image_extent.height
                <= self.capabilities.max_image_extent.height,
            self.capabilities.min_image_count < u32::MAX,
        ensures
            match r {
                Ok(p) => {
                    let caps = self.capabilities;
                    let desired = (caps.min_image_count + 1) as u32;
                    &&& is_format_choice(self.formats@, p.surface_format)
                    &&& p.present_mode == (if self.present_modes@.contains(1) {
                        1i32
                    } else {
                        2i32
                    })
                    &&& p.extent == (if caps.current_extent.width != u32::MAX {
                        caps.current_extent
                    } else {
                        Extent2D {
                            width: clamp_spec(win_width, caps.min_image_extent.width, caps.max_image_extent.width),
                            height: clamp_spec(win_height, caps.min_image_extent.height, caps.max_image_extent.height),
                        }
                    })
                    &&& p.image_count == (if caps.max_image_count == 0 || desired <= caps.max_image_count {
                        desired
                    } else {
                        caps.max_image_count
                    })
                    &&& p.sharing.exclusive == is_single_queue
                    &&& p.sharing.queue_family_indices@ == (if is_single_queue {
                        Seq::<u32>::empty()
                    } else {
                        queue_indices@
                    })
                    &&& p.image_array_layers == 1
                    &&& p.composite_alpha_opaque
                    &&& p.clipped
                },
                Err(e) => self.formats@.len() == 0 && e.kind == HellErrorKind::RenderError && e.msg@
                    == "failed to get surface format"@,
            },
    {
        let surface_format = match self.choose_swap_surface_format() {
            Ok(f) => f,
            Err(e) => {
                return Err(e);
            },
        };
        let present_mode = self.choose_swap_present_mode();
        let extent = self.choose_swap_extend(win_width, win_height);
        let image_count = self.choose_img_count();
        let sharing = swapchain_sharing(is_single_queue, queue_indices);
        Ok(
            SwapchainPlan {
                surface_format,
                present_mode,
                extent,
                image_count,
                sharing,
                image_array_layers: 1,
                composite_alpha_opaque: true,
                clipped: true,
            },
        )
    }
}

} // verus!
