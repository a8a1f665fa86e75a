//! Engine-wide settings that the layout logic depends on.

use vstd::prelude::*;

verus! {

/// Number of frames the renderer keeps in flight (one descriptor set per frame).
pub const FRAMES_IN_FLIGHT: usize = 3;

/// Maximum number of descriptor sets a shader's pool may allocate.
pub const MAX_DESCRIPTOR_SET_COUNT: u32 = 100;

/// Whether textures are flipped vertically when loaded.
pub const IMG_FLIP_V: bool = false;

/// Whether textures are flipped horizontally when loaded.
pub const IMG_FLIP_H: bool = false;

/// Device limits that a shader layout is planned against; the device reports
/// them (or the platform fixes them) at run time.
#[derive(Debug, Clone, Copy, PartialEq, Eq, Structural)]
pub struct ShaderLimits {
    /// Alignment of one uniform-buffer entry.
    pub ubo_alignment: usize,
    /// Push-constant stride the device guarantees.
    pub push_constant_stride: usize,
    /// Number of shared, instance or local entries a shader's buffer holds.
    pub max_material_count: usize,
}

} // verus!
