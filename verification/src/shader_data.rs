//! Sizes of the per-frame uniform data.

use vstd::prelude::*;
pub use crate::shader_utils::calculate_aligned_size;
use crate::shader_utils::aligned_size_spec;

verus! {

/// Bytes the scene data of `frame_count` frames take, each padded to the
/// device's uniform alignment.
pub fn scene_data_total_size(device_size: u64, min_ubo_alignment: u64, frame_count: u64) -> (r: u64)
    requires
        min_ubo_alignment == 0 || device_size + min_ubo_alignment <= u64::MAX,
        aligned_size_spec(min_ubo_alignment, device_size) * frame_count <= u64::MAX,
    ensures
        r == aligned_size_spec(min_ubo_alignment, device_size) * frame_count,
{
    calculate_aligned_size(min_ubo_alignment, device_size) * frame_count
}

/// Bytes the object data of `max_obj_count` objects take, unpadded.
pub fn object_data_total_size(device_size: u64, max_obj_count: u64) -> (r: u64)
    requires
        device_size * max_obj_count <= u64::MAX,
    ensures
        r == device_size * max_obj_count,
{
    device_size * max_obj_count
}

} // verus!

verus! {

/// Where entry `idx` of an array of padded uniform entries starts
/// (`upload_data_buffer_array`).
pub fn array_entry_offset(device_size: u64, min_ubo_alignment: u64, idx: u64) -> (r: u64)
    requires
        min_ubo_alignment == 0 || device_size + min_ubo_alignment <= u64::MAX,
        aligned_size_spec(min_ubo_alignment, device_size) * idx <= u64::MAX,
    ensures
        r == aligned_size_spec(min_ubo_alignment, device_size) * idx,
{
    calculate_aligned_size(min_ubo_alignment, device_size) * idx
}

} // verus!

verus! {

/// The index list of the quad mesh: two triangles over its four corners.
pub fn quad_indices() -> (r: Vec<u32>)
    ensures
        r@ == seq![0u32, 1, 2, 2, 3, 0],
{
    let r: Vec<u32> = vec![0, 1, 2, 2, 3, 0];
    assert(r@ =~= seq![0u32, 1, 2, 2, 3, 0]);
    r
}

} // verus!
