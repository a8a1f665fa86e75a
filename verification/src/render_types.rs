//! Small value types shared by the shader layouts.

use vstd::prelude::*;

verus! {

/// A vertex attribute's number format.
#[allow(non_camel_case_types)]
#[derive(Debug, Clone, Copy, PartialEq, Eq, Structural)]
pub enum NumberFormat {
    UNDEFINED,
    R32G32_SFLOAT,
    R32G32B32_SFLOAT,
    R32G32B32A32_SFLOAT,
}

impl Default for NumberFormat {
    fn default() -> (r: NumberFormat)
        ensures
            r == NumberFormat::UNDEFINED,
    {
        NumberFormat::UNDEFINED
    }
}

/// Bytes taken by one attribute of a format: four per 32-bit component.
pub open spec fn number_format_size(f: NumberFormat) -> nat {
    match f {
        NumberFormat::R32G32_SFLOAT => 8,
        NumberFormat::R32G32B32_SFLOAT => 12,
        NumberFormat::R32G32B32A32_SFLOAT => 16,
        NumberFormat::UNDEFINED => 0,
    }
}

/// Size of one 32-bit float component in bytes.
pub const COMPONENT_SIZE: usize = 4;

impl NumberFormat {
    /// `count` components of `component_size` bytes each.
    pub fn size_of(component_size: usize, count: usize) -> (r: usize)
        requires
            component_size * count <= usize::MAX,
        ensures
            r == component_size * count,
    {
        component_size * count
    }

    /// Bytes taken by one attribute of this format.
    pub fn size(&self) -> (r: usize)
        ensures
            r == number_format_size(*self),
    {
        match self {
            NumberFormat::R32G32_SFLOAT => NumberFormat::size_of(COMPONENT_SIZE, 2),
            NumberFormat::R32G32B32_SFLOAT => NumberFormat::size_of(COMPONENT_SIZE, 3),
            NumberFormat::R32G32B32A32_SFLOAT => NumberFormat::size_of(COMPONENT_SIZE, 4),
            NumberFormat::UNDEFINED => 0,
        }
    }
}

/// An offset and a length.
#[derive(Debug, Clone, Copy, PartialEq, Eq, Structural)]
pub struct ValueRange<T> {
    pub offset: T,
    pub range: T,
}

impl<T> ValueRange<T> {
    pub fn new(offset: T, range: T) -> (r: ValueRange<T>)
        ensures
            r.offset == offset,
            r.range == range,
    {
        ValueRange { offset, range }
    }
}

/// A byte range inside a buffer.
pub type MemRange = ValueRange<usize>;

} // verus!
