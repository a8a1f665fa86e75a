//! Scopes of the draft layout in which the global and the instance uniforms
//! share descriptor set 0.

use vstd::prelude::*;

verus! {

/// How often a uniform changes: per frame, per material or per draw.
#[derive(Debug, Clone, Copy, PartialEq, Eq, Structural)]
pub enum GenericShaderScope {
    Global,
    Instance,
    Local,
}

impl GenericShaderScope {
    pub const SCOPE_COUNT: usize = 3;

    pub const INIT_IDX_GLOBAL: usize = 0;

    pub const INIT_IDX_INSTANCE: usize = 1;

    pub const INIT_IDX_LOCAL: usize = 2;

    pub const SET_IDX_GLOBAL: usize = 0;

    pub const SET_IDX_INSTANCE: usize = 0;

    /// The descriptor set of this scope: set 0 for the global and the
    /// instance scope, none for the local scope.
    pub fn set_idx(&self) -> (r: Option<usize>)
        ensures
            r == (match *self {
                GenericShaderScope::Local => None,
                _ => Some(0usize),
            }),
    {
        match self {
            GenericShaderScope::Global => Some(Self::SET_IDX_GLOBAL),
            GenericShaderScope::Instance => Some(Self::SET_IDX_INSTANCE),
            _ => None,
        }
    }
}

} // verus!
