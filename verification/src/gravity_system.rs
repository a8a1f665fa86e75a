//! The system that pulls transforms down each frame.

use vstd::prelude::*;

verus! {

/// Holds the physics configuration that scales the pull.
#[derive(Debug)]
pub struct GravitySystem<C> {
    config: C,
}

impl<C> GravitySystem<C> {
    pub fn new(config: C) -> (r: GravitySystem<C>)
        ensures
            r.spec_config() == config,
    {
        GravitySystem { config }
    }

    pub closed spec fn spec_config(&self) -> C {
        self.config
    }

    pub fn config(&self) -> (r: &C)
        ensures
            *r == self.spec_config(),
    {
        &self.config
    }
}

} // verus!
