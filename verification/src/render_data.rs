//! What the game hands the renderer each frame: meshes, transforms and
//! materials of the objects to draw.

use vstd::prelude::*;
use crate::resources::ResourceHandle;

verus! {

/// One object to draw: its mesh, its transform and its material.
pub struct RenderDataChunk<'a, T> {
    pub mesh_idx: usize,
    pub transform: &'a T,
    pub material: ResourceHandle,
}

/// The objects to draw, one entry per object in each list.
#[derive(Debug)]
pub struct RenderData<T> {
    pub meshes: Vec<usize>,
    pub transforms: Vec<T>,
    pub materials: Vec<ResourceHandle>,
}

impl<T> RenderData<T> {
    /// The three lists describe the same objects.
    pub open spec fn wf(&self) -> bool {
        self.meshes@.len() == self.transforms@.len() && self.meshes@.len() == self.materials@.len()
    }

    pub fn new() -> (r: RenderData<T>)
        ensures
            r.wf(),
            r.meshes@ == Seq::<usize>::empty(),
            r.transforms@ == Seq::<T>::empty(),
            r.materials@ == Seq::<ResourceHandle>::empty(),
    {
        RenderData { meshes: Vec::new(), transforms: Vec::new(), materials: Vec::new() }
    }

    /// Number of objects.
    pub fn len(&self) -> (r: usize)
        ensures
            r == self.meshes@.len(),
    {
        self.meshes.len()
    }

    pub fn is_empty(&self) -> (r: bool)
        ensures
            r == (self.meshes@.len() == 0),
    {
        self.len() == 0
    }

    /// Adds an object; returns the new number of objects.
    pub fn add_data(&mut self, mesh_idx: usize, material: ResourceHandle, trans: T) -> (r: usize)
        requires
            old(self).wf(),
        ensures
            final(self).wf(),
            final(self).meshes@ == old(self).meshes@.push(mesh_idx),
            final(self).transforms@ == old(self).transforms@.push(trans),
            final(self).materials@ == old(self).materials@.push(material),
            r == final(self).meshes@.len(),
    {
        self.meshes.push(mesh_idx);
        self.transforms.push(trans);
        self.materials.push(material);
        self.len()
    }

    /// The object at `idx`.
    pub fn data_at(&self, idx: usize) -> (r: RenderDataChunk<'_, T>)
        requires
            self.wf(),
            idx < self.meshes@.len(),
        ensures
            r.mesh_idx == self.meshes@[idx as int],
            *r.transform == self.transforms@[idx as int],
            r.material == self.materials@[idx as int],
    {
        RenderDataChunk { mesh_idx: self.meshes[idx], transform: &self.transforms[idx], material: self.materials[idx] }
    }

    /// A cursor over the objects, from the first.
    pub fn iter(&self) -> (r: RenderDataIter<'_, T>)
        ensures
            r.idx == 0,
            r.render_data == self,
    {
        RenderDataIter::new(self)
    }
}

/// The world and the UI objects of one frame.
#[derive(Debug)]
pub struct RenderPackage<T> {
    pub world: RenderData<T>,
    pub ui: RenderData<T>,
}

impl<T> RenderPackage<T> {
    pub fn new() -> (r: RenderPackage<T>)
        ensures
            r.world.wf() && r.world.meshes@.len() == 0,
            r.ui.wf() && r.ui.meshes@.len() == 0,
    {
        RenderPackage { world: RenderData::new(), ui: RenderData::new() }
    }
}

/// Walks the objects of a `RenderData` in order.
pub struct RenderDataIter<'a, T> {
    pub idx: usize,
    pub render_data: &'a RenderData<T>,
}

impl<'a, T> RenderDataIter<'a, T> {
    pub fn new(render_data: &'a RenderData<T>) -> (r: RenderDataIter<'a, T>)
        ensures
            r.idx == 0,
            r.render_data == render_data,
    {
        RenderDataIter { idx: 0, render_data }
    }

    /// The next object, or `None` once all were handed out.
    pub fn next(&mut self) -> (r: Option<RenderDataChunk<'a, T>>)
        requires
            old(self).render_data.wf(),
        ensures
            final(self).render_data == old(self).render_data,
            match r {
                Some(c) => old(self).idx < old(self).render_data.meshes@.len() && final(self).idx == old(self).idx + 1
                    && c.mesh_idx == old(self).render_data.meshes@[old(self).idx as int] && *c.transform
                    == old(self).render_data.transforms@[old(self).idx as int] && c.material
                    == old(self).render_data.materials@[old(self).idx as int],
                None => old(self).idx >= old(self).render_data.meshes@.len() && final(self).idx == old(self).idx,
            },
    {
        if self.render_data.len() > self.idx {
            let result = Some(self.render_data.data_at(self.idx));
            self.idx = self.idx + 1;
            result
        } else {
            None
        }
    }
}

} // verus!
