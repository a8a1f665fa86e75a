//! Handles the renderer gives out for the resources it manages.

use vstd::prelude::*;
use crate::error::{HellError, HellErrorKind, HellResult};
use crate::name_map::NameMap;
use crate::text::str_chars;

verus! {

/// Index of a resource in one of the renderer's tables.
#[derive(Debug, Clone, Copy, PartialEq, Eq, Structural)]
pub struct ResourceHandle {
    pub id: usize,
}

impl ResourceHandle {
    /// A handle that names no resource (`INVALID`).
    pub fn invalid() -> (r: ResourceHandle)
        ensures
            r.id == usize::MAX,
    {
        ResourceHandle { id: usize::MAX }
    }

    pub fn new(id: usize) -> (r: ResourceHandle)
        ensures
            r.id == id,
    {
        ResourceHandle { id }
    }
}

} // verus!

verus! {

/// The handles a manager gave out lead to its entries: every name maps to
/// an index below `count`.
pub open spec fn handles_wf(handles: Map<Seq<char>, ResourceHandle>, count: nat) -> bool {
    forall|n: Seq<char>| #[trigger] handles.dom().contains(n) ==> handles[n].id < count
}

/// Textures by path: the decoded images and the renderer's textures made of
/// them, under the handle each path was first given.
pub struct TextureManager<I, Tex> {
    handles: NameMap<ResourceHandle>,
    images: Vec<I>,
    textures: Vec<Tex>,
}

impl<I, Tex> TextureManager<I, Tex> {
    pub closed spec fn wf(&self) -> bool {
        &&& self.handles.wf()
        &&& self.images@.len() == self.textures@.len()
        &&& handles_wf(self.handles.view(), self.textures@.len())
    }

    pub closed spec fn handles(&self) -> Map<Seq<char>, ResourceHandle> {
        self.handles.view()
    }

    pub closed spec fn images(&self) -> Seq<I> {
        self.images@
    }

    pub closed spec fn spec_textures(&self) -> Seq<Tex> {
        self.textures@
    }

    pub fn new() -> (r: TextureManager<I, Tex>)
        ensures
            r.wf(),
            r.handles() == Map::<Seq<char>, ResourceHandle>::empty(),
            r.images() == Seq::<I>::empty(),
            r.spec_textures() == Seq::<Tex>::empty(),
    {
        TextureManager { handles: NameMap::new(), images: Vec::new(), textures: Vec::new() }
    }

    /// The handle of the texture loaded from `path`, if any.
    pub fn handle(&self, path: &str) -> (r: Option<ResourceHandle>)
        requires
            self.wf(),
        ensures
            r == (if self.handles().dom().contains(path@) {
                Some(self.handles()[path@])
            } else {
                None
            }),
    {
        let chars = str_chars(path);
        match self.handles.get(chars.as_slice()) {
            Some(h) => Some(*h),
            None => None,
        }
    }

    /// Records the image decoded from `path` and the texture made of it, unless
    /// `path` already has a texture; either way the handle of `path`'s texture.
    pub fn acquire_textuer(&mut self, path: String, img: I, texture: Tex) -> (r: ResourceHandle)
        requires
            old(self).wf(),
        ensures
            final(self).wf(),
            old(self).handles().dom().contains(path@) ==> r == old(self).handles()[path@] && final(self).handles()
                == old(self).handles() && final(self).images() == old(self).images() && final(self).spec_textures()
                == old(self).spec_textures(),
            final(self).handles().dom().contains(path@) && final(self).handles()[path@] == r,
            r.id < final(self).spec_textures().len(),
            !old(self).handles().dom().contains(path@) ==> r.id == old(self).spec_textures().len()
                && final(self).handles() == old(self).handles().insert(path@, r) && final(self).images() == old(self).images().push(img)
                && final(self).spec_textures() == old(self).spec_textures().push(texture),
    {
        if let Some(handle) = self.handle(path.as_str()) {
            return handle;
        }
        let handle = ResourceHandle::new(self.images.len());
        let chars = str_chars(path.as_str());
        self.handles.insert(chars.as_slice(), handle);
        self.images.push(img);
        self.textures.push(texture);
        handle
    }

    pub fn textures(&self) -> (r: &[Tex])
        ensures
            r@ == self.spec_textures(),
    {
        self.textures.as_slice()
    }

    /// The texture under `handle`, if there is one.
    pub fn texture(&self, handle: ResourceHandle) -> (r: Option<&Tex>)
        ensures
            r == (if handle.id < self.spec_textures().len() {
                Some(&self.spec_textures()[handle.id as int])
            } else {
                None
            }),
    {
        if handle.id < self.textures.len() {
            Some(&self.textures[handle.id])
        } else {
            None
        }
    }

    /// The texture under `handle`, or a render error when there is none.
    pub fn texture_res(&self, handle: ResourceHandle) -> (r: HellResult<&Tex>)
        ensures
            match r {
                Ok(t) => handle.id < self.spec_textures().len() && t == &self.spec_textures()[handle.id as int],
                Err(e) => handle.id >= self.spec_textures().len() && e.kind == HellErrorKind::RenderError
                    && e.msg@ == "failed to get texture"@,
            },
    {
        match self.texture(handle) {
            Some(t) => Ok(t),
            None => Err(HellError::render_msg_err("failed to get texture")),
        }
    }
}

/// A well-formed texture manager holds one decoded image per texture, and
/// every handle it gave out leads to one of its textures.
pub proof fn lemma_texture_manager_invariant<I, Tex>(tm: &TextureManager<I, Tex>)
    requires
        tm.wf(),
    ensures
        tm.images().len() == tm.spec_textures().len(),
        handles_wf(tm.handles(), tm.spec_textures().len()),
{
}

/// Shaders by key, each under the handle its key was first given.
pub struct ShaderManager<S> {
    handles: NameMap<ResourceHandle>,
    shaders: Vec<S>,
}

impl<S> ShaderManager<S> {
    pub closed spec fn wf(&self) -> bool {
        &&& self.handles.wf()
        &&& handles_wf(self.handles.view(), self.shaders@.len())
    }

    pub closed spec fn handles(&self) -> Map<Seq<char>, ResourceHandle> {
        self.handles.view()
    }

    pub closed spec fn shaders(&self) -> Seq<S> {
        self.shaders@
    }

    pub fn new() -> (r: ShaderManager<S>)
        ensures
            r.wf(),
            r.handles() == Map::<Seq<char>, ResourceHandle>::empty(),
            r.shaders() == Seq::<S>::empty(),
    {
        ShaderManager { handles: NameMap::new(), shaders: Vec::new() }
    }

    /// The handle of the shader made for `key`, if any.
    pub fn handle(&self, key: &str) -> (r: Option<ResourceHandle>)
        requires
            self.wf(),
        ensures
            r == (if self.handles().dom().contains(key@) {
                Some(self.handles()[key@])
            } else {
                None
            }),
    {
        let chars = str_chars(key);
        match self.handles.get(chars.as_slice()) {
            Some(h) => Some(*h),
            None => None,
        }
    }

    /// Records `shader`, made for `key`, unless `key` already has a shader;
    /// either way the handle of `key`'s shader.
    pub fn create_shader(&mut self, key: &str, shader: S) -> (r: HellResult<ResourceHandle>)
        requires
            old(self).wf(),
        ensures
            final(self).wf(),
            r is Ok,
            old(self).handles().dom().contains(key@) ==> r == Ok::<ResourceHandle, HellError>(old(self).handles()[key@])
                && final(self).handles() == old(self).handles() && final(self).shaders() == old(self).shaders(),
            !old(self).handles().dom().contains(key@) ==> (r matches Ok(h) && h.id == old(self).shaders().len()
                && final(self).handles() == old(self).handles().insert(key@, h) && final(self).shaders()
                == old(self).shaders().push(shader)),
    {
        if let Some(handle) = self.handle(key) {
            return Ok(handle);
        }
        let handle = ResourceHandle::new(self.shaders.len());
        let chars = str_chars(key);
        self.handles.insert(chars.as_slice(), handle);
        self.shaders.push(shader);
        Ok(handle)
    }

    /// The shader under `handle`.
    pub fn shader(&self, handle: ResourceHandle) -> (r: &S)
        requires
            handle.id < self.shaders().len(),
        ensures
            *r == self.shaders()[handle.id as int],
    {
        &self.shaders[handle.id]
    }
}

} // verus!
