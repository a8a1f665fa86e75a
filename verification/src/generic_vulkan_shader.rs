//! The earlier three-scope shader layout: a global and an instance descriptor
//! set, and push constants for the local scope.

use vstd::prelude::*;
use crate::config::{ShaderLimits, FRAMES_IN_FLIGHT};
use crate::error::{HellError, HellErrorKind, HellResult};
use crate::name_map::NameMap;
use crate::render_types::{MemRange, NumberFormat, ValueRange};
use crate::renderer_resources::{ResourceHandle, TextureManager};
use crate::shader_program::{
    aligned_spec, attr_offset, calculate_ubo_stride, get_aligned_range, lemma_attr_offset_bound, ubo_stride_spec,
    textures_resolve, write_bytes, write_bytes_at, DescriptorKind, LayoutBinding, VertexAttribute,
};
pub use crate::shader_program::AttributeInfo;
use crate::text::str_chars;

verus! {

/// How often a uniform changes in this layout: per frame, per material, or
/// per draw (as a push constant).
#[derive(Debug, Clone, Copy, PartialEq, Eq, Structural)]
pub enum GenericShaderScope {
    Global,
    Instance,
    Local,
}

pub open spec fn gscope_idx(s: GenericShaderScope) -> int {
    match s {
        GenericShaderScope::Global => 0,
        GenericShaderScope::Instance => 1,
        GenericShaderScope::Local => 2,
    }
}

pub open spec fn gscope_at(i: int) -> GenericShaderScope {
    if i == 0 {
        GenericShaderScope::Global
    } else if i == 1 {
        GenericShaderScope::Instance
    } else {
        GenericShaderScope::Local
    }
}

impl GenericShaderScope {
    pub const SCOPE_COUNT: usize = 3;

    pub const SET_COUNT: usize = 2;

    pub const INIT_IDX_GLOBAL: usize = 0;

    pub const INIT_IDX_INSTANCE: usize = 1;

    pub const INIT_IDX_LOCAL: usize = 2;

    pub const SET_IDX_GLOBAL: usize = 0;

    pub const SET_IDX_INSTANCE: usize = 1;

    /// Table position of this scope.
    pub fn index(&self) -> (r: usize)
        ensures
            r == gscope_idx(*self),
    {
        match self {
            GenericShaderScope::Global => 0,
            GenericShaderScope::Instance => 1,
            GenericShaderScope::Local => 2,
        }
    }

    /// The descriptor set of this scope; the local scope has none.
    pub fn set_idx(&self) -> (r: Option<usize>)
        ensures
            r == (match *self {
                GenericShaderScope::Global => Some(0usize),
                GenericShaderScope::Instance => Some(1usize),
                GenericShaderScope::Local => None,
            }),
    {
        match self {
            GenericShaderScope::Global => Some(Self::SET_IDX_GLOBAL),
            GenericShaderScope::Instance => Some(Self::SET_IDX_INSTANCE),
            _ => None,
        }
    }

    /// Only scopes with a descriptor set can hold samplers.
    pub fn supports_samplers(&self) -> (r: bool)
        ensures
            r == (*self != GenericShaderScope::Local),
    {
        match self {
            GenericShaderScope::Local => false,
            _ => true,
        }
    }
}

/// Names one uniform: its scope and its position among that scope's uniforms.
#[derive(Debug, Clone, Copy, PartialEq, Eq, Structural)]
pub struct UniformHandle {
    pub scope: GenericShaderScope,
    pub idx: usize,
}

impl UniformHandle {
    pub fn new(scope: GenericShaderScope, idx: usize) -> (r: UniformHandle)
        ensures
            r == (UniformHandle { scope, idx }),
    {
        UniformHandle { scope, idx }
    }
}

/// Model of a `UniformInfo`.
pub struct UniformInfoView {
    pub name: Seq<char>,
    pub scope: GenericShaderScope,
    pub idx: usize,
    pub range: MemRange,
}

#[derive(Debug)]
pub struct UniformInfo {
    pub name: String,
    pub scope: GenericShaderScope,
    pub idx: usize,
    pub range: MemRange,
}

impl View for UniformInfo {
    type V = UniformInfoView;

    open spec fn view(&self) -> UniformInfoView {
        UniformInfoView { name: self.name@, scope: self.scope, idx: self.idx, range: self.range }
    }
}

impl UniformInfo {
    pub fn new_uniform(name: &str, scope: GenericShaderScope, idx: usize, range: MemRange) -> (r: UniformInfo)
        ensures
            r@ == (UniformInfoView { name: name@, scope, idx, range }),
    {
        UniformInfo { name: name.to_owned(), scope, idx, range }
    }

    /// A push constant: a uniform of the local scope.
    pub fn new_push_constant(name: &str, entry_idx: usize, range: MemRange) -> (r: UniformInfo)
        ensures
            r@ == (UniformInfoView { name: name@, scope: GenericShaderScope::Local, idx: entry_idx, range }),
    {
        UniformInfo { name: name.to_owned(), scope: GenericShaderScope::Local, idx: entry_idx, range }
    }
}

/// Bookkeeping slot of one material entry.
#[derive(Debug, Clone, Copy, PartialEq, Eq, Structural)]
pub struct InstanceState {
    pub is_valid: bool,
    pub idx: usize,
    pub offset: usize,
}

impl Default for InstanceState {
    fn default() -> (r: InstanceState)
        ensures
            r == (InstanceState { is_valid: false, idx: 0, offset: 0 }),
    {
        InstanceState { is_valid: false, idx: 0, offset: 0 }
    }
}

pub open spec fn guniforms_view(v: Seq<Vec<UniformInfo>>) -> Seq<Seq<UniformInfoView>> {
    v.map_values(|u: Vec<UniformInfo>| u@.map_values(|i: UniformInfo| i@))
}

/// Every name looked up leads to a uniform of that name.
pub open spec fn glookups_wf(lookups: Map<Seq<char>, UniformHandle>, us: Seq<Seq<UniformInfoView>>) -> bool {
    forall|n: Seq<char>| #[trigger] lookups.dom().contains(n) ==> {
        let h = lookups[n];
        &&& h.idx < us[gscope_idx(h.scope)].len()
        &&& us[gscope_idx(h.scope)][h.idx as int].name == n
    }
}

/// Model of a `GenericVulkanShaderBuilder`.
pub struct GenericBuilderView {
    pub ubo_alignment: usize,
    pub push_constant_stride: usize,
    pub max_material_count: usize,
    pub shader_path: Seq<char>,
    pub depth_test_enabled: bool,
    pub is_wireframe: bool,
    pub attributes: Seq<AttributeInfo>,
    pub use_set: Seq<bool>,
    pub global_tex: Seq<ResourceHandle>,
    pub tex_count: Seq<usize>,
    pub lookups: Map<Seq<char>, UniformHandle>,
    pub uniforms: Seq<Seq<UniformInfoView>>,
    pub scope_sizes: Seq<usize>,
    pub push_constant_ranges: Seq<MemRange>,
}

/// Collects the attributes, sets and uniforms of a shader before it is built.
#[derive(Debug)]
pub struct GenericVulkanShaderBuilder {
    attributes: Vec<AttributeInfo>,
    ubo_alignment: usize,
    push_constant_stride: usize,
    max_material_count: usize,
    shader_path: String,
    depth_test_enabled: bool,
    is_wireframe: bool,
    use_set: Vec<bool>,
    global_tex: Vec<ResourceHandle>,
    tex_count: Vec<usize>,
    uniform_lookups: NameMap<UniformHandle>,
    uniforms: Vec<Vec<UniformInfo>>,
    scope_sizes: Vec<usize>,
    push_constant_ranges: Vec<MemRange>,
}

impl View for GenericVulkanShaderBuilder {
    type V = GenericBuilderView;

    closed spec fn view(&self) -> GenericBuilderView {
        GenericBuilderView {
            ubo_alignment: self.ubo_alignment,
            push_constant_stride: self.push_constant_stride,
            max_material_count: self.max_material_count,
            shader_path: self.shader_path@,
            depth_test_enabled: self.depth_test_enabled,
            is_wireframe: self.is_wireframe,
            attributes: self.attributes@,
            use_set: self.use_set@,
            global_tex: self.global_tex@,
            tex_count: self.tex_count@,
            lookups: self.uniform_lookups.view(),
            uniforms: guniforms_view(self.uniforms@),
            scope_sizes: self.scope_sizes@,
            push_constant_ranges: self.push_constant_ranges@,
        }
    }
}

/// The byte range a new uniform of `size` bytes gets in scope `s` whose
/// uniforms so far take `prev` bytes: a sampler takes none; a push constant
/// gets the operand rounded with the engine's mask expression.
pub open spec fn gen_uniform_range(scope: GenericShaderScope, prev: usize, size: usize, is_sampler: bool) -> MemRange {
    match scope {
        GenericShaderScope::Local => ValueRange { offset: aligned_spec(prev, size), range: aligned_spec(prev, 4) },
        _ => if is_sampler {
            ValueRange { offset: 0usize, range: 0usize }
        } else {
            ValueRange { offset: prev, range: size }
        },
    }
}

/// The builder after one more uniform named `name` was added to `scope`.
pub open spec fn gen_builder_with_uniform(
    b: GenericBuilderView,
    name: Seq<char>,
    scope: GenericShaderScope,
    size: usize,
    is_sampler: bool,
) -> GenericBuilderView {
    let s = gscope_idx(scope);
    let idx = b.uniforms[s].len() as usize;
    let range = gen_uniform_range(scope, b.scope_sizes[s], size, is_sampler);
    GenericBuilderView {
        uniforms: b.uniforms.update(s, b.uniforms[s].push(UniformInfoView { name, scope, idx, range })),
        lookups: b.lookups.insert(name, UniformHandle { scope, idx }),
        scope_sizes: b.scope_sizes.update(s, (b.scope_sizes[s] + range.range) as usize),
        push_constant_ranges: if scope == GenericShaderScope::Local {
            b.push_constant_ranges.push(range)
        } else {
            b.push_constant_ranges
        },
        ..b
    }
}

/// No uniform of scope `s` could overflow the scope's size when added.
pub open spec fn gen_push_fits(b: GenericBuilderView, scope: GenericShaderScope, size: usize, is_sampler: bool) -> bool {
    let s = gscope_idx(scope);
    match scope {
        GenericShaderScope::Local => size >= 1 && b.scope_sizes[s] + (size - 1) <= usize::MAX && b.scope_sizes[s] + 3
            <= usize::MAX && b.scope_sizes[s] + aligned_spec(b.scope_sizes[s], 4) <= usize::MAX,
        _ => is_sampler || b.scope_sizes[s] + size <= usize::MAX,
    }
}

impl GenericVulkanShaderBuilder {
    pub const DESC_COUNT: usize = 2;

    pub const BINDING_IDX_UBO: u32 = 0;

    pub const BINDING_IDX_SAMPLER: u32 = 1;

    pub const MAX_GLOBAL_TEX_COUNT: usize = 16;

    pub const MAX_ATTRIBUTE_COUNT: usize = 32;

    pub closed spec fn wf(&self) -> bool {
        &&& self.use_set@.len() == 3
        &&& self.tex_count@.len() == 3
        &&& self.uniforms@.len() == 3
        &&& self.scope_sizes@.len() == 3
        &&& self.uniform_lookups.wf()
        &&& self.attributes@.len() <= 32
        &&& forall|i: int|
            0 <= i < self.attributes@.len() ==> (#[trigger] self.attributes@[i]).location == i
                && self.attributes@[i].binding == 0
        &&& forall|s: int, k: int|
            #![trigger self@.uniforms[s][k]]
            0 <= s < 3 && 0 <= k < self@.uniforms[s].len() ==> self@.uniforms[s][k].scope == gscope_at(s)
                && self@.uniforms[s][k].idx == k
        &&& glookups_wf(self@.lookups, self@.uniforms)
    }

    /// An empty builder for the shader at `shader_path`.
    pub fn new(shader_path: &str, limits: ShaderLimits) -> (r: GenericVulkanShaderBuilder)
        ensures
            r.wf(),
            r@ == (GenericBuilderView {
                ubo_alignment: limits.ubo_alignment,
                push_constant_stride: limits.push_constant_stride,
                max_material_count: limits.max_material_count,
                shader_path: shader_path@,
                depth_test_enabled: false,
                is_wireframe: false,
                attributes: Seq::empty(),
                use_set: seq![false, false, false],
                global_tex: Seq::empty(),
                tex_count: seq![0usize, 0, 0],
                lookups: Map::empty(),
                uniforms: seq![Seq::<UniformInfoView>::empty(), Seq::empty(), Seq::empty()],
                scope_sizes: seq![0usize, 0, 0],
                push_constant_ranges: Seq::empty(),
            }),
    {
        let mut uniforms: Vec<Vec<UniformInfo>> = Vec::new();
        uniforms.push(Vec::new());
        uniforms.push(Vec::new());
        uniforms.push(Vec::new());
        let r = GenericVulkanShaderBuilder {
            attributes: Vec::new(),
            ubo_alignment: limits.ubo_alignment,
            push_constant_stride: limits.push_constant_stride,
            max_material_count: limits.max_material_count,
            shader_path: shader_path.to_owned(),
            depth_test_enabled: false,
            is_wireframe: false,
            use_set: vec![false, false, false],
            global_tex: Vec::new(),
            tex_count: vec![0, 0, 0],
            uniform_lookups: NameMap::new(),
            uniforms,
            scope_sizes: vec![0, 0, 0],
            push_constant_ranges: Vec::new(),
        };
        assert forall|i: int| 0 <= i < 3 implies r@.uniforms[i] =~= Seq::<UniformInfoView>::empty() by {
            assert(r@.uniforms[i] == r.uniforms@[i]@.map_values(|u: UniformInfo| u@));
        }
        assert(r@.uniforms =~= seq![Seq::<UniformInfoView>::empty(), Seq::empty(), Seq::empty()]);
        assert(r@.attributes =~= Seq::<AttributeInfo>::empty());
        assert(r@.global_tex =~= Seq::<ResourceHandle>::empty());
        assert(r@.push_constant_ranges =~= Seq::<MemRange>::empty());
        r
    }

    pub fn with_depth_test(self) -> (r: GenericVulkanShaderBuilder)
        requires
            self.wf(),
        ensures
            r.wf(),
            r@ == (GenericBuilderView { depth_test_enabled: true, ..self@ }),
    {
        let mut b = self;
        b.depth_test_enabled = true;
        b
    }

    pub fn with_wireframe(self) -> (r: GenericVulkanShaderBuilder)
        requires
            self.wf(),
        ensures
            r.wf(),
            r@ == (GenericBuilderView { is_wireframe: true, ..self@ }),
    {
        let mut b = self;
        b.is_wireframe = true;
        b
    }

    /// Adds a vertex attribute at the next location (up to 32 attributes).
    pub fn with_attribute(self, format: NumberFormat) -> (r: GenericVulkanShaderBuilder)
        requires
            self.wf(),
            self@.attributes.len() < 32,
        ensures
            r.wf(),
            r@ == (GenericBuilderView {
                attributes: self@.attributes.push(
                    AttributeInfo { format, binding: 0, location: self@.attributes.len() as usize },
                ),
                ..self@
            }),
    {
        let mut b = self;
        let location = b.attributes.len();
        b.attributes.push(AttributeInfo { format, binding: 0, location });
        b
    }

    /// Marks the set of `scope` as used; the local scope has no set.
    pub fn with_set_bindings(self, scope: GenericShaderScope) -> (r: HellResult<GenericVulkanShaderBuilder>)
        requires
            self.wf(),
        ensures
            match r {
                Ok(b) => scope != GenericShaderScope::Local && b.wf() && b@ == (GenericBuilderView {
                    use_set: self@.use_set.update(gscope_idx(scope), true),
                    ..self@
                }),
                Err(e) => scope == GenericShaderScope::Local && e.kind == HellErrorKind::RenderError && e.msg@
                    == "trying to use bindings for invalid set"@,
            },
    {
        match scope.set_idx() {
            Some(set) => {
                let mut b = self;
                b.use_set.set(set, true);
                Ok(b)
            },
            None => Err(HellError::render_msg_err("trying to use bindings for invalid set")),
        }
    }

    pub fn with_global_bindings(self) -> (r: GenericVulkanShaderBuilder)
        requires
            self.wf(),
        ensures
            r.wf(),
            r@ == (GenericBuilderView { use_set: self@.use_set.update(0, true), ..self@ }),
    {
        match self.with_set_bindings(GenericShaderScope::Global) {
            Ok(b) => b,
            Err(_) => vstd::pervasive::unreached(),
        }
    }

    pub fn with_instance_bindings(self) -> (r: GenericVulkanShaderBuilder)
        requires
            self.wf(),
        ensures
            r.wf(),
            r@ == (GenericBuilderView { use_set: self@.use_set.update(1, true), ..self@ }),
    {
        match self.with_set_bindings(GenericShaderScope::Instance) {
            Ok(b) => b,
            Err(_) => vstd::pervasive::unreached(),
        }
    }

    fn push_uniform(&mut self, name: &str, scope: GenericShaderScope, size: usize, is_sampler: bool) -> (r:
        HellResult<()>)
        requires
            old(self).wf(),
            !(is_sampler && scope == GenericShaderScope::Local) ==> gen_push_fits(old(self)@, scope, size, is_sampler),
        ensures
            final(self).wf(),
            match r {
                Ok(_) => !(is_sampler && scope == GenericShaderScope::Local) && final(self)@ == gen_builder_with_uniform(
                    old(self)@,
                    name@,
                    scope,
                    size,
                    is_sampler,
                ),
                Err(e) => is_sampler && scope == GenericShaderScope::Local && e.kind == HellErrorKind::RenderError
                    && e.msg@ == "trying to push sampler to unsuported scope"@ && final(self)@ == old(self)@,
            },
    {
        let s = scope.index();
        let ghost old_self = *self;
        let ghost ob = self@;
        let ghost old_us = self@.uniforms[s as int];
        if is_sampler && !scope.supports_samplers() {
            return Err(HellError::render_msg_err("trying to push sampler to unsuported scope"));
        }
        let mut uniforms = self.uniforms.remove(s);
        assert(uniforms@.map_values(|u: UniformInfo| u@) == old_us);
        let idx = uniforms.len();
        let prev = self.scope_sizes[s];
        let info = match scope {
            GenericShaderScope::Local => {
                let range = get_aligned_range(prev, size, 4);
                let info = UniformInfo::new_push_constant(name, idx, range);
                self.push_constant_ranges.push(info.range);
                info
            },
            _ => {
                let range = if is_sampler {
                    MemRange::new(0, 0)
                } else {
                    MemRange::new(prev, size)
                };
                UniformInfo::new_uniform(name, scope, idx, range)
            },
        };
        let ghost iv = info@;
        self.scope_sizes.set(s, prev + info.range.range);
        uniforms.push(info);
        let ghost new_us = uniforms@.map_values(|u: UniformInfo| u@);
        assert(new_us =~= old_us.push(iv));
        self.uniforms.insert(s, uniforms);
        let name_chars = str_chars(name);
        self.uniform_lookups.insert(name_chars.as_slice(), UniformHandle::new(scope, idx));
        let ghost target = gen_builder_with_uniform(ob, name@, scope, size, is_sampler);
        assert(self@.uniforms =~= target.uniforms) by {
            assert forall|i: int| 0 <= i < 3 implies #[trigger] self@.uniforms[i] == target.uniforms[i] by {
                if i == s {
                    assert(self@.uniforms[i] == new_us);
                } else {
                    assert(self.uniforms@[i] == old_self.uniforms@[i]);
                }
            }
        }
        assert(self@.scope_sizes =~= target.scope_sizes);
        assert(self@ == target);
        proof {
            assert forall|t: int, k: int| 0 <= t < 3 && 0 <= k < self@.uniforms[t].len() implies #[trigger] self@.uniforms[t][k].scope
                == gscope_at(t) && self@.uniforms[t][k].idx == k by {
                if t != s || k < old_us.len() {
                    assert(self@.uniforms[t][k] == ob.uniforms[t][k]);
                }
            }
            assert forall|n: Seq<char>| #[trigger] self@.lookups.dom().contains(n) implies {
                let h = self@.lookups[n];
                &&& h.idx < self@.uniforms[gscope_idx(h.scope)].len()
                &&& self@.uniforms[gscope_idx(h.scope)][h.idx as int].name == n
            } by {
                if n != name@ {
                    let h = ob.lookups[n];
                    assert(ob.lookups.dom().contains(n));
                    if gscope_idx(h.scope) == s {
                        assert(self@.uniforms[s as int][h.idx as int] == old_us[h.idx as int]);
                    }
                }
            }
        }
        Ok(())
    }

    /// Adds a uniform of `size_of::<T>()` bytes named `name` to `scope`.
    pub fn with_uniform<T>(self, name: &str, scope: GenericShaderScope) -> (r: GenericVulkanShaderBuilder)
        requires
            self.wf(),
            gen_push_fits(self@, scope, vstd::layout::size_of::<T>() as usize, false),
            vstd::layout::size_of::<T>() <= usize::MAX,
        ensures
            r.wf(),
            r@ == gen_builder_with_uniform(self@, name@, scope, vstd::layout::size_of::<T>() as usize, false),
    {
        let mut b = self;
        let size = core::mem::size_of::<T>();
        let _ = b.push_uniform(name, scope, size, false);
        b
    }

    pub fn with_global_uniform<T>(self, name: &str) -> (r: GenericVulkanShaderBuilder)
        requires
            self.wf(),
            gen_push_fits(self@, GenericShaderScope::Global, vstd::layout::size_of::<T>() as usize, false),
            vstd::layout::size_of::<T>() <= usize::MAX,
        ensures
            r.wf(),
            r@ == gen_builder_with_uniform(
                self@,
                name@,
                GenericShaderScope::Global,
                vstd::layout::size_of::<T>() as usize,
                false,
            ),
    {
        self.with_uniform::<T>(name, GenericShaderScope::Global)
    }

    pub fn with_instance_uniform<T>(self, name: &str) -> (r: GenericVulkanShaderBuilder)
        requires
            self.wf(),
            gen_push_fits(self@, GenericShaderScope::Instance, vstd::layout::size_of::<T>() as usize, false),
            vstd::layout::size_of::<T>() <= usize::MAX,
        ensures
            r.wf(),
            r@ == gen_builder_with_uniform(
                self@,
                name@,
                GenericShaderScope::Instance,
                vstd::layout::size_of::<T>() as usize,
                false,
            ),
    {
        self.with_uniform::<T>(name, GenericShaderScope::Instance)
    }

    /// Adds a sampler named `name` to the global or instance scope; a global
    /// sampler keeps `texture` for the global set.
    pub fn with_sampler(self, name: &str, scope: GenericShaderScope, texture: ResourceHandle) -> (r: HellResult<
        GenericVulkanShaderBuilder,
    >)
        requires
            self.wf(),
            scope != GenericShaderScope::Local,
            self@.tex_count[gscope_idx(scope)] < usize::MAX,
        ensures
            r matches Ok(b) && b.wf() && b@ == gen_builder_with_uniform(
                GenericBuilderView {
                    tex_count: self@.tex_count.update(
                        gscope_idx(scope),
                        (self@.tex_count[gscope_idx(scope)] + 1) as usize,
                    ),
                    global_tex: if scope == GenericShaderScope::Global {
                        self@.global_tex.push(texture)
                    } else {
                        self@.global_tex
                    },
                    ..self@
                },
                name@,
                scope,
                0,
                true,
            ),
    {
        let mut b = self;
        let s = scope.index();
        b.tex_count.set(s, b.tex_count[s] + 1);
        match scope {
            GenericShaderScope::Global => {
                b.global_tex.push(texture);
            },
            _ => {},
        }
        let _ = b.push_uniform(name, scope, 0, true);
        Ok(b)
    }

    pub fn with_global_sampler(self, name: &str, texture: ResourceHandle) -> (r: HellResult<
        GenericVulkanShaderBuilder,
    >)
        requires
            self.wf(),
            self@.tex_count[0] < usize::MAX,
        ensures
            r matches Ok(b) && b.wf() && b@ == gen_builder_with_uniform(
                GenericBuilderView {
                    tex_count: self@.tex_count.update(0, (self@.tex_count[0] + 1) as usize),
                    global_tex: self@.global_tex.push(texture),
                    ..self@
                },
                name@,
                GenericShaderScope::Global,
                0,
                true,
            ),
    {
        self.with_sampler(name, GenericShaderScope::Global, texture)
    }

    /// Padded entry size of `scope`.
    pub fn calculate_ubo_stride(&self, scope: GenericShaderScope) -> (stride: usize)
        requires
            self.wf(),
            self@.scope_sizes[gscope_idx(scope)] == 0 || self@.ubo_alignment > 0,
            ubo_stride_spec(self@.scope_sizes[gscope_idx(scope)] as nat, self@.ubo_alignment as nat) <= usize::MAX,
        ensures
            stride == ubo_stride_spec(self@.scope_sizes[gscope_idx(scope)] as nat, self@.ubo_alignment as nat),
    {
        calculate_ubo_stride(self.scope_sizes[scope.index()], self.ubo_alignment)
    }
}

} // verus!

verus! {

/// The descriptor-set layout of one set: a uniform buffer, and the scope's
/// samplers if it has any.
#[derive(Debug, Clone, Copy, PartialEq, Eq, Structural)]
pub struct GenericSetLayout {
    pub scope: GenericShaderScope,
    pub ubo: LayoutBinding,
    pub samplers: Option<LayoutBinding>,
}

/// Everything `build` derives from a builder before any device object exists.
#[derive(Debug)]
pub struct GenericProgramLayout {
    pub vertex_attributes: Vec<VertexAttribute>,
    pub vertex_stride: usize,
    /// Layouts of the leading used sets, up to the first unused one.
    pub set_layouts: Vec<GenericSetLayout>,
    pub global_ubo_stride: usize,
    pub instance_ubo_stride: usize,
    pub total_buffer_size: usize,
    /// Ranges of the global entry and of the first instance entry.
    pub ubo_ranges: Vec<MemRange>,
    pub depth_test_enabled: bool,
    pub is_wireframe: bool,
}

/// Number of leading used sets.
pub open spec fn gen_set_count(used: Seq<bool>) -> nat {
    if !used[0] {
        0
    } else if !used[1] {
        1
    } else if !used[2] {
        2
    } else {
        3
    }
}

pub open spec fn gen_sampler_binding(count: usize) -> Option<LayoutBinding> {
    if count > 0 {
        Some(
            LayoutBinding {
                binding: 1,
                kind: DescriptorKind::CombinedImageSampler,
                count,
                vertex_stage: false,
                fragment_stage: true,
            },
        )
    } else {
        None
    }
}

pub open spec fn gen_ubo_binding() -> LayoutBinding {
    LayoutBinding { binding: 0, kind: DescriptorKind::UniformBuffer, count: 1, vertex_stage: true, fragment_stage: true }
}

pub open spec fn gen_stride(b: GenericBuilderView, s: int) -> nat {
    ubo_stride_spec(b.scope_sizes[s] as nat, b.ubo_alignment as nat)
}

/// Global entry, then room for `max_material_count` instance entries.
pub open spec fn gen_total(b: GenericBuilderView) -> nat {
    gen_stride(b, 0) + gen_stride(b, 1) * (b.max_material_count as nat)
}

/// The builder's sizes fit the machine.
pub open spec fn gen_layout_fits(b: GenericBuilderView) -> bool {
    &&& b.scope_sizes[0] == 0 || b.ubo_alignment > 0
    &&& b.scope_sizes[1] == 0 || b.ubo_alignment > 0
    &&& gen_stride(b, 1) <= usize::MAX
    &&& gen_total(b) <= usize::MAX
}

/// What `layout` computes from a builder.
pub open spec fn gen_layout_matches(l: GenericProgramLayout, b: GenericBuilderView) -> bool {
    &&& l.vertex_attributes@.len() == b.attributes.len()
    &&& forall|k: int|
        0 <= k < b.attributes.len() ==> #[trigger] l.vertex_attributes@[k] == (VertexAttribute {
            location: k as usize,
            binding: 0,
            format: b.attributes[k].format,
            offset: attr_offset(b.attributes, k) as usize,
        })
    &&& l.vertex_stride == attr_offset(b.attributes, b.attributes.len() as int)
    &&& l.set_layouts@.len() == gen_set_count(b.use_set)
    &&& forall|i: int|
        0 <= i < l.set_layouts@.len() ==> #[trigger] l.set_layouts@[i] == (GenericSetLayout {
            scope: gscope_at(i),
            ubo: gen_ubo_binding(),
            samplers: gen_sampler_binding(b.tex_count[i]),
        })
    &&& l.global_ubo_stride == gen_stride(b, 0)
    &&& l.instance_ubo_stride == gen_stride(b, 1)
    &&& l.total_buffer_size == gen_total(b)
    &&& l.ubo_ranges@ == seq![
        ValueRange { offset: 0usize, range: gen_stride(b, 0) as usize },
        ValueRange { offset: gen_stride(b, 0) as usize, range: gen_stride(b, 1) as usize },
    ]
    &&& l.depth_test_enabled == b.depth_test_enabled
    &&& l.is_wireframe == b.is_wireframe
}

impl GenericVulkanShaderBuilder {
    /// The vertex input, set layouts and buffer ranges of the shader this
    /// builder describes.
    pub fn layout(&self) -> (l: GenericProgramLayout)
        requires
            self.wf(),
            gen_layout_fits(self@),
        ensures
            gen_layout_matches(l, self@),
    {
        let ghost b = self@;
        let mut vertex_attributes: Vec<VertexAttribute> = Vec::new();
        let mut vert_stride: usize = 0;
        let mut a: usize = 0;
        while a < self.attributes.len()
            invariant
                self.wf(),
                b == self@,
                a <= self.attributes@.len(),
                vert_stride == attr_offset(b.attributes, a as int),
                vertex_attributes@.len() == a,
                forall|k: int|
                    0 <= k < a ==> #[trigger] vertex_attributes@[k] == (VertexAttribute {
                        location: k as usize,
                        binding: 0,
                        format: b.attributes[k].format,
                        offset: attr_offset(b.attributes, k) as usize,
                    }),
            decreases self.attributes@.len() - a,
        {
            proof {
                lemma_attr_offset_bound(b.attributes, a + 1);
            }
            let format = self.attributes[a].format;
            vertex_attributes.push(VertexAttribute { location: a, binding: 0, format, offset: vert_stride });
            vert_stride = vert_stride + format.size();
            a = a + 1;
        }
        let mut set_layouts: Vec<GenericSetLayout> = Vec::new();
        let mut idx: usize = 0;
        while idx < 3 && self.use_set[idx]
            invariant
                self.wf(),
                b == self@,
                idx <= 3,
                forall|i: int| 0 <= i < idx ==> #[trigger] b.use_set[i],
                set_layouts@.len() == idx,
                forall|i: int|
                    0 <= i < idx ==> #[trigger] set_layouts@[i] == (GenericSetLayout {
                        scope: gscope_at(i),
                        ubo: gen_ubo_binding(),
                        samplers: gen_sampler_binding(b.tex_count[i]),
                    }),
            decreases 3 - idx,
        {
            let tex_count = self.tex_count[idx];
            let scope = if idx == 0 {
                GenericShaderScope::Global
            } else if idx == 1 {
                GenericShaderScope::Instance
            } else {
                GenericShaderScope::Local
            };
            let ubo = LayoutBinding {
                binding: 0,
                kind: DescriptorKind::UniformBuffer,
                count: 1,
                vertex_stage: true,
                fragment_stage: true,
            };
            let samplers = if tex_count > 0 {
                Some(
                    LayoutBinding {
                        binding: 1,
                        kind: DescriptorKind::CombinedImageSampler,
                        count: tex_count,
                        vertex_stage: false,
                        fragment_stage: true,
                    },
                )
            } else {
                None
            };
            set_layouts.push(GenericSetLayout { scope, ubo, samplers });
            idx = idx + 1;
        }
        let global_ubo_stride = self.calculate_ubo_stride(GenericShaderScope::Global);
        let instance_ubo_stride = self.calculate_ubo_stride(GenericShaderScope::Instance);
        proof {
            assert(instance_ubo_stride * self.max_material_count >= 0) by (nonlinear_arith)
                requires
                    instance_ubo_stride >= 0,
                    self.max_material_count >= 0,
            ;
        }
        let total_buffer_size = global_ubo_stride + (instance_ubo_stride * self.max_material_count);
        let mut ubo_ranges: Vec<MemRange> = Vec::new();
        ubo_ranges.push(MemRange::new(0, global_ubo_stride));
        ubo_ranges.push(MemRange::new(global_ubo_stride, instance_ubo_stride));
        let l = GenericProgramLayout {
            vertex_attributes,
            vertex_stride: vert_stride,
            set_layouts,
            global_ubo_stride,
            instance_ubo_stride,
            total_buffer_size,
            ubo_ranges,
            depth_test_enabled: self.depth_test_enabled,
            is_wireframe: self.is_wireframe,
        };
        assert(l.ubo_ranges@ =~= seq![
            ValueRange { offset: 0usize, range: gen_stride(b, 0) as usize },
            ValueRange { offset: gen_stride(b, 0) as usize, range: gen_stride(b, 1) as usize },
        ]);
        l
    }
}

} // verus!

verus! {

/// Model of a `GenericVulkanShader`.
pub struct GenericShaderView {
    pub lookups: Map<Seq<char>, UniformHandle>,
    pub uniforms: Seq<Seq<UniformInfoView>>,
    pub global_tex: Seq<ResourceHandle>,
    pub scope_ranges: Seq<MemRange>,
    pub buffer: Seq<u8>,
    pub global_desc_sets: Seq<u64>,
    pub set_count: usize,
    pub instance_desc_sets: Seq<Seq<u64>>,
    pub instance_states: Seq<InstanceState>,
}

/// A built shader of this layout: its uniforms, the bytes of its uniform
/// buffer and the descriptor sets acquired for material entries.
#[derive(Debug)]
pub struct GenericVulkanShader {
    uniform_lookups: NameMap<UniformHandle>,
    uniforms: Vec<Vec<UniformInfo>>,
    global_tex: Vec<ResourceHandle>,
    scope_ranges: Vec<MemRange>,
    buffer: Vec<u8>,
    global_desc_sets: [u64; FRAMES_IN_FLIGHT],
    set_count: usize,
    instance_buffer_desc_sets: Vec<[u64; FRAMES_IN_FLIGHT]>,
    instance_states: Vec<InstanceState>,
}

impl View for GenericVulkanShader {
    type V = GenericShaderView;

    closed spec fn view(&self) -> GenericShaderView {
        GenericShaderView {
            lookups: self.uniform_lookups.view(),
            uniforms: guniforms_view(self.uniforms@),
            global_tex: self.global_tex@,
            scope_ranges: self.scope_ranges@,
            buffer: self.buffer@,
            global_desc_sets: self.global_desc_sets@,
            set_count: self.set_count,
            instance_desc_sets: self.instance_buffer_desc_sets@.map_values(|a: [u64; FRAMES_IN_FLIGHT]| a@),
            instance_states: self.instance_states@,
        }
    }
}

/// The shader `build` makes of a builder, with the global descriptor sets.
pub open spec fn gen_built(b: GenericBuilderView, global_desc_sets: Seq<u64>) -> GenericShaderView {
    GenericShaderView {
        lookups: b.lookups,
        uniforms: b.uniforms,
        global_tex: b.global_tex,
        scope_ranges: seq![
            ValueRange { offset: 0usize, range: gen_stride(b, 0) as usize },
            ValueRange { offset: gen_stride(b, 0) as usize, range: gen_stride(b, 1) as usize },
        ],
        buffer: Seq::new(gen_total(b), |i: int| 0u8),
        global_desc_sets,
        set_count: gen_set_count(b.use_set) as usize,
        instance_desc_sets: Seq::empty(),
        instance_states: Seq::new(b.max_material_count as nat, |i: int| InstanceState { is_valid: false, idx: 0, offset: 0 }),
    }
}

/// What applying a scope writes and binds: the set, the scope's buffer range
/// and the textures; this layout always binds at set 0.
#[derive(Debug)]
pub struct GenericScopeBinding {
    pub desc_set: u64,
    pub buffer_offset: usize,
    pub buffer_range: usize,
    pub textures: Vec<ResourceHandle>,
    pub first_set: usize,
}

impl GenericVulkanShaderBuilder {
    /// Turns the builder into a shader whose buffer is zeroed, using
    /// `global_desc_sets` for the global set.
    pub fn build(self, global_desc_sets: [u64; FRAMES_IN_FLIGHT]) -> (r: GenericVulkanShader)
        requires
            self.wf(),
            gen_layout_fits(self@),
        ensures
            r.wf(),
            r@ == gen_built(self@, global_desc_sets@),
    {
        let ghost b = self@;
        let layout = self.layout();
        let total = layout.total_buffer_size;
        let mut buffer: Vec<u8> = Vec::new();
        let mut i: usize = 0;
        while i < total
            invariant
                i <= total,
                buffer@ == Seq::new(i as nat, |j: int| 0u8),
            decreases total - i,
        {
            buffer.push(0);
            i = i + 1;
            assert(buffer@ =~= Seq::new(i as nat, |j: int| 0u8));
        }
        let mut instance_states: Vec<InstanceState> = Vec::new();
        let mut k: usize = 0;
        while k < self.max_material_count
            invariant
                k <= self.max_material_count,
                instance_states@ == Seq::new(k as nat, |j: int| InstanceState { is_valid: false, idx: 0, offset: 0 }),
            decreases self.max_material_count - k,
        {
            instance_states.push(InstanceState::default());
            k = k + 1;
            assert(instance_states@ =~= Seq::new(
                k as nat,
                |j: int| InstanceState { is_valid: false, idx: 0, offset: 0 },
            ));
        }
        let set_count = layout.set_layouts.len();
        let GenericVulkanShaderBuilder { uniform_lookups, uniforms, global_tex, .. } = self;
        let r = GenericVulkanShader {
            uniform_lookups,
            uniforms,
            global_tex,
            scope_ranges: layout.ubo_ranges,
            buffer,
            global_desc_sets,
            set_count,
            instance_buffer_desc_sets: Vec::new(),
            instance_states,
        };
        assert(r@.instance_desc_sets =~= Seq::<Seq<u64>>::empty());
        r
    }
}

impl GenericVulkanShader {
    pub closed spec fn wf(&self) -> bool {
        &&& self.uniforms@.len() == 3
        &&& self.scope_ranges@.len() == 2
        &&& self.uniform_lookups.wf()
        &&& forall|s: int, k: int|
            #![trigger self@.uniforms[s][k]]
            0 <= s < 3 && 0 <= k < self@.uniforms[s].len() ==> self@.uniforms[s][k].scope == gscope_at(s)
                && self@.uniforms[s][k].idx == k
        &&& glookups_wf(self@.lookups, self@.uniforms)
    }

    /// The handle of the uniform named `name`.
    pub fn uniform_handle(&self, name: &str) -> (r: Option<UniformHandle>)
        requires
            self.wf(),
        ensures
            r == (if self@.lookups.dom().contains(name@) {
                Some(self@.lookups[name@])
            } else {
                None
            }),
    {
        let chars = str_chars(name);
        match self.uniform_lookups.get(chars.as_slice()) {
            Some(h) => Some(*h),
            None => None,
        }
    }

    /// The bytes of the uniform buffer.
    pub fn buffer(&self) -> (r: &[u8])
        ensures
            r@ == self@.buffer,
    {
        self.buffer.as_slice()
    }

    /// Writes `value` at the uniform's offset inside its scope's range (the
    /// global entry or the first instance entry).
    pub fn set_uniform(&mut self, handle: UniformHandle, value: &[u8]) -> (r: HellResult<()>)
        requires
            old(self).wf(),
            handle.scope != GenericShaderScope::Local,
            handle.idx < old(self)@.uniforms[gscope_idx(handle.scope)].len(),
            old(self)@.scope_ranges[gscope_idx(handle.scope)].offset + old(self)@.uniforms[gscope_idx(
                handle.scope,
            )][handle.idx as int].range.offset + value@.len() <= old(self)@.buffer.len(),
        ensures
            final(self).wf(),
            r is Ok,
            final(self)@ == (GenericShaderView {
                buffer: write_bytes(
                    old(self)@.buffer,
                    old(self)@.scope_ranges[gscope_idx(handle.scope)].offset + old(self)@.uniforms[gscope_idx(
                        handle.scope,
                    )][handle.idx as int].range.offset,
                    value@,
                ),
                ..old(self)@
            }),
    {
        let s = handle.scope.index();
        proof {
            assert(self@.uniforms[s as int] == self.uniforms@[s as int]@.map_values(|u: UniformInfo| u@));
            assert(self.uniforms@[s as int]@[handle.idx as int]@ == self@.uniforms[s as int][handle.idx as int]);
        }
        let _len = self.buffer.len();
        let scope_range = self.scope_ranges[s];
        let offset = scope_range.offset + self.uniforms[s][handle.idx].range.offset;
        write_bytes_at(&mut self.buffer, offset, value);
        Ok(())
    }

    /// Whether the instance set has a layout, so instance entries can be acquired.
    pub fn has_instance_layout(&self) -> (r: bool)
        ensures
            r == (self@.set_count > 1),
    {
        self.set_count > 1
    }

    /// Records the descriptor sets of a new material entry; its handle is its
    /// index.
    pub fn acquire_instance_resource(&mut self, desc_sets: [u64; FRAMES_IN_FLIGHT]) -> (r: HellResult<ResourceHandle>)
        requires
            old(self).wf(),
        ensures
            final(self).wf(),
            match r {
                Ok(h) => old(self)@.set_count > 1 && h.id == old(self)@.instance_desc_sets.len() && final(self)@ == (
                GenericShaderView {
                    instance_desc_sets: old(self)@.instance_desc_sets.push(desc_sets@),
                    ..old(self)@
                }),
                Err(e) => old(self)@.set_count <= 1 && e.kind == HellErrorKind::RenderError && e.msg@
                    == "failed to get instance desc-layout"@ && final(self)@ == old(self)@,
            },
    {
        if self.set_count <= 1 {
            return Err(HellError::render_msg_err("failed to get instance desc-layout"));
        }
        let ghost old_sets = self.instance_buffer_desc_sets@;
        self.instance_buffer_desc_sets.push(desc_sets);
        assert(self.instance_buffer_desc_sets@.map_values(|a: [u64; FRAMES_IN_FLIGHT]| a@) =~= old_sets.map_values(
            |a: [u64; FRAMES_IN_FLIGHT]| a@,
        ).push(desc_sets@));
        let idx = self.instance_buffer_desc_sets.len() - 1;
        Ok(ResourceHandle::new(idx))
    }

    /// What applying `scope` with set `desc_set` and textures `tex_handles`
    /// writes and binds, or a render error when one of the textures is not in
    /// `tex_man`.
    pub fn apply_scope<I, Tex>(
        &self,
        scope: GenericShaderScope,
        tex_man: &TextureManager<I, Tex>,
        desc_set: u64,
        tex_handles: &[ResourceHandle],
    ) -> (r: HellResult<GenericScopeBinding>)
        requires
            self.wf(),
            scope != GenericShaderScope::Local,
        ensures
            generic_apply_agrees(self@, gscope_idx(scope), tex_man.spec_textures().len(), desc_set, tex_handles@, r),
    {
        let scope_range = self.scope_ranges[scope.index()];
        let mut textures: Vec<ResourceHandle> = Vec::new();
        let mut t: usize = 0;
        while t < tex_handles.len()
            invariant
                t <= tex_handles@.len(),
                textures@ == tex_handles@.subrange(0, t as int),
                textures_resolve(textures@, tex_man.spec_textures().len()),
            decreases tex_handles@.len() - t,
        {
            let handle = tex_handles[t];
            match tex_man.texture_res(handle) {
                Ok(_tex) => {},
                Err(e) => {
                    proof {
                        assert(!textures_resolve(tex_handles@, tex_man.spec_textures().len())) by {
                            assert(tex_handles@[t as int] == handle);
                        }
                    }
                    return Err(e);
                },
            }
            textures.push(handle);
            t = t + 1;
            assert(textures@ =~= tex_handles@.subrange(0, t as int));
        }
        assert(textures@ =~= tex_handles@);
        Ok(
            GenericScopeBinding {
                desc_set,
                buffer_offset: scope_range.offset,
                buffer_range: scope_range.range,
                textures,
                first_set: 0,
            },
        )
    }

    /// Applies the global scope with the global set of frame `frame_idx` and
    /// the global textures.
    pub fn apply_global_scope<I, Tex>(&self, frame_idx: usize, tex_man: &TextureManager<I, Tex>) -> (r: HellResult<
        GenericScopeBinding,
    >)
        requires
            self.wf(),
            frame_idx < FRAMES_IN_FLIGHT,
        ensures
            generic_apply_agrees(
                self@,
                0,
                tex_man.spec_textures().len(),
                self@.global_desc_sets[frame_idx as int],
                self@.global_tex,
                r,
            ),
    {
        let buff_set = self.global_desc_sets[frame_idx];
        self.apply_scope(GenericShaderScope::Global, tex_man, buff_set, self.global_tex.as_slice())
    }

    /// Applies the instance scope with the set of entry `buff_res` for frame
    /// `frame_idx` and the given textures.
    pub fn apply_instance_scope<I, Tex>(
        &self,
        frame_idx: usize,
        tex_man: &TextureManager<I, Tex>,
        buff_res: ResourceHandle,
        tex_handles: &[ResourceHandle],
    ) -> (r: HellResult<GenericScopeBinding>)
        requires
            self.wf(),
            frame_idx < FRAMES_IN_FLIGHT,
            buff_res.id < self@.instance_desc_sets.len(),
        ensures
            generic_apply_agrees(
                self@,
                1,
                tex_man.spec_textures().len(),
                self@.instance_desc_sets[buff_res.id as int][frame_idx as int],
                tex_handles@,
                r,
            ),
    {
        proof {
            assert(self@.instance_desc_sets[buff_res.id as int] == self.instance_buffer_desc_sets@[buff_res.id as int]@);
        }
        let sets = self.instance_buffer_desc_sets[buff_res.id];
        let buff_set = sets[frame_idx];
        self.apply_scope(GenericShaderScope::Instance, tex_man, buff_set, tex_handles)
    }
}

/// The outcome `apply_scope` promises for scope `s` with set `desc_set` and
/// textures `tex`, against a texture manager holding `tex_count` textures: the
/// scope's whole range, bound at set 0, unless a texture is missing.
pub open spec fn generic_apply_agrees(
    p: GenericShaderView,
    s: int,
    tex_count: nat,
    desc_set: u64,
    tex: Seq<ResourceHandle>,
    r: HellResult<GenericScopeBinding>,
) -> bool {
    match r {
        Ok(b) => textures_resolve(tex, tex_count) && b.desc_set == desc_set && b.buffer_offset
            == p.scope_ranges[s].offset && b.buffer_range == p.scope_ranges[s].range && b.textures@ == tex
            && b.first_set == 0,
        Err(e) => !textures_resolve(tex, tex_count) && e.kind == HellErrorKind::RenderError && e.msg@
            == "failed to get texture"@,
    }
}

/// In a planned layout, each leading used set binds its uniform buffer as one
/// descriptor at binding 0 for both stages and, when its scope has textures,
/// one combined image sampler per texture of the scope at binding 1 for the
/// fragment stage; a scope without textures has no sampler binding.
pub proof fn lemma_gen_layout_sampler_binding(l: GenericProgramLayout, b: GenericBuilderView, i: int)
    requires
        gen_layout_matches(l, b),
        0 <= i < l.set_layouts@.len(),
    ensures
        l.set_layouts@[i].ubo == (LayoutBinding {
            binding: 0,
            kind: DescriptorKind::UniformBuffer,
            count: 1,
            vertex_stage: true,
            fragment_stage: true,
        }),
        b.tex_count[i] > 0 ==> l.set_layouts@[i].samplers == Some(
            LayoutBinding {
                binding: 1,
                kind: DescriptorKind::CombinedImageSampler,
                count: b.tex_count[i],
                vertex_stage: false,
                fragment_stage: true,
            },
        ),
        b.tex_count[i] == 0 ==> l.set_layouts@[i].samplers is None,
{
    let _x = l.set_layouts@[i];
}

/// A uniform added to the builder is found again by its name, at the
/// position it was given, with the range its scope gives it.
pub proof fn lemma_gen_added_uniform_found(
    b: GenericBuilderView,
    name: Seq<char>,
    scope: GenericShaderScope,
    size: usize,
    is_sampler: bool,
)
    requires
        b.uniforms.len() == 3,
        b.scope_sizes.len() == 3,
        b.uniforms[gscope_idx(scope)].len() <= usize::MAX,
    ensures
        ({
            let s = gscope_idx(scope);
            let b2 = gen_builder_with_uniform(b, name, scope, size, is_sampler);
            let h = b2.lookups[name];
            &&& b2.lookups.dom().contains(name)
            &&& h == UniformHandle { scope, idx: b.uniforms[s].len() as usize }
            &&& b2.uniforms[s][h.idx as int].name == name
            &&& b2.uniforms[s][h.idx as int].range == gen_uniform_range(scope, b.scope_sizes[s], size, is_sampler)
        }),
{
}

} // verus!
