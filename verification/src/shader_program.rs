//! Layout of a shader program's uniforms: which descriptor sets a program
//! uses, where each scope's uniform entries live in the program's buffer, and
//! which entry is bound.

use vstd::prelude::*;
use vstd::bits::{low_bits_mask, lemma_usize_low_bits_mask_is_mod, lemma_low_bits_mask_values};
use vstd::arithmetic::power2::{pow2, lemma_pow2_pos};
use crate::config::{ShaderLimits, FRAMES_IN_FLIGHT};
use crate::error::{HellError, HellErrorKind, HellResult};
use crate::name_map::NameMap;
use crate::render_types::{MemRange, NumberFormat, ValueRange, number_format_size};
use crate::renderer_resources::{ResourceHandle, TextureManager};
use crate::text::str_chars;

verus! {

// ----------------------------------------------------------------------------
// alignment
// ----------------------------------------------------------------------------

/// `operand` rounded up with the mask of `alignment` (the bit expression the
/// engine uses; a multiple of `alignment` when that is a power of two).
pub open spec fn aligned_spec(operand: usize, alignment: usize) -> usize {
    ((operand + (alignment - 1)) as usize) & !((alignment - 1) as usize)
}

pub fn get_aligned(operand: usize, alignment: usize) -> (r: usize)
    requires
        alignment >= 1,
        operand + (alignment - 1) <= usize::MAX,
    ensures
        r == aligned_spec(operand, alignment),
{
    (operand + (alignment - 1)) & !(alignment - 1)
}

/// For a power-of-two alignment, `get_aligned` rounds up to the next multiple.
pub proof fn lemma_get_aligned_pow2(operand: usize, n: nat)
    requires
        n < usize::BITS,
        operand + (pow2(n) - 1) <= usize::MAX,
    ensures
        aligned_spec(operand, pow2(n) as usize) % (pow2(n) as usize) == 0,
        operand <= aligned_spec(operand, pow2(n) as usize) < operand + pow2(n),
{
    lemma_pow2_pos(n);
    vstd::bits::lemma_usize_pow2_no_overflow(n);
    let a = pow2(n) as usize;
    let y = (operand + (a - 1)) as usize;
    let m = (a - 1) as usize;
    assert(low_bits_mask(n) == pow2(n) - 1);
    lemma_usize_low_bits_mask_is_mod(y, n);
    assert(y & m == y % a);
    assert(y & !m == y - (y & m)) by (bit_vector);
    assert(((y - y % a) as int) % (a as int) == 0) by {
        let q = y as int / a as int;
        vstd::arithmetic::div_mod::lemma_mod_multiples_basic(q, a as int);
        vstd::arithmetic::div_mod::lemma_fundamental_div_mod(y as int, a as int);
        vstd::arithmetic::mul::lemma_mul_is_commutative(q, a as int);
        assert((y - y % a) as int == q * a);
    }
}

pub fn get_aligned_range(offset: usize, size: usize, alignment: usize) -> (r: ValueRange<usize>)
    requires
        size >= 1,
        alignment >= 1,
        offset + (size - 1) <= usize::MAX,
        offset + (alignment - 1) <= usize::MAX,
    ensures
        r.offset == aligned_spec(offset, size),
        r.range == aligned_spec(offset, alignment),
{
    ValueRange::new(get_aligned(offset, size), get_aligned(offset, alignment))
}

} // verus!

verus! {

// ----------------------------------------------------------------------------
// scopes and uniforms
// ----------------------------------------------------------------------------

/// How often a uniform changes: once per frame (global), per pass (shared),
/// per material (instance) or per draw (local).
#[derive(Debug, Clone, Copy, PartialEq, Eq, Structural)]
pub enum ShaderScope {
    Global,
    Shared,
    Instance,
    Local,
}

pub open spec fn scope_idx(s: ShaderScope) -> int {
    match s {
        ShaderScope::Global => 0,
        ShaderScope::Shared => 1,
        ShaderScope::Instance => 2,
        ShaderScope::Local => 3,
    }
}

pub open spec fn scope_at(i: int) -> ShaderScope {
    if i == 0 {
        ShaderScope::Global
    } else if i == 1 {
        ShaderScope::Shared
    } else if i == 2 {
        ShaderScope::Instance
    } else {
        ShaderScope::Local
    }
}

impl ShaderScope {
    pub const SCOPE_COUNT: usize = 4;

    pub const INIT_IDX_GLOBAL: usize = 0;

    pub const INIT_IDX_INSTANCE: usize = 1;

    pub const INIT_IDX_LOCAL: usize = 2;

    /// The scope at table position `val` (`From<usize>`, which panics past 3).
    pub fn from_index(val: usize) -> (r: ShaderScope)
        requires
            val < 4,
        ensures
            scope_idx(r) == val,
            r == scope_at(val as int),
    {
        match val {
            0 => ShaderScope::Global,
            1 => ShaderScope::Shared,
            2 => ShaderScope::Instance,
            _ => ShaderScope::Local,
        }
    }

    /// Table position of this scope.
    pub fn index(&self) -> (r: usize)
        ensures
            r == scope_idx(*self),
            scope_at(r as int) == *self,
    {
        match self {
            ShaderScope::Global => 0,
            ShaderScope::Shared => 1,
            ShaderScope::Instance => 2,
            ShaderScope::Local => 3,
        }
    }
}

/// Names one uniform: its scope and its position among that scope's uniforms.
#[derive(Debug, Clone, Copy, PartialEq, Eq, Structural)]
pub struct UniformHandle {
    pub scope: ShaderScope,
    pub idx: usize,
}

impl UniformHandle {
    pub fn new(scope: ShaderScope, idx: usize) -> (r: UniformHandle)
        ensures
            r.scope == scope,
            r.idx == idx,
    {
        UniformHandle { scope, idx }
    }
}

/// Model of a `UniformInfo`.
pub struct UniformInfoView {
    pub name: Seq<char>,
    pub scope: ShaderScope,
    pub idx: usize,
    pub range: MemRange,
}

/// A uniform: its name, scope, position and byte range inside its scope's entry.
#[derive(Debug)]
pub struct UniformInfo {
    pub name: String,
    pub scope: ShaderScope,
    pub idx: usize,
    pub range: MemRange,
}

impl View for UniformInfo {
    type V = UniformInfoView;

    open spec fn view(&self) -> UniformInfoView {
        UniformInfoView { name: self.name@, scope: self.scope, idx: self.idx, range: self.range }
    }
}

impl UniformInfo {
    pub fn new_uniform(name: &str, scope: ShaderScope, idx: usize, range: MemRange) -> (r:
        UniformInfo)
        ensures
            r@ == (UniformInfoView { name: name@, scope, idx, range }),
    {
        UniformInfo { name: name.to_owned(), scope, idx, range }
    }

    /// A push constant: a uniform of the local scope.
    pub fn new_push_constant(name: &str, entry_idx: usize, range: MemRange) -> (r: UniformInfo)
        ensures
            r@ == (UniformInfoView { name: name@, scope: ShaderScope::Local, idx: entry_idx, range }),
    {
        UniformInfo { name: name.to_owned(), scope: ShaderScope::Local, idx: entry_idx, range }
    }
}

/// A vertex attribute: its format, binding and shader location.
#[derive(Debug, Clone, Copy, PartialEq, Eq, Structural)]
pub struct AttributeInfo {
    pub format: NumberFormat,
    pub binding: usize,
    pub location: usize,
}

impl Default for AttributeInfo {
    fn default() -> (r: AttributeInfo)
        ensures
            r == (AttributeInfo { format: NumberFormat::UNDEFINED, binding: 0, location: 0 }),
    {
        AttributeInfo { format: NumberFormat::UNDEFINED, binding: 0, location: 0 }
    }
}

/// One bound entry of a scope: where its uniforms live in the program's
/// buffer, its descriptor set for each frame in flight and its textures.
#[derive(Debug)]
pub struct ScopeState {
    pub idx: usize,
    pub buffer_offset: usize,
    pub buffer_stride: usize,
    /// Raw descriptor-set handles, one per frame in flight.
    pub buffer_desc_sets: [u64; FRAMES_IN_FLIGHT],
    pub textures: Vec<ResourceHandle>,
}

/// Model of a `ScopeState`.
pub struct ScopeStateView {
    pub idx: usize,
    pub buffer_offset: usize,
    pub buffer_stride: usize,
    pub desc_sets: Seq<u64>,
    pub textures: Seq<ResourceHandle>,
}

impl View for ScopeState {
    type V = ScopeStateView;

    open spec fn view(&self) -> ScopeStateView {
        ScopeStateView {
            idx: self.idx,
            buffer_offset: self.buffer_offset,
            buffer_stride: self.buffer_stride,
            desc_sets: self.buffer_desc_sets@,
            textures: self.textures@,
        }
    }
}

impl ScopeState {
    pub fn buffer_desc_set(&self, frame_idx: usize) -> (r: u64)
        requires
            frame_idx < FRAMES_IN_FLIGHT,
        ensures
            r == self.buffer_desc_sets@[frame_idx as int],
    {
        self.buffer_desc_sets[frame_idx]
    }

    pub fn textures(&self) -> (r: &[ResourceHandle])
        ensures
            r@ == self.textures@,
    {
        self.textures.as_slice()
    }
}

// ----------------------------------------------------------------------------
// uniform bookkeeping
// ----------------------------------------------------------------------------

/// Sum of the byte ranges of the first `n` uniforms.
pub open spec fn ranges_sum(us: Seq<UniformInfoView>, n: int) -> nat
    decreases n,
{
    if n <= 0 {
        0
    } else {
        ranges_sum(us, n - 1) + us[n - 1].range.range as nat
    }
}

pub proof fn lemma_ranges_sum_mono(us: Seq<UniformInfoView>, a: int, b: int)
    requires
        0 <= a <= b <= us.len(),
    ensures
        ranges_sum(us, a) <= ranges_sum(us, b),
    decreases b - a,
{
    if a < b {
        lemma_ranges_sum_mono(us, a, b - 1);
    }
}

/// The uniforms of scope `s`: each knows its scope and position, a sampler
/// takes no bytes, and every other uniform starts where the bytes of the ones
/// before it end; `size` is the total.
pub open spec fn scope_uniforms_wf(us: Seq<UniformInfoView>, s: int, size: usize) -> bool {
    &&& forall|k: int| 0 <= k < us.len() ==> (#[trigger] us[k]).scope == scope_at(s) && us[k].idx == k
    &&& forall|k: int| 0 <= k < us.len() ==> (#[trigger] us[k]).range.range == 0 || us[k].range.offset == ranges_sum(us, k)
    &&& size == ranges_sum(us, us.len() as int)
}

pub open spec fn uniforms_view(v: Seq<Vec<UniformInfo>>) -> Seq<Seq<UniformInfoView>> {
    v.map_values(|u: Vec<UniformInfo>| u@.map_values(|i: UniformInfo| i@))
}

pub proof fn lemma_ranges_sum_push(us: Seq<UniformInfoView>, x: UniformInfoView, n: int)
    requires
        0 <= n <= us.len(),
    ensures
        ranges_sum(us.push(x), n) == ranges_sum(us, n),
    decreases n,
{
    if n > 0 {
        lemma_ranges_sum_push(us, x, n - 1);
        assert(us.push(x)[n - 1] == us[n - 1]);
    }
}

/// Uniforms with bytes, within one scope, never overlap.
pub proof fn lemma_uniforms_disjoint(us: Seq<UniformInfoView>, s: int, size: usize, k: int, m: int)
    requires
        scope_uniforms_wf(us, s, size),
        0 <= k < m < us.len(),
        us[k].range.range > 0,
        us[m].range.range > 0,
    ensures
        us[k].range.offset + us[k].range.range <= us[m].range.offset,
        us[m].range.offset + us[m].range.range <= size,
{
    lemma_ranges_sum_mono(us, k + 1, m);
    lemma_ranges_sum_mono(us, m + 1, us.len() as int);
}

} // verus!

verus! {

// ----------------------------------------------------------------------------
// layout arithmetic
// ----------------------------------------------------------------------------

/// The padded size of one uniform entry: the smallest multiple of `align`
/// that holds `size` bytes.
pub open spec fn ubo_stride_spec(size: nat, align: nat) -> nat {
    if size == 0 || align == 0 {
        0
    } else {
        (((size + align - 1) as int / align as int) * align) as nat
    }
}

/// Bytes the scope at `i` takes in the program's buffer: its padded entry size
/// times its number of entries, or nothing when the scope is unused.
pub open spec fn scope_bytes(
    used: Seq<bool>,
    sizes: Seq<usize>,
    counts: Seq<usize>,
    align: usize,
    i: int,
) -> nat {
    if used[i] {
        ubo_stride_spec(sizes[i] as nat, align as nat) * counts[i] as nat
    } else {
        0
    }
}

/// Where the scope at `i` starts: after all used scopes before it.
pub open spec fn scope_offset(
    used: Seq<bool>,
    sizes: Seq<usize>,
    counts: Seq<usize>,
    align: usize,
    i: int,
) -> nat
    decreases i,
{
    if i <= 0 {
        0
    } else {
        scope_offset(used, sizes, counts, align, i - 1) + scope_bytes(used, sizes, counts, align, i - 1)
    }
}

/// Number of used scopes before `i`: the descriptor-set index of the scope at `i`.
pub open spec fn sets_before(used: Seq<bool>, i: int) -> nat
    decreases i,
{
    if i <= 0 {
        0
    } else {
        sets_before(used, i - 1) + if used[i - 1] {
            1nat
        } else {
            0nat
        }
    }
}

pub proof fn lemma_scope_offset_mono(
    used: Seq<bool>,
    sizes: Seq<usize>,
    counts: Seq<usize>,
    align: usize,
    a: int,
    b: int,
)
    requires
        0 <= a <= b,
    ensures
        scope_offset(used, sizes, counts, align, a) + (if a < b {
            scope_bytes(used, sizes, counts, align, a)
        } else {
            0
        }) <= scope_offset(used, sizes, counts, align, b),
    decreases b - a,
{
    if a < b {
        lemma_scope_offset_mono(used, sizes, counts, align, a, b - 1);
    }
}

/// `calculate_ubo_stride`: the smallest multiple of `align` not below `size`.
pub(crate) fn calculate_ubo_stride(size: usize, align: usize) -> (stride: usize)
    requires
        size == 0 || align > 0,
        ubo_stride_spec(size as nat, align as nat) <= usize::MAX,
    ensures
        stride == ubo_stride_spec(size as nat, align as nat),
{
    if size == 0 {
        return 0;
    }
    let ghost m: int = (size + align - 1) as int / align as int;
    proof {
        vstd::arithmetic::div_mod::lemma_fundamental_div_mod((size + align - 1) as int, align as int);
        assert(m * align >= size && (m - 1) * align < size && m >= 1) by (nonlinear_arith)
            requires
                align > 0,
                size > 0,
                ((size + align - 1) as int) == align * m + ((size + align - 1) as int) % (align as int),
                0 <= ((size + align - 1) as int) % (align as int) < align;
    }
    let mut stride: usize = 0;
    let ghost mut k: int = 0;
    while stride < size
        invariant
            align > 0,
            size > 0,
            m >= 1,
            m * align >= size,
            (m - 1) * align < size,
            m * align == ubo_stride_spec(size as nat, align as nat),
            m * align <= usize::MAX,
            0 <= k <= m,
            stride == k * align,
        decreases m - k,
    {
        proof {
            if k >= m {
                assert(k * align >= m * align) by (nonlinear_arith)
                    requires
                        k >= m,
                        align > 0;
            }
            assert((k + 1) * align <= m * align) by (nonlinear_arith)
                requires
                    k + 1 <= m,
                    align > 0;
            assert((k + 1) * align == k * align + align) by (nonlinear_arith);
        }
        stride = stride + align;
        proof {
            k = k + 1;
        }
    }
    proof {
        if k < m {
            assert(k * align <= (m - 1) * align) by (nonlinear_arith)
                requires
                    k <= m - 1,
                    align > 0;
        }
    }
    stride
}

} // verus!

verus! {

/// The padded entry size covers the entry and is a multiple of the alignment.
pub proof fn lemma_ubo_stride(size: nat, align: nat)
    requires
        align > 0,
    ensures
        ubo_stride_spec(size, align) % align == 0,
        size <= ubo_stride_spec(size, align) < size + align,
{
    if size > 0 {
        let m = (size + align - 1) as int / align as int;
        vstd::arithmetic::div_mod::lemma_fundamental_div_mod((size + align - 1) as int, align as int);
        vstd::arithmetic::div_mod::lemma_mod_multiples_basic(m, align as int);
        assert(m * align >= size && m * align < size + align) by (nonlinear_arith)
            requires
                align > 0,
                size > 0,
                ((size + align - 1) as int) == align * m + ((size + align - 1) as int) % (align as int),
                0 <= ((size + align - 1) as int) % (align as int) < align;
        assert(ubo_stride_spec(size, align) == m * align);
        assert((m * align) % (align as int) == 0);
    } else {
        vstd::arithmetic::div_mod::lemma_small_mod(0, align);
    }
}

// ----------------------------------------------------------------------------
// builder
// ----------------------------------------------------------------------------

/// Collects the attributes, uniforms and samplers of a shader program before
/// it is built.
#[derive(Debug)]
pub struct ShaderProgramBuilder {
    ubo_alignment: usize,
    push_constant_stride: usize,
    depth_test_enabled: bool,
    is_wireframe: bool,
    shader_path: String,
    attributes: Vec<AttributeInfo>,
    use_set: Vec<bool>,
    sampler_counts: Vec<usize>,
    uniforms: Vec<Vec<UniformInfo>>,
    uniform_lookups: NameMap<UniformHandle>,
    scope_sizes: Vec<usize>,
    scope_entry_count: Vec<usize>,
    global_tex: Vec<ResourceHandle>,
    push_constant_ranges: Vec<MemRange>,
}

/// Every name looked up leads to a uniform of that name.
pub open spec fn lookups_wf(lookups: Map<Seq<char>, UniformHandle>, us: Seq<Seq<UniformInfoView>>) -> bool {
    forall|n: Seq<char>| #[trigger] lookups.dom().contains(n) ==> {
        let h = lookups[n];
        &&& h.idx < us[scope_idx(h.scope)].len()
        &&& us[scope_idx(h.scope)][h.idx as int].name == n
    }
}

/// Model of a `ShaderProgramBuilder`.
pub struct BuilderView {
    pub ubo_alignment: usize,
    pub push_constant_stride: usize,
    pub depth_test_enabled: bool,
    pub is_wireframe: bool,
    pub shader_path: Seq<char>,
    pub attributes: Seq<AttributeInfo>,
    pub use_set: Seq<bool>,
    pub sampler_counts: Seq<usize>,
    pub uniforms: Seq<Seq<UniformInfoView>>,
    pub lookups: Map<Seq<char>, UniformHandle>,
    pub scope_sizes: Seq<usize>,
    pub entry_counts: Seq<usize>,
    pub global_tex: Seq<ResourceHandle>,
}

/// The builder after one more uniform named `name` was added to `scope`: the
/// scope's set becomes used, the uniform takes `size` bytes right after the
/// scope's earlier ones (a sampler takes no bytes and sits at offset 0), and
/// the name now looks up the new uniform.
pub open spec fn builder_with_uniform(
    b: BuilderView,
    name: Seq<char>,
    scope: ShaderScope,
    size: usize,
    is_sampler: bool,
) -> BuilderView {
    let s = scope_idx(scope);
    let idx = b.uniforms[s].len() as usize;
    let offset: usize = if is_sampler { 0 } else { b.scope_sizes[s] };
    let bytes: usize = if is_sampler { 0 } else { size };
    BuilderView {
        use_set: b.use_set.update(s, true),
        uniforms: b.uniforms.update(
            s,
            b.uniforms[s].push(UniformInfoView { name, scope, idx, range: ValueRange { offset, range: bytes } }),
        ),
        lookups: b.lookups.insert(name, UniformHandle { scope, idx }),
        scope_sizes: b.scope_sizes.update(s, (b.scope_sizes[s] + bytes) as usize),
        ..b
    }
}

/// The builder after a sampler named `name` was added to `scope`: one sampler
/// more for the scope, and a uniform that takes no bytes.
pub open spec fn builder_with_sampler(b: BuilderView, name: Seq<char>, scope: ShaderScope) -> BuilderView {
    let s = scope_idx(scope);
    builder_with_uniform(
        BuilderView { sampler_counts: b.sampler_counts.update(s, (b.sampler_counts[s] + 1) as usize), ..b },
        name,
        scope,
        0,
        true,
    )
}

impl View for ShaderProgramBuilder {
    type V = BuilderView;

    closed spec fn view(&self) -> BuilderView {
        BuilderView {
            ubo_alignment: self.ubo_alignment,
            push_constant_stride: self.push_constant_stride,
            depth_test_enabled: self.depth_test_enabled,
            is_wireframe: self.is_wireframe,
            shader_path: self.shader_path@,
            attributes: self.attributes@,
            use_set: self.use_set@,
            sampler_counts: self.sampler_counts@,
            uniforms: uniforms_view(self.uniforms@),
            lookups: self.uniform_lookups.view(),
            scope_sizes: self.scope_sizes@,
            entry_counts: self.scope_entry_count@,
            global_tex: self.global_tex@,
        }
    }
}

impl ShaderProgramBuilder {
    pub const DESC_COUNT: usize = 2;

    pub const BINDING_IDX_UBO: u32 = 0;

    pub const BINDING_IDX_SAMPLER: u32 = 1;

    pub const MAX_GLOBAL_TEX_COUNT: usize = 16;

    pub const MAX_ATTRIBUTE_COUNT: usize = 32;

    pub closed spec fn wf(&self) -> bool {
        &&& self.use_set@.len() == 4
        &&& self.sampler_counts@.len() == 4
        &&& self.uniforms@.len() == 4
        &&& self.scope_sizes@.len() == 4
        &&& self.scope_entry_count@.len() == 4
        &&& self.uniform_lookups.wf()
        &&& self.attributes@.len() <= 32
        &&& forall|i: int| 0 <= i < self.attributes@.len() ==> (#[trigger] self.attributes@[i]).location == i
            && self.attributes@[i].binding == 0
        &&& forall|s: int| 0 <= s < 4 ==> scope_uniforms_wf(#[trigger] self@.uniforms[s], s, self.scope_sizes@[s])
        &&& lookups_wf(self@.lookups, self@.uniforms)
    }

    /// An empty builder for the shader at `shader_path`: the global scope holds
    /// one entry, the other scopes `max_material_count` entries each.
    pub fn new(shader_path: &str, limits: ShaderLimits) -> (r: ShaderProgramBuilder)
        ensures
            r.wf(),
            r@ == (BuilderView {
                ubo_alignment: limits.ubo_alignment,
                push_constant_stride: limits.push_constant_stride,
                depth_test_enabled: false,
                is_wireframe: false,
                shader_path: shader_path@,
                attributes: Seq::empty(),
                use_set: seq![false, false, false, false],
                sampler_counts: seq![0usize, 0, 0, 0],
                uniforms: seq![Seq::<UniformInfoView>::empty(), Seq::empty(), Seq::empty(), Seq::empty()],
                lookups: Map::empty(),
                scope_sizes: seq![0usize, 0, 0, 0],
                entry_counts: seq![1usize, limits.max_material_count, limits.max_material_count, limits.max_material_count],
                global_tex: Seq::empty(),
            }),
    {
        let mut uniforms: Vec<Vec<UniformInfo>> = Vec::new();
        uniforms.push(Vec::new());
        uniforms.push(Vec::new());
        uniforms.push(Vec::new());
        uniforms.push(Vec::new());
        let r = ShaderProgramBuilder {
            ubo_alignment: limits.ubo_alignment,
            push_constant_stride: limits.push_constant_stride,
            depth_test_enabled: false,
            is_wireframe: false,
            shader_path: shader_path.to_owned(),
            attributes: Vec::new(),
            use_set: vec![false, false, false, false],
            sampler_counts: vec![0, 0, 0, 0],
            uniforms,
            uniform_lookups: NameMap::new(),
            scope_sizes: vec![0, 0, 0, 0],
            scope_entry_count: vec![
                1,
                limits.max_material_count,
                limits.max_material_count,
                limits.max_material_count,
            ],
            global_tex: Vec::new(),
            push_constant_ranges: Vec::new(),
        };
        assert forall|i: int| 0 <= i < 4 implies r@.uniforms[i] =~= Seq::<UniformInfoView>::empty() by {
            assert(r@.uniforms[i] == r.uniforms@[i]@.map_values(|u: UniformInfo| u@));
        }
        assert(r@.uniforms =~= seq![Seq::<UniformInfoView>::empty(), Seq::empty(), Seq::empty(), Seq::empty()]);
        assert(r@.attributes =~= Seq::<AttributeInfo>::empty());
        assert(r@.global_tex =~= Seq::<ResourceHandle>::empty());
        r
    }

    pub fn with_depth_test(self) -> (r: ShaderProgramBuilder)
        requires
            self.wf(),
        ensures
            r.wf(),
            r@ == (BuilderView { depth_test_enabled: true, ..self@ }),
    {
        let mut b = self;
        b.depth_test_enabled = true;
        b
    }

    pub fn with_wireframe(self) -> (r: ShaderProgramBuilder)
        requires
            self.wf(),
        ensures
            r.wf(),
            r@ == (BuilderView { is_wireframe: true, ..self@ }),
    {
        let mut b = self;
        b.is_wireframe = true;
        b
    }

    /// Adds a vertex attribute at the next location (up to 32 attributes).
    pub fn with_attribute(self, format: NumberFormat) -> (r: ShaderProgramBuilder)
        requires
            self.wf(),
            self@.attributes.len() < 32,
        ensures
            r.wf(),
            r@ == (BuilderView {
                attributes: self@.attributes.push(
                    AttributeInfo { format, binding: 0, location: self@.attributes.len() as usize },
                ),
                ..self@
            }),
    {
        let mut b = self;
        let location = b.attributes.len();
        b.attributes.push(AttributeInfo { format, binding: 0, location });
        b
    }
    fn push_uniform(&mut self, name: &str, scope: ShaderScope, size: usize, is_sampler: bool) -> (r:
        HellResult<()>)
        requires
            old(self).wf(),
            is_sampler || old(self)@.scope_sizes[scope_idx(scope)] + size <= usize::MAX,
        ensures
            final(self).wf(),
            r is Ok,
            final(self)@ == builder_with_uniform(old(self)@, name@, scope, size, is_sampler),
    {
        let s = scope.index();
        let ghost old_self = *self;
        let ghost ob = self@;
        let ghost old_us = self@.uniforms[s as int];
        self.use_set.set(s, true);
        let mut uniforms = self.uniforms.remove(s);
        let idx = uniforms.len();
        assert(uniforms@.map_values(|u: UniformInfo| u@) == old_us);
        let mut offset = self.scope_sizes[s];
        let mut bytes = size;
        if is_sampler {
            offset = 0;
            bytes = 0;
        }
        let info = UniformInfo::new_uniform(name, scope, idx, MemRange::new(offset, bytes));
        let ghost iv = info@;
        self.scope_sizes.set(s, self.scope_sizes[s] + info.range.range);
        uniforms.push(info);
        let ghost new_us = uniforms@.map_values(|u: UniformInfo| u@);
        assert(new_us =~= old_us.push(iv));
        self.uniforms.insert(s, uniforms);
        let name_chars = str_chars(name);
        self.uniform_lookups.insert(name_chars.as_slice(), UniformHandle::new(scope, idx));
        let ghost target = builder_with_uniform(ob, name@, scope, size, is_sampler);
        assert(self@.uniforms =~= target.uniforms) by {
            assert forall|i: int| 0 <= i < 4 implies #[trigger] self@.uniforms[i] == target.uniforms[i] by {
                if i == s {
                    assert(self@.uniforms[i] == new_us);
                } else {
                    assert(self.uniforms@[i] == old_self.uniforms@[i]);
                }
            }
        }
        assert(self@.use_set =~= target.use_set);
        assert(self@.scope_sizes =~= target.scope_sizes);
        assert(self@ == target);
        proof {
            lemma_ranges_sum_push(old_us, iv, old_us.len() as int);
            assert forall|t: int| 0 <= t < 4 implies scope_uniforms_wf(#[trigger] self@.uniforms[t], t, self.scope_sizes@[t]) by {
                if t == s {
                    let us = self@.uniforms[t];
                    assert forall|k: int| 0 <= k < us.len() implies (#[trigger] us[k]).range.range == 0
                        || us[k].range.offset == ranges_sum(us, k) by {
                        if k < old_us.len() {
                            lemma_ranges_sum_push(old_us, iv, k);
                            assert(us[k] == old_us[k]);
                        }
                    }
                    assert(ranges_sum(us, us.len() as int) == ranges_sum(old_us, old_us.len() as int) + iv.range.range);
                }
            }
            assert forall|n: Seq<char>| #[trigger] self@.lookups.dom().contains(n) implies {
                let h = self@.lookups[n];
                &&& h.idx < self@.uniforms[scope_idx(h.scope)].len()
                &&& self@.uniforms[scope_idx(h.scope)][h.idx as int].name == n
            } by {
                if n != name@ {
                    let h = ob.lookups[n];
                    assert(ob.lookups.dom().contains(n));
                    if scope_idx(h.scope) == s {
                        assert(self@.uniforms[s as int][h.idx as int] == old_us[h.idx as int]);
                    }
                }
            }
        }
        Ok(())
    }

    /// Adds a uniform of `size_of::<T>()` bytes named `name` to `scope`.
    pub fn with_uniform<T>(self, name: &str, scope: ShaderScope) -> (r: ShaderProgramBuilder)
        requires
            self.wf(),
            self@.scope_sizes[scope_idx(scope)] + vstd::layout::size_of::<T>() <= usize::MAX,
        ensures
            r.wf(),
            r@ == builder_with_uniform(self@, name@, scope, vstd::layout::size_of::<T>() as usize, false),
    {
        let mut b = self;
        let size = core::mem::size_of::<T>();
        let _ = b.push_uniform(name, scope, size, false);
        b
    }

    pub fn with_global_uniform<T>(self, name: &str) -> (r: ShaderProgramBuilder)
        requires
            self.wf(),
            self@.scope_sizes[0] + vstd::layout::size_of::<T>() <= usize::MAX,
        ensures
            r.wf(),
            r@ == builder_with_uniform(self@, name@, ShaderScope::Global, vstd::layout::size_of::<T>() as usize, false),
    {
        self.with_uniform::<T>(name, ShaderScope::Global)
    }

    pub fn with_shared_uniform<T>(self, name: &str) -> (r: ShaderProgramBuilder)
        requires
            self.wf(),
            self@.scope_sizes[1] + vstd::layout::size_of::<T>() <= usize::MAX,
        ensures
            r.wf(),
            r@ == builder_with_uniform(self@, name@, ShaderScope::Shared, vstd::layout::size_of::<T>() as usize, false),
    {
        self.with_uniform::<T>(name, ShaderScope::Shared)
    }

    pub fn with_instance_uniform<T>(self, name: &str) -> (r: ShaderProgramBuilder)
        requires
            self.wf(),
            self@.scope_sizes[2] + vstd::layout::size_of::<T>() <= usize::MAX,
        ensures
            r.wf(),
            r@ == builder_with_uniform(self@, name@, ShaderScope::Instance, vstd::layout::size_of::<T>() as usize, false),
    {
        self.with_uniform::<T>(name, ShaderScope::Instance)
    }

    pub fn with_local_uniform<T>(self, name: &str) -> (r: ShaderProgramBuilder)
        requires
            self.wf(),
            self@.scope_sizes[3] + vstd::layout::size_of::<T>() <= usize::MAX,
        ensures
            r.wf(),
            r@ == builder_with_uniform(self@, name@, ShaderScope::Local, vstd::layout::size_of::<T>() as usize, false),
    {
        self.with_uniform::<T>(name, ShaderScope::Local)
    }

    /// Adds a sampler named `name` to `scope`; always succeeds.
    pub fn with_sampler(self, name: &str, scope: ShaderScope) -> (r: HellResult<ShaderProgramBuilder>)
        requires
            self.wf(),
            self@.sampler_counts[scope_idx(scope)] < usize::MAX,
        ensures
            r matches Ok(b) && b.wf() && b@ == builder_with_sampler(self@, name@, scope),
    {
        let mut b = self;
        let s = scope.index();
        let ghost ob = b@;
        b.sampler_counts.set(s, b.sampler_counts[s] + 1);
        assert(b@ == (BuilderView { sampler_counts: ob.sampler_counts.update(s as int, (ob.sampler_counts[s as int] + 1) as usize), ..ob }));
        let _ = b.push_uniform(name, scope, 0, true);
        Ok(b)
    }

    /// Adds a global sampler bound to `texture`.
    pub fn with_global_sampler(self, name: &str, texture: ResourceHandle) -> (r: HellResult<ShaderProgramBuilder>)
        requires
            self.wf(),
            self@.sampler_counts[0] < usize::MAX,
        ensures
            r matches Ok(b) && b.wf() && b@ == builder_with_sampler(
                BuilderView { global_tex: self@.global_tex.push(texture), ..self@ },
                name@,
                ShaderScope::Global,
            ),
    {
        let mut b = self;
        b.global_tex.push(texture);
        b.with_sampler(name, ShaderScope::Global)
    }

    pub fn with_pass_sampler(self, name: &str) -> (r: HellResult<ShaderProgramBuilder>)
        requires
            self.wf(),
            self@.sampler_counts[1] < usize::MAX,
        ensures
            r matches Ok(b) && b.wf() && b@ == builder_with_sampler(self@, name@, ShaderScope::Shared),
    {
        self.with_sampler(name, ShaderScope::Shared)
    }

    pub fn with_instance_sampler(self, name: &str) -> (r: HellResult<ShaderProgramBuilder>)
        requires
            self.wf(),
            self@.sampler_counts[2] < usize::MAX,
        ensures
            r matches Ok(b) && b.wf() && b@ == builder_with_sampler(self@, name@, ShaderScope::Instance),
    {
        self.with_sampler(name, ShaderScope::Instance)
    }

    pub fn with_local_sampler(self, name: &str) -> (r: HellResult<ShaderProgramBuilder>)
        requires
            self.wf(),
            self@.sampler_counts[3] < usize::MAX,
        ensures
            r matches Ok(b) && b.wf() && b@ == builder_with_sampler(self@, name@, ShaderScope::Local),
    {
        self.with_sampler(name, ShaderScope::Local)
    }
}

} // verus!

verus! {

// ----------------------------------------------------------------------------
// layout planning
// ----------------------------------------------------------------------------

/// Kind of one descriptor binding.
#[derive(Debug, Clone, Copy, PartialEq, Eq, Structural)]
pub enum DescriptorKind {
    UniformBuffer,
    CombinedImageSampler,
}

/// One binding of a descriptor-set layout: its index, kind, number of
/// descriptors and the shader stages that see it.
#[derive(Debug, Clone, Copy, PartialEq, Eq, Structural)]
pub struct LayoutBinding {
    pub binding: u32,
    pub kind: DescriptorKind,
    pub count: usize,
    pub vertex_stage: bool,
    pub fragment_stage: bool,
}

/// The descriptor-set layout of one used scope: one uniform buffer seen by
/// both stages, and, when the scope has samplers, an array of them seen by
/// the fragment stage.
#[derive(Debug, Clone, Copy, PartialEq, Eq, Structural)]
pub struct SetLayout {
    pub scope: ShaderScope,
    pub ubo: LayoutBinding,
    pub samplers: Option<LayoutBinding>,
}

/// One vertex attribute as the pipeline sees it.
#[derive(Debug, Clone, Copy, PartialEq, Eq, Structural)]
pub struct VertexAttribute {
    pub location: usize,
    pub binding: usize,
    pub format: NumberFormat,
    pub offset: usize,
}

/// Everything `build` derives from a builder before any device object exists.
#[derive(Debug)]
pub struct ProgramLayout {
    pub vertex_attributes: Vec<VertexAttribute>,
    pub vertex_stride: usize,
    /// Layouts of the used scopes, in scope order: the set index of each.
    pub set_layouts: Vec<SetLayout>,
    pub scope_set_mapping: Vec<Option<usize>>,
    pub scope_ranges: Vec<Option<MemRange>>,
    pub scope_strides: Vec<usize>,
    pub total_buffer_size: usize,
    pub depth_test_enabled: bool,
    pub is_wireframe: bool,
}

/// Bytes of the first `n` attributes.
pub open spec fn attr_offset(attrs: Seq<AttributeInfo>, n: int) -> nat
    decreases n,
{
    if n <= 0 {
        0
    } else {
        attr_offset(attrs, n - 1) + number_format_size(attrs[n - 1].format)
    }
}

pub proof fn lemma_attr_offset_bound(attrs: Seq<AttributeInfo>, n: int)
    requires
        0 <= n <= attrs.len(),
    ensures
        attr_offset(attrs, n) <= 16 * n,
    decreases n,
{
    if n > 0 {
        lemma_attr_offset_bound(attrs, n - 1);
    }
}

pub proof fn lemma_sets_before_mono(used: Seq<bool>, a: int, b: int)
    requires
        0 <= a <= b,
    ensures
        sets_before(used, a) + (if a < b && used[a] {
            1int
        } else {
            0int
        }) <= sets_before(used, b),
        sets_before(used, b) <= b,
    decreases b,
{
    if b > 0 {
        if a < b {
            lemma_sets_before_mono(used, a, b - 1);
        } else {
            lemma_sets_before_mono(used, a - 1, b - 1);
        }
    }
}

/// The uniform-buffer binding every set layout has.
pub open spec fn ubo_binding() -> LayoutBinding {
    LayoutBinding {
        binding: 0,
        kind: DescriptorKind::UniformBuffer,
        count: 1,
        vertex_stage: true,
        fragment_stage: true,
    }
}

/// The sampler binding of a scope with `count` samplers, if it has any.
pub open spec fn sampler_binding(count: usize) -> Option<LayoutBinding> {
    if count > 0 {
        Some(
            LayoutBinding {
                binding: 1,
                kind: DescriptorKind::CombinedImageSampler,
                count,
                vertex_stage: false,
                fragment_stage: true,
            },
        )
    } else {
        None
    }
}

pub open spec fn planned_set_layout(b: BuilderView, i: int) -> SetLayout {
    SetLayout { scope: scope_at(i), ubo: ubo_binding(), samplers: sampler_binding(b.sampler_counts[i]) }
}

pub open spec fn planned_mapping(b: BuilderView, i: int) -> Option<usize> {
    if b.use_set[i] {
        Some(sets_before(b.use_set, i) as usize)
    } else {
        None
    }
}

pub open spec fn planned_stride(b: BuilderView, i: int) -> usize {
    if b.use_set[i] {
        ubo_stride_spec(b.scope_sizes[i] as nat, b.ubo_alignment as nat) as usize
    } else {
        0
    }
}

pub open spec fn planned_range(b: BuilderView, i: int) -> Option<MemRange> {
    if b.use_set[i] {
        Some(
            ValueRange {
                offset: scope_offset(b.use_set, b.scope_sizes, b.entry_counts, b.ubo_alignment, i) as usize,
                range: scope_bytes(b.use_set, b.scope_sizes, b.entry_counts, b.ubo_alignment, i) as usize,
            },
        )
    } else {
        None
    }
}

pub open spec fn planned_total(b: BuilderView) -> nat {
    scope_offset(b.use_set, b.scope_sizes, b.entry_counts, b.ubo_alignment, 4)
}

/// The builder's scopes fit the machine: a used scope with uniforms has a
/// nonzero alignment, and the padded sizes and the whole buffer fit in `usize`.
pub open spec fn layout_fits(b: BuilderView) -> bool {
    &&& forall|i: int|
        0 <= i < 4 && #[trigger] b.use_set[i] ==> (b.scope_sizes[i] == 0 || b.ubo_alignment > 0)
            && ubo_stride_spec(b.scope_sizes[i] as nat, b.ubo_alignment as nat) <= usize::MAX
    &&& planned_total(b) <= usize::MAX
}

/// What `layout` computes from a builder.
pub open spec fn layout_matches(l: ProgramLayout, b: BuilderView) -> bool {
    &&& l.vertex_attributes@.len() == b.attributes.len()
    &&& forall|k: int|
        0 <= k < b.attributes.len() ==> #[trigger] l.vertex_attributes@[k] == (VertexAttribute {
            location: k as usize,
            binding: 0,
            format: b.attributes[k].format,
            offset: attr_offset(b.attributes, k) as usize,
        })
    &&& l.vertex_stride == attr_offset(b.attributes, b.attributes.len() as int)
    &&& l.set_layouts@.len() == sets_before(b.use_set, 4)
    &&& forall|i: int|
        0 <= i < 4 && #[trigger] b.use_set[i] ==> l.set_layouts@[sets_before(b.use_set, i) as int]
            == planned_set_layout(b, i)
    &&& l.scope_set_mapping@.len() == 4
    &&& l.scope_ranges@.len() == 4
    &&& l.scope_strides@.len() == 4
    &&& forall|i: int| 0 <= i < 4 ==> #[trigger] l.scope_set_mapping@[i] == planned_mapping(b, i)
    &&& forall|i: int| 0 <= i < 4 ==> #[trigger] l.scope_ranges@[i] == planned_range(b, i)
    &&& forall|i: int| 0 <= i < 4 ==> #[trigger] l.scope_strides@[i] == planned_stride(b, i)
    &&& l.total_buffer_size == planned_total(b)
    &&& l.depth_test_enabled == b.depth_test_enabled
    &&& l.is_wireframe == b.is_wireframe
}

impl ShaderProgramBuilder {
    /// Padded entry size of `scope`: the smallest multiple of the alignment
    /// that holds the scope's uniforms.
    pub fn calculate_ubo_stride(&self, scope: ShaderScope) -> (stride: usize)
        requires
            self.wf(),
            self@.scope_sizes[scope_idx(scope)] == 0 || self@.ubo_alignment > 0,
            ubo_stride_spec(self@.scope_sizes[scope_idx(scope)] as nat, self@.ubo_alignment as nat) <= usize::MAX,
        ensures
            stride == ubo_stride_spec(self@.scope_sizes[scope_idx(scope)] as nat, self@.ubo_alignment as nat),
    {
        calculate_ubo_stride(self.scope_sizes[scope.index()], self.ubo_alignment)
    }

    /// The vertex input, descriptor-set layouts and buffer ranges of the
    /// program this builder describes.
    #[verifier::rlimit(60)]
    pub fn layout(&self) -> (l: ProgramLayout)
        requires
            self.wf(),
            layout_fits(self@),
        ensures
            layout_matches(l, self@),
    {
        let ghost b = self@;
        // vertex input
        let mut vertex_attributes: Vec<VertexAttribute> = Vec::new();
        let mut vert_stride: usize = 0;
        let mut a: usize = 0;
        while a < self.attributes.len()
            invariant
                self.wf(),
                b == self@,
                a <= self.attributes@.len(),
                vert_stride == attr_offset(b.attributes, a as int),
                vertex_attributes@.len() == a,
                forall|k: int|
                    0 <= k < a ==> #[trigger] vertex_attributes@[k] == (VertexAttribute {
                        location: k as usize,
                        binding: 0,
                        format: b.attributes[k].format,
                        offset: attr_offset(b.attributes, k) as usize,
                    }),
            decreases self.attributes@.len() - a,
        {
            proof {
                lemma_attr_offset_bound(b.attributes, a + 1);
            }
            let format = self.attributes[a].format;
            vertex_attributes.push(VertexAttribute { location: a, binding: 0, format, offset: vert_stride });
            vert_stride = vert_stride + format.size();
            a = a + 1;
        }
        // descriptor sets and buffer ranges
        let mut set_layouts: Vec<SetLayout> = Vec::new();
        let mut mapping: Vec<Option<usize>> = Vec::new();
        let mut ranges: Vec<Option<MemRange>> = Vec::new();
        let mut strides: Vec<usize> = Vec::new();
        let mut total: usize = 0;
        let mut set_idx: usize = 0;
        let mut idx: usize = 0;
        while idx < 4
            invariant
                self.wf(),
                b == self@,
                layout_fits(b),
                idx <= 4,
                set_idx == sets_before(b.use_set, idx as int),
                total == scope_offset(b.use_set, b.scope_sizes, b.entry_counts, b.ubo_alignment, idx as int),
                mapping@.len() == idx,
                ranges@.len() == idx,
                strides@.len() == idx,
                set_layouts@.len() == set_idx,
                forall|i: int| 0 <= i < idx ==> #[trigger] mapping@[i] == planned_mapping(b, i),
                forall|i: int| 0 <= i < idx ==> #[trigger] ranges@[i] == planned_range(b, i),
                forall|i: int| 0 <= i < idx ==> #[trigger] strides@[i] == planned_stride(b, i),
                forall|i: int|
                    0 <= i < idx && #[trigger] b.use_set[i] ==> set_layouts@[sets_before(b.use_set, i) as int]
                        == planned_set_layout(b, i),
            decreases 4 - idx,
        {
            proof {
                lemma_scope_offset_mono(b.use_set, b.scope_sizes, b.entry_counts, b.ubo_alignment, idx as int, 4);
                lemma_sets_before_mono(b.use_set, idx as int, 4);
            }
            if !self.use_set[idx] {
                mapping.push(None);
                ranges.push(None);
                strides.push(0);
            } else {
                mapping.push(Some(set_idx));
                set_idx = set_idx + 1;
                let entry_count = self.scope_entry_count[idx];
                let ubo_stride = self.calculate_ubo_stride(ShaderScope::from_index(idx));
                let scope_size = ubo_stride * entry_count;
                strides.push(ubo_stride);
                ranges.push(Some(MemRange::new(total, scope_size)));
                total = total + scope_size;
                let sampler_count = self.sampler_counts[idx];
                let ubo = LayoutBinding {
                    binding: 0,
                    kind: DescriptorKind::UniformBuffer,
                    count: 1,
                    vertex_stage: true,
                    fragment_stage: true,
                };
                let samplers = if sampler_count > 0 {
                    Some(
                        LayoutBinding {
                            binding: 1,
                            kind: DescriptorKind::CombinedImageSampler,
                            count: sampler_count,
                            vertex_stage: false,
                            fragment_stage: true,
                        },
                    )
                } else {
                    None
                };
                set_layouts.push(SetLayout { scope: ShaderScope::from_index(idx), ubo, samplers });
                proof {
                    assert forall|i: int| 0 <= i < idx && #[trigger] b.use_set[i] implies set_layouts@[sets_before(
                        b.use_set,
                        i,
                    ) as int] == planned_set_layout(b, i) by {
                        lemma_sets_before_mono(b.use_set, i, idx as int);
                    }
                }
            }
            idx = idx + 1;
        }
        ProgramLayout {
            vertex_attributes,
            vertex_stride: vert_stride,
            set_layouts,
            scope_set_mapping: mapping,
            scope_ranges: ranges,
            scope_strides: strides,
            total_buffer_size: total,
            depth_test_enabled: self.depth_test_enabled,
            is_wireframe: self.is_wireframe,
        }
    }
}

} // verus!

verus! {

// ----------------------------------------------------------------------------
// program
// ----------------------------------------------------------------------------

/// Model of a `ShaderProgram`.
pub struct ProgramView {
    pub uniforms: Seq<Seq<UniformInfoView>>,
    pub lookups: Map<Seq<char>, UniformHandle>,
    /// The bytes of the program's uniform buffer.
    pub buffer: Seq<u8>,
    pub scope_ranges: Seq<Option<MemRange>>,
    pub has_layout: Seq<bool>,
    pub sampler_counts: Seq<usize>,
    pub scope_sizes: Seq<usize>,
    pub scope_strides: Seq<usize>,
    /// How many entries each scope's range was sized for.
    pub entry_counts: Seq<usize>,
    pub set_mapping: Seq<Option<usize>>,
    pub bound_scope: ShaderScope,
    pub bound_entry: usize,
    pub bound_offset: usize,
    pub entry_states: Seq<Seq<ScopeStateView>>,
    pub global_entry: ResourceHandle,
}

pub open spec fn states_view(v: Seq<Vec<ScopeState>>) -> Seq<Seq<ScopeStateView>> {
    v.map_values(|st: Vec<ScopeState>| st@.map_values(|x: ScopeState| x@))
}

/// `buf` with `bytes` written from `offset` on.
pub open spec fn write_bytes(buf: Seq<u8>, offset: int, bytes: Seq<u8>) -> Seq<u8> {
    buf.subrange(0, offset) + bytes + buf.subrange(offset + bytes.len(), buf.len() as int)
}

/// Where entry `k` of scope `s` starts in the buffer: `k` padded entries
/// after the start of the scope's range.
pub open spec fn entry_offset(p: ProgramView, s: int, k: int) -> int {
    p.scope_ranges[s].unwrap().offset + p.scope_strides[s] * k
}

/// Entry `k` of scope `s` ends inside the scope's range.
pub open spec fn entry_fits(p: ProgramView, s: int, k: int) -> bool {
    entry_offset(p, s, k) + p.scope_strides[s] <= p.scope_ranges[s].unwrap().offset + p.scope_ranges[s].unwrap().range
}

/// An entry below the count a scope's range was sized for lies inside it.
proof fn lemma_entry_fits(p: ProgramView, s: int, k: int)
    requires
        p.scope_ranges[s].unwrap().range == p.scope_strides[s] * p.entry_counts[s],
        0 <= k < p.entry_counts[s],
    ensures
        entry_fits(p, s, k),
{
    let (stride, count) = (p.scope_strides[s] as int, p.entry_counts[s] as int);
    assert(stride * k + stride <= stride * count) by (nonlinear_arith)
        requires
            0 <= k < count,
            stride >= 0,
    ;
}

/// Byte offset a write to `h` lands at while the bound entry is in force.
pub open spec fn uniform_offset(p: ProgramView, h: UniformHandle) -> int {
    p.bound_offset + p.uniforms[scope_idx(h.scope)][h.idx as int].range.offset
}

/// A compiled shader program's layout state: its uniforms, the bytes of its
/// uniform buffer, the entries acquired per scope and the bound entry.
#[derive(Debug)]
pub struct ShaderProgram {
    uniform_lookups: NameMap<UniformHandle>,
    uniforms: Vec<Vec<UniformInfo>>,
    buffer: Vec<u8>,
    scope_ranges: Vec<Option<MemRange>>,
    has_layout: Vec<bool>,
    sampler_counts: Vec<usize>,
    scope_sizes: Vec<usize>,
    scope_strides: Vec<usize>,
    scope_entry_counts: Vec<usize>,
    scope_set_mapping: Vec<Option<usize>>,
    bound_scope: ShaderScope,
    bound_entry: usize,
    bound_offset: usize,
    scope_entry_states: Vec<Vec<ScopeState>>,
    global_entry: ResourceHandle,
}

impl View for ShaderProgram {
    type V = ProgramView;

    closed spec fn view(&self) -> ProgramView {
        ProgramView {
            uniforms: uniforms_view(self.uniforms@),
            lookups: self.uniform_lookups.view(),
            buffer: self.buffer@,
            scope_ranges: self.scope_ranges@,
            has_layout: self.has_layout@,
            sampler_counts: self.sampler_counts@,
            scope_sizes: self.scope_sizes@,
            scope_strides: self.scope_strides@,
            entry_counts: self.scope_entry_counts@,
            set_mapping: self.scope_set_mapping@,
            bound_scope: self.bound_scope,
            bound_entry: self.bound_entry,
            bound_offset: self.bound_offset,
            entry_states: states_view(self.scope_entry_states@),
            global_entry: self.global_entry,
        }
    }
}

/// The program `build` makes of a builder, with the global entry's
/// descriptor sets.
pub open spec fn built_program(b: BuilderView, global_desc_sets: Seq<u64>) -> ProgramView {
    ProgramView {
        uniforms: b.uniforms,
        lookups: b.lookups,
        buffer: Seq::new(planned_total(b), |i: int| 0u8),
        scope_ranges: Seq::new(4, |i: int| planned_range(b, i)),
        has_layout: b.use_set,
        sampler_counts: b.sampler_counts,
        scope_sizes: b.scope_sizes,
        scope_strides: Seq::new(4, |i: int| planned_stride(b, i)),
        entry_counts: b.entry_counts,
        set_mapping: Seq::new(4, |i: int| planned_mapping(b, i)),
        bound_scope: ShaderScope::Global,
        bound_entry: 0,
        bound_offset: 0,
        entry_states: seq![
            seq![
                ScopeStateView {
                    idx: 0,
                    buffer_offset: 0,
                    buffer_stride: planned_stride(b, 0),
                    desc_sets: global_desc_sets,
                    textures: b.global_tex,
                },
            ],
            Seq::empty(),
            Seq::empty(),
            Seq::empty(),
        ],
        global_entry: ResourceHandle { id: 0 },
    }
}

/// What a well-formed program's entries look like: the global scope has its
/// one entry at the start of the buffer, and entry `k` of any other scope was
/// acquired `k`-th, sits `k` strides into the scope's range and has one
/// texture per sampler of the scope.
pub open spec fn program_entries_wf(p: ProgramView) -> bool {
    &&& p.entry_states[0].len() == 1
    &&& p.entry_states[0][0].idx == 0
    &&& p.entry_states[0][0].buffer_offset == 0
    &&& p.entry_states[0][0].buffer_stride == p.scope_strides[0]
    &&& forall|s: int, k: int|
        #![trigger p.entry_states[s][k]]
        1 <= s < 4 && 0 <= k < p.entry_states[s].len() ==> entry_wf(p, s, k)
}

/// Entry `k` of the non-global scope `s` is where `acquire_scope_resource`
/// put it.
pub open spec fn entry_wf(p: ProgramView, s: int, k: int) -> bool {
    let st = p.entry_states[s][k];
    &&& p.has_layout[s]
    &&& st.idx == k
    &&& st.buffer_offset == entry_offset(p, s, k)
    &&& st.buffer_stride == p.scope_strides[s]
    &&& st.textures.len() == p.sampler_counts[s]
}

/// The entries stay well formed when only the buffer or the binding changes.
proof fn lemma_entries_wf_same(p: ProgramView, q: ProgramView)
    requires
        program_entries_wf(p),
        q.entry_states == p.entry_states,
        q.has_layout == p.has_layout,
        q.scope_ranges == p.scope_ranges,
        q.scope_strides == p.scope_strides,
        q.sampler_counts == p.sampler_counts,
    ensures
        program_entries_wf(q),
{
    assert forall|s: int, k: int| 1 <= s < 4 && 0 <= k < q.entry_states[s].len() implies #[trigger] entry_wf(q, s, k) by {
        assert(0 <= k < p.entry_states[s].len());
        let _st = p.entry_states[s][k];
        assert(entry_wf(p, s, k));
    }
}

impl ShaderProgram {
    pub closed spec fn wf(&self) -> bool {
        let p = self@;
        &&& self.uniforms@.len() == 4
        &&& self.scope_ranges@.len() == 4
        &&& self.has_layout@.len() == 4
        &&& self.sampler_counts@.len() == 4
        &&& self.scope_sizes@.len() == 4
        &&& self.scope_strides@.len() == 4
        &&& self.scope_set_mapping@.len() == 4
        &&& self.scope_entry_counts@.len() == 4
        &&& self.scope_entry_states@.len() == 4
        &&& self.uniform_lookups.wf()
        &&& forall|s: int| 0 <= s < 4 ==> scope_uniforms_wf(#[trigger] p.uniforms[s], s, p.scope_sizes[s])
        &&& lookups_wf(p.lookups, p.uniforms)
        &&& forall|s: int|
            0 <= s < 4 ==> (#[trigger] p.has_layout[s] == p.scope_ranges[s] is Some) && (p.has_layout[s]
                == p.set_mapping[s] is Some)
        &&& forall|s: int|
            0 <= s < 4 && #[trigger] p.has_layout[s] ==> p.scope_ranges[s].unwrap().range == p.scope_strides[s]
                * p.entry_counts[s]
        &&& program_entries_wf(p)
        &&& p.global_entry.id == 0
        &&& p.bound_entry < p.entry_states[scope_idx(p.bound_scope)].len()
        &&& p.bound_offset == p.entry_states[scope_idx(p.bound_scope)][p.bound_entry as int].buffer_offset
    }
}

impl ShaderProgramBuilder {
    /// Turns the builder into a program whose buffer is zeroed and whose
    /// global scope has one entry, bound, using `global_desc_sets`.
    pub fn build(self, global_desc_sets: [u64; FRAMES_IN_FLIGHT]) -> (r: ShaderProgram)
        requires
            self.wf(),
            layout_fits(self@),
        ensures
            r.wf(),
            r@ == built_program(self@, global_desc_sets@),
    {
        let ghost b = self@;
        let layout = self.layout();
        let total = layout.total_buffer_size;
        let mut buffer: Vec<u8> = Vec::new();
        let mut i: usize = 0;
        while i < total
            invariant
                i <= total,
                buffer@ == Seq::new(i as nat, |j: int| 0u8),
            decreases total - i,
        {
            buffer.push(0);
            i = i + 1;
            assert(buffer@ =~= Seq::new(i as nat, |j: int| 0u8));
        }
        let ShaderProgramBuilder {
            use_set,
            sampler_counts,
            uniforms,
            uniform_lookups,
            scope_sizes,
            scope_entry_count,
            global_tex,
            ..
        } = self;
        let global_state = ScopeState {
            idx: 0,
            buffer_offset: 0,
            buffer_stride: layout.scope_strides[0],
            buffer_desc_sets: global_desc_sets,
            textures: global_tex,
        };
        let mut global_states: Vec<ScopeState> = Vec::new();
        global_states.push(global_state);
        let mut states: Vec<Vec<ScopeState>> = Vec::new();
        states.push(global_states);
        states.push(Vec::new());
        states.push(Vec::new());
        states.push(Vec::new());
        let r = ShaderProgram {
            uniform_lookups,
            uniforms,
            buffer,
            scope_ranges: layout.scope_ranges,
            has_layout: use_set,
            sampler_counts,
            scope_sizes,
            scope_strides: layout.scope_strides,
            scope_entry_counts: scope_entry_count,
            scope_set_mapping: layout.scope_set_mapping,
            bound_scope: ShaderScope::Global,
            bound_entry: 0,
            bound_offset: 0,
            scope_entry_states: states,
            global_entry: ResourceHandle::new(0),
        };
        let ghost t = built_program(b, global_desc_sets@);
        assert(r@.scope_ranges =~= t.scope_ranges);
        assert(r@.scope_strides =~= t.scope_strides);
        assert(r@.set_mapping =~= t.set_mapping);
        assert(r@.entry_states[0] =~= t.entry_states[0]);
        assert(r@.entry_states[1] =~= t.entry_states[1]);
        assert(r@.entry_states[2] =~= t.entry_states[2]);
        assert(r@.entry_states[3] =~= t.entry_states[3]);
        assert(r@.entry_states =~= t.entry_states);
        assert(r@ == t);
        proof {
            assert forall|s: int| 0 <= s < 4 && #[trigger] r@.has_layout[s] implies r@.scope_ranges[s].unwrap().range
                == r@.scope_strides[s] * r@.entry_counts[s] by {
                lemma_scope_offset_mono(b.use_set, b.scope_sizes, b.entry_counts, b.ubo_alignment, s + 1, 4);
                assert(r@.scope_ranges[s] == planned_range(b, s));
                assert(r@.scope_strides[s] == planned_stride(b, s));
            }
        }
        r
    }
}

} // verus!

verus! {

/// Writes `value` into `buf` from `offset` on.
pub(crate) fn write_bytes_at(buf: &mut Vec<u8>, offset: usize, value: &[u8])
    requires
        offset + value@.len() <= old(buf)@.len(),
    ensures
        final(buf)@ == write_bytes(old(buf)@, offset as int, value@),
{
    let ghost old_buf = buf@;
    let mut i: usize = 0;
    while i < value.len()
        invariant
            i <= value@.len(),
            offset + value@.len() <= buf.len(),
            buf@.len() == old_buf.len(),
            forall|j: int| 0 <= j < offset ==> #[trigger] buf@[j] == old_buf[j],
            forall|j: int| offset + i <= j < old_buf.len() ==> #[trigger] buf@[j] == old_buf[j],
            forall|j: int| 0 <= j < i ==> #[trigger] buf@[offset + j] == value@[j],
        decreases value@.len() - i,
    {
        buf.set(offset + i, value[i]);
        i = i + 1;
    }
    assert(buf@ =~= write_bytes(old_buf, offset as int, value@)) by {
        let w = write_bytes(old_buf, offset as int, value@);
        assert forall|j: int| 0 <= j < w.len() implies #[trigger] buf@[j] == w[j] by {
            if offset <= j < offset + value@.len() {
                assert(buf@[offset + (j - offset)] == value@[j - offset]);
            }
        }
    }
}

/// What applying one entry of a scope needs: the descriptor set of the frame,
/// the entry's buffer range, the textures to write (none for a scope without
/// samplers) and the set index to bind at.
#[derive(Debug)]
pub struct ScopeBinding {
    pub desc_set: u64,
    pub buffer_offset: usize,
    pub buffer_stride: usize,
    pub textures: Vec<ResourceHandle>,
    pub first_set: usize,
}

impl ShaderProgram {
    /// The handle of the uniform named `name`.
    pub fn uniform_handle(&self, name: &str) -> (r: Option<UniformHandle>)
        requires
            self.wf(),
        ensures
            r == (if self@.lookups.dom().contains(name@) {
                Some(self@.lookups[name@])
            } else {
                None
            }),
    {
        let chars = str_chars(name);
        match self.uniform_lookups.get(chars.as_slice()) {
            Some(h) => Some(*h),
            None => None,
        }
    }

    /// The handle of the uniform named `name`, or a render error.
    pub fn uniform_handle_res(&self, name: &str) -> (r: HellResult<UniformHandle>)
        requires
            self.wf(),
        ensures
            match r {
                Ok(h) => self@.lookups.dom().contains(name@) && h == self@.lookups[name@],
                Err(e) => !self@.lookups.dom().contains(name@) && e.kind == HellErrorKind::RenderError
                    && e.msg@ == "failed to get uniform"@,
            },
    {
        match self.uniform_handle(name) {
            Some(h) => Ok(h),
            None => Err(HellError::render_msg_err("failed to get uniform")),
        }
    }

    /// Whether `scope` has a descriptor-set layout (it has uniforms or samplers).
    pub fn has_scope_layout(&self, scope: ShaderScope) -> (r: bool)
        requires
            self.wf(),
        ensures
            r == self@.has_layout[scope_idx(scope)],
    {
        self.has_layout[scope.index()]
    }

    /// The bytes of the uniform buffer.
    pub fn buffer(&self) -> (r: &[u8])
        ensures
            r@ == self@.buffer,
    {
        self.buffer.as_slice()
    }

    /// Number of entries acquired for `scope` (one for the global scope).
    pub fn entry_count(&self, scope: ShaderScope) -> (r: usize)
        requires
            self.wf(),
        ensures
            r == self@.entry_states[scope_idx(scope)].len(),
    {
        let s = scope.index();
        proof {
            assert(self@.entry_states[s as int] == self.scope_entry_states@[s as int]@.map_values(
                |x: ScopeState| x@,
            ));
        }
        self.scope_entry_states[s].len()
    }

    /// Binds entry `entry_idx` of `scope`: uniform writes go to its range.
    pub fn bind_scope(&mut self, scope: ShaderScope, entry_idx: usize)
        requires
            old(self).wf(),
            entry_idx < old(self)@.entry_states[scope_idx(scope)].len(),
        ensures
            final(self).wf(),
            final(self)@ == (ProgramView {
                bound_scope: scope,
                bound_entry: entry_idx,
                bound_offset: old(self)@.entry_states[scope_idx(scope)][entry_idx as int].buffer_offset,
                ..old(self)@
            }),
    {
        let s = scope.index();
        proof {
            assert(self@.entry_states[s as int] == self.scope_entry_states@[s as int]@.map_values(
                |x: ScopeState| x@,
            ));
        }
        let offset = self.scope_entry_states[s][entry_idx].buffer_offset;
        proof {
            assert(self@.entry_states[s as int][entry_idx as int] == self.scope_entry_states@[s as int]@[entry_idx as int]@);
        }
        self.bound_scope = scope;
        self.bound_entry = entry_idx;
        self.bound_offset = offset;
        proof {
            lemma_entries_wf_same(old(self)@, self@);
        }
    }

    pub fn bind_global(&mut self)
        requires
            old(self).wf(),
        ensures
            final(self).wf(),
            final(self)@ == (ProgramView {
                bound_scope: ShaderScope::Global,
                bound_entry: 0,
                bound_offset: old(self)@.entry_states[0][0].buffer_offset,
                ..old(self)@
            }),
    {
        self.bind_scope(ShaderScope::Global, 0)
    }

    pub fn bind_shared(&mut self, entry_idx: usize)
        requires
            old(self).wf(),
            entry_idx < old(self)@.entry_states[1].len(),
        ensures
            final(self).wf(),
            final(self)@ == (ProgramView {
                bound_scope: ShaderScope::Shared,
                bound_entry: entry_idx,
                bound_offset: old(self)@.entry_states[1][entry_idx as int].buffer_offset,
                ..old(self)@
            }),
    {
        self.bind_scope(ShaderScope::Shared, entry_idx)
    }

    pub fn bind_instance(&mut self, entry_idx: usize)
        requires
            old(self).wf(),
            entry_idx < old(self)@.entry_states[2].len(),
        ensures
            final(self).wf(),
            final(self)@ == (ProgramView {
                bound_scope: ShaderScope::Instance,
                bound_entry: entry_idx,
                bound_offset: old(self)@.entry_states[2][entry_idx as int].buffer_offset,
                ..old(self)@
            }),
    {
        self.bind_scope(ShaderScope::Instance, entry_idx)
    }

    pub fn bind_local(&mut self, entry_idx: usize)
        requires
            old(self).wf(),
            entry_idx < old(self)@.entry_states[3].len(),
        ensures
            final(self).wf(),
            final(self)@ == (ProgramView {
                bound_scope: ShaderScope::Local,
                bound_entry: entry_idx,
                bound_offset: old(self)@.entry_states[3][entry_idx as int].buffer_offset,
                ..old(self)@
            }),
    {
        self.bind_scope(ShaderScope::Local, entry_idx)
    }

    /// Writes `value` into the buffer at the uniform's offset inside the bound
    /// entry.
    pub fn set_uniform(&mut self, handle: UniformHandle, value: &[u8]) -> (r: HellResult<()>)
        requires
            old(self).wf(),
            handle.idx < old(self)@.uniforms[scope_idx(handle.scope)].len(),
            uniform_offset(old(self)@, handle) + value@.len() <= old(self)@.buffer.len(),
        ensures
            final(self).wf(),
            r is Ok,
            final(self)@ == (ProgramView {
                buffer: write_bytes(old(self)@.buffer, uniform_offset(old(self)@, handle), value@),
                ..old(self)@
            }),
    {
        let s = handle.scope.index();
        proof {
            assert(self@.uniforms[s as int] == self.uniforms@[s as int]@.map_values(|u: UniformInfo| u@));
        }
        proof {
            assert(self.uniforms@[s as int]@[handle.idx as int]@ == self@.uniforms[s as int][handle.idx as int]);
        }
        let _len = self.buffer.len();
        let offset = self.bound_offset + self.uniforms[s][handle.idx].range.offset;
        write_bytes_at(&mut self.buffer, offset, value);
        proof {
            lemma_entries_wf_same(old(self)@, self@);
        }
        Ok(())
    }

    /// Offset and stride of entry `instance_idx` of `scope`.
    pub fn calc_buffer_offset_and_size(&self, scope: ShaderScope, instance_idx: usize) -> (r: HellResult<
        (usize, usize),
    >)
        requires
            self.wf(),
            self@.scope_ranges[scope_idx(scope)] is Some ==> entry_offset(self@, scope_idx(scope), instance_idx as int)
                <= usize::MAX,
        ensures
            match r {
                Ok((offset, stride)) => self@.scope_ranges[scope_idx(scope)] is Some && offset == entry_offset(
                    self@,
                    scope_idx(scope),
                    instance_idx as int,
                ) && stride == self@.scope_strides[scope_idx(scope)],
                Err(e) => self@.scope_ranges[scope_idx(scope)] is None && e.kind == HellErrorKind::RenderError
                    && e.msg@ == "failed to get scope range"@,
            },
    {
        let s = scope.index();
        match self.scope_ranges[s] {
            None => Err(HellError::render_msg_err("failed to get scope range")),
            Some(set_range) => {
                let stride = self.scope_strides[s];
                proof {
                    assert(stride * instance_idx >= 0) by (nonlinear_arith)
                        requires
                            stride >= 0,
                            instance_idx >= 0,
                    ;
                }
                let offset = set_range.offset + (stride * instance_idx);
                Ok((offset, stride))
            },
        }
    }

    /// Acquires the next entry of `scope` with descriptor sets `desc_sets` and
    /// one texture per sampler of the scope; its handle is its index.
    pub fn acquire_scope_resource(
        &mut self,
        scope: ShaderScope,
        tex: &[ResourceHandle],
        desc_sets: [u64; FRAMES_IN_FLIGHT],
    ) -> (r: HellResult<ResourceHandle>)
        requires
            old(self).wf(),
            scope != ShaderScope::Global,
            tex@.len() == old(self)@.sampler_counts[scope_idx(scope)],
            old(self)@.has_layout[scope_idx(scope)] ==> entry_offset(
                old(self)@,
                scope_idx(scope),
                old(self)@.entry_states[scope_idx(scope)].len() as int,
            ) <= usize::MAX,
        ensures
            final(self).wf(),
            match r {
                Ok(h) => {
                    let s = scope_idx(scope);
                    &&& old(self)@.has_layout[s]
                    &&& h.id == old(self)@.entry_states[s].len()
                    &&& h.id < old(self)@.entry_counts[s] ==> entry_fits(old(self)@, s, h.id as int)
                    &&& final(self)@ == (ProgramView {
                        entry_states: old(self)@.entry_states.update(
                            s,
                            old(self)@.entry_states[s].push(
                                ScopeStateView {
                                    idx: h.id,
                                    buffer_offset: entry_offset(old(self)@, s, h.id as int) as usize,
                                    buffer_stride: old(self)@.scope_strides[s],
                                    desc_sets: desc_sets@,
                                    textures: tex@,
                                },
                            ),
                        ),
                        ..old(self)@
                    })
                },
                Err(e) => !old(self)@.has_layout[scope_idx(scope)] && e.kind == HellErrorKind::RenderError
                    && e.msg@ == "failed to get scope desc-layout"@ && final(self)@ == old(self)@,
            },
    {
        let s = scope.index();
        if !self.has_layout[s] {
            return Err(HellError::render_msg_err("failed to get scope desc-layout"));
        }
        proof {
            let n = self@.entry_states[s as int].len() as int;
            if n < self@.entry_counts[s as int] {
                lemma_entry_fits(self@, s as int, n);
            }
        }
        let ghost old_self = *self;
        let ghost op = self@;
        proof {
            assert(self@.entry_states[s as int] == self.scope_entry_states@[s as int]@.map_values(
                |x: ScopeState| x@,
            ));
        }
        let idx = self.scope_entry_states[s].len();
        let (offset, stride) = match self.calc_buffer_offset_and_size(scope, idx) {
            Ok(v) => v,
            Err(e) => {
                return Err(e);
            },
        };
        let mut textures: Vec<ResourceHandle> = Vec::new();
        let mut t: usize = 0;
        while t < tex.len()
            invariant
                t <= tex@.len(),
                textures@ == tex@.subrange(0, t as int),
            decreases tex@.len() - t,
        {
            textures.push(tex[t]);
            t = t + 1;
            assert(textures@ =~= tex@.subrange(0, t as int));
        }
        assert(textures@ =~= tex@);
        let state = ScopeState { idx, buffer_offset: offset, buffer_stride: stride, buffer_desc_sets: desc_sets, textures };
        let ghost sv = state@;
        let mut entries = self.scope_entry_states.remove(s);
        entries.push(state);
        let ghost new_entries = entries@.map_values(|x: ScopeState| x@);
        assert(new_entries =~= op.entry_states[s as int].push(sv));
        self.scope_entry_states.insert(s, entries);
        let ghost target = ProgramView { entry_states: op.entry_states.update(s as int, op.entry_states[s as int].push(sv)), ..op };
        assert(self@.entry_states =~= target.entry_states) by {
            assert forall|i: int| 0 <= i < 4 implies #[trigger] self@.entry_states[i] == target.entry_states[i] by {
                if i != s {
                    assert(self.scope_entry_states@[i] == old_self.scope_entry_states@[i]);
                }
            }
        }
        assert(self@ == target);
        proof {
            let p = self@;
            assert forall|q: int, k: int| 1 <= q < 4 && 0 <= k < p.entry_states[q].len() implies #[trigger] entry_wf(p, q, k) by {
                if q != s || k < idx {
                    assert(p.entry_states[q][k] == op.entry_states[q][k]);
                    assert(entry_wf(op, q, k));
                }
            }
            assert(p.entry_states[0] == op.entry_states[0]);
            let bs = scope_idx(p.bound_scope);
            assert(p.entry_states[bs][p.bound_entry as int] == op.entry_states[bs][p.bound_entry as int]);
        }
        Ok(ResourceHandle::new(idx))
    }

    pub fn acquire_shared_resource(&mut self, tex: &[ResourceHandle], desc_sets: [u64; FRAMES_IN_FLIGHT]) -> (r:
        HellResult<ResourceHandle>)
        requires
            old(self).wf(),
            tex@.len() == old(self)@.sampler_counts[1],
            old(self)@.has_layout[1] ==> entry_offset(old(self)@, 1, old(self)@.entry_states[1].len() as int)
                <= usize::MAX,
        ensures
            final(self).wf(),
            match r {
                Ok(h) => old(self)@.has_layout[1] && h.id == old(self)@.entry_states[1].len() && (h.id
                    < old(self)@.entry_counts[1] ==> entry_fits(old(self)@, 1, h.id as int)) && final(self)@ == (
                ProgramView {
                    entry_states: old(self)@.entry_states.update(
                        1,
                        old(self)@.entry_states[1].push(
                            ScopeStateView {
                                idx: h.id,
                                buffer_offset: entry_offset(old(self)@, 1, h.id as int) as usize,
                                buffer_stride: old(self)@.scope_strides[1],
                                desc_sets: desc_sets@,
                                textures: tex@,
                            },
                        ),
                    ),
                    ..old(self)@
                }),
                Err(e) => !old(self)@.has_layout[1] && e.msg@ == "failed to get scope desc-layout"@ && final(self)@
                    == old(self)@,
            },
    {
        self.acquire_scope_resource(ShaderScope::Shared, tex, desc_sets)
    }

    pub fn acquire_instance_resource(&mut self, tex: &[ResourceHandle], desc_sets: [u64; FRAMES_IN_FLIGHT]) -> (r:
        HellResult<ResourceHandle>)
        requires
            old(self).wf(),
            tex@.len() == old(self)@.sampler_counts[2],
            old(self)@.has_layout[2] ==> entry_offset(old(self)@, 2, old(self)@.entry_states[2].len() as int)
                <= usize::MAX,
        ensures
            final(self).wf(),
            match r {
                Ok(h) => old(self)@.has_layout[2] && h.id == old(self)@.entry_states[2].len() && (h.id
                    < old(self)@.entry_counts[2] ==> entry_fits(old(self)@, 2, h.id as int)) && final(self)@ == (
                ProgramView {
                    entry_states: old(self)@.entry_states.update(
                        2,
                        old(self)@.entry_states[2].push(
                            ScopeStateView {
                                idx: h.id,
                                buffer_offset: entry_offset(old(self)@, 2, h.id as int) as usize,
                                buffer_stride: old(self)@.scope_strides[2],
                                desc_sets: desc_sets@,
                                textures: tex@,
                            },
                        ),
                    ),
                    ..old(self)@
                }),
                Err(e) => !old(self)@.has_layout[2] && e.msg@ == "failed to get scope desc-layout"@ && final(self)@
                    == old(self)@,
            },
    {
        self.acquire_scope_resource(ShaderScope::Instance, tex, desc_sets)
    }

    pub fn acquire_local_resource(&mut self, tex: &[ResourceHandle], desc_sets: [u64; FRAMES_IN_FLIGHT]) -> (r:
        HellResult<ResourceHandle>)
        requires
            old(self).wf(),
            tex@.len() == old(self)@.sampler_counts[3],
            old(self)@.has_layout[3] ==> entry_offset(old(self)@, 3, old(self)@.entry_states[3].len() as int)
                <= usize::MAX,
        ensures
            final(self).wf(),
            match r {
                Ok(h) => old(self)@.has_layout[3] && h.id == old(self)@.entry_states[3].len() && (h.id
                    < old(self)@.entry_counts[3] ==> entry_fits(old(self)@, 3, h.id as int)) && final(self)@ == (
                ProgramView {
                    entry_states: old(self)@.entry_states.update(
                        3,
                        old(self)@.entry_states[3].push(
                            ScopeStateView {
                                idx: h.id,
                                buffer_offset: entry_offset(old(self)@, 3, h.id as int) as usize,
                                buffer_stride: old(self)@.scope_strides[3],
                                desc_sets: desc_sets@,
                                textures: tex@,
                            },
                        ),
                    ),
                    ..old(self)@
                }),
                Err(e) => !old(self)@.has_layout[3] && e.msg@ == "failed to get scope desc-layout"@ && final(self)@
                    == old(self)@,
            },
    {
        self.acquire_scope_resource(ShaderScope::Local, tex, desc_sets)
    }

    /// What applying entry `entry` of `scope` in frame `frame_idx` writes and
    /// binds, or why it cannot: the entry does not exist, its textures do not
    /// match the scope's samplers, one of them is not in `tex_man`, or the
    /// scope has no descriptor set. The descriptor writes and the bind are
    /// the caller's to make on the device; this returns no plan for either
    /// when any check fails, the last one included.
    pub fn apply_scope_intern<I, Tex>(
        &self,
        scope: ShaderScope,
        frame_idx: usize,
        tex_man: &TextureManager<I, Tex>,
        entry: ResourceHandle,
    ) -> (r: HellResult<ScopeBinding>)
        requires
            self.wf(),
            frame_idx < FRAMES_IN_FLIGHT,
        ensures
            scope_apply_agrees(self@, scope_idx(scope), frame_idx, tex_man.spec_textures().len(), entry, r),
    {
        let s = scope.index();
        proof {
            assert(self@.entry_states[s as int] == self.scope_entry_states@[s as int]@.map_values(
                |x: ScopeState| x@,
            ));
        }
        if entry.id >= self.scope_entry_states[s].len() {
            return Err(HellError::render_msg_err("failed to get scope state"));
        }
        let state = &self.scope_entry_states[s][entry.id];
        proof {
            assert(self@.entry_states[s as int][entry.id as int] == state@);
        }
        let desc_set = state.buffer_desc_set(frame_idx);
        let tex_handles = state.textures();
        let sampler_count = self.sampler_counts[s];
        let mut textures: Vec<ResourceHandle> = Vec::new();
        if sampler_count > 0 {
            if tex_handles.len() != sampler_count {
                return Err(HellError::render_msg_err("sampler-count and tex-count do not match"));
            }
            let mut t: usize = 0;
            while t < tex_handles.len()
                invariant
                    t <= tex_handles@.len(),
                    textures@ == tex_handles@.subrange(0, t as int),
                    textures_resolve(textures@, tex_man.spec_textures().len()),
                    s == scope_idx(scope),
                    sampler_count == self@.sampler_counts[s as int],
                    sampler_count > 0,
                    entry.id < self@.entry_states[s as int].len(),
                    tex_handles@ == self@.entry_states[s as int][entry.id as int].textures,
                    tex_handles@.len() == self@.sampler_counts[s as int],
                decreases tex_handles@.len() - t,
            {
                let handle = tex_handles[t];
                match tex_man.texture_res(handle) {
                    Ok(_tex) => {},
                    Err(e) => {
                        proof {
                            assert(!textures_resolve(tex_handles@, tex_man.spec_textures().len())) by {
                                assert(tex_handles@[t as int] == handle);
                            }
                            assert(tex_handles@ == self@.entry_states[s as int][entry.id as int].textures);
                        }
                        return Err(e);
                    },
                }
                textures.push(handle);
                t = t + 1;
                assert(textures@ =~= tex_handles@.subrange(0, t as int));
            }
            assert(textures@ =~= tex_handles@);
        } else {
            assert(textures@ =~= Seq::<ResourceHandle>::empty());
        }
        match self.scope_set_mapping[s] {
            None => Err(HellError::render_msg_err("failed to get scope mapping")),
            Some(first_set) => Ok(
                ScopeBinding {
                    desc_set,
                    buffer_offset: state.buffer_offset,
                    buffer_stride: state.buffer_stride,
                    textures,
                    first_set,
                },
            ),
        }
    }

    /// `apply_scope_intern` for the global scope's one entry.
    pub fn apply_global_scope<I, Tex>(&self, frame_idx: usize, tex_man: &TextureManager<I, Tex>) -> (r: HellResult<
        ScopeBinding,
    >)
        requires
            self.wf(),
            frame_idx < FRAMES_IN_FLIGHT,
        ensures
            scope_apply_agrees(self@, 0, frame_idx, tex_man.spec_textures().len(), ResourceHandle { id: 0 }, r),
    {
        self.apply_scope_intern(ShaderScope::Global, frame_idx, tex_man, self.global_entry)
    }

    /// `apply_scope_intern` for entry `entry` of the shared scope.
    pub fn apply_shared_scope<I, Tex>(
        &self,
        frame_idx: usize,
        tex_man: &TextureManager<I, Tex>,
        entry: ResourceHandle,
    ) -> (r: HellResult<ScopeBinding>)
        requires
            self.wf(),
            frame_idx < FRAMES_IN_FLIGHT,
        ensures
            scope_apply_agrees(self@, 1, frame_idx, tex_man.spec_textures().len(), entry, r),
    {
        self.apply_scope_intern(ShaderScope::Shared, frame_idx, tex_man, entry)
    }

    /// `apply_scope_intern` for entry `entry` of the instance scope.
    pub fn apply_instance_scope<I, Tex>(
        &self,
        frame_idx: usize,
        tex_man: &TextureManager<I, Tex>,
        entry: ResourceHandle,
    ) -> (r: HellResult<ScopeBinding>)
        requires
            self.wf(),
            frame_idx < FRAMES_IN_FLIGHT,
        ensures
            scope_apply_agrees(self@, 2, frame_idx, tex_man.spec_textures().len(), entry, r),
    {
        self.apply_scope_intern(ShaderScope::Instance, frame_idx, tex_man, entry)
    }

    /// `apply_scope_intern` for entry `entry` of the local scope.
    pub fn apply_local_scope<I, Tex>(
        &self,
        frame_idx: usize,
        tex_man: &TextureManager<I, Tex>,
        entry: ResourceHandle,
    ) -> (r: HellResult<ScopeBinding>)
        requires
            self.wf(),
            frame_idx < FRAMES_IN_FLIGHT,
        ensures
            scope_apply_agrees(self@, 3, frame_idx, tex_man.spec_textures().len(), entry, r),
    {
        self.apply_scope_intern(ShaderScope::Local, frame_idx, tex_man, entry)
    }
}

/// Every handle in `handles` names one of `tex_count` textures.
pub open spec fn textures_resolve(handles: Seq<ResourceHandle>, tex_count: nat) -> bool {
    forall|i: int| 0 <= i < handles.len() ==> (#[trigger] handles[i]).id < tex_count
}

/// The outcome `apply_scope_intern` promises for scope `s` against a texture
/// manager holding `tex_count` textures.
pub open spec fn scope_apply_agrees(
    p: ProgramView,
    s: int,
    frame_idx: usize,
    tex_count: nat,
    entry: ResourceHandle,
    r: HellResult<ScopeBinding>,
) -> bool {
    let found = entry.id < p.entry_states[s].len();
    let st = p.entry_states[s][entry.id as int];
    let matching = p.sampler_counts[s] == 0 || st.textures.len() == p.sampler_counts[s];
    let resolved = p.sampler_counts[s] == 0 || textures_resolve(st.textures, tex_count);
    match r {
        Ok(b) => found && matching && resolved && p.set_mapping[s] is Some && b.desc_set
            == st.desc_sets[frame_idx as int] && b.buffer_offset == st.buffer_offset && b.buffer_stride
            == st.buffer_stride && b.textures@ == (if p.sampler_counts[s] > 0 {
            st.textures
        } else {
            Seq::empty()
        }) && b.first_set == p.set_mapping[s].unwrap(),
        Err(e) => e.kind == HellErrorKind::RenderError && if !found {
            e.msg@ == "failed to get scope state"@
        } else if !matching {
            e.msg@ == "sampler-count and tex-count do not match"@
        } else if !resolved {
            e.msg@ == "failed to get texture"@
        } else {
            p.set_mapping[s] is None && e.msg@ == "failed to get scope mapping"@
        },
    }
}

} // verus!

verus! {

// ----------------------------------------------------------------------------
// laws
// ----------------------------------------------------------------------------

/// The used scopes get consecutive descriptor-set indices in scope order, and
/// their buffer ranges follow one another without overlap inside the buffer.
pub proof fn lemma_planned_scopes_ordered(b: BuilderView, i: int, j: int)
    requires
        layout_fits(b),
        0 <= i < j < 4,
        b.use_set[i],
        b.use_set[j],
    ensures
        planned_mapping(b, i).unwrap() < planned_mapping(b, j).unwrap() < sets_before(b.use_set, 4),
        planned_range(b, i).unwrap().offset + planned_range(b, i).unwrap().range <= planned_range(b, j).unwrap().offset,
        planned_range(b, j).unwrap().offset + planned_range(b, j).unwrap().range <= planned_total(b),
{
    let (used, sizes, counts, align) = (b.use_set, b.scope_sizes, b.entry_counts, b.ubo_alignment);
    lemma_sets_before_mono(used, i, j);
    lemma_sets_before_mono(used, j, 4);
    lemma_sets_before_mono(used, 0, 4);
    lemma_scope_offset_mono(used, sizes, counts, align, i, j);
    lemma_scope_offset_mono(used, sizes, counts, align, j, 4);
    lemma_scope_offset_mono(used, sizes, counts, align, i + 1, j);
    lemma_scope_offset_mono(used, sizes, counts, align, i, i + 1);
}

/// What a well-formed program looks like from outside: four scopes, each
/// with its entry list, the global scope with its one entry, a scope with a
/// layout having a buffer range and a set index, and the bound entry among
/// those acquired.
pub proof fn lemma_program_shape(prog: &ShaderProgram)
    requires
        prog.wf(),
    ensures
        prog@.uniforms.len() == 4,
        prog@.entry_states.len() == 4,
        prog@.scope_ranges.len() == 4,
        prog@.has_layout.len() == 4,
        prog@.sampler_counts.len() == 4,
        prog@.scope_sizes.len() == 4,
        prog@.scope_strides.len() == 4,
        prog@.entry_counts.len() == 4,
        prog@.set_mapping.len() == 4,
        prog@.entry_states[0].len() == 1,
        forall|s: int|
            0 <= s < 4 ==> (#[trigger] prog@.has_layout[s] == prog@.scope_ranges[s] is Some) && (prog@.has_layout[s]
                == prog@.set_mapping[s] is Some),
        prog@.bound_entry < prog@.entry_states[scope_idx(prog@.bound_scope)].len(),
{
}

/// Each entry acquired for a scope, up to the number of entries its range
/// was sized for, lies inside that range.
pub proof fn lemma_entries_in_range(prog: &ShaderProgram, s: int, k: int)
    requires
        prog.wf(),
        1 <= s < 4,
        0 <= k < prog@.entry_states[s].len(),
        k < prog@.entry_counts[s],
    ensures
        prog@.scope_ranges[s].unwrap().offset <= prog@.entry_states[s][k].buffer_offset,
        prog@.entry_states[s][k].buffer_offset + prog@.entry_states[s][k].buffer_stride
            <= prog@.scope_ranges[s].unwrap().offset + prog@.scope_ranges[s].unwrap().range,
{
    let p = prog@;
    let _st = p.entry_states[s][k];
    assert(entry_wf(p, s, k));
    assert(p.has_layout[s]);
    lemma_entry_fits(p, s, k);
    let stride = p.scope_strides[s] as int;
    assert(stride * k >= 0) by (nonlinear_arith)
        requires
            stride >= 0,
            k >= 0,
    ;
}

/// The entries acquired for one scope follow one another a stride apart, so
/// no two of them overlap.
pub proof fn lemma_entries_disjoint(prog: &ShaderProgram, s: int, k: int, m: int)
    requires
        prog.wf(),
        1 <= s < 4,
        0 <= k < m < prog@.entry_states[s].len(),
    ensures
        prog@.entry_states[s][k].buffer_offset + prog@.entry_states[s][k].buffer_stride
            <= prog@.entry_states[s][m].buffer_offset,
        prog@.entry_states[s][k].buffer_stride == prog@.entry_states[s][m].buffer_stride,
{
    let p = prog@;
    let (_a, _b) = (p.entry_states[s][k], p.entry_states[s][m]);
    assert(entry_wf(p, s, k));
    assert(entry_wf(p, s, m));
    let st = p.scope_strides[s] as int;
    assert(st * m >= st * k + st) by (nonlinear_arith)
        requires
            k < m,
            st >= 0,
    ;
}

/// A uniform with bytes lies inside the padded entry of its scope.
pub proof fn lemma_uniform_within_entry(us: Seq<UniformInfoView>, s: int, size: usize, align: nat, k: int)
    requires
        scope_uniforms_wf(us, s, size),
        align > 0,
        0 <= k < us.len(),
        us[k].range.range > 0,
    ensures
        us[k].range.offset + us[k].range.range <= ubo_stride_spec(size as nat, align),
{
    lemma_ranges_sum_mono(us, k + 1, us.len() as int);
    lemma_ubo_stride(size as nat, align);
}

/// After `bind_scope(s, e)`, a write to uniform `h` lands at the entry's offset
/// plus the uniform's offset inside it.
pub proof fn lemma_bound_write_offset(p: ProgramView, s: ShaderScope, e: usize, h: UniformHandle)
    ensures
        uniform_offset(
            ProgramView {
                bound_scope: s,
                bound_entry: e,
                bound_offset: p.entry_states[scope_idx(s)][e as int].buffer_offset,
                ..p
            },
            h,
        ) == p.entry_states[scope_idx(s)][e as int].buffer_offset + p.uniforms[scope_idx(h.scope)][h.idx as int].range.offset,
{
}

/// Reading back the bytes a write put in gives what was written; every other
/// byte keeps its value.
pub proof fn lemma_write_bytes_reads_back(buf: Seq<u8>, offset: int, bytes: Seq<u8>)
    requires
        0 <= offset,
        offset + bytes.len() <= buf.len(),
    ensures
        write_bytes(buf, offset, bytes).len() == buf.len(),
        write_bytes(buf, offset, bytes).subrange(offset, offset + bytes.len()) == bytes,
        forall|j: int|
            0 <= j < buf.len() && !(offset <= j < offset + bytes.len()) ==> #[trigger] write_bytes(buf, offset, bytes)[j]
                == buf[j],
{
    assert(write_bytes(buf, offset, bytes).subrange(offset, offset + bytes.len()) =~= bytes);
}

/// Each sampler added to a scope counts once: the scope's sampler count goes
/// up by one, the scope's set becomes used, and no other scope's count moves.
pub proof fn lemma_added_sampler_counted(b: BuilderView, name: Seq<char>, scope: ShaderScope)
    requires
        b.sampler_counts.len() == 4,
        b.use_set.len() == 4,
        b.sampler_counts[scope_idx(scope)] < usize::MAX,
    ensures
        builder_with_sampler(b, name, scope).sampler_counts[scope_idx(scope)] == b.sampler_counts[scope_idx(scope)] + 1,
        builder_with_sampler(b, name, scope).use_set[scope_idx(scope)],
        forall|t: int|
            0 <= t < 4 && t != scope_idx(scope) ==> #[trigger] builder_with_sampler(b, name, scope).sampler_counts[t]
                == b.sampler_counts[t],
{
}

/// The vertex attributes of a planned layout are packed in order: the first
/// starts at 0, each one ends where the next begins, and the last ends at the
/// vertex stride.
pub proof fn lemma_vertex_attributes_packed(l: ProgramLayout, b: BuilderView, k: int)
    requires
        layout_matches(l, b),
        b.attributes.len() <= 32,
        0 <= k < b.attributes.len(),
    ensures
        k == 0 ==> l.vertex_attributes@[k].offset == 0,
        k + 1 < b.attributes.len() ==> l.vertex_attributes@[k].offset + number_format_size(b.attributes[k].format)
            == l.vertex_attributes@[k + 1].offset,
        k + 1 == b.attributes.len() ==> l.vertex_attributes@[k].offset + number_format_size(b.attributes[k].format)
            == l.vertex_stride,
{
    lemma_attr_offset_bound(b.attributes, k);
    lemma_attr_offset_bound(b.attributes, k + 1);
    let _a = l.vertex_attributes@[k];
    if k + 1 < b.attributes.len() {
        let _b = l.vertex_attributes@[k + 1];
    }
}

/// Unused scopes take no bytes: where only unused scopes lie between, the
/// offset does not move.
proof fn lemma_scope_offset_skip_unused(b: BuilderView, i: int, m: int)
    requires
        0 <= i <= m,
        forall|k: int| i <= k < m ==> !b.use_set[k],
    ensures
        scope_offset(b.use_set, b.scope_sizes, b.entry_counts, b.ubo_alignment, m) == scope_offset(
            b.use_set,
            b.scope_sizes,
            b.entry_counts,
            b.ubo_alignment,
            i,
        ),
    decreases m - i,
{
    if m > i {
        lemma_scope_offset_skip_unused(b, i, m - 1);
    }
}

/// The buffer ranges of the used scopes are laid end to end in scope order:
/// the first starts at 0, each next one starts where the one before ends,
/// the last ends at the buffer's total size, and each is its padded entry
/// size times the number of entries the scope holds.
pub proof fn lemma_planned_ranges_contiguous(b: BuilderView, i: int, j: int)
    requires
        layout_fits(b),
        b.use_set.len() == 4,
        0 <= i < 4,
        b.use_set[i],
        i < j <= 4,
        forall|k: int| i < k < j ==> !b.use_set[k],
    ensures
        planned_range(b, i).unwrap().range == planned_stride(b, i) * b.entry_counts[i],
        j < 4 && b.use_set[j] ==> planned_range(b, j).unwrap().offset == planned_range(b, i).unwrap().offset
            + planned_range(b, i).unwrap().range,
        j == 4 ==> planned_range(b, i).unwrap().offset + planned_range(b, i).unwrap().range == planned_total(b),
        (forall|k: int| 0 <= k < i ==> !b.use_set[k]) ==> planned_range(b, i).unwrap().offset == 0,
{
    let (used, sizes, counts, align) = (b.use_set, b.scope_sizes, b.entry_counts, b.ubo_alignment);
    lemma_scope_offset_mono(used, sizes, counts, align, i + 1, 4);
    lemma_scope_offset_mono(used, sizes, counts, align, j, 4);
    lemma_scope_offset_skip_unused(b, i + 1, j);
    if forall|k: int| 0 <= k < i ==> !b.use_set[k] {
        lemma_scope_offset_skip_unused(b, 0, i);
    }
}

/// The used scopes get the set indices 0, 1, 2, ... in scope order with no
/// gap: the first used scope gets set 0, and a used scope gets the set after
/// that of the used scope before it.
pub proof fn lemma_planned_sets_consecutive(b: BuilderView, i: int, j: int)
    requires
        0 <= i < j < 4,
        b.use_set[i],
        b.use_set[j],
        forall|k: int| i < k < j ==> !b.use_set[k],
    ensures
        planned_mapping(b, j) == Some((planned_mapping(b, i).unwrap() + 1) as usize),
        (forall|k: int| 0 <= k < i ==> !b.use_set[k]) ==> planned_mapping(b, i) == Some(0usize),
{
    if j - 1 > i {
        assert(!b.use_set[j - 1]);
        lemma_planned_sets_consecutive_prefix(b.use_set, i, j - 1);
    }
    lemma_sets_before_mono(b.use_set, 0, i);
    if forall|k: int| 0 <= k < i ==> !b.use_set[k] {
        lemma_no_sets_before(b.use_set, i);
    }
}

/// No set index is taken before a position that only unused scopes precede.
proof fn lemma_no_sets_before(used: Seq<bool>, n: int)
    requires
        forall|k: int| 0 <= k < n ==> !used[k],
    ensures
        sets_before(used, n) == 0,
    decreases n,
{
    if n > 0 {
        lemma_no_sets_before(used, n - 1);
    }
}

/// Unused scopes after `i` take no set index: up to `m` the count is that
/// after `i`.
proof fn lemma_planned_sets_consecutive_prefix(used: Seq<bool>, i: int, m: int)
    requires
        0 <= i < m,
        forall|k: int| i < k <= m ==> !used[k],
    ensures
        sets_before(used, m + 1) == sets_before(used, i + 1),
    decreases m - i,
{
    if m - 1 > i {
        lemma_planned_sets_consecutive_prefix(used, i, m - 1);
    }
}

/// In a planned layout, the set of a used scope binds its uniform buffer as
/// one descriptor at binding 0 for both stages and, when the scope has
/// samplers, one combined image sampler per sampler of the scope at binding 1
/// for the fragment stage; a scope without samplers has no sampler binding.
pub proof fn lemma_layout_sampler_binding(l: ProgramLayout, b: BuilderView, i: int)
    requires
        layout_matches(l, b),
        0 <= i < 4,
        b.use_set[i],
    ensures
        l.set_layouts@[sets_before(b.use_set, i) as int].scope == scope_at(i),
        l.set_layouts@[sets_before(b.use_set, i) as int].ubo == (LayoutBinding {
            binding: 0,
            kind: DescriptorKind::UniformBuffer,
            count: 1,
            vertex_stage: true,
            fragment_stage: true,
        }),
        b.sampler_counts[i] > 0 ==> l.set_layouts@[sets_before(b.use_set, i) as int].samplers == Some(
            LayoutBinding {
                binding: 1,
                kind: DescriptorKind::CombinedImageSampler,
                count: b.sampler_counts[i],
                vertex_stage: false,
                fragment_stage: true,
            },
        ),
        b.sampler_counts[i] == 0 ==> l.set_layouts@[sets_before(b.use_set, i) as int].samplers is None,
{
}

/// A uniform added to a builder is found again by its name, in its scope, at
/// the position it was given, with the byte range it was given.
pub proof fn lemma_added_uniform_found(b: BuilderView, name: Seq<char>, scope: ShaderScope, size: usize, is_sampler: bool)
    requires
        b.uniforms.len() == 4,
        b.scope_sizes.len() == 4,
        b.use_set.len() == 4,
        b.uniforms[scope_idx(scope)].len() <= usize::MAX,
    ensures
        ({
            let s = scope_idx(scope);
            let b2 = builder_with_uniform(b, name, scope, size, is_sampler);
            let h = b2.lookups[name];
            &&& b2.lookups.dom().contains(name)
            &&& h == UniformHandle { scope, idx: b.uniforms[s].len() as usize }
            &&& b2.uniforms[s][h.idx as int].name == name
            &&& b2.uniforms[s][h.idx as int].range == (if is_sampler {
                ValueRange { offset: 0usize, range: 0usize }
            } else {
                ValueRange { offset: b.scope_sizes[s], range: size }
            })
            &&& b2.use_set[s]
        }),
{
}

} // verus!

verus! {

/// What every builder keeps: in each scope a uniform with bytes starts where
/// the bytes of the earlier ones end and the scope's size is their total, and
/// every name looked up leads to a uniform of that name.
pub proof fn lemma_builder_invariant(b: &ShaderProgramBuilder)
    requires
        b.wf(),
    ensures
        b@.uniforms.len() == 4,
        b@.scope_sizes.len() == 4,
        b@.use_set.len() == 4,
        b@.sampler_counts.len() == 4,
        b@.entry_counts.len() == 4,
        forall|s: int| 0 <= s < 4 ==> scope_uniforms_wf(#[trigger] b@.uniforms[s], s, b@.scope_sizes[s]),
        lookups_wf(b@.lookups, b@.uniforms),
{
}

/// What every built program keeps: the uniforms and lookups as in a builder,
/// a scope has a layout exactly when it has a buffer range and a set, and the
/// entries lie where `acquire_scope_resource` put them, one stride apart.
pub proof fn lemma_program_invariant(p: &ShaderProgram)
    requires
        p.wf(),
    ensures
        forall|s: int| 0 <= s < 4 ==> scope_uniforms_wf(#[trigger] p@.uniforms[s], s, p@.scope_sizes[s]),
        lookups_wf(p@.lookups, p@.uniforms),
        forall|s: int|
            0 <= s < 4 ==> (#[trigger] p@.has_layout[s] == p@.scope_ranges[s] is Some) && (p@.has_layout[s]
                == p@.set_mapping[s] is Some),
        program_entries_wf(p@),
        p@.bound_entry < p@.entry_states[scope_idx(p@.bound_scope)].len(),
        p@.bound_offset == p@.entry_states[scope_idx(p@.bound_scope)][p@.bound_entry as int].buffer_offset,
{
}

} // verus!
