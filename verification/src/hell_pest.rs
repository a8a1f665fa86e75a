//! The block-structured shader description: definitions read from the parse
//! tree of a description file (info, scopes with buffers and samplers, and
//! shaders with the scope fields they use and their code).

use vstd::prelude::*;
use crate::name_map::NameMap;
use crate::text::{lowercase, str_chars, to_lowercase};

verus! {

// ----------------------------------------------------------------------------
// parse tree
// ----------------------------------------------------------------------------

/// Names the description grammar's parser. The grammar itself is not part of
/// this crate and nothing here builds a parse tree: the caller hands in the
/// tree of `ParseNode`s that the definitions below are read from.
#[derive(Debug, Clone, Copy, PartialEq, Eq, Structural)]
pub struct CSVParser;

/// The grammar rules the definitions tell apart; `inner` stands for every
/// other rule (names, values, blocks, code).
#[allow(non_camel_case_types)]
#[derive(Debug, Clone, Copy, PartialEq, Eq, Structural)]
pub enum Rule {
    file,
    info_decl,
    scope_decl,
    shader_decl,
    uniform_buffer,
    uniform_sampler,
    var_ubo,
    uniform_usage,
    inner,
    EOI,
}

/// A node of the parse tree: the rule it matched, the text it spans and its
/// children in order.
#[derive(Debug)]
pub struct ParseNode {
    pub rule: Rule,
    pub text: String,
    pub children: Vec<ParseNode>,
}

/// Number of leading nodes of `s` that matched `r`.
pub open spec fn leading(s: Seq<ParseNode>, r: Rule) -> nat
    decreases s.len(),
{
    if s.len() == 0 || s[0].rule != r {
        0
    } else {
        1 + leading(s.drop_first(), r)
    }
}

pub proof fn lemma_leading(s: Seq<ParseNode>, r: Rule)
    ensures
        leading(s, r) <= s.len(),
        forall|i: int| 0 <= i < leading(s, r) ==> (#[trigger] s[i]).rule == r,
        leading(s, r) < s.len() ==> s[leading(s, r) as int].rule != r,
    decreases s.len(),
{
    if s.len() > 0 && s[0].rule == r {
        lemma_leading(s.drop_first(), r);
        assert forall|i: int| 0 <= i < leading(s, r) implies (#[trigger] s[i]).rule == r by {
            if i > 0 {
                assert(s[i] == s.drop_first()[i - 1]);
            }
        }
        if leading(s, r) < s.len() {
            assert(s[leading(s, r) as int] == s.drop_first()[leading(s.drop_first(), r) as int]);
        }
    }
}

fn lower(node: &ParseNode) -> (r: String)
    ensures
        r@ == lowercase(node.text@),
{
    to_lowercase(node.text.as_str())
}

// ----------------------------------------------------------------------------
// info
// ----------------------------------------------------------------------------

/// One `ident = value` of the info block, both lowercased.
#[derive(Debug)]
pub struct CrapInfoVarDef {
    pub ident: String,
    pub val: String,
}

pub struct CrapInfoVarDefView {
    pub ident: Seq<char>,
    pub val: Seq<char>,
}

impl View for CrapInfoVarDef {
    type V = CrapInfoVarDefView;

    open spec fn view(&self) -> CrapInfoVarDefView {
        CrapInfoVarDefView { ident: self.ident@, val: self.val@ }
    }
}

pub open spec fn info_var_ok(pairs: Seq<ParseNode>) -> bool {
    pairs.len() >= 2
}

pub open spec fn info_var_spec(pairs: Seq<ParseNode>) -> CrapInfoVarDefView {
    CrapInfoVarDefView { ident: lowercase(pairs[0].text@), val: lowercase(pairs[1].text@) }
}

impl CrapInfoVarDef {
    pub fn new(pairs: &[ParseNode]) -> (r: CrapInfoVarDef)
        requires
            info_var_ok(pairs@),
        ensures
            r@ == info_var_spec(pairs@),
    {
        CrapInfoVarDef { ident: lower(&pairs[0]), val: lower(&pairs[1]) }
    }
}

/// The info block: the format version and the program's name.
#[derive(Debug)]
pub struct CrapInfoDef {
    pub crap_ver: CrapInfoVarDef,
    pub name: CrapInfoVarDef,
}

pub struct CrapInfoDefView {
    pub crap_ver: CrapInfoVarDefView,
    pub name: CrapInfoVarDefView,
}

impl View for CrapInfoDef {
    type V = CrapInfoDefView;

    open spec fn view(&self) -> CrapInfoDefView {
        CrapInfoDefView { crap_ver: self.crap_ver@, name: self.name@ }
    }
}

pub open spec fn info_ok(pairs: Seq<ParseNode>) -> bool {
    &&& pairs.len() >= 1
    &&& pairs[0].children@.len() >= 2
    &&& info_var_ok(pairs[0].children@[0].children@)
    &&& info_var_ok(pairs[0].children@[1].children@)
}

pub open spec fn info_spec(pairs: Seq<ParseNode>) -> CrapInfoDefView {
    CrapInfoDefView {
        crap_ver: info_var_spec(pairs[0].children@[0].children@),
        name: info_var_spec(pairs[0].children@[1].children@),
    }
}

impl CrapInfoDef {
    pub fn new(pairs: &[ParseNode]) -> (r: CrapInfoDef)
        requires
            info_ok(pairs@),
        ensures
            r@ == info_spec(pairs@),
    {
        let info_block = &pairs[0].children;
        let crap_ver = CrapInfoVarDef::new(info_block[0].children.as_slice());
        let name = CrapInfoVarDef::new(info_block[1].children.as_slice());
        CrapInfoDef { crap_ver, name }
    }
}

// ----------------------------------------------------------------------------
// scopes
// ----------------------------------------------------------------------------

/// A variable of a uniform buffer: its type and name, lowercased.
#[derive(Debug)]
pub struct CrapVarUboDef {
    pub type_ubo: String,
    pub ident: String,
}

pub struct CrapVarUboDefView {
    pub type_ubo: Seq<char>,
    pub ident: Seq<char>,
}

impl View for CrapVarUboDef {
    type V = CrapVarUboDefView;

    open spec fn view(&self) -> CrapVarUboDefView {
        CrapVarUboDefView { type_ubo: self.type_ubo@, ident: self.ident@ }
    }
}

pub open spec fn var_ubo_spec(pairs: Seq<ParseNode>) -> CrapVarUboDefView {
    CrapVarUboDefView { type_ubo: lowercase(pairs[0].text@), ident: lowercase(pairs[1].text@) }
}

impl CrapVarUboDef {
    pub fn new(pairs: &[ParseNode]) -> (r: CrapVarUboDef)
        requires
            pairs@.len() >= 2,
        ensures
            r@ == var_ubo_spec(pairs@),
    {
        CrapVarUboDef { type_ubo: lower(&pairs[0]), ident: lower(&pairs[1]) }
    }
}

/// A sampler of a scope: its type as written and its name lowercased.
#[derive(Debug)]
pub struct CrapUniformSamplerDef {
    pub type_sampler: String,
    pub ident: String,
}

pub struct CrapUniformSamplerDefView {
    pub type_sampler: Seq<char>,
    pub ident: Seq<char>,
}

impl View for CrapUniformSamplerDef {
    type V = CrapUniformSamplerDefView;

    open spec fn view(&self) -> CrapUniformSamplerDefView {
        CrapUniformSamplerDefView { type_sampler: self.type_sampler@, ident: self.ident@ }
    }
}

pub open spec fn sampler_spec(pairs: Seq<ParseNode>) -> CrapUniformSamplerDefView {
    CrapUniformSamplerDefView { type_sampler: pairs[0].text@, ident: lowercase(pairs[1].text@) }
}

impl CrapUniformSamplerDef {
    pub fn new(pairs: &[ParseNode]) -> (r: CrapUniformSamplerDef)
        requires
            pairs@.len() >= 2,
        ensures
            r@ == sampler_spec(pairs@),
    {
        let type_sampler = copy_string(&pairs[0].text);
        CrapUniformSamplerDef { ident: lower(&pairs[1]), type_sampler }
    }
}

fn copy_string(s: &String) -> (r: String)
    ensures
        r@ == s@,
{
    s.clone()
}

/// A uniform buffer: its variables, then its name.
#[derive(Debug)]
pub struct CrapUniformBufferDef {
    pub var_ubos: Vec<CrapVarUboDef>,
    pub ident: String,
}

pub struct CrapUniformBufferDefView {
    pub var_ubos: Seq<CrapVarUboDefView>,
    pub ident: Seq<char>,
}

impl View for CrapUniformBufferDef {
    type V = CrapUniformBufferDefView;

    open spec fn view(&self) -> CrapUniformBufferDefView {
        CrapUniformBufferDefView {
            var_ubos: self.var_ubos@.map_values(|v: CrapVarUboDef| v@),
            ident: self.ident@,
        }
    }
}

/// The buffer's nodes: some variables, each with a type and a name, then a
/// name.
pub open spec fn buffer_ok(pairs: Seq<ParseNode>) -> bool {
    &&& leading(pairs, Rule::var_ubo) < pairs.len()
    &&& forall|i: int| 0 <= i < leading(pairs, Rule::var_ubo) ==> (#[trigger] pairs[i]).children@.len() >= 2
}

pub open spec fn buffer_spec(pairs: Seq<ParseNode>) -> CrapUniformBufferDefView {
    let k = leading(pairs, Rule::var_ubo);
    CrapUniformBufferDefView {
        var_ubos: Seq::new(k, |i: int| var_ubo_spec(pairs[i].children@)),
        ident: lowercase(pairs[k as int].text@),
    }
}

impl CrapUniformBufferDef {
    pub fn new(pairs: &[ParseNode]) -> (r: CrapUniformBufferDef)
        requires
            buffer_ok(pairs@),
        ensures
            r@ == buffer_spec(pairs@),
    {
        proof {
            lemma_leading(pairs@, Rule::var_ubo);
        }
        let ghost k = leading(pairs@, Rule::var_ubo);
        let mut var_ubos: Vec<CrapVarUboDef> = Vec::new();
        let mut i: usize = 0;
        while pairs[i].rule == Rule::var_ubo
            invariant
                buffer_ok(pairs@),
                k == leading(pairs@, Rule::var_ubo),
                forall|j: int| 0 <= j < k ==> (#[trigger] pairs@[j]).rule == Rule::var_ubo,
                k < pairs@.len() ==> pairs@[k as int].rule != Rule::var_ubo,
                i <= k,
                var_ubos@.map_values(|v: CrapVarUboDef| v@) == Seq::new(
                    i as nat,
                    |j: int| var_ubo_spec(pairs@[j].children@),
                ),
            decreases k - i,
        {
            let ghost before = var_ubos@.map_values(|v: CrapVarUboDef| v@);
            let v = CrapVarUboDef::new(pairs[i].children.as_slice());
            var_ubos.push(v);
            assert(var_ubos@.map_values(|v: CrapVarUboDef| v@) =~= before.push(var_ubo_spec(pairs@[i as int].children@)));
            i = i + 1;
            assert(var_ubos@.map_values(|v: CrapVarUboDef| v@) =~= Seq::new(
                i as nat,
                |j: int| var_ubo_spec(pairs@[j].children@),
            ));
        }
        let ident = lower(&pairs[i]);
        CrapUniformBufferDef { ident, var_ubos }
    }
}

/// A scope: its name and the buffers and samplers of its block.
#[derive(Debug)]
pub struct CrapScopeDef {
    pub name: String,
    pub buffers: Vec<CrapUniformBufferDef>,
    pub samplers: Vec<CrapUniformSamplerDef>,
}

pub struct CrapScopeDefView {
    pub name: Seq<char>,
    pub buffers: Seq<CrapUniformBufferDefView>,
    pub samplers: Seq<CrapUniformSamplerDefView>,
}

impl View for CrapScopeDef {
    type V = CrapScopeDefView;

    open spec fn view(&self) -> CrapScopeDefView {
        CrapScopeDefView {
            name: self.name@,
            buffers: self.buffers@.map_values(|b: CrapUniformBufferDef| b@),
            samplers: self.samplers@.map_values(|s: CrapUniformSamplerDef| s@),
        }
    }
}

/// Every node of a scope block is a buffer or a sampler.
pub open spec fn scope_block_ok(block: Seq<ParseNode>) -> bool {
    forall|i: int|
        0 <= i < block.len() ==> ((#[trigger] block[i]).rule == Rule::uniform_buffer && buffer_ok(block[i].children@))
            || (block[i].rule == Rule::uniform_sampler && block[i].children@.len() >= 2)
}

/// The buffers of a scope block, in order.
pub open spec fn block_buffers(block: Seq<ParseNode>) -> Seq<CrapUniformBufferDefView>
    decreases block.len(),
{
    if block.len() == 0 {
        Seq::empty()
    } else if block.last().rule == Rule::uniform_buffer {
        block_buffers(block.drop_last()).push(buffer_spec(block.last().children@))
    } else {
        block_buffers(block.drop_last())
    }
}

/// The samplers of a scope block, in order.
pub open spec fn block_samplers(block: Seq<ParseNode>) -> Seq<CrapUniformSamplerDefView>
    decreases block.len(),
{
    if block.len() == 0 {
        Seq::empty()
    } else if block.last().rule == Rule::uniform_sampler {
        block_samplers(block.drop_last()).push(sampler_spec(block.last().children@))
    } else {
        block_samplers(block.drop_last())
    }
}

/// The buffers of two parts of a block, one after the other, are those of
/// the first part followed by those of the second.
pub proof fn lemma_block_buffers_concat(a: Seq<ParseNode>, b: Seq<ParseNode>)
    ensures
        block_buffers(a + b) == block_buffers(a) + block_buffers(b),
    decreases b.len(),
{
    if b.len() == 0 {
        assert(a + b =~= a);
        assert(block_buffers(a) + Seq::empty() =~= block_buffers(a));
    } else {
        lemma_block_buffers_concat(a, b.drop_last());
        assert((a + b).drop_last() =~= a + b.drop_last());
        assert((a + b).last() == b.last());
        assert(block_buffers(a + b) =~= block_buffers(a) + block_buffers(b));
    }
}

/// A `uniform_buffer` node gives its one buffer, read from its children; a
/// node of any other rule gives none.
pub proof fn lemma_block_buffers_one(n: ParseNode)
    ensures
        n.rule == Rule::uniform_buffer ==> block_buffers(seq![n]) == seq![buffer_spec(n.children@)],
        n.rule != Rule::uniform_buffer ==> block_buffers(seq![n]).len() == 0,
{
    assert(seq![n].drop_last() =~= Seq::<ParseNode>::empty());
    assert(seq![n].last() == n);
    assert(block_buffers(Seq::<ParseNode>::empty()).len() == 0);
    assert(Seq::<CrapUniformBufferDefView>::empty().push(buffer_spec(n.children@)) =~= seq![buffer_spec(n.children@)]);
}

/// The samplers of two parts of a block, one after the other, are those of
/// the first part followed by those of the second: samplers keep block order.
pub proof fn lemma_block_samplers_concat(a: Seq<ParseNode>, b: Seq<ParseNode>)
    ensures
        block_samplers(a + b) == block_samplers(a) + block_samplers(b),
    decreases b.len(),
{
    if b.len() == 0 {
        assert(a + b =~= a);
        assert(block_samplers(a) + Seq::empty() =~= block_samplers(a));
    } else {
        lemma_block_samplers_concat(a, b.drop_last());
        assert((a + b).drop_last() =~= a + b.drop_last());
        assert((a + b).last() == b.last());
        assert(block_samplers(a + b) =~= block_samplers(a) + block_samplers(b));
    }
}

/// A `uniform_sampler` node gives its one sampler, read from its children; a
/// node of any other rule gives none.
pub proof fn lemma_block_samplers_one(n: ParseNode)
    ensures
        n.rule == Rule::uniform_sampler ==> block_samplers(seq![n]) == seq![sampler_spec(n.children@)],
        n.rule != Rule::uniform_sampler ==> block_samplers(seq![n]).len() == 0,
{
    assert(seq![n].drop_last() =~= Seq::<ParseNode>::empty());
    assert(seq![n].last() == n);
    assert(block_samplers(Seq::<ParseNode>::empty()).len() == 0);
    assert(Seq::<CrapUniformSamplerDefView>::empty().push(sampler_spec(n.children@)) =~= seq![
        sampler_spec(n.children@),
    ]);
}

/// The `k`-th sampler of a block is read from its `k`-th `uniform_sampler`
/// node.
pub proof fn lemma_block_samplers_in_order(block: Seq<ParseNode>)
    ensures
        block_samplers(block) == block.filter_map(
            |n: ParseNode|
                if n.rule == Rule::uniform_sampler {
                    Some(sampler_spec(n.children@))
                } else {
                    None
                },
        ),
    decreases block.len(),
{
    if block.len() > 0 {
        lemma_block_samplers_in_order(block.drop_last());
    }
}

pub open spec fn scope_ok(pairs: Seq<ParseNode>) -> bool {
    pairs.len() >= 2 && scope_block_ok(pairs[1].children@)
}

pub open spec fn scope_spec(pairs: Seq<ParseNode>) -> CrapScopeDefView {
    CrapScopeDefView {
        name: lowercase(pairs[0].text@),
        buffers: block_buffers(pairs[1].children@),
        samplers: block_samplers(pairs[1].children@),
    }
}

impl CrapScopeDef {
    pub fn new(pairs: &[ParseNode]) -> (r: CrapScopeDef)
        requires
            scope_ok(pairs@),
        ensures
            r@ == scope_spec(pairs@),
    {
        let name = lower(&pairs[0]);
        let scope_block = &pairs[1].children;
        let mut buffers: Vec<CrapUniformBufferDef> = Vec::new();
        let mut samplers: Vec<CrapUniformSamplerDef> = Vec::new();
        let mut i: usize = 0;
        while i < scope_block.len()
            invariant
                scope_block_ok(scope_block@),
                i <= scope_block@.len(),
                buffers@.map_values(|b: CrapUniformBufferDef| b@) == block_buffers(scope_block@.take(i as int)),
                samplers@.map_values(|s: CrapUniformSamplerDef| s@) == block_samplers(scope_block@.take(i as int)),
            decreases scope_block@.len() - i,
        {
            let pair = &scope_block[i];
            let ghost bb = buffers@.map_values(|b: CrapUniformBufferDef| b@);
            let ghost ss = samplers@.map_values(|s: CrapUniformSamplerDef| s@);
            proof {
                assert(scope_block@.take(i + 1).drop_last() =~= scope_block@.take(i as int));
                assert(scope_block@.take(i + 1).last() == *pair);
            }
            if pair.rule == Rule::uniform_buffer {
                buffers.push(CrapUniformBufferDef::new(pair.children.as_slice()));
                assert(buffers@.map_values(|b: CrapUniformBufferDef| b@) =~= bb.push(buffer_spec(pair.children@)));
            } else {
                samplers.push(CrapUniformSamplerDef::new(pair.children.as_slice()));
                assert(samplers@.map_values(|s: CrapUniformSamplerDef| s@) =~= ss.push(sampler_spec(pair.children@)));
            }
            i = i + 1;
        }
        assert(scope_block@.take(i as int) =~= scope_block@);
        CrapScopeDef { name, buffers, samplers }
    }
}

// ----------------------------------------------------------------------------
// shaders
// ----------------------------------------------------------------------------

/// A scope field a shader uses: the scope's name and the field's, lowercased.
#[derive(Debug)]
pub struct CrapUniformUsage {
    pub scope_ident: String,
    pub field_ident: String,
}

pub struct CrapUniformUsageView {
    pub scope_ident: Seq<char>,
    pub field_ident: Seq<char>,
}

impl View for CrapUniformUsage {
    type V = CrapUniformUsageView;

    open spec fn view(&self) -> CrapUniformUsageView {
        CrapUniformUsageView { scope_ident: self.scope_ident@, field_ident: self.field_ident@ }
    }
}

pub open spec fn usage_spec(pairs: Seq<ParseNode>) -> CrapUniformUsageView {
    CrapUniformUsageView { scope_ident: lowercase(pairs[0].text@), field_ident: lowercase(pairs[1].text@) }
}

impl CrapUniformUsage {
    pub fn new(pairs: &[ParseNode]) -> (r: CrapUniformUsage)
        requires
            pairs@.len() >= 2,
        ensures
            r@ == usage_spec(pairs@),
    {
        CrapUniformUsage { scope_ident: lower(&pairs[0]), field_ident: lower(&pairs[1]) }
    }
}

/// The code of a shader, as written.
#[derive(Debug)]
pub struct CrapRawCode {
    pub code: String,
}

impl CrapRawCode {
    pub fn new(pair: &ParseNode) -> (r: CrapRawCode)
        ensures
            r.code@ == pair.text@,
    {
        CrapRawCode { code: copy_string(&pair.text) }
    }
}

/// A shader: its name, the fields it uses and its code.
#[derive(Debug)]
pub struct CrapShaderDef {
    pub name: String,
    pub uniform_usages: Vec<CrapUniformUsage>,
    pub raw_code: CrapRawCode,
}

pub struct CrapShaderDefView {
    pub name: Seq<char>,
    pub uniform_usages: Seq<CrapUniformUsageView>,
    pub raw_code: Seq<char>,
}

impl View for CrapShaderDef {
    type V = CrapShaderDefView;

    open spec fn view(&self) -> CrapShaderDefView {
        CrapShaderDefView {
            name: self.name@,
            uniform_usages: self.uniform_usages@.map_values(|u: CrapUniformUsage| u@),
            raw_code: self.raw_code.code@,
        }
    }
}

/// A name, then a block of usages followed by the code.
pub open spec fn shader_ok(pairs: Seq<ParseNode>) -> bool {
    let block = pairs[1].children@;
    &&& pairs.len() >= 2
    &&& leading(block, Rule::uniform_usage) < block.len()
    &&& forall|i: int| 0 <= i < leading(block, Rule::uniform_usage) ==> (#[trigger] block[i]).children@.len() >= 2
}

pub open spec fn shader_spec(pairs: Seq<ParseNode>) -> CrapShaderDefView {
    let block = pairs[1].children@;
    let k = leading(block, Rule::uniform_usage);
    CrapShaderDefView {
        name: lowercase(pairs[0].text@),
        uniform_usages: Seq::new(k, |i: int| usage_spec(block[i].children@)),
        raw_code: block[k as int].text@,
    }
}

impl CrapShaderDef {
    pub fn new(pairs: &[ParseNode]) -> (r: CrapShaderDef)
        requires
            shader_ok(pairs@),
        ensures
            r@ == shader_spec(pairs@),
    {
        let name = lower(&pairs[0]);
        let shader_block = &pairs[1].children;
        proof {
            lemma_leading(shader_block@, Rule::uniform_usage);
        }
        let ghost k = leading(shader_block@, Rule::uniform_usage);
        let mut uniform_usages: Vec<CrapUniformUsage> = Vec::new();
        let mut i: usize = 0;
        let n = shader_block.len();
        while shader_block[i].rule == Rule::uniform_usage
            invariant
                n == shader_block@.len(),
                k == leading(shader_block@, Rule::uniform_usage),
                k < shader_block@.len(),
                forall|j: int| 0 <= j < k ==> (#[trigger] shader_block@[j]).children@.len() >= 2,
                forall|j: int| 0 <= j < k ==> (#[trigger] shader_block@[j]).rule == Rule::uniform_usage,
                shader_block@[k as int].rule != Rule::uniform_usage,
                i <= k,
                uniform_usages@.map_values(|u: CrapUniformUsage| u@) == Seq::new(
                    i as nat,
                    |j: int| usage_spec(shader_block@[j].children@),
                ),
            decreases k - i,
        {
            let ghost before = uniform_usages@.map_values(|u: CrapUniformUsage| u@);
            uniform_usages.push(CrapUniformUsage::new(shader_block[i].children.as_slice()));
            assert(uniform_usages@.map_values(|u: CrapUniformUsage| u@) =~= before.push(
                usage_spec(shader_block@[i as int].children@),
            ));
            i = i + 1;
            assert(uniform_usages@.map_values(|u: CrapUniformUsage| u@) =~= Seq::new(
                i as nat,
                |j: int| usage_spec(shader_block@[j].children@),
            ));
        }
        let raw_code = CrapRawCode::new(&shader_block[i]);
        CrapShaderDef { name, uniform_usages, raw_code }
    }
}

// ----------------------------------------------------------------------------
// file
// ----------------------------------------------------------------------------

/// A description file: its info (if given) and its scopes and shaders by name.
#[derive(Debug)]
pub struct CrapFile {
    pub info: Option<CrapInfoDef>,
    pub scopes: NameMap<CrapScopeDef>,
    pub shaders: NameMap<CrapShaderDef>,
}

pub struct CrapFileView {
    pub info: Option<CrapInfoDefView>,
    pub scopes: Map<Seq<char>, CrapScopeDefView>,
    pub shaders: Map<Seq<char>, CrapShaderDefView>,
}

impl View for CrapFile {
    type V = CrapFileView;

    open spec fn view(&self) -> CrapFileView {
        CrapFileView {
            info: match self.info {
                Some(i) => Some(i@),
                None => None,
            },
            scopes: self.scopes.view().map_values(|s: CrapScopeDef| s@),
            shaders: self.shaders.view().map_values(|s: CrapShaderDef| s@),
        }
    }
}

/// Every top-level node is a well-formed declaration or the end of input.
pub open spec fn file_ok(pairs: Seq<ParseNode>) -> bool {
    forall|i: int|
        0 <= i < pairs.len() ==> {
            let p = #[trigger] pairs[i];
            ||| p.rule == Rule::info_decl && info_ok(p.children@)
            ||| p.rule == Rule::scope_decl && scope_ok(p.children@)
            ||| p.rule == Rule::shader_decl && shader_ok(p.children@)
            ||| p.rule == Rule::EOI
        }
}

/// The file after reading the top-level nodes in order: the last info wins,
/// and a scope or shader replaces an earlier one of the same name.
pub open spec fn file_spec(pairs: Seq<ParseNode>) -> CrapFileView
    decreases pairs.len(),
{
    if pairs.len() == 0 {
        CrapFileView { info: None, scopes: Map::empty(), shaders: Map::empty() }
    } else {
        let f = file_spec(pairs.drop_last());
        let p = pairs.last();
        if p.rule == Rule::info_decl {
            CrapFileView { info: Some(info_spec(p.children@)), ..f }
        } else if p.rule == Rule::scope_decl {
            let s = scope_spec(p.children@);
            CrapFileView { scopes: f.scopes.insert(s.name, s), ..f }
        } else if p.rule == Rule::shader_decl {
            let s = shader_spec(p.children@);
            CrapFileView { shaders: f.shaders.insert(s.name, s), ..f }
        } else {
            f
        }
    }
}

/// The scopes of a file are those declared in it, by name: a name is there
/// exactly when some scope declaration has it, and it maps to the last such
/// declaration.
pub proof fn lemma_file_scopes_last_wins(pairs: Seq<ParseNode>, n: Seq<char>)
    ensures
        file_spec(pairs).scopes.dom().contains(n) <==> exists|k: int|
            0 <= k < pairs.len() && (#[trigger] pairs[k]).rule == Rule::scope_decl && scope_spec(pairs[k].children@).name
                == n,
        forall|k: int|
            0 <= k < pairs.len() && (#[trigger] pairs[k]).rule == Rule::scope_decl && scope_spec(pairs[k].children@).name
                == n && (forall|m: int|
                k < m < pairs.len() && pairs[m].rule == Rule::scope_decl ==> scope_spec(pairs[m].children@).name != n)
                ==> file_spec(pairs).scopes[n] == scope_spec(pairs[k].children@),
    decreases pairs.len(),
{
    if pairs.len() > 0 {
        let init = pairs.drop_last();
        lemma_file_scopes_last_wins(init, n);
        let last = pairs.len() - 1;
        assert forall|k: int| 0 <= k < init.len() implies #[trigger] init[k] == pairs[k] by {}
        if pairs[last].rule == Rule::scope_decl && scope_spec(pairs[last].children@).name == n {
            assert(file_spec(pairs).scopes.dom().contains(n));
        } else {
            assert(file_spec(pairs).scopes.dom().contains(n) == file_spec(init).scopes.dom().contains(n)
                && (file_spec(init).scopes.dom().contains(n) ==> file_spec(pairs).scopes[n] == file_spec(init).scopes[n]))
                by {
                if pairs[last].rule == Rule::scope_decl {
                    assert(file_spec(pairs).scopes == file_spec(init).scopes.insert(
                        scope_spec(pairs[last].children@).name,
                        scope_spec(pairs[last].children@),
                    ));
                }
            }
            if exists|k: int|
                0 <= k < pairs.len() && (#[trigger] pairs[k]).rule == Rule::scope_decl && scope_spec(
                    pairs[k].children@,
                ).name == n {
                let k = choose|k: int|
                    0 <= k < pairs.len() && (#[trigger] pairs[k]).rule == Rule::scope_decl && scope_spec(
                        pairs[k].children@,
                    ).name == n;
                assert(k < last);
                assert(init[k] == pairs[k]);
            }
            if file_spec(pairs).scopes.dom().contains(n) {
                let k = choose|k: int|
                    0 <= k < init.len() && (#[trigger] init[k]).rule == Rule::scope_decl && scope_spec(
                        init[k].children@,
                    ).name == n;
                assert(pairs[k] == init[k]);
            }
            assert forall|k: int|
                0 <= k < pairs.len() && (#[trigger] pairs[k]).rule == Rule::scope_decl && scope_spec(
                    pairs[k].children@,
                ).name == n && (forall|m: int|
                    k < m < pairs.len() && pairs[m].rule == Rule::scope_decl ==> scope_spec(pairs[m].children@).name
                        != n) implies file_spec(pairs).scopes[n] == scope_spec(pairs[k].children@) by {
                assert(k < last);
                assert(init[k] == pairs[k]);
                assert forall|m: int| k < m < init.len() && init[m].rule == Rule::scope_decl implies scope_spec(
                    init[m].children@,
                ).name != n by {
                    assert(init[m] == pairs[m]);
                }
            }
        }
    }
}

/// A file has info exactly when it declares some, and then it is the last
/// info declared.
pub proof fn lemma_file_info_last_wins(pairs: Seq<ParseNode>)
    ensures
        file_spec(pairs).info is Some <==> exists|k: int| 0 <= k < pairs.len() && (#[trigger] pairs[k]).rule == Rule::info_decl,
        forall|k: int|
            0 <= k < pairs.len() && (#[trigger] pairs[k]).rule == Rule::info_decl && (forall|m: int|
                k < m < pairs.len() ==> pairs[m].rule != Rule::info_decl) ==> file_spec(pairs).info == Some(
                info_spec(pairs[k].children@),
            ),
    decreases pairs.len(),
{
    if pairs.len() > 0 {
        let init = pairs.drop_last();
        lemma_file_info_last_wins(init);
        let last = pairs.len() - 1;
        assert forall|k: int| 0 <= k < init.len() implies #[trigger] init[k] == pairs[k] by {}
        if pairs[last].rule != Rule::info_decl {
            assert(file_spec(pairs).info == file_spec(init).info);
            if exists|k: int| 0 <= k < pairs.len() && (#[trigger] pairs[k]).rule == Rule::info_decl {
                let k = choose|k: int| 0 <= k < pairs.len() && (#[trigger] pairs[k]).rule == Rule::info_decl;
                assert(init[k] == pairs[k]);
            }
            if file_spec(pairs).info is Some {
                let k = choose|k: int| 0 <= k < init.len() && (#[trigger] init[k]).rule == Rule::info_decl;
                assert(pairs[k] == init[k]);
            }
            assert forall|k: int|
                0 <= k < pairs.len() && (#[trigger] pairs[k]).rule == Rule::info_decl && (forall|m: int|
                    k < m < pairs.len() ==> pairs[m].rule != Rule::info_decl) implies file_spec(pairs).info == Some(
                info_spec(pairs[k].children@),
            ) by {
                assert(init[k] == pairs[k]);
                assert forall|m: int| k < m < init.len() implies init[m].rule != Rule::info_decl by {
                    assert(init[m] == pairs[m]);
                }
            }
        } else {
            assert(pairs[last].rule == Rule::info_decl);
        }
    }
}

/// The shaders of a file are those declared in it, by name: a name is there
/// exactly when some shader declaration has it, and it maps to the last such
/// declaration.
pub proof fn lemma_file_shaders_last_wins(pairs: Seq<ParseNode>, n: Seq<char>)
    ensures
        file_spec(pairs).shaders.dom().contains(n) <==> exists|k: int|
            0 <= k < pairs.len() && (#[trigger] pairs[k]).rule == Rule::shader_decl && shader_spec(
                pairs[k].children@,
            ).name == n,
        forall|k: int|
            0 <= k < pairs.len() && (#[trigger] pairs[k]).rule == Rule::shader_decl && shader_spec(
                pairs[k].children@,
            ).name == n && (forall|m: int|
                k < m < pairs.len() && pairs[m].rule == Rule::shader_decl ==> shader_spec(pairs[m].children@).name
                    != n) ==> file_spec(pairs).shaders[n] == shader_spec(pairs[k].children@),
    decreases pairs.len(),
{
    if pairs.len() > 0 {
        let init = pairs.drop_last();
        lemma_file_shaders_last_wins(init, n);
        let last = pairs.len() - 1;
        assert forall|k: int| 0 <= k < init.len() implies #[trigger] init[k] == pairs[k] by {}
        if pairs[last].rule == Rule::shader_decl && shader_spec(pairs[last].children@).name == n {
            assert(file_spec(pairs).shaders.dom().contains(n));
        } else {
            assert(file_spec(pairs).shaders.dom().contains(n) == file_spec(init).shaders.dom().contains(n)
                && (file_spec(init).shaders.dom().contains(n) ==> file_spec(pairs).shaders[n] == file_spec(init).shaders[n]))
                by {
                if pairs[last].rule == Rule::shader_decl {
                    assert(file_spec(pairs).shaders == file_spec(init).shaders.insert(
                        shader_spec(pairs[last].children@).name,
                        shader_spec(pairs[last].children@),
                    ));
                }
            }
            if exists|k: int|
                0 <= k < pairs.len() && (#[trigger] pairs[k]).rule == Rule::shader_decl && shader_spec(
                    pairs[k].children@,
                ).name == n {
                let k = choose|k: int|
                    0 <= k < pairs.len() && (#[trigger] pairs[k]).rule == Rule::shader_decl && shader_spec(
                        pairs[k].children@,
                    ).name == n;
                assert(k < last);
                assert(init[k] == pairs[k]);
            }
            if file_spec(pairs).shaders.dom().contains(n) {
                let k = choose|k: int|
                    0 <= k < init.len() && (#[trigger] init[k]).rule == Rule::shader_decl && shader_spec(
                        init[k].children@,
                    ).name == n;
                assert(pairs[k] == init[k]);
            }
            assert forall|k: int|
                0 <= k < pairs.len() && (#[trigger] pairs[k]).rule == Rule::shader_decl && shader_spec(
                    pairs[k].children@,
                ).name == n && (forall|m: int|
                    k < m < pairs.len() && pairs[m].rule == Rule::shader_decl ==> shader_spec(pairs[m].children@).name
                        != n) implies file_spec(pairs).shaders[n] == shader_spec(pairs[k].children@) by {
                assert(k < last);
                assert(init[k] == pairs[k]);
                assert forall|m: int| k < m < init.len() && init[m].rule == Rule::shader_decl implies shader_spec(
                    init[m].children@,
                ).name != n by {
                    assert(init[m] == pairs[m]);
                }
            }
        }
    }
}

impl CrapFile {
    pub closed spec fn wf(&self) -> bool {
        self.scopes.wf() && self.shaders.wf()
    }

    /// An empty file.
    pub fn new() -> (r: CrapFile)
        ensures
            r.wf(),
            r@ == (CrapFileView { info: None, scopes: Map::empty(), shaders: Map::empty() }),
    {
        let r = CrapFile { info: None, scopes: NameMap::new(), shaders: NameMap::new() };
        assert(r@.scopes =~= Map::<Seq<char>, CrapScopeDefView>::empty());
        assert(r@.shaders =~= Map::<Seq<char>, CrapShaderDefView>::empty());
        r
    }

    /// Reads the top-level nodes of a parsed description file.
    pub fn from_pairs(pairs: &[ParseNode]) -> (r: CrapFile)
        requires
            file_ok(pairs@),
        ensures
            r.wf(),
            r@ == file_spec(pairs@),
    {
        let mut res = CrapFile::new();
        let mut i: usize = 0;
        while i < pairs.len()
            invariant
                file_ok(pairs@),
                i <= pairs@.len(),
                res.wf(),
                res@ == file_spec(pairs@.take(i as int)),
            decreases pairs@.len() - i,
        {
            let pair = &pairs[i];
            let ghost f = res@;
            proof {
                assert(pairs@.take(i + 1).drop_last() =~= pairs@.take(i as int));
                assert(pairs@.take(i + 1).last() == *pair);
            }
            if pair.rule == Rule::info_decl {
                res.info = Some(CrapInfoDef::new(pair.children.as_slice()));
            } else if pair.rule == Rule::scope_decl {
                let scope = CrapScopeDef::new(pair.children.as_slice());
                let key = str_chars(scope.name.as_str());
                let ghost sv = scope@;
                res.scopes.insert(key.as_slice(), scope);
                assert(res@.scopes =~= f.scopes.insert(sv.name, sv));
            } else if pair.rule == Rule::shader_decl {
                let shader = CrapShaderDef::new(pair.children.as_slice());
                let key = str_chars(shader.name.as_str());
                let ghost sv = shader@;
                res.shaders.insert(key.as_slice(), shader);
                assert(res@.shaders =~= f.shaders.insert(sv.name, sv));
            }
            i = i + 1;
        }
        assert(pairs@.take(i as int) =~= pairs@);
        res
    }
}

} // verus!
