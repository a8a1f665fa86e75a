//! The configuration of a shader program as the shader tool describes it:
//! its info, its scopes with their buffers and samplers, and its stages.

use vstd::prelude::*;
use crate::error::{HellError, HellErrorKind, HellResult};
use crate::glsl::{
    glsl_type_from_seq, glsl_type_name, scope_keyword, scope_type_from_seq, shader_type_from_seq, GlslType,
    ShaderScopeType, ShaderType,
};
use crate::text::{
    append_chars, chars_to_string, lowercase, remove_char, remove_char_seq, replace_char, replace_char_seq,
    str_chars, str_eq, to_lowercase,
};

verus! {

// ----------------------------------------------------------------------------
// parsing names
// ----------------------------------------------------------------------------

/// The scope named by `name` (a scope keyword, surrounding whitespace
/// ignored), or a render error.
pub fn scope_type_from_name(name: &str) -> (r: HellResult<ShaderScopeType>)
    ensures
        match r {
            Ok(t) => scope_type_from_seq(name@) == Some(t),
            Err(e) => scope_type_from_seq(name@) is None && e.kind == HellErrorKind::RenderError && e.msg@
                == "failed to parse shader scope"@,
        },
{
    let chars = str_chars(name);
    match ShaderScopeType::parse_txt(chars.as_slice()) {
        Some(t) => Ok(t),
        None => Err(HellError::render_msg_err("failed to parse shader scope")),
    }
}

/// The stage named by `name`, or a render error.
pub fn shader_type_from_name(name: &str) -> (r: HellResult<ShaderType>)
    ensures
        match r {
            Ok(t) => shader_type_from_seq(name@) == Some(t),
            Err(e) => shader_type_from_seq(name@) is None && e.kind == HellErrorKind::RenderError && e.msg@
                == "failed to parse shader type"@,
        },
{
    let chars = str_chars(name);
    match ShaderType::parse_txt(chars.as_slice()) {
        Some(t) => Ok(t),
        None => Err(HellError::render_msg_err("failed to parse shader type")),
    }
}

// ----------------------------------------------------------------------------
// info
// ----------------------------------------------------------------------------

/// Version and name of a shader program.
#[derive(Debug)]
pub struct ShaderProgramInfoConfig {
    pub version: String,
    pub name: String,
}

impl ShaderProgramInfoConfig {
    /// The info of already lowercased texts: the name loses its quotes.
    pub fn from_lowercase(version: String, name: String) -> (r: ShaderProgramInfoConfig)
        ensures
            r.version@ == version@,
            r.name@ == remove_char_seq(name@, '"'),
    {
        let name_chars = str_chars(name.as_str());
        let unquoted = remove_char(name_chars.as_slice(), '"');
        ShaderProgramInfoConfig { version, name: chars_to_string(unquoted.as_slice()) }
    }

    /// The info read from raw texts: both lowercased, the name without quotes.
    pub fn from_raw(version: &str, name: &str) -> (r: ShaderProgramInfoConfig)
        ensures
            r.version@ == lowercase(version@),
            r.name@ == remove_char_seq(lowercase(name@), '"'),
    {
        let version_lc = to_lowercase(version);
        let name_lc = to_lowercase(name);
        ShaderProgramInfoConfig::from_lowercase(version_lc, name_lc)
    }

    /// The name with each `/` made `_`, usable as a file name.
    pub fn generate_path(&self) -> (r: String)
        ensures
            r@ == replace_char_seq(self.name@, '/', '_'),
    {
        let chars = str_chars(self.name.as_str());
        let replaced = replace_char(chars.as_slice(), '/', '_');
        chars_to_string(replaced.as_slice())
    }
}

// ----------------------------------------------------------------------------
// variables
// ----------------------------------------------------------------------------

/// One variable of a uniform buffer.
#[derive(Debug)]
pub struct ShaderProgramUboVarConfig {
    pub type_ubo: GlslType,
    pub ident: String,
}

/// `type ident;`
pub open spec fn ubo_var_text(t: GlslType, ident: Seq<char>) -> Seq<char> {
    glsl_type_name(t) + " "@ + ident + ";"@
}

impl ShaderProgramUboVarConfig {
    pub fn from_raw(type_ubo: &str, ident: &str) -> (r: HellResult<ShaderProgramUboVarConfig>)
        ensures
            match r {
                Ok(v) => glsl_type_from_seq(type_ubo@) == Some(v.type_ubo) && v.ident@ == lowercase(ident@),
                Err(e) => glsl_type_from_seq(type_ubo@) is None && e.kind == HellErrorKind::RenderError && e.msg@
                    == "failed to parse glsl-type"@,
            },
    {
        let t = match GlslType::from_str(type_ubo) {
            Ok(t) => t,
            Err(e) => {
                return Err(e);
            },
        };
        Ok(ShaderProgramUboVarConfig { type_ubo: t, ident: to_lowercase(ident) })
    }

    /// The variable as GLSL (`Display`).
    pub fn to_text(&self) -> (r: Vec<char>)
        ensures
            r@ == ubo_var_text(self.type_ubo, self.ident@),
    {
        let mut r = str_chars(self.type_ubo.to_str());
        append_chars(&mut r, str_chars(" ").as_slice());
        append_chars(&mut r, str_chars(self.ident.as_str()).as_slice());
        append_chars(&mut r, str_chars(";").as_slice());
        r
    }
}

/// A sampler of a scope.
#[derive(Debug)]
pub struct ShaderProgramSamplerConfig {
    pub type_sampler: GlslType,
    pub ident: String,
}

pub open spec fn sampler_text(t: GlslType, ident: Seq<char>) -> Seq<char> {
    "// START: sampler '"@ + ident + "'\n"@ + glsl_type_name(t) + " "@ + ident + ";\n"@ + "// END: sampler '"@ + ident
        + "'\n"@
}

impl ShaderProgramSamplerConfig {
    pub fn from_raw(type_sampler: &str, ident: &str) -> (r: HellResult<ShaderProgramSamplerConfig>)
        ensures
            match r {
                Ok(v) => glsl_type_from_seq(type_sampler@) == Some(v.type_sampler) && v.ident@ == lowercase(ident@),
                Err(e) => glsl_type_from_seq(type_sampler@) is None && e.kind == HellErrorKind::RenderError && e.msg@
                    == "failed to parse glsl-type"@,
            },
    {
        let t = match GlslType::from_str(type_sampler) {
            Ok(t) => t,
            Err(e) => {
                return Err(e);
            },
        };
        Ok(ShaderProgramSamplerConfig { type_sampler: t, ident: to_lowercase(ident) })
    }

    /// The sampler as commented GLSL (`Display`).
    pub fn to_text(&self) -> (r: Vec<char>)
        ensures
            r@ == sampler_text(self.type_sampler, self.ident@),
    {
        let ident = str_chars(self.ident.as_str());
        let mut r = str_chars("// START: sampler '");
        append_chars(&mut r, ident.as_slice());
        append_chars(&mut r, str_chars("'\n").as_slice());
        append_chars(&mut r, str_chars(self.type_sampler.to_str()).as_slice());
        append_chars(&mut r, str_chars(" ").as_slice());
        append_chars(&mut r, ident.as_slice());
        append_chars(&mut r, str_chars(";\n").as_slice());
        append_chars(&mut r, str_chars("// END: sampler '").as_slice());
        append_chars(&mut r, ident.as_slice());
        append_chars(&mut r, str_chars("'\n").as_slice());
        r
    }
}

// ----------------------------------------------------------------------------
// buffers
// ----------------------------------------------------------------------------

/// A uniform buffer of a scope: its name and variables.
#[derive(Debug)]
pub struct ShaderProgramBufferConfig {
    pub ident: String,
    pub var_ubos: Vec<ShaderProgramUboVarConfig>,
}

pub open spec fn vars_view(v: Seq<ShaderProgramUboVarConfig>) -> Seq<(GlslType, Seq<char>)> {
    v.map_values(|u: ShaderProgramUboVarConfig| (u.type_ubo, u.ident@))
}

/// Each variable on a line of its own, indented by a tab.
pub open spec fn vars_text(vs: Seq<(GlslType, Seq<char>)>) -> Seq<char>
    decreases vs.len(),
{
    if vs.len() == 0 {
        Seq::empty()
    } else {
        vars_text(vs.drop_last()) + "\t"@ + ubo_var_text(vs.last().0, vs.last().1) + "\n"@
    }
}

pub open spec fn buffer_text(ident: Seq<char>, vs: Seq<(GlslType, Seq<char>)>) -> Seq<char> {
    "// START: buffer '"@ + ident + "'\n"@ + "layout(set = 0, binding = 0) uniform "@ + ident + "_buffer_type {\n"@
        + vars_text(vs) + "} "@ + ident + ";\n"@ + "// END: buffer '"@ + ident + "'\n"@
}

impl ShaderProgramBufferConfig {
    pub fn from_raw(ident: &str, var_ubos: Vec<ShaderProgramUboVarConfig>) -> (r: HellResult<
        ShaderProgramBufferConfig,
    >)
        ensures
            r matches Ok(b) && b.ident@ == lowercase(ident@) && b.var_ubos@ == var_ubos@,
    {
        Ok(ShaderProgramBufferConfig { ident: to_lowercase(ident), var_ubos })
    }

    /// The buffer as a GLSL uniform block (`Display`).
    pub fn to_text(&self) -> (r: Vec<char>)
        ensures
            r@ == buffer_text(self.ident@, vars_view(self.var_ubos@)),
    {
        let ident = str_chars(self.ident.as_str());
        let mut vars: Vec<char> = Vec::new();
        let mut i: usize = 0;
        while i < self.var_ubos.len()
            invariant
                i <= self.var_ubos@.len(),
                vars@ == vars_text(vars_view(self.var_ubos@).take(i as int)),
            decreases self.var_ubos@.len() - i,
        {
            append_chars(&mut vars, str_chars("\t").as_slice());
            append_chars(&mut vars, self.var_ubos[i].to_text().as_slice());
            append_chars(&mut vars, str_chars("\n").as_slice());
            proof {
                let vs = vars_view(self.var_ubos@).take(i + 1);
                assert(vs.drop_last() =~= vars_view(self.var_ubos@).take(i as int));
                assert(vs.last() == (self.var_ubos@[i as int].type_ubo, self.var_ubos@[i as int].ident@));
            }
            i = i + 1;
        }
        assert(vars_view(self.var_ubos@).take(i as int) =~= vars_view(self.var_ubos@));
        let mut r = str_chars("// START: buffer '");
        append_chars(&mut r, ident.as_slice());
        append_chars(&mut r, str_chars("'\n").as_slice());
        append_chars(&mut r, str_chars("layout(set = 0, binding = 0) uniform ").as_slice());
        append_chars(&mut r, ident.as_slice());
        append_chars(&mut r, str_chars("_buffer_type {\n").as_slice());
        append_chars(&mut r, vars.as_slice());
        append_chars(&mut r, str_chars("} ").as_slice());
        append_chars(&mut r, ident.as_slice());
        append_chars(&mut r, str_chars(";\n").as_slice());
        append_chars(&mut r, str_chars("// END: buffer '").as_slice());
        append_chars(&mut r, ident.as_slice());
        append_chars(&mut r, str_chars("'\n").as_slice());
        r
    }
}

// ----------------------------------------------------------------------------
// scopes
// ----------------------------------------------------------------------------

/// A scope of the program: its buffers and samplers.
#[derive(Debug)]
pub struct ShaderProgramScopeConfig {
    pub scope_type: ShaderScopeType,
    pub buffers: Vec<ShaderProgramBufferConfig>,
    pub samplers: Vec<ShaderProgramSamplerConfig>,
}

/// Each buffer between start and end markers naming the scope.
pub open spec fn scope_buffers_text(keyword: Seq<char>, bs: Seq<ShaderProgramBufferConfig>) -> Seq<char>
    decreases bs.len(),
{
    if bs.len() == 0 {
        Seq::empty()
    } else {
        scope_buffers_text(keyword, bs.drop_last()) + "\n// start: scope '"@ + keyword + "'\n"@ + buffer_text(
            bs.last().ident@,
            vars_view(bs.last().var_ubos@),
        ) + "\n"@ + "// end: scope '"@ + keyword + "'\n\n"@
    }
}

/// The block one buffer adds to its scope's text.
#[verifier::opaque]
spec fn buffer_block(keyword: Seq<char>, buf: ShaderProgramBufferConfig) -> Seq<char> {
    "\n// start: scope '"@ + keyword + "'\n"@ + buffer_text(buf.ident@, vars_view(buf.var_ubos@)) + "\n"@
        + "// end: scope '"@ + keyword + "'\n\n"@
}

proof fn lemma_scope_buffers_text_step(keyword: Seq<char>, bs: Seq<ShaderProgramBufferConfig>)
    requires
        bs.len() > 0,
    ensures
        scope_buffers_text(keyword, bs) == scope_buffers_text(keyword, bs.drop_last()) + buffer_block(
            keyword,
            bs.last(),
        ),
{
    reveal(buffer_block);
    assert(scope_buffers_text(keyword, bs) =~= scope_buffers_text(keyword, bs.drop_last()) + buffer_block(
        keyword,
        bs.last(),
    ));
}

/// The text of two lists of buffers, one after the other, is the text of the
/// first followed by that of the second.
#[verifier::rlimit(60)]
pub proof fn lemma_scope_buffers_text_concat(
    keyword: Seq<char>,
    a: Seq<ShaderProgramBufferConfig>,
    b: Seq<ShaderProgramBufferConfig>,
)
    ensures
        scope_buffers_text(keyword, a + b) == scope_buffers_text(keyword, a) + scope_buffers_text(keyword, b),
    decreases b.len(),
{
    if b.len() == 0 {
        assert(a + b =~= a);
        assert(scope_buffers_text(keyword, a) + Seq::empty() =~= scope_buffers_text(keyword, a));
    } else {
        let ab = a + b;
        lemma_scope_buffers_text_concat(keyword, a, b.drop_last());
        assert(ab.drop_last() =~= a + b.drop_last());
        assert(ab.last() == b.last());
        lemma_scope_buffers_text_step(keyword, ab);
        lemma_scope_buffers_text_step(keyword, b);
        let x = buffer_block(keyword, b.last());
        let sa = scope_buffers_text(keyword, a);
        let sb = scope_buffers_text(keyword, b.drop_last());
        assert(sa + sb + x =~= sa + (sb + x));
    }
}

/// Each buffer of a scope stands in the scope's text as one block: a start
/// marker naming the scope, the buffer's text, and an end marker naming the
/// scope.
pub proof fn lemma_scope_buffers_text_one(keyword: Seq<char>, buf: ShaderProgramBufferConfig)
    ensures
        scope_buffers_text(keyword, seq![buf]) == "\n// start: scope '"@ + keyword + "'\n"@ + buffer_text(
            buf.ident@,
            vars_view(buf.var_ubos@),
        ) + "\n"@ + "// end: scope '"@ + keyword + "'\n\n"@,
{
    let e = Seq::<ShaderProgramBufferConfig>::empty();
    assert(seq![buf].drop_last() =~= e);
    assert(seq![buf].last() == buf);
    assert(scope_buffers_text(keyword, e) == Seq::<char>::empty());
    lemma_scope_buffers_text_step(keyword, seq![buf]);
    reveal(buffer_block);
    assert(Seq::<char>::empty() + buffer_block(keyword, buf) =~= buffer_block(keyword, buf));
}

/// The variable lines of two lists of variables, one after the other, are
/// those of the first followed by those of the second.
pub proof fn lemma_vars_text_concat(a: Seq<(GlslType, Seq<char>)>, b: Seq<(GlslType, Seq<char>)>)
    ensures
        vars_text(a + b) == vars_text(a) + vars_text(b),
    decreases b.len(),
{
    if b.len() == 0 {
        assert(a + b =~= a);
        assert(vars_text(a) + Seq::empty() =~= vars_text(a));
    } else {
        lemma_vars_text_concat(a, b.drop_last());
        assert((a + b).drop_last() =~= a + b.drop_last());
        assert((a + b).last() == b.last());
        assert(vars_text(a + b) =~= vars_text(a) + vars_text(b));
    }
}

/// One variable gives one line: a tab, the variable's text, a newline.
pub proof fn lemma_vars_text_one(v: (GlslType, Seq<char>))
    ensures
        vars_text(seq![v]) == "\t"@ + ubo_var_text(v.0, v.1) + "\n"@,
{
    let e = Seq::<(GlslType, Seq<char>)>::empty();
    assert(seq![v].drop_last() =~= e);
    assert(seq![v].last() == v);
    assert(vars_text(e) == Seq::<char>::empty());
    assert(Seq::<char>::empty() + "\t"@ + ubo_var_text(v.0, v.1) + "\n"@ =~= "\t"@ + ubo_var_text(v.0, v.1) + "\n"@);
}

impl ShaderProgramScopeConfig {
    pub fn from_raw(
        name: &str,
        buffers: Vec<ShaderProgramBufferConfig>,
        samplers: Vec<ShaderProgramSamplerConfig>,
    ) -> (r: HellResult<ShaderProgramScopeConfig>)
        ensures
            match r {
                Ok(s) => scope_type_from_seq(name@) == Some(s.scope_type) && s.buffers@ == buffers@ && s.samplers@
                    == samplers@,
                Err(e) => scope_type_from_seq(name@) is None && e.kind == HellErrorKind::RenderError && e.msg@
                    == "failed to parse shader scope"@,
            },
    {
        let scope_type = match scope_type_from_name(name) {
            Ok(t) => t,
            Err(e) => {
                return Err(e);
            },
        };
        Ok(ShaderProgramScopeConfig { scope_type, buffers, samplers })
    }

    /// The first buffer named `ident`.
    pub fn buffer(&self, ident: &str) -> (r: Option<&ShaderProgramBufferConfig>)
        ensures
            match r {
                Some(b) => exists|i: int|
                    0 <= i < self.buffers@.len() && self.buffers@[i] == *b && b.ident@ == ident@ && forall|j: int|
                        0 <= j < i ==> #[trigger] self.buffers@[j].ident@ != ident@,
                None => forall|j: int| 0 <= j < self.buffers@.len() ==> #[trigger] self.buffers@[j].ident@ != ident@,
            },
    {
        let mut i: usize = 0;
        while i < self.buffers.len()
            invariant
                i <= self.buffers@.len(),
                forall|j: int| 0 <= j < i ==> #[trigger] self.buffers@[j].ident@ != ident@,
            decreases self.buffers@.len() - i,
        {
            if str_eq(self.buffers[i].ident.as_str(), ident) {
                return Some(&self.buffers[i]);
            }
            i = i + 1;
        }
        None
    }

    /// The first sampler named `ident`.
    pub fn sampler(&self, ident: &str) -> (r: Option<&ShaderProgramSamplerConfig>)
        ensures
            match r {
                Some(s) => exists|i: int|
                    0 <= i < self.samplers@.len() && self.samplers@[i] == *s && s.ident@ == ident@ && forall|j: int|
                        0 <= j < i ==> #[trigger] self.samplers@[j].ident@ != ident@,
                None => forall|j: int| 0 <= j < self.samplers@.len() ==> #[trigger] self.samplers@[j].ident@ != ident@,
            },
    {
        let mut i: usize = 0;
        while i < self.samplers.len()
            invariant
                i <= self.samplers@.len(),
                forall|j: int| 0 <= j < i ==> #[trigger] self.samplers@[j].ident@ != ident@,
            decreases self.samplers@.len() - i,
        {
            if str_eq(self.samplers[i].ident.as_str(), ident) {
                return Some(&self.samplers[i]);
            }
            i = i + 1;
        }
        None
    }

    /// The scope's buffers as GLSL, each between markers (`Display`).
    pub fn to_text(&self) -> (r: String)
        ensures
            r@ == scope_buffers_text(scope_keyword(self.scope_type), self.buffers@),
    {
        let keyword = str_chars(self.scope_type.struct_typedef());
        let mut r: Vec<char> = Vec::new();
        let mut i: usize = 0;
        while i < self.buffers.len()
            invariant
                i <= self.buffers@.len(),
                keyword@ == scope_keyword(self.scope_type),
                r@ == scope_buffers_text(keyword@, self.buffers@.take(i as int)),
            decreases self.buffers@.len() - i,
        {
            append_chars(&mut r, str_chars("\n// start: scope '").as_slice());
            append_chars(&mut r, keyword.as_slice());
            append_chars(&mut r, str_chars("'\n").as_slice());
            append_chars(&mut r, self.buffers[i].to_text().as_slice());
            append_chars(&mut r, str_chars("\n").as_slice());
            append_chars(&mut r, str_chars("// end: scope '").as_slice());
            append_chars(&mut r, keyword.as_slice());
            append_chars(&mut r, str_chars("'\n\n").as_slice());
            proof {
                let bs = self.buffers@.take(i + 1);
                assert(bs.drop_last() =~= self.buffers@.take(i as int));
                assert(bs.last() == self.buffers@[i as int]);
            }
            i = i + 1;
        }
        assert(self.buffers@.take(i as int) =~= self.buffers@);
        chars_to_string(r.as_slice())
    }
}

// ----------------------------------------------------------------------------
// stages
// ----------------------------------------------------------------------------

/// A field of a scope that a stage uses.
#[derive(Debug)]
pub struct ShaderProgramUniformUsage {
    pub scope_type: ShaderScopeType,
    pub ident: String,
}

impl ShaderProgramUniformUsage {
    pub fn from_raw(scope_ident: &str, field_ident: &str) -> (r: HellResult<ShaderProgramUniformUsage>)
        ensures
            match r {
                Ok(u) => scope_type_from_seq(scope_ident@) == Some(u.scope_type) && u.ident@ == lowercase(
                    field_ident@,
                ),
                Err(e) => scope_type_from_seq(scope_ident@) is None && e.kind == HellErrorKind::RenderError && e.msg@
                    == "failed to parse shader scope"@,
            },
    {
        let scope_type = match scope_type_from_name(scope_ident) {
            Ok(t) => t,
            Err(e) => {
                return Err(e);
            },
        };
        Ok(ShaderProgramUniformUsage { scope_type, ident: to_lowercase(field_ident) })
    }
}

/// A stage of the program and the scope fields it uses.
#[derive(Debug)]
pub struct ShaderProgramShaderConfig {
    pub shader_type: ShaderType,
    pub uniform_usages: Vec<ShaderProgramUniformUsage>,
}

impl ShaderProgramShaderConfig {
    pub fn from_raw(shader_ident: &str, uniform_usages: Vec<ShaderProgramUniformUsage>) -> (r: HellResult<
        ShaderProgramShaderConfig,
    >)
        ensures
            match r {
                Ok(s) => shader_type_from_seq(shader_ident@) == Some(s.shader_type) && s.uniform_usages@
                    == uniform_usages@,
                Err(e) => shader_type_from_seq(shader_ident@) is None && e.kind == HellErrorKind::RenderError
                    && e.msg@ == "failed to parse shader type"@,
            },
    {
        let shader_type = match shader_type_from_name(shader_ident) {
            Ok(t) => t,
            Err(e) => {
                return Err(e);
            },
        };
        Ok(ShaderProgramShaderConfig { shader_type, uniform_usages })
    }
}

// ----------------------------------------------------------------------------
// program
// ----------------------------------------------------------------------------

/// A whole shader program: info, scopes and stages.
#[derive(Debug)]
pub struct ShaderProgramConfig {
    pub info: ShaderProgramInfoConfig,
    pub scopes: Vec<ShaderProgramScopeConfig>,
    pub shaders: Vec<ShaderProgramShaderConfig>,
}

impl ShaderProgramConfig {
    /// The first scope of type `scope_type`.
    pub fn scope_ref(&self, scope_type: ShaderScopeType) -> (r: Option<&ShaderProgramScopeConfig>)
        ensures
            match r {
                Some(s) => exists|i: int|
                    0 <= i < self.scopes@.len() && self.scopes@[i] == *s && s.scope_type == scope_type && forall|j: int|
                        0 <= j < i ==> #[trigger] self.scopes@[j].scope_type != scope_type,
                None => forall|j: int| 0 <= j < self.scopes@.len() ==> #[trigger] self.scopes@[j].scope_type != scope_type,
            },
    {
        let mut i: usize = 0;
        while i < self.scopes.len()
            invariant
                i <= self.scopes@.len(),
                forall|j: int| 0 <= j < i ==> #[trigger] self.scopes@[j].scope_type != scope_type,
            decreases self.scopes@.len() - i,
        {
            if self.scopes[i].scope_type == scope_type {
                return Some(&self.scopes[i]);
            }
            i = i + 1;
        }
        None
    }

    /// The first stage of type `shader_type`.
    pub fn shader_ref(&self, shader_type: ShaderType) -> (r: Option<&ShaderProgramShaderConfig>)
        ensures
            match r {
                Some(s) => exists|i: int|
                    0 <= i < self.shaders@.len() && self.shaders@[i] == *s && s.shader_type == shader_type && forall|
                        j: int,
                    |
                        0 <= j < i ==> #[trigger] self.shaders@[j].shader_type != shader_type,
                None => forall|j: int|
                    0 <= j < self.shaders@.len() ==> #[trigger] self.shaders@[j].shader_type != shader_type,
            },
    {
        let mut i: usize = 0;
        while i < self.shaders.len()
            invariant
                i <= self.shaders@.len(),
                forall|j: int| 0 <= j < i ==> #[trigger] self.shaders@[j].shader_type != shader_type,
            decreases self.shaders@.len() - i,
        {
            if self.shaders[i].shader_type == shader_type {
                return Some(&self.shaders[i]);
            }
            i = i + 1;
        }
        None
    }

    /// Leaves the configuration as it is: no indices are derived yet.
    pub fn update_indices(&mut self)
        ensures
            *final(self) == *old(self),
    {
    }
}

} // verus!
