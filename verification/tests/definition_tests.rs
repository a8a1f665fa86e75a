use hell_engine::error::HellErrorKind;
use hell_engine::glsl::{GlslType, ShaderScopeType, ShaderType};
use hell_engine::hell_pest::{
    CrapFile, CrapInfoDef, CrapInfoVarDef, CrapRawCode, CrapScopeDef, CrapShaderDef, CrapUniformBufferDef,
    CrapUniformSamplerDef, CrapUniformUsage, CrapVarUboDef, ParseNode, Rule,
};
use hell_engine::name_map::NameMap;
use hell_engine::shader_definition::{
    scope_type_from_name, shader_type_from_name, ShaderProgramBufferConfig, ShaderProgramConfig,
    ShaderProgramInfoConfig, ShaderProgramSamplerConfig, ShaderProgramScopeConfig, ShaderProgramShaderConfig,
    ShaderProgramUboVarConfig, ShaderProgramUniformUsage,
};
use hell_engine::text::{remove_char, replace_char, str_eq};

fn text(v: &[char]) -> String {
    v.iter().collect()
}

fn chars(s: &str) -> Vec<char> {
    s.chars().collect()
}

#[test]
fn lowercase_and_char_edits() {
    assert_eq!(ShaderProgramInfoConfig::from_raw("1", "Sprite/MAIN").name, "sprite/main");
    assert_eq!(text(&remove_char(&chars("\"a\"b\""), '"')), "ab");
    assert_eq!(text(&replace_char(&chars("a/b/c"), '/', '_')), "a_b_c");
    assert!(str_eq("abc", "abc"));
    assert!(!str_eq("abc", "abd"));
}

#[test]
fn info_config_from_raw() {
    let i = ShaderProgramInfoConfig::from_raw("V1.0", "\"Sprites/World\"");
    assert_eq!(i.version, "v1.0");
    assert_eq!(i.name, "sprites/world");
    assert_eq!(i.generate_path(), "sprites_world");
    let j = ShaderProgramInfoConfig::from_lowercase("v2".to_string(), "\"a\"/b".to_string());
    assert_eq!(j.name, "a/b");
    assert_eq!(j.generate_path(), "a_b");
}

#[test]
fn names_parse() {
    assert_eq!(scope_type_from_name(" global ").unwrap(), ShaderScopeType::Global);
    let e = scope_type_from_name("world").unwrap_err();
    assert_eq!(e.kind, HellErrorKind::RenderError);
    assert_eq!(e.msg, "failed to parse shader scope");
    assert_eq!(shader_type_from_name("frag").unwrap(), ShaderType::Fragment);
    assert_eq!(shader_type_from_name("geom").unwrap_err().msg, "failed to parse shader type");
}

fn camera_buffer() -> ShaderProgramBufferConfig {
    let vars = vec![
        ShaderProgramUboVarConfig::from_raw("mat4", "View").unwrap(),
        ShaderProgramUboVarConfig::from_raw("vec4", "TINT").unwrap(),
    ];
    ShaderProgramBufferConfig::from_raw("Camera", vars).unwrap()
}

#[test]
fn var_and_sampler_configs() {
    let v = ShaderProgramUboVarConfig::from_raw("mat4", "View").unwrap();
    assert_eq!(v.type_ubo, GlslType::Mat4);
    assert_eq!(v.ident, "view");
    assert_eq!(text(&v.to_text()), "mat4 view;");
    let e = ShaderProgramUboVarConfig::from_raw("MAT4", "x").unwrap_err();
    assert_eq!(e.msg, "failed to parse glsl-type");
    let s = ShaderProgramSamplerConfig::from_raw("sampler2D", "Atlas").unwrap();
    assert_eq!(s.type_sampler, GlslType::Sampler2d);
    assert_eq!(text(&s.to_text()), "// START: sampler 'atlas'\nsampler2D atlas;\n// END: sampler 'atlas'\n");
    assert!(ShaderProgramSamplerConfig::from_raw("texture", "a").is_err());
}

#[test]
fn buffer_text() {
    let b = camera_buffer();
    assert_eq!(b.ident, "camera");
    assert_eq!(
        text(&b.to_text()),
        "// START: buffer 'camera'\nlayout(set = 0, binding = 0) uniform camera_buffer_type {\n\tmat4 view;\n\tvec4 tint;\n} camera;\n// END: buffer 'camera'\n"
    );
}

#[test]
fn scope_config() {
    let s = ShaderProgramScopeConfig::from_raw(
        "global",
        vec![camera_buffer()],
        vec![ShaderProgramSamplerConfig::from_raw("sampler2D", "atlas").unwrap()],
    )
    .unwrap();
    assert_eq!(s.scope_type, ShaderScopeType::Global);
    assert_eq!(s.buffer("camera").unwrap().var_ubos.len(), 2);
    assert!(s.buffer("light").is_none());
    assert_eq!(s.sampler("atlas").unwrap().type_sampler, GlslType::Sampler2d);
    assert!(s.sampler("mask").is_none());
    let expected = format!(
        "\n// start: scope 'global'\n{}\n// end: scope 'global'\n\n",
        "// START: buffer 'camera'\nlayout(set = 0, binding = 0) uniform camera_buffer_type {\n\tmat4 view;\n\tvec4 tint;\n} camera;\n// END: buffer 'camera'\n"
    );
    assert_eq!(s.to_text(), expected);
    assert!(ShaderProgramScopeConfig::from_raw("world", vec![], vec![]).is_err());
}

#[test]
fn program_config_lookups() {
    let usage = ShaderProgramUniformUsage::from_raw("global", "View").unwrap();
    assert_eq!(usage.scope_type, ShaderScopeType::Global);
    assert_eq!(usage.ident, "view");
    assert!(ShaderProgramUniformUsage::from_raw("nowhere", "x").is_err());
    let vert = ShaderProgramShaderConfig::from_raw("vert", vec![usage]).unwrap();
    assert!(ShaderProgramShaderConfig::from_raw("compute", vec![]).is_err());
    let mut cfg = ShaderProgramConfig {
        info: ShaderProgramInfoConfig::from_raw("1", "n"),
        scopes: vec![
            ShaderProgramScopeConfig::from_raw("instance", vec![], vec![]).unwrap(),
            ShaderProgramScopeConfig::from_raw("global", vec![camera_buffer()], vec![]).unwrap(),
        ],
        shaders: vec![vert],
    };
    cfg.update_indices();
    assert_eq!(cfg.scope_ref(ShaderScopeType::Global).unwrap().buffers.len(), 1);
    assert!(cfg.scope_ref(ShaderScopeType::Local).is_none());
    assert_eq!(cfg.shader_ref(ShaderType::Vertex).unwrap().uniform_usages.len(), 1);
    assert!(cfg.shader_ref(ShaderType::Fragment).is_none());
}

fn leaf(rule: Rule, t: &str) -> ParseNode {
    ParseNode { rule, text: t.to_string(), children: vec![] }
}

fn node(rule: Rule, t: &str, children: Vec<ParseNode>) -> ParseNode {
    ParseNode { rule, text: t.to_string(), children }
}

fn info_decl() -> ParseNode {
    node(
        Rule::info_decl,
        "",
        vec![node(
            Rule::inner,
            "",
            vec![
                node(Rule::inner, "", vec![leaf(Rule::inner, "Version"), leaf(Rule::inner, "1.0")]),
                node(Rule::inner, "", vec![leaf(Rule::inner, "Name"), leaf(Rule::inner, "Sprite")]),
            ],
        )],
    )
}

fn scope_decl(name: &str) -> ParseNode {
    let buffer = node(
        Rule::uniform_buffer,
        "",
        vec![
            node(Rule::var_ubo, "", vec![leaf(Rule::inner, "MAT4"), leaf(Rule::inner, "View")]),
            node(Rule::var_ubo, "", vec![leaf(Rule::inner, "vec4"), leaf(Rule::inner, "Tint")]),
            leaf(Rule::inner, "Camera"),
        ],
    );
    let sampler = node(Rule::uniform_sampler, "", vec![leaf(Rule::inner, "sampler2D"), leaf(Rule::inner, "Atlas")]);
    node(Rule::scope_decl, "", vec![leaf(Rule::inner, name), node(Rule::inner, "", vec![buffer, sampler])])
}

fn shader_decl(name: &str, code: &str) -> ParseNode {
    node(
        Rule::shader_decl,
        "",
        vec![
            leaf(Rule::inner, name),
            node(
                Rule::inner,
                "",
                vec![
                    node(Rule::uniform_usage, "", vec![leaf(Rule::inner, "Global"), leaf(Rule::inner, "View")]),
                    leaf(Rule::inner, code),
                ],
            ),
        ],
    )
}

#[test]
fn crap_definitions() {
    let v = CrapInfoVarDef::new(&[leaf(Rule::inner, "Name"), leaf(Rule::inner, "Sprite")]);
    assert_eq!((v.ident.as_str(), v.val.as_str()), ("name", "sprite"));
    let i = CrapInfoDef::new(&info_decl().children);
    assert_eq!(i.crap_ver.val, "1.0");
    assert_eq!(i.name.val, "sprite");
    let u = CrapVarUboDef::new(&[leaf(Rule::inner, "MAT4"), leaf(Rule::inner, "View")]);
    assert_eq!((u.type_ubo.as_str(), u.ident.as_str()), ("mat4", "view"));
    let s = CrapUniformSamplerDef::new(&[leaf(Rule::inner, "sampler2D"), leaf(Rule::inner, "Atlas")]);
    // the sampler's type keeps its case
    assert_eq!((s.type_sampler.as_str(), s.ident.as_str()), ("sampler2D", "atlas"));
    let b = CrapUniformBufferDef::new(&scope_decl("x").children[1].children[0].children);
    assert_eq!(b.ident, "camera");
    assert_eq!(b.var_ubos.len(), 2);
    assert_eq!(b.var_ubos[1].ident, "tint");
    let sc = CrapScopeDef::new(&scope_decl("Global").children);
    assert_eq!(sc.name, "global");
    assert_eq!(sc.buffers.len(), 1);
    assert_eq!(sc.samplers.len(), 1);
    let us = CrapUniformUsage::new(&[leaf(Rule::inner, "Global"), leaf(Rule::inner, "View")]);
    assert_eq!((us.scope_ident.as_str(), us.field_ident.as_str()), ("global", "view"));
    let code = CrapRawCode::new(&leaf(Rule::inner, "void main() {}"));
    assert_eq!(code.code, "void main() {}");
    let sh = CrapShaderDef::new(&shader_decl("Vert", "void main() {}").children);
    assert_eq!(sh.name, "vert");
    assert_eq!(sh.uniform_usages.len(), 1);
    assert_eq!(sh.raw_code.code, "void main() {}");
}

#[test]
fn crap_file_reads_declarations() {
    let empty = CrapFile::new();
    assert!(empty.info.is_none());
    let pairs = vec![
        info_decl(),
        scope_decl("Global"),
        shader_decl("Vert", "a"),
        shader_decl("vert", "b"),
        leaf(Rule::EOI, ""),
    ];
    let f = CrapFile::from_pairs(&pairs);
    assert_eq!(f.info.as_ref().unwrap().name.val, "sprite");
    assert_eq!(f.scopes.get(&chars("global")).unwrap().buffers.len(), 1);
    assert!(!f.scopes.contains(&chars("Global")));
    // the later shader of the same name replaces the earlier one
    assert_eq!(f.shaders.get(&chars("vert")).unwrap().raw_code.code, "b");
}

#[test]
fn name_map_insert_get() {
    let mut m: NameMap<u32> = NameMap::new();
    assert!(!m.contains(&chars("a")));
    m.insert(&chars("a"), 1);
    m.insert(&chars("b"), 2);
    m.insert(&chars("a"), 3);
    assert_eq!(m.get(&chars("a")), Some(&3));
    assert_eq!(m.get(&chars("b")), Some(&2));
    assert_eq!(m.get(&chars("c")), None);
}
