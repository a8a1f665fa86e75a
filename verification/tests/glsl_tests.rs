use hell_engine::error::HellErrorKind;
use hell_engine::glsl::{
    GlslType, GlslVarDeclaration, HellInstruction, HellLine, InstructionKind, ScopeInfo, ShaderInfo, ShaderParser,
    ShaderScopeType, ShaderType,
};

fn chars(s: &str) -> Vec<char> {
    s.chars().collect()
}

fn text(v: &[char]) -> String {
    v.iter().collect()
}

#[test]
fn glsl_type_keywords() {
    assert_eq!(GlslType::Bool.to_str(), "bool");
    assert_eq!(GlslType::UVec3.to_str(), "uvec3");
    assert_eq!(GlslType::DMat4.to_str(), "dmat4");
    assert_eq!(GlslType::Sampler2d.to_str(), "sampler2D");
    assert_eq!(GlslType::Sampler2dArray.to_str(), "sampler2DArray");
}

#[test]
fn glsl_type_is_sampler() {
    assert!(GlslType::Sampler2d.is_sampler());
    assert!(GlslType::Sampler2dArray.is_sampler());
    assert!(!GlslType::Mat4.is_sampler());
    assert!(!GlslType::Float.is_sampler());
}

#[test]
fn glsl_type_keyword_parses_back() {
    let all = [
        GlslType::Bool, GlslType::Int, GlslType::UInt, GlslType::Float, GlslType::BVec2, GlslType::BVec3,
        GlslType::BVec4, GlslType::IVec2, GlslType::IVec3, GlslType::IVec4, GlslType::UVec2, GlslType::UVec3,
        GlslType::UVec4, GlslType::Vec2, GlslType::Vec3, GlslType::Vec4, GlslType::DVec2, GlslType::DVec3,
        GlslType::DVec4, GlslType::Mat2, GlslType::Mat3, GlslType::Mat4, GlslType::DMat2, GlslType::DMat3,
        GlslType::DMat4, GlslType::Sampler2d, GlslType::Sampler2dArray,
    ];
    for t in all {
        assert_eq!(GlslType::parse_chars(&chars(t.to_str())), Some(t));
        assert_eq!(GlslType::from_str(t.to_str()).unwrap(), t);
    }
}

#[test]
fn glsl_type_from_str_rejects_unknown() {
    assert_eq!(GlslType::parse_chars(&chars("Mat4")), None);
    assert_eq!(GlslType::parse_chars(&chars("sampler2d")), None);
    let e = GlslType::from_str("vec5").unwrap_err();
    assert_eq!(e.kind, HellErrorKind::RenderError);
    assert_eq!(e.msg, "failed to parse glsl-type");
}

#[test]
fn scope_type_names() {
    assert_eq!(ShaderScopeType::Global.struct_name(), "GlobalUbo");
    assert_eq!(ShaderScopeType::Shared.struct_name(), "SharedUbo");
    assert_eq!(ShaderScopeType::Instance.struct_name(), "InstanceUbo");
    assert_eq!(ShaderScopeType::Local.struct_name(), "LocalUbo");
    assert_eq!(ShaderScopeType::Global.struct_typedef(), "global");
    assert_eq!(ShaderScopeType::Local.struct_typedef(), "local");
    assert_eq!(ShaderScopeType::default(), ShaderScopeType::Global);
}

#[test]
fn scope_type_from_usize_and_index() {
    assert_eq!(ShaderScopeType::from_usize(0), Some(ShaderScopeType::Global));
    assert_eq!(ShaderScopeType::from_usize(2), Some(ShaderScopeType::Instance));
    assert_eq!(ShaderScopeType::from_usize(4), None);
    assert_eq!(ShaderScopeType::Local.index(), 3);
}

#[test]
fn scope_type_parse_trims() {
    assert_eq!(ShaderScopeType::parse_txt(&chars("  instance \t")), Some(ShaderScopeType::Instance));
    assert_eq!(ShaderScopeType::parse_txt(&chars("shared")), Some(ShaderScopeType::Shared));
    assert_eq!(ShaderScopeType::parse_txt(&chars("Global")), None);
    assert_eq!(ShaderScopeType::parse_txt(&chars("")), None);
}

#[test]
fn shader_type_parse() {
    assert_eq!(ShaderType::parse_txt(&chars(" vert")), Some(ShaderType::Vertex));
    assert_eq!(ShaderType::parse_txt(&chars("vertex")), Some(ShaderType::Vertex));
    assert_eq!(ShaderType::parse_txt(&chars("frag")), Some(ShaderType::Fragment));
    assert_eq!(ShaderType::parse_txt(&chars("fragment")), Some(ShaderType::Fragment));
    // only leading whitespace is trimmed
    assert_eq!(ShaderType::parse_txt(&chars("vert ")), None);
    assert_eq!(ShaderType::parse_txt(&chars("geom")), None);
    assert_eq!(ShaderType::Fragment.index(), 1);
}

#[test]
fn instructions_parse() {
    assert_eq!(
        HellInstruction::parse_txt(&chars(" scope global")),
        Some(HellInstruction::DefineScope(ShaderScopeType::Global))
    );
    assert_eq!(
        HellInstruction::parse_txt(&chars("use-scope local")),
        Some(HellInstruction::UseScope(ShaderScopeType::Local))
    );
    assert_eq!(
        HellInstruction::parse_txt(&chars("shader frag")),
        Some(HellInstruction::DefineShader(ShaderType::Fragment))
    );
    assert_eq!(HellInstruction::parse_txt(&chars("scope nowhere")), None);
    assert_eq!(HellInstruction::parse_txt(&chars("uniform x")), None);
}

#[test]
fn instruction_generators() {
    assert_eq!(
        HellInstruction::define_scope(&chars(" shared")),
        Some(HellInstruction::DefineScope(ShaderScopeType::Shared))
    );
    assert_eq!(
        HellInstruction::use_scope(&chars("instance")),
        Some(HellInstruction::UseScope(ShaderScopeType::Instance))
    );
    assert_eq!(
        HellInstruction::define_shader(&chars("vertex")),
        Some(HellInstruction::DefineShader(ShaderType::Vertex))
    );
    assert_eq!(HellInstruction::define_shader(&chars("pixel")), None);
    assert_eq!(
        HellInstruction::check_txt(&chars("scope"), &chars("scope local"), InstructionKind::DefineScope),
        Some(HellInstruction::DefineScope(ShaderScopeType::Local))
    );
    assert_eq!(HellInstruction::check_txt(&chars("scope"), &chars("shader vert"), InstructionKind::DefineScope), None);
}

#[test]
fn var_declaration_parse_and_text() {
    let d = GlslVarDeclaration::parse_txt(&chars("   mat4 view_proj;")).unwrap();
    assert_eq!(d.var_type, GlslType::Mat4);
    assert_eq!(text(&d.var_name), "view_proj");
    assert_eq!(text(&d.to_text()), "mat4 view_proj;");
    let c = d.duplicate();
    assert_eq!(text(&c.var_name), "view_proj");
    assert!(GlslVarDeclaration::parse_txt(&chars("void main()")).is_none());
    assert!(GlslVarDeclaration::parse_txt(&chars("mat4")).is_none());
}

#[test]
fn line_classification() {
    assert!(matches!(
        HellLine::parce_line(&chars("  #hell scope global  ")),
        HellLine::Instruction(HellInstruction::DefineScope(ShaderScopeType::Global))
    ));
    match HellLine::parce_line(&chars("#hell bogus")) {
        HellLine::Invalid(t) => assert_eq!(text(&t), "#hell bogus"),
        _ => panic!("expected an invalid line"),
    }
    match HellLine::parce_line(&chars("\tvec4 tint;")) {
        HellLine::UniformDeclaration(d) => {
            assert_eq!(d.var_type, GlslType::Vec4);
            assert_eq!(text(&d.var_name), "tint");
        },
        _ => panic!("expected a declaration"),
    }
    match HellLine::parce_line(&chars("// a note")) {
        HellLine::Comment(t) => assert_eq!(text(&t), " a note"),
        _ => panic!("expected a comment"),
    }
    match HellLine::parce_line(&chars("  void main() {} ")) {
        HellLine::PlainText(t) => assert_eq!(text(&t), "void main() {}"),
        _ => panic!("expected plain text"),
    }
}

#[test]
fn scope_info_text() {
    let mut s = ScopeInfo::new(ShaderScopeType::Instance);
    assert_eq!(text(&s.to_text()), "");
    s.is_used = true;
    s.uniforms.push(GlslVarDeclaration::parse_txt(&chars("vec4 tint;")).unwrap());
    s.finalize(2);
    assert_eq!(s.set, 2);
    assert_eq!(
        text(&s.to_text()),
        "layout(set = 2, binding = 0) InstanceUbo {\n\tvec4 tint;\n} instance;\n"
    );
}

#[test]
fn shader_info_text() {
    let mut s = ShaderInfo::default();
    assert!(!s.is_used);
    s.body = chars("void main() {}\n");
    assert_eq!(text(&s.to_text()), "void main() {}\n");
}

const DESCRIPTION: &str = "#hell scope global\nmat4 view;\nmat4 proj;\n#hell scope instance\nvec4 tint;\n#hell shader vert\nvoid main() {}\n#hell shader frag\nout vec4 color;\n";

#[test]
fn parser_writes_used_scopes_then_the_stage_slot() {
    let mut p = ShaderParser::new(DESCRIPTION);
    p.process().unwrap();
    p.finalize();
    let global = "layout(set = 0, binding = 0) GlobalUbo {\n\tmat4 view;\n\tmat4 proj;\n} global;\n";
    // the instance definition is consumed as the end marker of the global scope
    assert_eq!(p.write_shader(ShaderType::Vertex), format!("{}\n{}\n", global, global));
    assert_eq!(p.write_shader(ShaderType::Fragment), format!("{}\n\n", global));
}

#[test]
fn parser_numbers_used_scopes_in_order() {
    // a scope ends at the next scope definition, which is consumed with it
    let raw = "#hell scope shared\nfloat a;\n#hell scope global\n#hell scope local\nint b;\n";
    let mut p = ShaderParser::new(raw);
    p.process().unwrap();
    p.finalize();
    let shared = "layout(set = 0, binding = 0) SharedUbo {\n\tfloat a;\n} shared;\n";
    let local = "layout(set = 1, binding = 0) LocalUbo {\n\tint b;\n} local;\n";
    assert_eq!(p.write_shader(ShaderType::Fragment), format!("{}\n{}\n{}\n", shared, local, shared));
}

#[test]
fn parser_on_empty_input_writes_blank_line() {
    let mut p = ShaderParser::new("");
    p.process().unwrap();
    p.finalize();
    assert_eq!(p.write_shader(ShaderType::Vertex), "\n");
}

#[test]
fn scope_keyword_with_any_unicode_whitespace() {
    assert_eq!(ShaderScopeType::parse_txt(&chars("\u{3000}global\u{85}\n")), Some(ShaderScopeType::Global));
    assert_eq!(ShaderScopeType::parse_txt(&chars("\u{a0}local\u{2029}")), Some(ShaderScopeType::Local));
    // a zero-width space is no whitespace
    assert_eq!(ShaderScopeType::parse_txt(&chars("\u{200b}global")), None);
    assert_eq!(ShaderScopeType::parse_txt(&chars("globals")), None);
}

#[test]
fn declaration_text_parses_back() {
    for src in ["vec4 tint;", "mat4 view;", "sampler2D atlas;"] {
        let d = GlslVarDeclaration::parse_txt(&chars(src)).unwrap();
        let again = GlslVarDeclaration::parse_txt(&d.to_text()).unwrap();
        assert_eq!(again.var_type, d.var_type);
        assert_eq!(again.var_name, d.var_name);
        assert_eq!(text(&again.to_text()), src);
    }
}
