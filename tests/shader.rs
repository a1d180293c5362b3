use sdf2mesh::grid3d::{round_up_resolution, sign_pattern_from_bits};
use sdf2mesh::shader::{shader_directive, Sdf3DShader, ShaderDirective};
use sdf2mesh::shadertoy::{
    RenderPass, Shader, ShaderProcessingError, ShaderToyApiResponse, WgslShaderCode,
};

#[test]
fn directives_of_source_lines() {
    assert_eq!(
        shader_directive("  use sdf3d::primitives;  "),
        ShaderDirective::Use("sdf3d::primitives".to_string())
    );
    assert_eq!(
        shader_directive("use \"sdf::op\";"),
        ShaderDirective::Use("sdf::op".to_string())
    );
    assert_eq!(
        shader_directive("include \"lib/shapes.wgsl\";"),
        ShaderDirective::Include("lib/shapes.wgsl".to_string())
    );
    // A directive keyword without the closing semicolon is plain text.
    assert_eq!(shader_directive("use sdf::op"), ShaderDirective::Text);
    assert_eq!(shader_directive("let used = 1.0;"), ShaderDirective::Text);
    assert_eq!(shader_directive("fn f() -> f32 {"), ShaderDirective::Text);
}

#[test]
fn module_table() {
    let mut s = Sdf3DShader::default();
    assert!(s.source.is_empty() && s.modules.is_empty());
    s.add_module("sdf::op", "fn op() {}\n");
    s.add_module("sdf3d::normal", "fn normal() {}\n");
    s.add_module("sdf::op", "shadowed");
    assert_eq!(s.module_source("sdf::op"), Some("fn op() {}\n".to_string()));
    assert_eq!(s.module_source("sdf3d::normal"), Some("fn normal() {}\n".to_string()));
    assert_eq!(s.module_source("sdf3d::*"), None);
    s.add_to_source("fn a() {}\n");
    s.add_to_source("fn b() {}\n");
    assert_eq!(s.source, "fn a() {}\nfn b() {}\n");
}

#[test]
fn sdf_entry_point() {
    let mut code = WgslShaderCode("fn sdf(p: vec3<f32>) -> f32 {\nreturn 1.0;\n}\n".to_string());
    code.attach_sdf_entry("sdf").unwrap();
    assert!(code.has_function("sdf3d"));
    assert!(code
        .to_string()
        .ends_with("fn sdf3d(p: vec3<f32>) -> f32 { return sdf(p); }\n"));
    let before = code.to_string();
    code.attach_sdf_entry("sdf").unwrap();
    assert_eq!(code.to_string(), before);
    match code.attach_sdf_entry("box") {
        Err(ShaderProcessingError::MissingSdf(name)) => assert_eq!(name, "box"),
        _ => panic!("expected a missing SDF"),
    }
    assert_eq!(code.to_string(), before);
}

#[test]
fn line_removal() {
    let mut code = WgslShaderCode("a\n  @fragment \nfn main() {}\n@fragment x\n".to_string());
    code.remove_line("@fragment");
    assert_eq!(code.to_string(), "a\nfn main() {}\n@fragment x\n");
}

#[test]
fn api_answers() {
    let ok = ShaderToyApiResponse::Shader(Shader::default()).into_shader();
    assert!(ok.is_ok());
    match ShaderToyApiResponse::Error("no such shader".to_string()).into_shader() {
        Err(ShaderProcessingError::ShaderError(m)) => assert_eq!(m, "no such shader"),
        _ => panic!("expected a shader error"),
    }
}

#[test]
fn last_pass_code() {
    let mut shader = Shader::default();
    assert_eq!(shader.fetch_code_from_last_pass(), None);
    let mut first = RenderPass::default();
    first.code = "first".to_string();
    let mut last = RenderPass::default();
    last.code = "float sdf(vec3 p) { return length(p) - 1.0; }".to_string();
    shader.renderpass.push(first);
    shader.renderpass.push(last);
    assert_eq!(
        shader.fetch_code_from_last_pass(),
        Some("float sdf(vec3 p) { return length(p) - 1.0; }".to_string())
    );
    let wgsl = shader.generate_wgsl_shader_code().unwrap();
    assert!(wgsl.has_function("sdf"));
}

#[test]
fn resolutions_round_up_to_powers_of_two() {
    assert_eq!(round_up_resolution(0), 0);
    assert_eq!(round_up_resolution(1), 1);
    assert_eq!(round_up_resolution(256), 256);
    assert_eq!(round_up_resolution(3), 4);
    assert_eq!(round_up_resolution(100), 128);
    assert_eq!(round_up_resolution(257), 512);
    assert_eq!(round_up_resolution(0x8000_0000), 0x8000_0000);
    assert_eq!(round_up_resolution(0x8000_0001), 0);
}

#[test]
fn gpu_sign_bits() {
    assert_eq!(sign_pattern_from_bits(0), (false, false, false, false));
    assert_eq!(sign_pattern_from_bits(0b1001), (true, false, false, true));
    assert_eq!(sign_pattern_from_bits(0b0110), (false, true, true, false));
    assert_eq!(sign_pattern_from_bits(0b1_0100), (false, false, true, false));
}
