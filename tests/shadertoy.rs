use sdf2mesh::shadertoy::{
    convert_glsl_to_wgsl, glsl_wrapper, remove_function_from_wgsl, rename_function_in_wgsl,
    wgsl_has_function, Shader, ShaderProcessingError, WgslShaderCode,
};

#[test]
fn remove_function() {
    let wgsl = r#"        
fn mainImage(fragColor: ptr<function, vec4<f32>>, fragCoord: vec2<f32>) {
    var fragCoord_1: vec2<f32>;

    fragCoord_1 = fragCoord;
    return;
}

fn main_1() {
    return;
}

@fragment
fn main() {
    main_1();
    return;
}
"#;

    let new_wgsl = remove_function_from_wgsl(wgsl, "fn main_1()").unwrap();

    assert!(new_wgsl.contains("fn mainImage(fragColor"));
    assert!(!new_wgsl.contains("fn main_1()"));

    let new_wgsl = remove_function_from_wgsl(&new_wgsl, "@fragment").unwrap();
    assert!(new_wgsl.contains("fn mainImage(fragColor"));

    assert!(!new_wgsl.contains("fn main()"));

    let new_wgsl = remove_function_from_wgsl(&new_wgsl, "fn mainImage(").unwrap();

    assert!(new_wgsl.trim().is_empty());
}

#[test]
fn rename_function() {
    let in_wgsl = r#"fn normal(p_4: vec3<f32>, epsilon: f32) -> vec3<f32>"#;
    let out_wgsl = rename_function_in_wgsl(in_wgsl, "normal", "sdf3d_normal").unwrap();

    assert!(out_wgsl.contains("fn sdf3d_normal(p_4: vec3<f32>, epsilon: f32) -> vec3<f32>"));
}

#[test]
fn test_naga() {
    let mut glsl = String::from("#version 450 core\n");

    glsl += Shader::default_uniform_block();

    glsl += r#"
vec3 c = vec3(0.0, 0.0, 0.0);
const float r = 1.0;
float distance_from_sphere(vec3 p, vec3 c, float r)
{
    return distance(p, c) - r;
}

float sdf3d(vec3 p)
{
    float sphere_0 = distance_from_sphere(p, c, r);
    
    // set displacement
    float displacement = sin(5.0 * p.x) * sin(5.0 * p.y) * sin(5.0 * p.z) * 0.25 * sin(2.f * iTime);
    
    return sphere_0 + displacement;
}

vec3 sdf3d_normal(in vec3 p, in float epsilon)
{
    const vec3 small_step = vec3(epsilon, 0.0, 0.0);

    float gradient_x = sdf3d(p + small_step.xyy) - sdf3d(p - small_step.xyy);
    float gradient_y = sdf3d(p + small_step.yxy) - sdf3d(p - small_step.yxy);
    float gradient_z = sdf3d(p + small_step.yyx) - sdf3d(p - small_step.yyx);

    vec3 normal = vec3(gradient_x, gradient_y, gradient_z);

    return normalize(normal);
}

void mainImage( out vec4 fragColor, in vec2 fragCoord ) {}

"#;
    glsl += r#" void main() {}"#;

    let wgsl = convert_glsl_to_wgsl(&glsl).unwrap();

    println!("{}", wgsl);
}

#[test]
fn removal_keeps_trimmed_lines_with_newlines() {
    let wgsl = "  a\nfn f() {\n  x;\n  return;\n}\n b \n";
    let out = remove_function_from_wgsl(wgsl, "fn f(").unwrap();
    assert_eq!(out, "a\nb\n");
}

#[test]
fn removal_of_missing_function_is_an_error() {
    match remove_function_from_wgsl("fn g() {\n}\n", "fn f(") {
        Err(ShaderProcessingError::ShaderError(m)) => {
            assert_eq!(m, "Function fn f( not found in shader")
        }
        _ => panic!("expected a shader error"),
    }
}

#[test]
fn has_function_matches_header_only() {
    let wgsl = "  fn sdf(p: vec3<f32>) -> f32 {\n return 1.0;\n}\n";
    assert!(wgsl_has_function(wgsl, "sdf").unwrap());
    match wgsl_has_function(wgsl, "sd") {
        Err(ShaderProcessingError::ShaderError(m)) => {
            assert_eq!(m, "Function sd not found in shader")
        }
        _ => panic!("expected a shader error"),
    }
    let code = WgslShaderCode(wgsl.to_string());
    assert!(code.has_function("sdf"));
    assert!(!code.has_function("normal"));
}

#[test]
fn rename_replaces_first_occurrence_and_reports_missing() {
    let out = rename_function_in_wgsl("  fn a(x: f32) {\n  a(x);\n}", "a", "b").unwrap();
    assert_eq!(out, "fn b(x: f32) {a(x);\n}\n");
    match rename_function_in_wgsl("fn c() {}", "a", "b") {
        Err(ShaderProcessingError::ShaderError(m)) => {
            assert_eq!(m, "Function `a` not found in shader")
        }
        _ => panic!("expected a shader error"),
    }
}

#[test]
fn wgsl_code_edits() {
    let mut code = WgslShaderCode(String::from("fn main() {\nreturn;\n}\n"));
    code.add_line("fn extra() {}");
    assert_eq!(code.to_string(), "fn main() {\nreturn;\n}\nfn extra() {}\n");
    code.remove_function("fn main(").unwrap();
    assert_eq!(code.to_string(), "fn extra() {}\n");
    assert!(code.remove_function("fn main(").is_err());
    assert_eq!(code.to_string(), "fn extra() {}\n");
    code.rename_function("extra", "more").unwrap();
    assert_eq!(code.to_string(), "fn more() {}");
}

#[test]
fn glsl_wrapper_frames_code() {
    let glsl = glsl_wrapper("float f;");
    assert!(glsl.starts_with("#version 450 core\n"));
    assert!(glsl.ends_with("float f; void main() {}"));
    assert!(glsl.contains("uniform float     iTime;"));
}

#[test]
fn invalid_glsl_is_a_parse_error() {
    match convert_glsl_to_wgsl("#version 450 core\nthis is not glsl") {
        Err(ShaderProcessingError::ParseError(_)) => {}
        _ => panic!("expected a parse error"),
    }
}
