use wgpu_2d_sample::shader::{DynamicShader, DEFAULT_ARM, FRAGMENT_HEAD, FRAGMENT_TAIL, VERTEX_STAGE};

fn expected_source(texture_count: u32) -> String {
    let mut s = String::new();
    s.push_str(VERTEX_STAGE);
    for i in 0..texture_count {
        s.push_str(&format!("@group(0) @binding({}) var t_texture{}: texture_2d<f32>;\n", i, i));
    }
    s.push_str(&format!("@group(0) @binding({}) var s_sampler: sampler;\n", texture_count));
    s.push_str(FRAGMENT_HEAD);
    for i in 1..texture_count {
        s.push_str(&format!(
            "        case {}: {{\n            return textureSample(t_texture{}, s_sampler, in.tex_coords);\n        }}\n",
            i, i
        ));
    }
    s.push_str(DEFAULT_ARM);
    s.push_str(FRAGMENT_TAIL);
    s
}

#[test]
fn one_binding_goes_to_the_sampler() {
    let shader = DynamicShader::create_multiple_texture(3);
    assert_eq!(shader.source, expected_source(2));
    assert!(shader.source.contains("@group(0) @binding(1) var t_texture1: texture_2d<f32>;\n"));
    assert!(shader.source.contains("@group(0) @binding(2) var s_sampler: sampler;\n"));
    assert!(shader.source.contains("        case 1: {\n"));
    assert!(!shader.source.contains("case 0:"));
}

#[test]
fn multi_digit_bindings() {
    let shader = DynamicShader::create_multiple_texture(16);
    assert_eq!(shader.source, expected_source(15));
    assert!(shader.source.contains("@group(0) @binding(14) var t_texture14: texture_2d<f32>;\n"));
    assert!(shader.source.contains("@group(0) @binding(15) var s_sampler: sampler;\n"));
    assert!(shader.source.contains("        case 10: {\n            return textureSample(t_texture10,"));
}

#[test]
fn no_textures_without_spare_bindings() {
    for max in [0u32, 1] {
        let shader = DynamicShader::create_multiple_texture(max);
        assert_eq!(shader.source, expected_source(0));
        assert!(shader.source.contains("@group(0) @binding(0) var s_sampler: sampler;\n"));
        assert!(!shader.source.contains("t_texture0: texture_2d"));
    }
}

#[test]
fn shader_starts_with_vertex_stage_and_ends_with_default_arm() {
    let shader = DynamicShader::create_multiple_texture(9);
    assert!(shader.source.starts_with("\nstruct GlobalUniforms {\n"));
    assert!(shader.source.ends_with(
        "        default: {\n            return textureSample(t_texture0, s_sampler, in.tex_coords);\n        }\n\n    }\n}\n"
    ));
}
