use vstd::prelude::*;
use crate::run_select::{digits_value, is_ascii_digit, parsed_i32};

verus! {

/// Vertex stage and uniforms shared by every generated sprite shader.
pub const VERTEX_STAGE: &'static str = r#"
struct GlobalUniforms {
    screen_size: vec2<f32>,
}

@group(1) @binding(0)
var<uniform> global_uniforms: GlobalUniforms;

struct VertexInput {
    @location(0) position: vec2<f32>,
    @location(1) tex_coords: vec2<f32>,
}

struct SpriteInstanceInput {
    @location(2) display_position: vec2<f32>,
    @location(3) display_size: vec2<f32>,
    @location(4) uv_offset: vec2<f32>,
    @location(5) uv_size: vec2<f32>,
    @location(6) texture_index: u32,
}

struct VertexOutput {
    @builtin(position) clip_position: vec4<f32>,
    @location(0) tex_coords: vec2<f32>,
    @location(1) @interpolate(flat) texture_index: u32,
}

@vertex
fn vs_main(model: VertexInput, instance: SpriteInstanceInput) -> VertexOutput {
    var out: VertexOutput;
    out.tex_coords = instance.uv_offset + model.tex_coords * instance.uv_size;
    let pixel_pos = instance.display_position + model.position * instance.display_size;
    let ndc_x = (pixel_pos.x / global_uniforms.screen_size.x) * 2.0 - 1.0;
    let ndc_y = 1.0 - (pixel_pos.y / global_uniforms.screen_size.y) * 2.0;
    out.clip_position = vec4<f32>(ndc_x, ndc_y, 0.0, 1.0);
    out.texture_index = instance.texture_index;
    return out;
}
"#;

/// Opening of the fragment stage, up to the texture switch.
pub const FRAGMENT_HEAD: &'static str = r#"
@fragment
fn fs_main(in: VertexOutput) -> @location(0) vec4<f32> {
    switch in.texture_index {
"#;

/// The switch arm taken for index 0 and for any index without a case.
pub const DEFAULT_ARM: &'static str = "        default: {\n            return textureSample(t_texture0, s_sampler, in.tex_coords);\n        }\n";

/// Closes the switch and the fragment function.
pub const FRAGMENT_TAIL: &'static str = r#"
    }
}
"#;

/// The character of a decimal digit.
pub open spec fn digit_char(d: nat) -> char {
    if d == 0 {
        '0'
    } else if d == 1 {
        '1'
    } else if d == 2 {
        '2'
    } else if d == 3 {
        '3'
    } else if d == 4 {
        '4'
    } else if d == 5 {
        '5'
    } else if d == 6 {
        '6'
    } else if d == 7 {
        '7'
    } else if d == 8 {
        '8'
    } else {
        '9'
    }
}

/// The decimal notation of `n`, without leading zeros.
pub open spec fn decimal(n: nat) -> Seq<char>
    decreases n,
{
    if n < 10 {
        seq![digit_char(n)]
    } else {
        decimal(n / 10) + seq![digit_char(n % 10)]
    }
}

proof fn lemma_digit_char(d: nat)
    requires
        d < 10,
    ensures
        digit_char(d) as u32 == 48 + d,
{
    assert('0' as u32 == 48 && '1' as u32 == 49 && '2' as u32 == 50 && '3' as u32 == 51 && '4' as u32
        == 52 && '5' as u32 == 53 && '6' as u32 == 54 && '7' as u32 == 55 && '8' as u32 == 56
        && '9' as u32 == 57);
}

/// The decimal notation written into the shader denotes the number: it is
/// made of ASCII digits whose value is `n`, so it reads back as `n`.
pub proof fn lemma_decimal_reads_back(n: nat)
    ensures
        decimal(n).len() > 0,
        forall|i: int| 0 <= i < decimal(n).len() ==> is_ascii_digit(#[trigger] decimal(n)[i]),
        digits_value(decimal(n)) == n,
        n <= i32::MAX ==> parsed_i32(decimal(n)) == Some(n as i32),
    decreases n,
{
    lemma_digit_char((n % 10) as nat);
    if n < 10 {
        let d = decimal(n);
        assert(d.drop_last() =~= Seq::<char>::empty());
        assert(d.last() == digit_char(n));
        assert(digits_value(d) == digits_value(d.drop_last()) * 10 + ((d.last() as u32) - 48));
    }
    if n >= 10 {
        lemma_decimal_reads_back(n / 10);
        let d = decimal(n);
        assert(d.drop_last() =~= decimal(n / 10));
        assert(d.last() == digit_char((n % 10) as nat));
        assert(digits_value(d) == digits_value(d.drop_last()) * 10 + ((d.last() as u32) - 48));
        assert((n / 10) * 10 + n % 10 == n);
        assert forall|i: int| 0 <= i < d.len() implies is_ascii_digit(#[trigger] d[i]) by {
            if i < d.len() - 1 {
                assert(d[i] == decimal(n / 10)[i]);
            }
        }
    }
    let d = decimal(n);
    if n <= i32::MAX {
        assert(forall|i: int| 0 <= i < d.len() ==> is_ascii_digit(#[trigger] d[i]));
        assert(d[0] != '-' && d[0] != '+') by {
            assert(is_ascii_digit(d[0]));
        }
    }
}

/// The declaration of texture binding `i`.
pub open spec fn texture_decl(i: nat) -> Seq<char> {
    "@group(0) @binding("@ + decimal(i) + ") var t_texture"@ + decimal(i)
        + ": texture_2d<f32>;\n"@
}

/// The declarations of texture bindings `0..count`.
pub open spec fn texture_decls(count: nat) -> Seq<char>
    decreases count,
{
    if count == 0 {
        Seq::empty()
    } else {
        texture_decls((count - 1) as nat) + texture_decl((count - 1) as nat)
    }
}

/// The declaration of the sampler at binding `binding`.
pub open spec fn sampler_decl(binding: nat) -> Seq<char> {
    "@group(0) @binding("@ + decimal(binding) + ") var s_sampler: sampler;\n"@
}

/// The switch arm that samples texture `i`.
pub open spec fn case_arm(i: nat) -> Seq<char> {
    "        case "@ + decimal(i) + ": {\n            return textureSample(t_texture"@ + decimal(i)
        + ", s_sampler, in.tex_coords);\n        }\n"@
}

/// The switch arms for indices `1..count`.
pub open spec fn case_arms(count: nat) -> Seq<char>
    decreases count,
{
    if count <= 1 {
        Seq::empty()
    } else {
        case_arms((count - 1) as nat) + case_arm((count - 1) as nat)
    }
}

/// The WGSL source of a sprite shader that samples `count` textures: the
/// vertex stage, `count` texture bindings followed by the sampler binding,
/// and a fragment stage that switches on the instance's texture index.
pub open spec fn multi_texture_source(count: nat) -> Seq<char> {
    VERTEX_STAGE@ + texture_decls(count) + sampler_decl(count) + FRAGMENT_HEAD@ + case_arms(count)
        + DEFAULT_ARM@ + FRAGMENT_TAIL@
}

/// The one-character string of a decimal digit.
fn digit_str(d: u32) -> (s: &'static str)
    requires
        d < 10,
    ensures
        s@ == seq![digit_char(d as nat)],
{
    proof {
        reveal_strlit("0");
        reveal_strlit("1");
        reveal_strlit("2");
        reveal_strlit("3");
        reveal_strlit("4");
        reveal_strlit("5");
        reveal_strlit("6");
        reveal_strlit("7");
        reveal_strlit("8");
        reveal_strlit("9");
    }
    let s = match d {
        0 => "0",
        1 => "1",
        2 => "2",
        3 => "3",
        4 => "4",
        5 => "5",
        6 => "6",
        7 => "7",
        8 => "8",
        _ => "9",
    };
    assert(s@ =~= seq![digit_char(d as nat)]);
    s
}

/// Appends the decimal notation of `n`.
fn push_decimal(s: &mut String, n: u32)
    ensures
        final(s)@ == old(s)@ + decimal(n as nat),
    decreases n,
{
    if n >= 10 {
        push_decimal(s, n / 10);
    }
    s.append(digit_str(n % 10));
    assert(s@ =~= old(s)@ + decimal(n as nat));
}

/// A generated WGSL shader.
pub struct DynamicShader {
    pub source: String,
}

impl DynamicShader {
    /// Builds a sprite shader for a device that allows `max_sampled_textures`
    /// sampled bindings per stage: one goes to the sampler, the rest
    /// (`max_sampled_textures - 1`, at least 0) to textures.
    pub fn create_multiple_texture(max_sampled_textures: u32) -> (shader: Self)
        ensures
            shader.source@ == multi_texture_source(
                (if max_sampled_textures == 0 { 0 } else { max_sampled_textures - 1 }) as nat,
            ),
    {
        let texture_count = max_sampled_textures.saturating_sub(1);
        let mut shader_source = String::new();
        shader_source.append(VERTEX_STAGE);
        let ghost head = shader_source@;
        let mut i: u32 = 0;
        while i < texture_count
            invariant
                0 <= i <= texture_count,
                shader_source@ == head + texture_decls(i as nat),
            decreases texture_count - i,
        {
            shader_source.append("@group(0) @binding(");
            push_decimal(&mut shader_source, i);
            shader_source.append(") var t_texture");
            push_decimal(&mut shader_source, i);
            shader_source.append(": texture_2d<f32>;\n");
            assert(shader_source@ =~= head + texture_decls((i + 1) as nat));
            i += 1;
        }
        let sampler_binding_idx = texture_count;
        shader_source.append("@group(0) @binding(");
        push_decimal(&mut shader_source, sampler_binding_idx);
        shader_source.append(") var s_sampler: sampler;\n");
        shader_source.append(FRAGMENT_HEAD);
        let ghost arms_start = shader_source@;
        let mut i: u32 = 1;
        assert(case_arms(1) =~= Seq::<char>::empty());
        while i < texture_count
            invariant
                1 <= i,
                i <= texture_count || i == 1,
                shader_source@ == arms_start + case_arms(i as nat),
            decreases texture_count - i,
        {
            shader_source.append("        case ");
            push_decimal(&mut shader_source, i);
            shader_source.append(": {\n            return textureSample(t_texture");
            push_decimal(&mut shader_source, i);
            shader_source.append(", s_sampler, in.tex_coords);\n        }\n");
            assert(shader_source@ =~= arms_start + case_arms((i + 1) as nat));
            i += 1;
        }
        assert(case_arms(i as nat) == case_arms(texture_count as nat));
        shader_source.append(DEFAULT_ARM);
        shader_source.append(FRAGMENT_TAIL);
        assert(shader_source@ =~= multi_texture_source(texture_count as nat));
        DynamicShader { source: shader_source }
    }
}

} // verus!
