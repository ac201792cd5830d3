use wgpu_2d_sample::surface::resized_surface;
use wgpu_2d_sample::animation::{advance_tile_pattern, WalkAnimation};
use wgpu_2d_sample::texture::{
    aligned_uniform_size, plan_texture_bindings, BindingSlot, SlotSource, TextureLimits,
};

#[test]
fn sampled_textures_are_capped_by_the_device() {
    let limits = TextureLimits { max_sampled_textures_per_shader_stage: 16 };
    assert_eq!(limits.request_max_sampled_textures(9), 9);
    assert_eq!(limits.request_max_sampled_textures(32), 16);
    assert_eq!(limits.request_max_sampled_textures(16), 16);
}

#[test]
fn uniform_size_rounds_up_to_alignment() {
    assert_eq!(aligned_uniform_size(208, 256), 256);
    assert_eq!(aligned_uniform_size(256, 256), 256);
    assert_eq!(aligned_uniform_size(257, 256), 512);
    assert_eq!(aligned_uniform_size(0, 256), 0);
    assert_eq!(aligned_uniform_size(100, 1), 100);
    assert_eq!(aligned_uniform_size(5, 4), 8);
}

#[test]
fn walk_animation_turns_and_cycles() {
    let mut anim = WalkAnimation::new();
    assert_eq!(anim.step(1, 0), 1);
    assert_eq!((anim.direction, anim.pattern_count), (2, 1));
    assert_eq!(anim.step(0, 0), 1);
    assert_eq!(anim.direction, 2);
    anim.step(-1, 1);
    assert_eq!(anim.direction, 1);
    anim.step(0, 1);
    assert_eq!(anim.direction, 0);
    anim.step(0, -1);
    assert_eq!(anim.direction, 3);
    assert_eq!(anim.pattern_count, 5);
    let mut frames = Vec::new();
    for _ in 0..60 {
        frames.push(anim.step(0, 0));
    }
    assert_eq!(anim.pattern_count, 5);
    assert_eq!(anim.direction, 3);
    let mut expected = Vec::new();
    for c in 6..66u32 {
        expected.push([1, 2, 1, 0][((c % 60) / 15) as usize]);
    }
    assert_eq!(frames, expected);
    anim.pattern_count = 59;
    assert_eq!(anim.step(0, 0), 1);
    assert_eq!(anim.pattern_count, 0);
}

#[test]
fn tile_pattern_clock() {
    let mut count = 0;
    assert_eq!(advance_tile_pattern(&mut count), Some([0, 0]));
    assert_eq!(count, 1);
    let mut count = 45;
    assert_eq!(advance_tile_pattern(&mut count), Some([2, 0]));
    assert_eq!(count, 46);
    let mut count = 59;
    assert_eq!(advance_tile_pattern(&mut count), Some([2, 0]));
    assert_eq!(count, 0);
    let mut count = 62;
    assert_eq!(advance_tile_pattern(&mut count), None);
    assert_eq!(count, 3);
}

fn slot(binding: u32, source: SlotSource) -> BindingSlot {
    BindingSlot { binding, source }
}

#[test]
fn texture_bindings_fill_unused_slots() {
    assert_eq!(
        plan_texture_bindings(2, 4, true),
        vec![
            slot(0, SlotSource::Texture(0)),
            slot(1, SlotSource::Texture(1)),
            slot(2, SlotSource::EmptyTexture),
            slot(3, SlotSource::EmptyTexture),
            slot(4, SlotSource::Sampler),
        ]
    );
    assert_eq!(
        plan_texture_bindings(2, 2, true),
        vec![slot(0, SlotSource::Texture(0)), slot(1, SlotSource::Texture(1)), slot(2, SlotSource::Sampler)]
    );
    assert_eq!(
        plan_texture_bindings(4, 4, false),
        vec![
            slot(0, SlotSource::Texture(0)),
            slot(1, SlotSource::Texture(1)),
            slot(2, SlotSource::Texture(2)),
            slot(3, SlotSource::Texture(3)),
        ]
    );
    assert_eq!(plan_texture_bindings(0, 0, true), vec![slot(0, SlotSource::Sampler)]);
}

#[test]
fn texture_bindings_keep_extra_textures() {
    assert_eq!(
        plan_texture_bindings(3, 1, true),
        vec![
            slot(0, SlotSource::Texture(0)),
            slot(1, SlotSource::Texture(1)),
            slot(2, SlotSource::Texture(2)),
            slot(1, SlotSource::Sampler),
        ]
    );
}

#[test]
fn zero_sized_window_keeps_surface() {
    assert_eq!(resized_surface(800, 600), Some((800, 600)));
    assert_eq!(resized_surface(0, 600), None);
    assert_eq!(resized_surface(800, 0), None);
}
