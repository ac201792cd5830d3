//! Verified core of a small wgpu 2D sample: keyboard input state, Tiled map
//! conversion into packed tile codes, tile-instance generation for the
//! renderer, sprite walk animation, uniform-buffer alignment, the generated
//! multi-texture WGSL shader source and sample selection.

pub mod animation;
pub mod input;
pub mod map_data;
pub mod minimal_input;
pub mod run_select;
pub mod sample_map;
pub mod shader;
pub mod surface;
pub mod texture;
pub mod texture_data;
pub mod tile;
pub mod tiled_map;
