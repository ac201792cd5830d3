# wgpu_2d_sample

The logic of a small wgpu 2D sprite and tilemap sample, verified with Verus,
and the windowing/GPU program around it.

- `src/` — the verified library:
  - `input`, `minimal_input`: held-key state, key events and the movement
    vector.
  - `tiled_map`, `map_data`: Tiled maps and their conversion into packed tile
    codes laid out layer after layer.
  - `tile`: splitting 32px tiles into 16px instances and building the visible
    instances of a two-layer map.
  - `sample_map`: the generated maps of the tilemap samples.
  - `shader`: the generated multi-texture WGSL sprite shader.
  - `texture`: sampled-texture limits, texture bind-group slots and
    uniform-slot alignment.
  - `texture_data`: image decoding and the texture upload plan.
  - `surface`: the surface size after a window resize.
  - `animation`: walk animation and the tile animation clock.
  - `run_select`: choosing a sample from the command-line argument.
- `tests/`: tests of the library.
- `app/`: the program (winit event loop, wgpu setup and rendering, image and
  JSON loading, floating-point camera and sprite transforms). Images and WGSL
  files are read at run time from `assets/`.
