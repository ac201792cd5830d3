use wgpu_2d_sample::sample_map::{build_indexed_sample_map, build_layered_sample_map};
use wgpu_2d_sample::tile::{build_visible_tiles, TileInstance};

fn inst(x: i16, y: i16, tile_data: u32) -> TileInstance {
    TileInstance { grid_pos: [x, y], tile_data }
}

#[test]
fn push_tile_splits_into_four_half_tiles() {
    let mut tiles = vec![inst(9, 9, 1)];
    // texture 0, animation 4, tile 73 in an atlas 12 tiles wide
    TileInstance::push_tile(&mut tiles, 0x0460_0049, 3, 5, [12, 16, 1]);
    assert_eq!(
        tiles,
        vec![
            inst(9, 9, 1),
            inst(6, 10, 0x0860_0122),
            inst(7, 10, 0x0860_0123),
            inst(6, 11, 0x0860_013A),
            inst(7, 11, 0x0860_013B),
        ]
    );
}

#[test]
fn push_tile_uses_the_tiles_texture_width() {
    let mut tiles = Vec::new();
    // texture 1, tile 9 in an atlas 16 tiles wide, at a negative position
    TileInstance::push_tile(&mut tiles, 0x1020_0009, -2, 0, [12, 16, 1]);
    assert_eq!(
        tiles,
        vec![
            inst(-4, 0, 0x1020_0012),
            inst(-3, 0, 0x1020_0013),
            inst(-4, 1, 0x1020_0032),
            inst(-3, 1, 0x1020_0033),
        ]
    );
}

#[test]
fn layered_sample_map_cells() {
    let map = build_layered_sample_map(4, 3);
    assert_eq!(map.len(), 24);
    // ground: checkerboard of tile 0 and animated tile 73
    assert_eq!(map[0], 0x0060_0000);
    assert_eq!(map[1], 0x0460_0049);
    assert_eq!(map[4], 0x0460_0049);
    assert_eq!(map[5], 0x0060_0000);
    assert_eq!(map[11], 0x0460_0049);
    // overlay: tile 9 of texture 1 on row 0, empty elsewhere
    assert_eq!(&map[12..16], &[0x1020_0009; 4]);
    assert_eq!(&map[16..24], &[0x1020_FFFF; 8]);
}

#[test]
fn visible_tiles_of_both_layers() {
    let map = build_layered_sample_map(4, 3);
    let mut tiles = vec![inst(0, 0, 7)];
    let ranges = build_visible_tiles(&mut tiles, &map, 4, 3, -1, 1, 0, 0, [12, 16, 1]);
    assert_eq!(ranges[0], 0..8);
    assert_eq!(ranges[1], 8..16);
    assert_eq!(
        tiles,
        vec![
            inst(0, 0, 0x0060_0000),
            inst(1, 0, 0x0060_0001),
            inst(0, 1, 0x0060_0018),
            inst(1, 1, 0x0060_0019),
            inst(2, 0, 0x0860_0122),
            inst(3, 0, 0x0860_0123),
            inst(2, 1, 0x0860_013A),
            inst(3, 1, 0x0860_013B),
            inst(0, 0, 0x1020_0012),
            inst(1, 0, 0x1020_0013),
            inst(0, 1, 0x1020_0032),
            inst(1, 1, 0x1020_0033),
            inst(2, 0, 0x1020_0012),
            inst(3, 0, 0x1020_0013),
            inst(2, 1, 0x1020_0032),
            inst(3, 1, 0x1020_0033),
        ]
    );
}

#[test]
fn empty_upper_cells_are_skipped() {
    let map = build_layered_sample_map(4, 3);
    let mut tiles = Vec::new();
    let ranges = build_visible_tiles(&mut tiles, &map, 4, 3, 0, 1, 1, 1, [12, 16, 1]);
    assert_eq!(ranges[0], 0..8);
    assert_eq!(ranges[1], 8..8);
    assert_eq!(tiles[0], inst(0, 2, 0x0860_0122));
    assert_eq!(tiles[4], inst(2, 2, 0x0060_0000));
}

#[test]
fn window_off_the_map_is_empty() {
    let map = build_layered_sample_map(4, 3);
    let mut tiles = vec![inst(0, 0, 7)];
    let ranges = build_visible_tiles(&mut tiles, &map, 4, 3, 10, 20, -5, -1, [12, 16, 1]);
    assert!(tiles.is_empty());
    assert_eq!(ranges[0], 0..0);
    assert_eq!(ranges[1], 0..0);
    let ranges = build_visible_tiles(&mut tiles, &map, 4, 3, 2, 1, 0, 2, [12, 16, 1]);
    assert!(tiles.is_empty());
    assert_eq!(ranges[1], 0..0);
}

#[test]
fn indexed_sample_map_layers() {
    let map = build_indexed_sample_map(4, 2);
    assert_eq!(map.len(), 24);
    assert_eq!(&map[0..8], &[0, 0x1_0009, 0, 0x1_0009, 0x1_0009, 0, 0x1_0009, 0]);
    assert_eq!(&map[8..16], &[0, 0, 1, 1, 0, 0, 1, 1]);
    assert_eq!(
        &map[16..24],
        &[0x1_0000, 0x1_0003, 0x1_0006, 0x1_0009, 0x1_0001, 0x1_0004, 0x1_0007, 0x1_000A]
    );
}

#[test]
fn half_tiles_keep_texture_and_double_animation() {
    let mut tiles = Vec::new();
    let tile_data = 0x1460_0023; // texture 1, animation 4, tile 35
    TileInstance::push_tile(&mut tiles, tile_data, 0, 0, [12, 16, 1]);
    for (i, t) in tiles.iter().enumerate() {
        assert_eq!(t.tile_data >> 28, 1);
        assert_eq!((t.tile_data >> 24) & 0xF, 8);
        assert_eq!((t.tile_data >> 21) & 7, 3);
        let (dx, dy) = ((i % 2) as u32, (i / 2) as u32);
        assert_eq!(t.tile_data & 0xFFFF, (2 * (35 % 16) + dx) + (2 * (35 / 16) + dy) * 32);
    }
}

#[test]
fn layer_instance_counts_are_multiples_of_four() {
    let map = build_layered_sample_map(6, 7);
    let mut tiles = Vec::new();
    let ranges = build_visible_tiles(&mut tiles, &map, 6, 7, -2, 3, -1, 6, [12, 16, 1]);
    assert_eq!(ranges[0].end % 4, 0);
    assert_eq!((ranges[1].end - ranges[1].start) % 4, 0);
    // 4 columns x 7 rows on the map; overlay rows 0 and 5
    assert_eq!(ranges[0], 0..112);
    assert_eq!(ranges[1], 112..144);
}
