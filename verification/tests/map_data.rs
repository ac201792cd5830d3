use wgpu_2d_sample::map_data::MapData;
use wgpu_2d_sample::tiled_map::{Layer, TiledMap, TileSets};

fn tile_layer(width: u32, height: u32, data: Vec<u32>) -> Layer {
    Layer {
        data: Some(data),
        x: 0,
        y: 0,
        width: Some(width),
        height: Some(height),
        layer_type: String::from("tilelayer"),
    }
}

fn tileset(firstgid: u32, source: &str) -> TileSets {
    TileSets { firstgid, source: String::from(source) }
}

fn sample_map() -> TiledMap {
    TiledMap {
        width: 3,
        height: 2,
        layers: vec![
            tile_layer(2, 2, vec![0, 1, 62, 150]),
            Layer {
                data: None,
                x: 0,
                y: 0,
                width: Some(2),
                height: Some(2),
                layer_type: String::from("objectgroup"),
            },
            tile_layer(0, 4, vec![5, 6]),
            tile_layer(3, 1, vec![350, 99, 400, 7]),
            tile_layer(2, 1, vec![]),
        ],
        tilewidth: 32,
        tileheight: 16,
        tilesets: vec![
            tileset(1, "image/tilesets/world.png"),
            tileset(100, "image/tilesets/upper.png"),
            tileset(300, "image/tilesets/other.png"),
        ],
    }
}

#[test]
fn converts_tile_layers_in_order() {
    let map = MapData::from_tiled_map(&sample_map()).expect("map has tile layers");
    assert_eq!(map.tile_width, 32);
    assert_eq!(map.tile_height, 16);
    assert_eq!(
        map.data,
        vec![0x0020_FFFF, 0x0060_0000, 0x0460_003D, 0x2060_0032, 0x0460_FFFF, 0x0460_0062, 0x0460_FFFF]
    );
    assert_eq!(map.layers.len(), 2);
    assert_eq!((map.layers[0].width, map.layers[0].height, map.layers[0].start_index), (2, 2, 0));
    assert_eq!((map.layers[1].width, map.layers[1].height, map.layers[1].start_index), (3, 1, 4));
}

#[test]
fn layer_ranges_read_back() {
    let tiled = sample_map();
    let map = MapData::from_tiled_map(&tiled).unwrap();
    let second = &map.layers[1];
    let start = second.start_index as usize;
    let cells = &map.data[start..start + (second.width * second.height) as usize];
    assert_eq!(cells, &[0x0460_FFFF, 0x0460_0062, 0x0460_FFFF]);
    assert_eq!(map.layers[0].start_index + map.layers[0].width * map.layers[0].height, second.start_index);
}

#[test]
fn no_tile_layer_gives_none() {
    let mut tiled = sample_map();
    tiled.layers.retain(|l| l.layer_type != "tilelayer" || l.width == Some(0));
    assert!(MapData::from_tiled_map(&tiled).is_none());
    tiled.layers.clear();
    assert!(MapData::from_tiled_map(&tiled).is_none());
}

#[test]
fn ground_tiles_animate_above_216() {
    let tiled = TiledMap {
        width: 2,
        height: 1,
        layers: vec![tile_layer(3, 1, vec![217, 218, 5])],
        tilewidth: 32,
        tileheight: 32,
        tilesets: vec![tileset(10, "image/tilesets/ground.png")],
    };
    let map = MapData::from_tiled_map(&tiled).unwrap();
    // chip 5 lies below the only tileset's first id
    assert_eq!(map.data, vec![0x1060_00CF, 0x1060_00D0, 0x0020_FFFF]);
    let tiled = TiledMap {
        width: 2,
        height: 1,
        layers: vec![tile_layer(2, 1, vec![217, 218])],
        tilewidth: 32,
        tileheight: 32,
        tilesets: vec![tileset(1, "image/tilesets/ground.png")],
    };
    let map = MapData::from_tiled_map(&tiled).unwrap();
    assert_eq!(map.data, vec![0x1060_00D8, 0x1460_00D9]);
}

#[test]
fn world_tiles_animate_above_60() {
    let tiled = TiledMap {
        width: 2,
        height: 1,
        layers: vec![tile_layer(2, 1, vec![61, 62])],
        tilewidth: 32,
        tileheight: 32,
        tilesets: vec![tileset(1, "image/tilesets/world.png")],
    };
    let map = MapData::from_tiled_map(&tiled).unwrap();
    assert_eq!(map.data, vec![0x0060_003C, 0x0460_003D]);
}

#[test]
fn converted_codes_decode_to_texture_slots() {
    let map = MapData::from_tiled_map(&sample_map()).unwrap();
    for code in &map.data {
        assert!(code >> 28 < 3);
        assert_eq!((code >> 21) & 7, if *code == 0x0020_FFFF { 1 } else { 3 });
    }
    // chip 0 is an empty cell
    assert_eq!(map.data[0] & 0xFFFF, 0xFFFF);
    // chip 62 of the world tileset: texture 0, animation 4, tile 61
    let code = map.data[2];
    assert_eq!((code >> 28, (code >> 24) & 0xF, code & 0xFFFF), (0, 4, 61));
}

#[test]
fn skipped_layers_change_nothing() {
    let mut tiled = sample_map();
    let before = MapData::from_tiled_map(&tiled).unwrap();
    tiled.layers.insert(
        1,
        Layer { data: Some(vec![1, 1]), x: 0, y: 0, width: Some(1), height: Some(2), layer_type: String::from("imagelayer") },
    );
    tiled.layers.retain(|l| l.layer_type != "objectgroup");
    let after = MapData::from_tiled_map(&tiled).unwrap();
    assert_eq!(before.data, after.data);
    assert_eq!(before.layers.len(), after.layers.len());
    for (a, b) in before.layers.iter().zip(after.layers.iter()) {
        assert_eq!((a.width, a.height, a.start_index), (b.width, b.height, b.start_index));
    }
}
