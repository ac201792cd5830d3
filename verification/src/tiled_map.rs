use vstd::prelude::*;

verus! {

/// A map as exported by the Tiled editor (JSON format), holding the fields
/// the sample reads.
#[derive(Debug)]
pub struct TiledMap {
    pub width: u32,
    pub height: u32,
    pub layers: Vec<Layer>,
    pub tilewidth: u32,
    pub tileheight: u32,
    pub tilesets: Vec<TileSets>,
}

/// One Tiled layer. A layer whose `layer_type` is `"tilelayer"` carries
/// `width * height` chip ids in row-major order in `data`.
#[derive(Debug)]
pub struct Layer {
    pub data: Option<Vec<u32>>,
    pub x: u32,
    pub y: u32,
    pub width: Option<u32>,
    pub height: Option<u32>,
    pub layer_type: String,
}

/// A tileset reference: chip ids from `firstgid` upwards belong to the
/// tileset image `source`.
#[derive(Debug)]
pub struct TileSets {
    pub firstgid: u32,
    pub source: String,
}

} // verus!
