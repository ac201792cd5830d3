use vstd::prelude::*;
use crate::tiled_map::{Layer, TiledMap, TileSets};

verus! {

/// Map data converted for the renderer: all tile layers laid out one after
/// another in `data`, each cell a packed tile code.
#[derive(Debug)]
pub struct MapData {
    pub tile_width: u32,
    pub tile_height: u32,
    pub data: Vec<u32>,
    pub layers: Vec<MapLayer>,
}

/// Where one layer lies in `MapData::data`: `width * height` cells from
/// `start_index` on.
#[derive(Debug)]
pub struct MapLayer {
    pub width: u32,
    pub height: u32,
    pub start_index: u32,
}

/// A tile layer borrowed from the Tiled map.
struct SliceLayer<'a> {
    pub width: u32,
    pub height: u32,
    pub data: &'a [u32],
}

/// The code of a cell that draws nothing: one animation frame, tile id 0xFFFF.
pub open spec fn empty_tile_code() -> u32 {
    (1u32 << 21u32) | 0xFFFFu32
}

/// Packs a tile code: bits 31-28 texture index, 27-24 animation index,
/// 23-21 the frame count (3), 15-0 the tile id.
pub open spec fn pack_tile(texture_id: u32, anim_index: u32, chip: u32) -> u32 {
    (texture_id << 28u32) | (anim_index << 24u32) | (3u32 << 21u32) | (chip & 0xFFFFu32)
}

/// Tiles of texture 0 above id 60 and of texture 1 above id 216 are animated.
pub open spec fn anim_index_for(texture_id: u32, chip: u32) -> u32 {
    if texture_id == 0 {
        if chip > 60 { 4 } else { 0 }
    } else if texture_id == 1 {
        if chip > 216 { 4 } else { 0 }
    } else {
        0
    }
}

/// The texture slot of a tileset image: world, ground and upper are 0, 1
/// and 2; any other image has none (-1).
pub open spec fn texture_index_of(source: Seq<char>) -> i32 {
    if source == "image/tilesets/world.png"@ {
        0
    } else if source == "image/tilesets/ground.png"@ {
        1
    } else if source == "image/tilesets/upper.png"@ {
        2
    } else {
        -1i32
    }
}

/// The texture slot of every tileset, in order.
pub open spec fn tileset_textures(tilesets: Seq<TileSets>) -> Seq<i32> {
    tilesets.map_values(|t: TileSets| texture_index_of(t.source@))
}

/// The last of the first `n` tilesets whose `firstgid` is at most `chip`.
pub open spec fn owning_tileset(tilesets: Seq<TileSets>, chip: u32, n: int) -> Option<int>
    decreases n,
{
    if n <= 0 {
        None
    } else if tilesets[n - 1].firstgid <= chip {
        Some(n - 1)
    } else {
        owning_tileset(tilesets, chip, n - 1)
    }
}

/// The packed code of a Tiled chip id. Chip 0 and chips that no tileset
/// covers get the empty code; a chip of a tileset without a texture gets
/// the empty tile id 0xFFFF of texture 0 (with animation index 4, as any
/// texture-0 id above 60), which the upper layer leaves out.
pub open spec fn tile_code(tilesets: Seq<TileSets>, indices: Seq<i32>, chip: u32) -> u32 {
    if chip == 0 {
        empty_tile_code()
    } else {
        match owning_tileset(tilesets, chip, tilesets.len() as int) {
            None => empty_tile_code(),
            Some(i) => {
                if indices[i] < 0 {
                    pack_tile(0, anim_index_for(0, 0xFFFF), 0xFFFF)
                } else {
                    let t = indices[i] as u32;
                    let offset = (chip - tilesets[i].firstgid) as u32;
                    pack_tile(t, anim_index_for(t, offset), offset)
                }
            },
        }
    }
}

pub open spec fn layer_width(l: Layer) -> u32 {
    match l.width {
        Some(w) => w,
        None => 0,
    }
}

pub open spec fn layer_height(l: Layer) -> u32 {
    match l.height {
        Some(h) => h,
        None => 0,
    }
}

pub open spec fn layer_cells(l: Layer) -> Seq<u32> {
    match l.data {
        Some(d) => d@,
        None => Seq::empty(),
    }
}

/// A layer is drawn when it is a tile layer with a nonzero size and data.
pub open spec fn is_tile_layer(l: Layer) -> bool {
    &&& l.layer_type@ == "tilelayer"@
    &&& layer_width(l) != 0
    &&& layer_height(l) != 0
    &&& layer_cells(l).len() != 0
}

/// The drawn layers, in order, as (width, height, chip ids).
pub open spec fn tile_layers(ls: Seq<Layer>) -> Seq<(u32, u32, Seq<u32>)>
    decreases ls.len(),
{
    if ls.len() == 0 {
        Seq::empty()
    } else {
        let rest = tile_layers(ls.drop_last());
        let l = ls.last();
        if is_tile_layer(l) {
            rest.push((layer_width(l), layer_height(l), layer_cells(l)))
        } else {
            rest
        }
    }
}

pub open spec fn grid_area(g: (u32, u32, Seq<u32>)) -> nat {
    (g.0 * g.1) as nat
}

/// The number of cells of all given layers.
pub open spec fn total_area(vl: Seq<(u32, u32, Seq<u32>)>) -> nat
    decreases vl.len(),
{
    if vl.len() == 0 {
        0
    } else {
        total_area(vl.drop_last()) + grid_area(vl.last())
    }
}

/// Every drawn layer has at least `width * height` chip ids.
pub open spec fn layers_filled(vl: Seq<(u32, u32, Seq<u32>)>) -> bool {
    forall|k: int| 0 <= k < vl.len() ==> grid_area(#[trigger] vl[k]) <= vl[k].2.len()
}

/// The codes of one layer's `width * height` cells.
pub open spec fn layer_codes(g: (u32, u32, Seq<u32>), tilesets: Seq<TileSets>) -> Seq<u32> {
    Seq::new(grid_area(g), |k: int| tile_code(tilesets, tileset_textures(tilesets), g.2[k]))
}

/// The codes of all given layers, one layer after another.
pub open spec fn map_codes(vl: Seq<(u32, u32, Seq<u32>)>, tilesets: Seq<TileSets>) -> Seq<u32>
    decreases vl.len(),
{
    if vl.len() == 0 {
        Seq::empty()
    } else {
        map_codes(vl.drop_last(), tilesets) + layer_codes(vl.last(), tilesets)
    }
}

/// The placement of each given layer: its size and where its cells start.
pub open spec fn map_layers(vl: Seq<(u32, u32, Seq<u32>)>) -> Seq<MapLayer>
    decreases vl.len(),
{
    if vl.len() == 0 {
        Seq::empty()
    } else {
        map_layers(vl.drop_last()).push(
            MapLayer {
                width: vl.last().0,
                height: vl.last().1,
                start_index: total_area(vl.drop_last()) as u32,
            },
        )
    }
}

proof fn lemma_tile_layers_step(ls: Seq<Layer>, i: int)
    requires
        0 <= i < ls.len(),
    ensures
        tile_layers(ls.take(i + 1)) == (if is_tile_layer(ls[i]) {
            tile_layers(ls.take(i)).push((layer_width(ls[i]), layer_height(ls[i]), layer_cells(ls[i])))
        } else {
            tile_layers(ls.take(i))
        }),
{
    assert(ls.take(i + 1).drop_last() =~= ls.take(i));
}

proof fn lemma_tile_layers_nonzero(ls: Seq<Layer>)
    ensures
        forall|k: int|
            0 <= k < tile_layers(ls).len() ==> (#[trigger] tile_layers(ls)[k]).0 != 0
                && tile_layers(ls)[k].1 != 0,
    decreases ls.len(),
{
    if ls.len() > 0 {
        lemma_tile_layers_nonzero(ls.drop_last());
        let rest = tile_layers(ls.drop_last());
        assert forall|k: int| 0 <= k < tile_layers(ls).len() implies (#[trigger] tile_layers(
            ls,
        )[k]).0 != 0 && tile_layers(ls)[k].1 != 0 by {
            if k < rest.len() {
                assert(tile_layers(ls)[k] == rest[k]);
            }
        }
    }
}

proof fn lemma_total_area_prefix(ls: Seq<Layer>, i: int, j: int)
    requires
        0 <= i <= j <= ls.len(),
    ensures
        total_area(tile_layers(ls.take(i))) <= total_area(tile_layers(ls.take(j))),
    decreases j - i,
{
    if i < j {
        lemma_total_area_prefix(ls, i, j - 1);
        lemma_tile_layers_step(ls, j - 1);
        let t = tile_layers(ls.take(j - 1));
        if is_tile_layer(ls[j - 1]) {
            let g = (layer_width(ls[j - 1]), layer_height(ls[j - 1]), layer_cells(ls[j - 1]));
            assert(t.push(g).drop_last() =~= t);
        }
    }
}

proof fn lemma_total_area_take(vl: Seq<(u32, u32, Seq<u32>)>, j: int)
    requires
        0 <= j < vl.len(),
    ensures
        total_area(vl.take(j + 1)) == total_area(vl.take(j)) + grid_area(vl[j]),
        total_area(vl.take(j)) + grid_area(vl[j]) <= total_area(vl),
    decreases vl.len() - j,
{
    assert(vl.take(j + 1).drop_last() =~= vl.take(j));
    if j + 1 < vl.len() {
        lemma_total_area_take(vl, j + 1);
    } else {
        assert(vl.take(j + 1) =~= vl);
    }
}

/// Reading a layer back: in the converted data, drawn layer `k` is recorded
/// with its own size at a start index equal to the cell count of the layers
/// before it, the next layer starts right after its cells, the data holds
/// exactly all layers' cells, and the cells from its start index on are
/// exactly that layer's codes.
pub proof fn lemma_layer_readback(vl: Seq<(u32, u32, Seq<u32>)>, tilesets: Seq<TileSets>, k: int)
    requires
        0 <= k < vl.len(),
        total_area(vl) <= u32::MAX,
    ensures
        map_layers(vl).len() == vl.len(),
        map_codes(vl, tilesets).len() == total_area(vl),
        map_layers(vl)[k].width == vl[k].0,
        map_layers(vl)[k].height == vl[k].1,
        map_layers(vl)[k].start_index == total_area(vl.take(k)),
        k + 1 < vl.len() ==> map_layers(vl)[k + 1].start_index == map_layers(vl)[k].start_index
            + grid_area(vl[k]),
        map_codes(vl, tilesets).subrange(
            map_layers(vl)[k].start_index as int,
            map_layers(vl)[k].start_index + grid_area(vl[k]),
        ) == layer_codes(vl[k], tilesets),
    decreases vl.len(),
{
    let rest = vl.drop_last();
    lemma_total_area_take(vl, k);
    lemma_total_area_take(vl, vl.len() - 1);
    assert(vl.take(vl.len() as int) =~= vl);
    lemma_codes_len(vl, tilesets);
    if k + 1 < vl.len() {
        lemma_total_area_take(vl, k + 1);
    }
    if k == vl.len() - 1 {
        lemma_map_layers_len(rest);
        assert(vl.take(k) =~= rest);
        lemma_codes_len(rest, tilesets);
        assert(map_codes(vl, tilesets).subrange(
            total_area(rest) as int,
            (total_area(rest) + grid_area(vl[k])) as int,
        ) =~= layer_codes(vl[k], tilesets));
    } else {
        lemma_total_area_take(vl, vl.len() - 1);
        lemma_layer_readback(rest, tilesets, k);
        assert(rest.take(k) =~= vl.take(k));
        assert(rest[k] == vl[k]);
        lemma_codes_len(rest, tilesets);
        lemma_total_area_take(rest, k);
        let start = total_area(vl.take(k)) as int;
        assert(map_codes(vl, tilesets).subrange(start, start + grid_area(vl[k])) =~= map_codes(
            rest,
            tilesets,
        ).subrange(start, start + grid_area(vl[k])));
        if k + 1 < rest.len() {
            lemma_layer_readback(rest, tilesets, k + 1);
            assert(rest.take(k + 1) =~= vl.take(k + 1));
        } else {
            assert(rest.take(k + 1) =~= rest);
            assert(vl.take(k + 1) =~= rest);
        }
    }
}

/// Layers that are not drawn do not matter: inserting such a layer
/// anywhere into a map's layers (or, read the other way, removing one)
/// leaves the drawn layers, and so the whole conversion, unchanged.
pub proof fn lemma_skipped_layer_irrelevant(ls: Seq<Layer>, p: int, l: Layer)
    requires
        0 <= p <= ls.len(),
        !is_tile_layer(l),
    ensures
        tile_layers(ls.insert(p, l)) == tile_layers(ls),
    decreases ls.len(),
{
    let ins = ls.insert(p, l);
    if p == ls.len() {
        assert(ins.drop_last() =~= ls);
    } else {
        assert(ins.drop_last() =~= ls.drop_last().insert(p, l));
        assert(ins.last() == ls.last());
        lemma_skipped_layer_irrelevant(ls.drop_last(), p, l);
    }
}

/// The bit layout of every code a chip converts to, when each tileset's
/// texture slot is -1, 0, 1 or 2: bits 31-28 hold texture 0, 1 or 2, bits
/// 27-24 animation index 0 or 4, bits 23-21 the frame count 3, or 1 for the
/// empty code alone, and bits 20-16 are clear.
pub proof fn lemma_tile_code_layout(tilesets: Seq<TileSets>, indices: Seq<i32>, chip: u32)
    requires
        indices.len() >= tilesets.len(),
        forall|i: int| 0 <= i < indices.len() ==> -1 <= #[trigger] indices[i] <= 2,
    ensures
        ({
            let c = tile_code(tilesets, indices, chip);
            &&& c & 0x001F_0000u32 == 0
            &&& c >> 28u32 <= 2
            &&& (c >> 24u32) & 0xFu32 == 0 || (c >> 24u32) & 0xFu32 == 4
            &&& (c >> 21u32) & 7u32 == 1 || (c >> 21u32) & 7u32 == 3
            &&& (c >> 21u32) & 7u32 == 1 ==> c == 0x0020_FFFFu32
        }),
{
    let e = empty_tile_code();
    assert(e & 0x001F_0000u32 == 0 && e >> 28u32 == 0 && (e >> 24u32) & 0xFu32 == 0 && (e >> 21u32)
        & 7u32 == 1 && e == 0x0020_FFFFu32) by (bit_vector)
        requires
            e == (1u32 << 21u32) | 0xFFFFu32,
    ;
    if chip != 0 {
        lemma_owning_in_range(tilesets, chip, tilesets.len() as int);
        match owning_tileset(tilesets, chip, tilesets.len() as int) {
            None => {},
            Some(i) => {
                let (t, a, k) = if indices[i] < 0 {
                    (0u32, anim_index_for(0, 0xFFFF), 0xFFFFu32)
                } else {
                    let off = (chip - tilesets[i].firstgid) as u32;
                    (indices[i] as u32, anim_index_for(indices[i] as u32, off), off)
                };
                assert(tile_code(tilesets, indices, chip) == pack_tile(t, a, k));
                lemma_pack_layout(t, a, k);
            },
        }
    }
}

/// Every tileset's texture slot is -1, 0, 1 or 2, one slot per tileset, so
/// the codes of a converted map have the layout of `lemma_tile_code_layout`.
pub proof fn lemma_tileset_textures_range(tilesets: Seq<TileSets>)
    ensures
        tileset_textures(tilesets).len() == tilesets.len(),
        forall|i: int|
            0 <= i < tilesets.len() ==> -1 <= #[trigger] tileset_textures(tilesets)[i] <= 2,
{
}

/// How a chip covered by a tileset converts. Let tileset `i` be the last one
/// whose first id is at most the chip, `off` the chip's offset in it and `t`
/// its texture slot (at most 15). Then the code holds texture `t` and tile
/// id `off` (low 16 bits), or texture 0 and the empty tile id 0xFFFF when
/// the tileset has no texture; its frame count is 3; and it is animated
/// (animation index 4) exactly for texture-0 offsets above 60, texture-1
/// offsets above 216 and tilesets without a texture; every other code,
/// among them all of texture 2, has animation index 0.
pub proof fn lemma_chip_conversion(tilesets: Seq<TileSets>, indices: Seq<i32>, chip: u32, i: int)
    requires
        chip != 0,
        indices.len() >= tilesets.len(),
        0 <= i < tilesets.len(),
        tilesets[i].firstgid <= chip,
        forall|j: int| i < j < tilesets.len() ==> chip < #[trigger] tilesets[j].firstgid,
        indices[i] <= 15,
    ensures
        ({
            let c = tile_code(tilesets, indices, chip);
            let off = (chip - tilesets[i].firstgid) as u32;
            let t = indices[i];
            &&& t >= 0 ==> c >> 28u32 == t as u32 && c & 0xFFFFu32 == off & 0xFFFFu32
            &&& t < 0 ==> c >> 28u32 == 0 && c & 0xFFFFu32 == 0xFFFF
            &&& (c >> 21u32) & 7u32 == 3
            &&& (c >> 16u32) & 0x1Fu32 == 0
            &&& ((c >> 24u32) & 0xFu32 == 4) == ((t == 0 && off > 60) || (t == 1 && off > 216) || t < 0)
            &&& (c >> 24u32) & 0xFu32 == 4 || (c >> 24u32) & 0xFu32 == 0
        }),
{
    lemma_owning_is_last(tilesets, chip, tilesets.len() as int, i);
    let off = (chip - tilesets[i].firstgid) as u32;
    let t = indices[i];
    let c = tile_code(tilesets, indices, chip);
    if t < 0 {
        assert(anim_index_for(0, 0xFFFF) == 4);
        assert(c == pack_tile(0, 4, 0xFFFF));
        lemma_pack_fields_exact(0, 4, 0xFFFF);
        assert(0xFFFFu32 & 0xFFFFu32 == 0xFFFFu32) by (bit_vector);
    } else {
        let tu = t as u32;
        assert(tu as int == t as int);
        let a = anim_index_for(tu, off);
        assert(c == pack_tile(tu, a, off));
        assert(a == 4 || a == 0);
        assert((a == 4) == ((t == 0 && off > 60) || (t == 1 && off > 216)));
        lemma_pack_fields_exact(tu, a, off);
    }
}

proof fn lemma_owning_is_last(tilesets: Seq<TileSets>, chip: u32, n: int, i: int)
    requires
        0 <= i < n <= tilesets.len(),
        tilesets[i].firstgid <= chip,
        forall|j: int| i < j < tilesets.len() ==> chip < #[trigger] tilesets[j].firstgid,
    ensures
        owning_tileset(tilesets, chip, n) == Some(i),
    decreases n,
{
    if n - 1 > i {
        assert(chip < tilesets[n - 1].firstgid);
        lemma_owning_is_last(tilesets, chip, n - 1, i);
    }
}

proof fn lemma_pack_fields_exact(t: u32, a: u32, k: u32)
    requires
        t <= 15,
        a <= 15,
    ensures
        ({
            let c = pack_tile(t, a, k);
            &&& c >> 28u32 == t
            &&& (c >> 24u32) & 0xFu32 == a
            &&& (c >> 21u32) & 7u32 == 3
            &&& (c >> 16u32) & 0x1Fu32 == 0
            &&& c & 0xFFFFu32 == k & 0xFFFFu32
        }),
{
    let c = pack_tile(t, a, k);
    assert(c >> 28u32 == t && (c >> 24u32) & 0xFu32 == a && (c >> 21u32) & 7u32 == 3 && (c >> 16u32)
        & 0x1Fu32 == 0 && c & 0xFFFFu32 == k & 0xFFFFu32) by (bit_vector)
        requires
            t <= 15,
            a <= 15,
            c == (t << 28u32) | (a << 24u32) | (3u32 << 21u32) | (k & 0xFFFFu32),
    ;
}

proof fn lemma_pack_layout(t: u32, a: u32, k: u32)
    requires
        t <= 2,
        a == 0 || a == 4,
    ensures
        ({
            let c = pack_tile(t, a, k);
            &&& c & 0x001F_0000u32 == 0
            &&& c >> 28u32 <= 2
            &&& (c >> 24u32) & 0xFu32 == a
            &&& (c >> 21u32) & 7u32 == 3
        }),
{
    let c = pack_tile(t, a, k);
    assert(c & 0x001F_0000u32 == 0 && c >> 28u32 <= 2 && (c >> 24u32) & 0xFu32 == a && (c >> 21u32)
        & 7u32 == 3) by (bit_vector)
        requires
            t <= 2,
            a == 0 || a == 4,
            c == (t << 28u32) | (a << 24u32) | (3u32 << 21u32) | (k & 0xFFFFu32),
    ;
}

pub(crate) proof fn lemma_owning_in_range(tilesets: Seq<TileSets>, chip: u32, n: int)
    requires
        n <= tilesets.len(),
    ensures
        owning_tileset(tilesets, chip, n) matches Some(i) ==> 0 <= i < n,
    decreases n,
{
    if n > 0 {
        lemma_owning_in_range(tilesets, chip, n - 1);
    }
}

proof fn lemma_codes_len(vl: Seq<(u32, u32, Seq<u32>)>, tilesets: Seq<TileSets>)
    ensures
        map_codes(vl, tilesets).len() == total_area(vl),
    decreases vl.len(),
{
    if vl.len() > 0 {
        lemma_codes_len(vl.drop_last(), tilesets);
    }
}

proof fn lemma_map_layers_len(vl: Seq<(u32, u32, Seq<u32>)>)
    ensures
        map_layers(vl).len() == vl.len(),
    decreases vl.len(),
{
    if vl.len() > 0 {
        lemma_map_layers_len(vl.drop_last());
    }
}

impl MapData {
    /// The texture slot of a tileset image.
    fn texture_index_of(source: &String) -> (index: i32)
        ensures
            index == texture_index_of(source@),
    {
        if *source == String::from_str("image/tilesets/world.png") {
            0
        } else if *source == String::from_str("image/tilesets/ground.png") {
            1
        } else if *source == String::from_str("image/tilesets/upper.png") {
            2
        } else {
            -1
        }
    }

    /// Converts the tile layers of a Tiled map into packed tile codes laid
    /// out layer after layer. Returns `None` when the map has no drawn
    /// layer.
    pub fn from_tiled_map(tiled_map: &TiledMap) -> (res: Option<Self>)
        requires
            total_area(tile_layers(tiled_map.layers@)) <= u32::MAX,
            layers_filled(tile_layers(tiled_map.layers@)),
        ensures
            res is None <==> tile_layers(tiled_map.layers@).len() == 0,
            res matches Some(m) ==> {
                &&& m.tile_width == tiled_map.tilewidth
                &&& m.tile_height == tiled_map.tileheight
                &&& m.data@ == map_codes(tile_layers(tiled_map.layers@), tiled_map.tilesets@)
                &&& m.layers@ == map_layers(tile_layers(tiled_map.layers@))
            },
    {
        let ghost ls = tiled_map.layers@;
        let ghost vl = tile_layers(ls);
        let mut slice_layers: Vec<SliceLayer> = Vec::new();
        let mut data_count: u32 = 0;
        let n = tiled_map.layers.len();
        let mut i: usize = 0;
        assert(ls.take(0) =~= Seq::<Layer>::empty());
        while i < n
            invariant
                0 <= i <= n,
                n == ls.len(),
                ls == tiled_map.layers@,
                total_area(tile_layers(ls)) <= u32::MAX,
                slice_layers@.len() == tile_layers(ls.take(i as int)).len(),
                forall|k: int|
                    0 <= k < slice_layers@.len() ==> ((#[trigger] slice_layers@[k]).width,
                    slice_layers@[k].height, slice_layers@[k].data@) == tile_layers(
                        ls.take(i as int),
                    )[k],
                data_count == total_area(tile_layers(ls.take(i as int))),
            decreases n - i,
        {
            let layer = &tiled_map.layers[i];
            proof {
                lemma_tile_layers_step(ls, i as int);
                lemma_total_area_prefix(ls, i + 1, n as int);
                assert(ls.take(n as int) =~= ls);
            }
            let width = match layer.width {
                Some(w) => w,
                None => 0,
            };
            let height = match layer.height {
                Some(h) => h,
                None => 0,
            };
            let data: &[u32] = match &layer.data {
                Some(d) => d.as_slice(),
                None => &[],
            };
            if layer.layer_type == String::from_str("tilelayer") && width != 0 && height != 0
                && data.len() != 0 {
                let ghost prev = tile_layers(ls.take(i as int));
                let ghost g = (width, height, data@);
                proof {
                    assert(prev.push(g).drop_last() =~= prev);
                    assert(data_count + width * height <= u32::MAX);
                }
                slice_layers.push(SliceLayer { width, height, data });
                data_count += width * height;
            }
            i += 1;
        }
        assert(ls.take(n as int) =~= ls);
        if data_count == 0 {
            proof {
                if vl.len() > 0 {
                    lemma_tile_layers_nonzero(ls);
                    lemma_total_area_take(vl, vl.len() - 1);
                    assert(grid_area(vl[vl.len() - 1]) > 0) by (nonlinear_arith)
                        requires
                            vl[vl.len() - 1].0 != 0,
                            vl[vl.len() - 1].1 != 0,
                            grid_area(vl[vl.len() - 1]) == (vl[vl.len() - 1].0 * vl[vl.len()
                                - 1].1) as nat,
                    ;
                    assert(vl.take(vl.len() as int) =~= vl);
                }
            }
            return None;
        }
        proof {
            if vl.len() == 0 {
                assert(total_area(vl) == 0);
            }
        }
        let texture_indices = Self::texture_indices(tiled_map);
        let mut data: Vec<u32> = Vec::with_capacity(data_count as usize);
        let mut layers: Vec<MapLayer> = Vec::with_capacity(slice_layers.len());
        let mut start_index: u32 = 0;
        let ghost tss = tiled_map.tilesets@;
        let mut j: usize = 0;
        assert(vl.take(0) =~= Seq::<(u32, u32, Seq<u32>)>::empty());
        while j < slice_layers.len()
            invariant
                0 <= j <= slice_layers@.len(),
                slice_layers@.len() == vl.len(),
                forall|k: int|
                    0 <= k < slice_layers@.len() ==> ((#[trigger] slice_layers@[k]).width,
                    slice_layers@[k].height, slice_layers@[k].data@) == vl[k],
                vl == tile_layers(tiled_map.layers@),
                total_area(vl) <= u32::MAX,
                layers_filled(vl),
                tss == tiled_map.tilesets@,
                texture_indices@ == tileset_textures(tss),
                start_index == total_area(vl.take(j as int)),
                data@ == map_codes(vl.take(j as int), tss),
                layers@ == map_layers(vl.take(j as int)),
            decreases slice_layers@.len() - j,
        {
            let layer = &slice_layers[j];
            let ghost g = vl[j as int];
            let ghost base = data@;
            let ghost codes = layer_codes(g, tss);
            proof {
                lemma_total_area_take(vl, j as int);
                assert(grid_area(g) <= g.2.len());
            }
            let w = layer.width;
            let h = layer.height;
            assert(codes.take(0) =~= Seq::<u32>::empty());
            let mut y: u32 = 0;
            while y < h
                invariant
                    0 <= y <= h,
                    w == g.0,
                    h == g.1,
                    layer.data@ == g.2,
                    grid_area(g) <= g.2.len(),
                    (w * h) as nat == grid_area(g),
                    grid_area(g) <= u32::MAX,
                    codes == layer_codes(g, tss),
                    tss == tiled_map.tilesets@,
                    texture_indices@ == tileset_textures(tss),
                    data@ == base + codes.take(y * w),
                decreases h - y,
            {
                let mut x: u32 = 0;
                proof {
                    assert((y + 1) * w <= w * h) by (nonlinear_arith)
                        requires
                            y < h,
                    ;
                    assert((y + 1) * w == y * w + w) by (nonlinear_arith);
                }
                while x < w
                    invariant
                        0 <= x <= w,
                        y < h,
                        w == g.0,
                        h == g.1,
                        layer.data@ == g.2,
                        grid_area(g) <= g.2.len(),
                        (w * h) as nat == grid_area(g),
                        grid_area(g) <= u32::MAX,
                        y * w + w <= w * h,
                        codes == layer_codes(g, tss),
                        tss == tiled_map.tilesets@,
                        texture_indices@ == tileset_textures(tss),
                        data@ == base + codes.take(y * w + x),
                    decreases w - x,
                {
                    let src_index = (y * w + x) as usize;
                    let code = Self::to_tile_data(tiled_map, layer.data[src_index], &texture_indices);
                    data.push(code);
                    proof {
                        assert(codes.take(y * w + x).push(code) =~= codes.take(y * w + x + 1));
                    }
                    x += 1;
                }
                proof {
                    assert((y + 1) * w == y * w + w) by (nonlinear_arith);
                }
                y += 1;
            }
            assert(codes.take(h * w) =~= codes) by {
                assert(h * w == w * h) by (nonlinear_arith);
            }
            layers.push(MapLayer { width: w, height: h, start_index });
            proof {
                assert(vl.take(j + 1).drop_last() =~= vl.take(j as int));
            }
            start_index += w * h;
            j += 1;
        }
        assert(vl.take(vl.len() as int) =~= vl);
        Some(MapData { tile_width: tiled_map.tilewidth, tile_height: tiled_map.tileheight, data, layers })
    }

    /// The texture slot of every tileset of the map, in order.
    fn texture_indices(tiled_map: &TiledMap) -> (indices: Vec<i32>)
        ensures
            indices@ == tileset_textures(tiled_map.tilesets@),
    {
        let mut indices: Vec<i32> = Vec::with_capacity(tiled_map.tilesets.len());
        let mut i: usize = 0;
        while i < tiled_map.tilesets.len()
            invariant
                0 <= i <= tiled_map.tilesets@.len(),
                indices@ =~= tileset_textures(tiled_map.tilesets@).take(i as int),
            decreases tiled_map.tilesets@.len() - i,
        {
            indices.push(Self::texture_index_of(&tiled_map.tilesets[i].source));
            i += 1;
        }
        indices
    }

    /// The packed code of one chip id: found through the last tileset whose
    /// first id is at most the chip id.
    fn to_tile_data(tiled_map: &TiledMap, chip_id: u32, texture_indices: &Vec<i32>) -> (code: u32)
        requires
            texture_indices@.len() >= tiled_map.tilesets@.len(),
        ensures
            code == tile_code(tiled_map.tilesets@, texture_indices@, chip_id),
    {
        if chip_id == 0 {
            return 1 << 21 | 0xFFFF;
        }
        let ghost tss = tiled_map.tilesets@;
        let mut i: usize = tiled_map.tilesets.len();
        while i > 0
            invariant
                0 <= i <= tss.len(),
                tss == tiled_map.tilesets@,
                texture_indices@.len() >= tss.len(),
                chip_id != 0,
                owning_tileset(tss, chip_id, tss.len() as int) == owning_tileset(
                    tss,
                    chip_id,
                    i as int,
                ),
            decreases i,
        {
            i -= 1;
            let tileset = &tiled_map.tilesets[i];
            let mut real_chip_id = match chip_id.checked_sub(tileset.firstgid) {
                Some(result) => result,
                None => continue,
            };
            let mut texture_id = texture_indices[i];
            if texture_id < 0 {
                texture_id = 0;
                real_chip_id = 0xFFFF;
            }
            let texture_id = texture_id as u32;
            let anim_index: u32 = match texture_id {
                0 => {
                    if real_chip_id > 60 {
                        4
                    } else {
                        0
                    }
                },
                1 => {
                    if real_chip_id > 216 {
                        4
                    } else {
                        0
                    }
                },
                2 => 0,
                _ => 0,
            };
            return (texture_id << 28) | (anim_index << 24) | (3 << 21) | (real_chip_id & 0xFFFF);
        }
        1 << 21 | 0xFFFF
    }
}

} // verus!
