use vstd::prelude::*;
use crate::map_data::pack_tile;

verus! {

/// Cell (`x`, `y`) of the sample ground layer: a checkerboard of tile 0 and
/// the animated tile 73 of texture 0.
pub open spec fn ground_code(x: int, y: int) -> u32 {
    if (x + y) % 2 == 0 {
        pack_tile(0, 0, 0)
    } else {
        pack_tile(0, 4, 73)
    }
}

/// Cell (`x`, `y`) of the sample overlay layer: tile 9 of texture 1 on every
/// fifth row, an empty cell elsewhere.
pub open spec fn overlay_code(y: int) -> u32 {
    if y % 5 == 0 {
        (1u32 << 28u32) | (1u32 << 21u32) | (9u32 & 0xFFFFu32)
    } else {
        (1u32 << 28u32) | (1u32 << 21u32) | 0xFFFFu32
    }
}

/// The sample ground layer of a `w` x `h` map, row-major.
pub open spec fn ground_layer(w: nat, h: nat) -> Seq<u32> {
    Seq::new(w * h, |k: int| ground_code(k % (w as int), k / (w as int)))
}

/// The sample overlay layer of a `w` x `h` map, row-major.
pub open spec fn overlay_layer(w: nat, h: nat) -> Seq<u32> {
    Seq::new(w * h, |k: int| overlay_code(k / (w as int)))
}

/// Cell (`x`, `y`) of layer 0 of the indexed sample: tile 0 of texture 0
/// and tile 9 of texture 1 in a checkerboard (texture in bits 31-16).
pub open spec fn indexed_base_code(x: int, y: int) -> u32 {
    if (x + y) % 2 == 0 {
        (0u32 << 16u32) | (0u32 & 0xFFFFu32)
    } else {
        (1u32 << 16u32) | (9u32 & 0xFFFFu32)
    }
}

/// Cell (`x`, `y`) of layer 1 of the indexed sample: the first twelve
/// tiles of texture 0 in 2x2 blocks along the diagonals.
pub open spec fn indexed_water_code(x: int, y: int) -> u32 {
    (0u32 << 16u32) | ((((x / 2 + y / 2) % 12) as u32) & 0xFFFFu32)
}

/// Cell (`x`, `y`) of layer 2 of the indexed sample: the first thirty
/// tiles of texture 1 by `(3x + y) mod 30`.
pub open spec fn indexed_decor_code(x: int, y: int) -> u32 {
    (1u32 << 16u32) | ((((x * 3 + y) % 30) as u32) & 0xFFFFu32)
}

/// Cell (`x`, `y`) of layer `layer` (0, 1 or 2) of the indexed sample.
pub open spec fn indexed_code(layer: u32, x: int, y: int) -> u32 {
    if layer == 0 {
        indexed_base_code(x, y)
    } else if layer == 1 {
        indexed_water_code(x, y)
    } else {
        indexed_decor_code(x, y)
    }
}

/// Layer `layer` of the indexed sample on a `w` x `h` map, row-major.
pub open spec fn indexed_layer(w: nat, h: nat, layer: u32) -> Seq<u32> {
    Seq::new(w * h, |k: int| indexed_code(layer, k % (w as int), k / (w as int)))
}

/// Cell `y * w + x` of a row-major grid is column `x` of row `y`.
proof fn lemma_cell_of(w: int, x: int, y: int)
    requires
        0 <= x < w,
        0 <= y,
    ensures
        (y * w + x) % w == x,
        (y * w + x) / w == y,
        (y + 1) * w == y * w + w,
{
    vstd::arithmetic::div_mod::lemma_fundamental_div_mod_converse(y * w + x, w, y, x);
    assert((y + 1) * w == y * w + w) by (nonlinear_arith);
}

/// Coordinates in a `w` x `h` grid are bounded by its cell count.
proof fn lemma_coords_below_area(w: int, h: int, x: int, y: int)
    requires
        0 <= x < w,
        0 <= y < h,
    ensures
        y * w + x < w * h,
        x + y < w * h,
        (y + 1) * w <= w * h,
{
    assert((y + 1) * w <= h * w) by (nonlinear_arith)
        requires
            y + 1 <= h,
            0 <= w,
    ;
    assert(h * w == w * h) by (nonlinear_arith);
    assert(x + y <= y * w + x) by (nonlinear_arith)
        requires
            0 <= x < w,
            0 <= y,
    ;
    assert((y + 1) * w == y * w + w) by (nonlinear_arith);
}

/// In the two-layer sample, the ground cell (`x`, `y`) is texture 0 with a
/// frame count of 3; it is tile 73 exactly on the cells where `x + y` is odd
/// and tile 0 elsewhere, only tile 73 is animated (index 4), and two
/// horizontally neighbouring ground cells always differ.
pub proof fn lemma_ground_tiles(w: nat, h: nat, x: int, y: int)
    requires
        0 <= x < w,
        0 <= y < h,
    ensures
        ({
            let map = ground_layer(w, h) + overlay_layer(w, h);
            let c = map[y * w + x];
            &&& c >> 28u32 == 0
            &&& (c >> 21u32) & 7u32 == 3
            &&& (c & 0xFFFFu32 == 73) == ((x + y) % 2 == 1)
            &&& ((x + y) % 2 == 0 ==> c & 0xFFFFu32 == 0)
            &&& (c >> 24u32) & 0xFu32 == (if c & 0xFFFFu32 == 73 { 4u32 } else { 0u32 })
            &&& (x + 1 < w ==> map[y * w + x + 1] != c)
        }),
{
    let wi = w as int;
    lemma_cell_of(wi, x, y);
    lemma_coords_below_area(wi, h as int, x, y);
    let map = ground_layer(w, h) + overlay_layer(w, h);
    let even = pack_tile(0, 0, 0);
    let odd = pack_tile(0, 4, 73);
    assert(even >> 28u32 == 0 && (even >> 21u32) & 7u32 == 3 && even & 0xFFFFu32 == 0 && (even
        >> 24u32) & 0xFu32 == 0 && odd >> 28u32 == 0 && (odd >> 21u32) & 7u32 == 3 && odd
        & 0xFFFFu32 == 73 && (odd >> 24u32) & 0xFu32 == 4) by (bit_vector)
        requires
            even == (0u32 << 28u32) | (0u32 << 24u32) | (3u32 << 21u32) | (0u32 & 0xFFFFu32),
            odd == (0u32 << 28u32) | (4u32 << 24u32) | (3u32 << 21u32) | (73u32 & 0xFFFFu32),
    ;
    assert(map[y * wi + x] == ground_code(x, y));
    if x + 1 < wi {
        lemma_cell_of(wi, x + 1, y);
        lemma_coords_below_area(wi, h as int, x + 1, y);
        assert(map[y * wi + x + 1] == ground_code(x + 1, y));
    }
}

/// In the two-layer sample, every overlay cell is texture 1, not animated,
/// with a frame count of 1; a row whose index is a multiple of five holds
/// tile 9 in every cell, and every other row is empty (0xFFFF).
pub proof fn lemma_overlay_tiles(w: nat, h: nat, x: int, y: int, x2: int)
    requires
        0 <= x < w,
        0 <= x2 < w,
        0 <= y < h,
    ensures
        ({
            let map = ground_layer(w, h) + overlay_layer(w, h);
            let c = map[w * h + y * w + x];
            &&& c >> 28u32 == 1
            &&& (c >> 24u32) & 0xFu32 == 0
            &&& (c >> 21u32) & 7u32 == 1
            &&& c & 0xFFFFu32 == (if y % 5 == 0 { 9u32 } else { 0xFFFFu32 })
            &&& map[w * h + y * w + x2] == c
        }),
{
    let wi = w as int;
    lemma_cell_of(wi, x, y);
    lemma_coords_below_area(wi, h as int, x, y);
    lemma_cell_of(wi, x2, y);
    lemma_coords_below_area(wi, h as int, x2, y);
    let map = ground_layer(w, h) + overlay_layer(w, h);
    assert(ground_layer(w, h).len() == w * h);
    assert(map[w * h + y * wi + x] == overlay_code(y));
    assert(map[w * h + y * wi + x2] == overlay_code(y));
    let full = overlay_code(0);
    let empty = overlay_code(1);
    assert(full >> 28u32 == 1 && (full >> 24u32) & 0xFu32 == 0 && (full >> 21u32) & 7u32 == 1
        && full & 0xFFFFu32 == 9 && empty >> 28u32 == 1 && (empty >> 24u32) & 0xFu32 == 0 && (
    empty >> 21u32) & 7u32 == 1 && empty & 0xFFFFu32 == 0xFFFF) by (bit_vector)
        requires
            full == (1u32 << 28u32) | (1u32 << 21u32) | (9u32 & 0xFFFFu32),
            empty == (1u32 << 28u32) | (1u32 << 21u32) | 0xFFFFu32,
    ;
}

/// In the indexed sample, layer 0 holds tile 0 of texture 0 (code 0) where
/// `x + y` is even and tile 9 of texture 1 (code 0x10009) where it is odd,
/// so two horizontally neighbouring cells always differ.
pub proof fn lemma_indexed_base_tiles(w: nat, h: nat, x: int, y: int)
    requires
        0 <= x < w,
        0 <= y < h,
    ensures
        ({
            let map = indexed_layer(w, h, 0) + indexed_layer(w, h, 1) + indexed_layer(w, h, 2);
            let c = map[y * w + x];
            &&& c == (if (x + y) % 2 == 0 { 0u32 } else { 0x10009u32 })
            &&& (x + 1 < w ==> map[y * w + x + 1] != c)
        }),
{
    let wi = w as int;
    lemma_cell_of(wi, x, y);
    lemma_coords_below_area(wi, h as int, x, y);
    let map = indexed_layer(w, h, 0) + indexed_layer(w, h, 1) + indexed_layer(w, h, 2);
    assert((0u32 << 16u32) | (0u32 & 0xFFFFu32) == 0u32 && (1u32 << 16u32) | (9u32 & 0xFFFFu32)
        == 0x10009u32) by (bit_vector);
    assert(map[y * wi + x] == indexed_base_code(x, y));
    if x + 1 < wi {
        lemma_cell_of(wi, x + 1, y);
        lemma_coords_below_area(wi, h as int, x + 1, y);
        assert(map[y * wi + x + 1] == indexed_base_code(x + 1, y));
    }
}

/// In the indexed sample, every cell of layer 1 is one of the first twelve
/// tiles of texture 0 (texture bits zero, tile below 12); the pattern is
/// laid in 2x2 blocks and repeats every 24 cells along a row.
pub proof fn lemma_indexed_water_tiles(w: nat, h: nat, x: int, y: int)
    requires
        0 <= x < w,
        0 <= y < h,
    ensures
        ({
            let map = indexed_layer(w, h, 0) + indexed_layer(w, h, 1) + indexed_layer(w, h, 2);
            let c = map[w * h + y * w + x];
            &&& c >> 16u32 == 0
            &&& c & 0xFFFFu32 < 12
            &&& (x % 2 == 0 && x + 1 < w ==> map[w * h + y * w + x + 1] == c)
            &&& (x + 24 < w ==> map[w * h + y * w + x + 24] == c)
        }),
{
    let wi = w as int;
    lemma_cell_of(wi, x, y);
    lemma_coords_below_area(wi, h as int, x, y);
    let map = indexed_layer(w, h, 0) + indexed_layer(w, h, 1) + indexed_layer(w, h, 2);
    assert(indexed_layer(w, h, 0).len() == w * h);
    assert(map[w * h + y * wi + x] == indexed_water_code(x, y));
    let t = ((x / 2 + y / 2) % 12) as u32;
    let c = indexed_water_code(x, y);
    assert(c >> 16u32 == 0 && c & 0xFFFFu32 < 12) by (bit_vector)
        requires
            t < 12,
            c == (0u32 << 16u32) | (t & 0xFFFFu32),
    ;
    if x % 2 == 0 && x + 1 < wi {
        lemma_cell_of(wi, x + 1, y);
        lemma_coords_below_area(wi, h as int, x + 1, y);
        assert((x + 1) / 2 == x / 2);
        assert(map[w * h + y * wi + x + 1] == indexed_water_code(x + 1, y));
    }
    if x + 24 < wi {
        lemma_cell_of(wi, x + 24, y);
        lemma_coords_below_area(wi, h as int, x + 24, y);
        assert((x + 24) / 2 == x / 2 + 12);
        assert((x / 2 + 12 + y / 2) % 12 == (x / 2 + y / 2) % 12);
        assert(map[w * h + y * wi + x + 24] == indexed_water_code(x + 24, y));
    }
}

/// In the indexed sample, every cell of layer 2 is one of the first thirty
/// tiles of texture 1 (texture bits 1, tile below 30), and the pattern
/// repeats every 10 cells along a row.
pub proof fn lemma_indexed_decor_tiles(w: nat, h: nat, x: int, y: int)
    requires
        0 <= x < w,
        0 <= y < h,
    ensures
        ({
            let map = indexed_layer(w, h, 0) + indexed_layer(w, h, 1) + indexed_layer(w, h, 2);
            let c = map[2 * w * h + y * w + x];
            &&& c >> 16u32 == 1
            &&& c & 0xFFFFu32 < 30
            &&& (x + 10 < w ==> map[2 * w * h + y * w + x + 10] == c)
        }),
{
    let wi = w as int;
    lemma_cell_of(wi, x, y);
    lemma_coords_below_area(wi, h as int, x, y);
    let map = indexed_layer(w, h, 0) + indexed_layer(w, h, 1) + indexed_layer(w, h, 2);
    assert(indexed_layer(w, h, 0).len() == w * h);
    assert(indexed_layer(w, h, 1).len() == w * h);
    assert(2 * w * h == w * h + w * h) by (nonlinear_arith);
    assert(map[2 * w * h + y * wi + x] == indexed_decor_code(x, y));
    let t = ((x * 3 + y) % 30) as u32;
    let c = indexed_decor_code(x, y);
    assert(c >> 16u32 == 1 && c & 0xFFFFu32 < 30) by (bit_vector)
        requires
            t < 30,
            c == (1u32 << 16u32) | (t & 0xFFFFu32),
    ;
    if x + 10 < wi {
        lemma_cell_of(wi, x + 10, y);
        lemma_coords_below_area(wi, h as int, x + 10, y);
        assert((x + 10) * 3 + y == (x * 3 + y) + 30);
        assert(((x * 3 + y) + 30) % 30 == (x * 3 + y) % 30);
        assert(map[2 * w * h + y * wi + x + 10] == indexed_decor_code(x + 10, y));
    }
}

/// Builds the two-layer sample map: the checkerboard ground layer followed
/// by the overlay layer, each `map_width * map_height` cells, row-major.
pub fn build_layered_sample_map(map_width: u32, map_height: u32) -> (map_data: Vec<u32>)
    requires
        map_width * map_height * 2 <= u32::MAX,
    ensures
        map_data@ == ground_layer(map_width as nat, map_height as nat) + overlay_layer(
            map_width as nat,
            map_height as nat,
        ),
{
    let ghost (w, h) = (map_width as int, map_height as int);
    let ghost ground = ground_layer(map_width as nat, map_height as nat);
    let ghost overlay = overlay_layer(map_width as nat, map_height as nat);
    let mut map_data: Vec<u32> = Vec::with_capacity((map_width * map_height * 2) as usize);
    let mut y: u32 = 0;
    assert(ground.take(0) =~= Seq::<u32>::empty());
    while y < map_height
        invariant
            0 <= y <= map_height,
            w == map_width,
            h == map_height,
            w * h * 2 <= u32::MAX,
            ground == ground_layer(map_width as nat, map_height as nat),
            map_data@ == ground.take(y * w),
        decreases map_height - y,
    {
        let mut x: u32 = 0;
        while x < map_width
            invariant
                0 <= x <= map_width,
                y < map_height,
                w == map_width,
                h == map_height,
                w * h * 2 <= u32::MAX,
                ground == ground_layer(map_width as nat, map_height as nat),
                map_data@ == ground.take(y * w + x),
            decreases map_width - x,
        {
            proof {
                lemma_cell_of(w, x as int, y as int);
                lemma_coords_below_area(w, h, x as int, y as int);
            }
            let (tex_index, tile_id): (u32, u32) = if (x + y) % 2 == 0 {
                (0, 0)
            } else {
                (0, 73)
            };
            let anim_index: u32 = if tile_id == 73 {
                4
            } else {
                0
            };
            map_data.push((tex_index << 28) | (anim_index << 24) | (3 << 21) | (tile_id & 0xFFFF));
            assert(map_data@ =~= ground.take(y * w + x + 1));
            x += 1;
        }
        assert((y + 1) * w == y * w + w) by (nonlinear_arith);
        y += 1;
    }
    proof {
        assert(h * w == w * h) by (nonlinear_arith);
        assert(ground.take(h * w) =~= ground);
    }
    let mut y: u32 = 0;
    assert(overlay.take(0) =~= Seq::<u32>::empty());
    while y < map_height
        invariant
            0 <= y <= map_height,
            w == map_width,
            h == map_height,
            w * h * 2 <= u32::MAX,
            overlay == overlay_layer(map_width as nat, map_height as nat),
            map_data@ == ground + overlay.take(y * w),
        decreases map_height - y,
    {
        let mut x: u32 = 0;
        while x < map_width
            invariant
                0 <= x <= map_width,
                y < map_height,
                w == map_width,
                h == map_height,
                w * h * 2 <= u32::MAX,
                overlay == overlay_layer(map_width as nat, map_height as nat),
                map_data@ == ground + overlay.take(y * w + x),
            decreases map_width - x,
        {
            proof {
                lemma_cell_of(w, x as int, y as int);
                lemma_coords_below_area(w, h, x as int, y as int);
            }
            if y % 5 == 0 {
                map_data.push((1 << 28) | 1 << 21 | (9 & 0xFFFF));
            } else {
                map_data.push((1 << 28) | 1 << 21 | 0xFFFF);
            }
            assert(map_data@ =~= ground + overlay.take(y * w + x + 1));
            x += 1;
        }
        assert((y + 1) * w == y * w + w) by (nonlinear_arith);
        y += 1;
    }
    proof {
        assert(h * w == w * h) by (nonlinear_arith);
        assert(overlay.take(h * w) =~= overlay);
    }
    map_data
}

/// Cell (`x`, `y`) of one layer of the indexed sample.
fn indexed_cell(layer: u32, x: u32, y: u32) -> (code: u32)
    requires
        layer < 3,
        x * 3 + y <= u32::MAX,
    ensures
        code == indexed_code(layer, x as int, y as int),
{
    if layer == 0 {
        let (tex_index, tile_id): (u32, u32) = if (x + y) % 2 == 0 {
            (0, 0)
        } else {
            (1, 9)
        };
        (tex_index << 16) | (tile_id & 0xFFFF)
    } else if layer == 1 {
        let tile_id = ((x / 2 + y / 2) % 12) as u32;
        (0 << 16) | (tile_id & 0xFFFF)
    } else {
        let tile_id = ((x * 3 + y) % 30) as u32;
        (1 << 16) | (tile_id & 0xFFFF)
    }
}

/// Appends one layer of the indexed sample, row by row.
fn push_indexed_layer(map_data: &mut Vec<u32>, map_width: u32, map_height: u32, layer: u32)
    requires
        layer < 3,
        map_width * map_height <= u32::MAX,
        map_width == 0 || map_height == 0 || 3 * (map_width - 1) + (map_height - 1) <= u32::MAX,
    ensures
        final(map_data)@ == old(map_data)@ + indexed_layer(map_width as nat, map_height as nat, layer),
{
    let ghost (w, h) = (map_width as int, map_height as int);
    let ghost base = map_data@;
    let ghost cells = indexed_layer(map_width as nat, map_height as nat, layer);
    assert(cells.take(0) =~= Seq::<u32>::empty());
    let mut y: u32 = 0;
    while y < map_height
        invariant
            0 <= y <= map_height,
            layer < 3,
            w == map_width,
            h == map_height,
            w * h <= u32::MAX,
            w == 0 || h == 0 || 3 * (w - 1) + (h - 1) <= u32::MAX,
            cells == indexed_layer(map_width as nat, map_height as nat, layer),
            map_data@ == base + cells.take(y * w),
        decreases map_height - y,
    {
        let mut x: u32 = 0;
        while x < map_width
            invariant
                0 <= x <= map_width,
                y < map_height,
                layer < 3,
                w == map_width,
                h == map_height,
                w * h <= u32::MAX,
                w == 0 || h == 0 || 3 * (w - 1) + (h - 1) <= u32::MAX,
                cells == indexed_layer(map_width as nat, map_height as nat, layer),
                map_data@ == base + cells.take(y * w + x),
            decreases map_width - x,
        {
            proof {
                lemma_cell_of(w, x as int, y as int);
                lemma_coords_below_area(w, h, x as int, y as int);
            }
            map_data.push(indexed_cell(layer, x, y));
            assert(map_data@ =~= base + cells.take(y * w + x + 1));
            x += 1;
        }
        assert((y + 1) * w == y * w + w) by (nonlinear_arith);
        y += 1;
    }
    proof {
        assert(h * w == w * h) by (nonlinear_arith);
        assert(cells.take(h * w) =~= cells);
    }
}

/// Builds the three-layer map of the indexed tilemap sample, each layer
/// `map_width * map_height` cells, row-major: the two-texture checkerboard,
/// the diagonal water pattern of texture 0 and the decoration pattern of
/// texture 1.
pub fn build_indexed_sample_map(map_width: u32, map_height: u32) -> (map_data: Vec<u32>)
    requires
        map_width * map_height <= u32::MAX,
        map_width * map_height * 3 <= usize::MAX,
        map_width == 0 || map_height == 0 || 3 * (map_width - 1) + (map_height - 1) <= u32::MAX,
    ensures
        map_data@ == indexed_layer(map_width as nat, map_height as nat, 0) + indexed_layer(
            map_width as nat,
            map_height as nat,
            1,
        ) + indexed_layer(map_width as nat, map_height as nat, 2),
{
    let map_layer_size = (map_width * map_height) as usize;
    let mut map_data: Vec<u32> = Vec::with_capacity(map_layer_size * 3);
    push_indexed_layer(&mut map_data, map_width, map_height, 0);
    push_indexed_layer(&mut map_data, map_width, map_height, 1);
    push_indexed_layer(&mut map_data, map_width, map_height, 2);
    map_data
}

} // verus!
