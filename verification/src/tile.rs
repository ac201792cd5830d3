use std::ops::Range;
use vstd::prelude::*;
use crate::map_data::{
    anim_index_for, empty_tile_code, lemma_owning_in_range, owning_tileset, pack_tile, tile_code,
    tileset_textures,
};
use crate::tiled_map::TileSets;

verus! {

/// One 16x16 cell drawn by the tile pipeline: its grid position in
/// half-tile units and its packed tile code.
#[derive(Clone, Copy, Debug, PartialEq, Eq)]
pub struct TileInstance {
    pub grid_pos: [i16; 2],
    pub tile_data: u32,
}

/// Half-tile grid coordinate of a tile coordinate: twice it, truncated to 16 bits.
pub open spec fn half_grid(v: i32) -> i16 {
    (v * 2) as i16
}

pub open spec fn texture_of(tile_data: u32) -> u32 {
    tile_data >> 28u32
}

pub open spec fn anim_of(tile_data: u32) -> u32 {
    (tile_data >> 24u32) & 0xFu32
}

pub open spec fn tile_id_of(tile_data: u32) -> u32 {
    tile_data & 0xFFFFu32
}

/// The upper bits of every half-tile code: texture index and frame count
/// kept, animation index doubled (a 32px animation step is two 16px cells).
pub open spec fn quad_upper(tile_data: u32) -> u32 {
    (tile_data & 0xF0FF0000u32) | (((anim_of(tile_data) * 2) as u32) << 24u32)
}

/// Index of the 16px sub-cell (`dx`, `dy`) of tile `id` in an atlas that is
/// `count_x` 32px tiles wide, counted in 16px cells.
pub open spec fn sub_tile(id: u32, count_x: u32, dx: int, dy: int) -> int {
    (2 * (id % count_x) + dx) + (2 * (id / count_x) + dy) * (2 * count_x)
}

pub open spec fn instance(gx: i16, gy: i16, tile_data: u32) -> TileInstance {
    TileInstance { grid_pos: [gx, gy], tile_data }
}

/// The four half-tile instances of a 32px tile at tile position (`x`, `y`):
/// top-left, top-right, bottom-left, bottom-right.
pub open spec fn tile_quad(tile_data: u32, x: i32, y: i32, counts: [u32; 3]) -> Seq<TileInstance> {
    let gx = half_grid(x);
    let gy = half_grid(y);
    let cx = counts[texture_of(tile_data) as int];
    let id = tile_id_of(tile_data);
    let up = quad_upper(tile_data);
    seq![
        instance(gx, gy, up | (sub_tile(id, cx, 0, 0) as u32)),
        instance((gx + 1) as i16, gy, up | (sub_tile(id, cx, 1, 0) as u32)),
        instance(gx, (gy + 1) as i16, up | (sub_tile(id, cx, 0, 1) as u32)),
        instance((gx + 1) as i16, (gy + 1) as i16, up | (sub_tile(id, cx, 1, 1) as u32)),
    ]
}

/// A tile can be split without overflow: its coordinates double within
/// 32 bits, its texture has an atlas width, and every sub-cell index fits.
pub open spec fn quad_fits(tile_data: u32, x: i32, y: i32, counts: [u32; 3]) -> bool {
    let tex = texture_of(tile_data);
    &&& i32::MIN <= 2 * x <= i32::MAX
    &&& i32::MIN <= 2 * y <= i32::MAX
    &&& tex < 3
    &&& counts[tex as int] > 0
    &&& 2 * counts[tex as int] <= u32::MAX
    &&& sub_tile(tile_id_of(tile_data), counts[tex as int], 1, 1) <= u32::MAX
}

/// Whether cell (`x`, `y`) lies on a map of `w` x `h` cells.
pub open spec fn on_map(w: i32, h: i32, x: int, y: int) -> bool {
    0 <= x < w && 0 <= y < h
}

/// Where cell (`x`, `y`) of the layer starting at `offset` lies in the map data.
pub open spec fn cell_index(offset: int, w: i32, x: int, y: int) -> int {
    offset + y * w + x
}

/// Whether a cell is left out of a layer that skips empty cells: its tile id is 0xFFFF.
pub open spec fn is_empty_cell(tile_data: u32) -> bool {
    tile_id_of(tile_data) == 0xFFFF
}

/// The instances one cell contributes: none off the map or, when
/// `skip_empty`, none for an empty cell; otherwise its four half-tiles.
pub open spec fn cell_quads(
    map: Seq<u32>,
    offset: int,
    w: i32,
    h: i32,
    x: int,
    y: int,
    counts: [u32; 3],
    skip_empty: bool,
) -> Seq<TileInstance> {
    if !on_map(w, h, x, y) {
        Seq::empty()
    } else {
        let t = map[cell_index(offset, w, x, y)];
        if skip_empty && is_empty_cell(t) {
            Seq::empty()
        } else {
            tile_quad(t, x as i32, y as i32, counts)
        }
    }
}

/// The instances of row `y`, columns `sx` to `ex` inclusive, left to right.
pub open spec fn row_quads(
    map: Seq<u32>,
    offset: int,
    w: i32,
    h: i32,
    y: int,
    sx: int,
    ex: int,
    counts: [u32; 3],
    skip_empty: bool,
) -> Seq<TileInstance>
    decreases ex - sx + 1,
{
    if ex < sx {
        Seq::empty()
    } else {
        row_quads(map, offset, w, h, y, sx, ex - 1, counts, skip_empty) + cell_quads(
            map,
            offset,
            w,
            h,
            ex,
            y,
            counts,
            skip_empty,
        )
    }
}

/// The instances of rows `sy` to `ey` inclusive, top to bottom, each over
/// columns `sx` to `ex`.
pub open spec fn window_quads(
    map: Seq<u32>,
    offset: int,
    w: i32,
    h: i32,
    sx: int,
    ex: int,
    sy: int,
    ey: int,
    counts: [u32; 3],
    skip_empty: bool,
) -> Seq<TileInstance>
    decreases ey - sy + 1,
{
    if ey < sy {
        Seq::empty()
    } else {
        window_quads(map, offset, w, h, sx, ex, sy, ey - 1, counts, skip_empty) + row_quads(
            map,
            offset,
            w,
            h,
            ey,
            sx,
            ex,
            counts,
            skip_empty,
        )
    }
}

/// A drawn cell can be read and split: its index fits 32-bit arithmetic
/// and the map, and its tile can be split without overflow.
pub open spec fn cell_fits(
    map: Seq<u32>,
    offset: int,
    w: i32,
    h: i32,
    x: int,
    y: int,
    counts: [u32; 3],
    skip_empty: bool,
) -> bool {
    on_map(w, h, x, y) ==> {
        &&& y * w + x <= i32::MAX
        &&& cell_index(offset, w, x, y) < map.len()
        &&& (skip_empty && is_empty_cell(map[cell_index(offset, w, x, y)])) || quad_fits(
            map[cell_index(offset, w, x, y)],
            x as i32,
            y as i32,
            counts,
        )
    }
}

/// Every cell of the window fits.
pub open spec fn window_fits(
    map: Seq<u32>,
    offset: int,
    w: i32,
    h: i32,
    sx: int,
    ex: int,
    sy: int,
    ey: int,
    counts: [u32; 3],
    skip_empty: bool,
) -> bool {
    forall|x: int, y: int|
        sx <= x <= ex && sy <= y <= ey ==> #[trigger] cell_fits(
            map,
            offset,
            w,
            h,
            x,
            y,
            counts,
            skip_empty,
        )
}

/// Every drawn cell contributes exactly four half-tile instances, so the
/// instance count of a layer's window is a multiple of four.
pub proof fn lemma_window_quads_len(
    map: Seq<u32>,
    offset: int,
    w: i32,
    h: i32,
    sx: int,
    ex: int,
    sy: int,
    ey: int,
    counts: [u32; 3],
    skip_empty: bool,
)
    ensures
        window_quads(map, offset, w, h, sx, ex, sy, ey, counts, skip_empty).len() % 4 == 0,
    decreases ey - sy + 1,
{
    if ey >= sy {
        lemma_window_quads_len(map, offset, w, h, sx, ex, sy, ey - 1, counts, skip_empty);
        lemma_row_quads_len(map, offset, w, h, ey, sx, ex, counts, skip_empty);
    }
}

/// When all instances can be counted in `u32`, both draw ranges of the
/// visible tiles cover whole tiles: every range bound is a multiple of four.
pub proof fn lemma_draw_ranges_whole_tiles(
    map_data: Seq<u32>,
    map_width: u32,
    map_height: u32,
    start_x: i32,
    end_x: i32,
    start_y: i32,
    end_y: i32,
    counts: [u32; 3],
)
    requires
        ({
            let lower = window_quads(map_data, 0, map_width as i32, map_height as i32, start_x as int, end_x as int, start_y as int, end_y as int, counts, false);
            let upper = window_quads(map_data, map_width * map_height, map_width as i32, map_height as i32, start_x as int, end_x as int, start_y as int, end_y as int, counts, true);
            lower.len() + upper.len() <= u32::MAX
        }),
    ensures
        ({
            let lower = window_quads(map_data, 0, map_width as i32, map_height as i32, start_x as int, end_x as int, start_y as int, end_y as int, counts, false);
            let upper = window_quads(map_data, map_width * map_height, map_width as i32, map_height as i32, start_x as int, end_x as int, start_y as int, end_y as int, counts, true);
            &&& (lower.len() as u32) % 4 == 0
            &&& ((lower.len() + upper.len()) as u32) % 4 == 0
        }),
{
    lemma_window_quads_len(map_data, 0, map_width as i32, map_height as i32, start_x as int, end_x as int, start_y as int, end_y as int, counts, false);
    lemma_window_quads_len(map_data, map_width * map_height, map_width as i32, map_height as i32, start_x as int, end_x as int, start_y as int, end_y as int, counts, true);
}

/// The number of integers in `s..=e` that lie in `0..n`.
pub open spec fn overlap(s: int, e: int, n: int) -> int {
    let lo = if s > 0 {
        s
    } else {
        0
    };
    let hi = if e < n - 1 {
        e
    } else {
        n - 1
    };
    if hi >= lo {
        hi - lo + 1
    } else {
        0
    }
}

/// Only cells on the map are drawn: a layer's window yields four instances
/// for each window cell with `0 <= x < w` and `0 <= y < h` when no cell is
/// skipped, and never more than that.
pub proof fn lemma_window_counts(
    map: Seq<u32>,
    offset: int,
    w: i32,
    h: i32,
    sx: int,
    ex: int,
    sy: int,
    ey: int,
    counts: [u32; 3],
    skip_empty: bool,
)
    ensures
        window_quads(map, offset, w, h, sx, ex, sy, ey, counts, skip_empty).len() <= 4 * overlap(
            sx,
            ex,
            w as int,
        ) * overlap(sy, ey, h as int),
        !skip_empty ==> window_quads(map, offset, w, h, sx, ex, sy, ey, counts, skip_empty).len()
            == 4 * overlap(sx, ex, w as int) * overlap(sy, ey, h as int),
    decreases ey - sy + 1,
{
    let cols = overlap(sx, ex, w as int);
    assert(cols >= 0);
    if ey < sy {
        assert(overlap(sy, ey, h as int) == 0);
        assert(4 * cols * 0 == 0);
    } else {
        lemma_window_counts(map, offset, w, h, sx, ex, sy, ey - 1, counts, skip_empty);
        lemma_row_counts(map, offset, w, h, ey, sx, ex, counts, skip_empty);
        let r0 = overlap(sy, ey - 1, h as int);
        let r1 = overlap(sy, ey, h as int);
        assert(r0 >= 0);
        if 0 <= ey < h {
            assert(r1 == r0 + 1);
            assert(4 * cols * r1 == 4 * cols * r0 + 4 * cols) by (nonlinear_arith)
                requires
                    r1 == r0 + 1,
            ;
        } else {
            assert(r1 == r0);
        }
    }
}

/// Every instance a layer's window yields comes from a cell on the map:
/// whatever the window, its half-tile grid position lies in `0..2w` x
/// `0..2h` (for maps whose doubled size fits the 16-bit grid).
pub proof fn lemma_window_on_map(
    map: Seq<u32>,
    offset: int,
    w: i32,
    h: i32,
    sx: int,
    ex: int,
    sy: int,
    ey: int,
    counts: [u32; 3],
    skip_empty: bool,
    k: int,
)
    requires
        2 * w <= i16::MAX,
        2 * h <= i16::MAX,
        0 <= k < window_quads(map, offset, w, h, sx, ex, sy, ey, counts, skip_empty).len(),
    ensures
        0 <= window_quads(map, offset, w, h, sx, ex, sy, ey, counts, skip_empty)[k].grid_pos[0] < 2
            * w,
        0 <= window_quads(map, offset, w, h, sx, ex, sy, ey, counts, skip_empty)[k].grid_pos[1] < 2
            * h,
    decreases ey - sy + 1,
{
    if ey >= sy {
        let head = window_quads(map, offset, w, h, sx, ex, sy, ey - 1, counts, skip_empty);
        if k < head.len() {
            lemma_window_on_map(map, offset, w, h, sx, ex, sy, ey - 1, counts, skip_empty, k);
        } else {
            lemma_row_on_map(map, offset, w, h, ey, sx, ex, counts, skip_empty, k - head.len());
        }
    }
}

proof fn lemma_row_on_map(
    map: Seq<u32>,
    offset: int,
    w: i32,
    h: i32,
    y: int,
    sx: int,
    ex: int,
    counts: [u32; 3],
    skip_empty: bool,
    k: int,
)
    requires
        2 * w <= i16::MAX,
        2 * h <= i16::MAX,
        0 <= k < row_quads(map, offset, w, h, y, sx, ex, counts, skip_empty).len(),
    ensures
        0 <= row_quads(map, offset, w, h, y, sx, ex, counts, skip_empty)[k].grid_pos[0] < 2 * w,
        0 <= row_quads(map, offset, w, h, y, sx, ex, counts, skip_empty)[k].grid_pos[1] < 2 * h,
    decreases ex - sx + 1,
{
    if ex >= sx {
        let head = row_quads(map, offset, w, h, y, sx, ex - 1, counts, skip_empty);
        if k < head.len() {
            lemma_row_on_map(map, offset, w, h, y, sx, ex - 1, counts, skip_empty, k);
        } else {
            let j = k - head.len();
            let c = cell_quads(map, offset, w, h, ex, y, counts, skip_empty);
            assert(c.len() > 0);
            assert(on_map(w, h, ex, y));
            let t = map[cell_index(offset, w, ex, y)];
            let xi = ex as i32;
            let yi = y as i32;
            assert(xi == ex && yi == y);
            let gx = half_grid(xi);
            let gy = half_grid(yi);
            assert(gx == 2 * ex && gy == 2 * y);
            let q = tile_quad(t, xi, yi, counts);
            assert(c == q);
            assert(0 <= j < 4);
            assert(((gx + 1) as i16) == 2 * ex + 1);
            assert(((gy + 1) as i16) == 2 * y + 1);
            assert(0 <= q[j].grid_pos[0] < 2 * w && 0 <= q[j].grid_pos[1] < 2 * h);
        }
    }
}

proof fn lemma_row_counts(
    map: Seq<u32>,
    offset: int,
    w: i32,
    h: i32,
    y: int,
    sx: int,
    ex: int,
    counts: [u32; 3],
    skip_empty: bool,
)
    ensures
        row_quads(map, offset, w, h, y, sx, ex, counts, skip_empty).len() <= (if 0 <= y < h {
            4 * overlap(sx, ex, w as int)
        } else {
            0
        }),
        !skip_empty ==> row_quads(map, offset, w, h, y, sx, ex, counts, skip_empty).len() == (if 0
            <= y < h {
            4 * overlap(sx, ex, w as int)
        } else {
            0
        }),
    decreases ex - sx + 1,
{
    if ex >= sx {
        lemma_row_counts(map, offset, w, h, y, sx, ex - 1, counts, skip_empty);
        let c = cell_quads(map, offset, w, h, ex, y, counts, skip_empty);
        if on_map(w, h, ex, y) {
            let t = map[cell_index(offset, w, ex, y)];
            assert(tile_quad(t, ex as i32, y as i32, counts).len() == 4);
        }
        assert(c.len() <= 4);
    }
}

proof fn lemma_row_quads_len(
    map: Seq<u32>,
    offset: int,
    w: i32,
    h: i32,
    y: int,
    sx: int,
    ex: int,
    counts: [u32; 3],
    skip_empty: bool,
)
    ensures
        row_quads(map, offset, w, h, y, sx, ex, counts, skip_empty).len() % 4 == 0,
    decreases ex - sx + 1,
{
    if ex >= sx {
        lemma_row_quads_len(map, offset, w, h, y, sx, ex - 1, counts, skip_empty);
    }
}

proof fn lemma_half_grid_even(v: i32)
    requires
        i32::MIN <= 2 * v <= i32::MAX,
    ensures
        half_grid(v) < i16::MAX,
{
    let w = (v * 2) as i32;
    assert(w & 1 == 0) by (bit_vector)
        requires
            w == 2 * v,
    ;
    assert((w as i16) < 0x7fff) by (bit_vector)
        requires
            w & 1 == 0,
    ;
}

proof fn lemma_sub_tile_bounds(id: u32, cx: u32)
    requires
        cx > 0,
    ensures
        0 <= sub_tile(id, cx, 0, 0) <= sub_tile(id, cx, 1, 0) <= sub_tile(id, cx, 1, 1),
        sub_tile(id, cx, 0, 0) <= sub_tile(id, cx, 0, 1) <= sub_tile(id, cx, 1, 1),
        id % cx < cx,
        id / cx <= id,
{
    assert(id / cx <= id) by (nonlinear_arith)
        requires
            cx > 0,
    ;
    assert(0 <= (2 * (id / cx) + 0) * (2 * cx)) by (nonlinear_arith);
    assert((2 * (id / cx) + 0) * (2 * cx) <= (2 * (id / cx) + 1) * (2 * cx)) by (nonlinear_arith);
}

/// Decoding a packed tile code gives back what was packed: the texture
/// index, the animation index, the frame count 3 and the low 16 bits of
/// the chip id.
pub proof fn lemma_pack_tile_fields(texture_id: u32, anim_index: u32, chip: u32)
    requires
        texture_id < 16,
        anim_index < 16,
    ensures
        texture_of(pack_tile(texture_id, anim_index, chip)) == texture_id,
        anim_of(pack_tile(texture_id, anim_index, chip)) == anim_index,
        (pack_tile(texture_id, anim_index, chip) >> 21u32) & 7u32 == 3,
        tile_id_of(pack_tile(texture_id, anim_index, chip)) == chip & 0xFFFF,
{
    let code = pack_tile(texture_id, anim_index, chip);
    assert(code >> 28u32 == texture_id && (code >> 24u32) & 0xFu32 == anim_index && (code
        >> 21u32) & 7u32 == 3 && code & 0xFFFFu32 == chip & 0xFFFFu32) by (bit_vector)
        requires
            texture_id < 16,
            anim_index < 16,
            code == (texture_id << 28u32) | (anim_index << 24u32) | (3u32 << 21u32) | (chip
                & 0xFFFFu32),
    ;
}

/// Every code of a converted map names one of the three texture slots, and
/// chip 0 becomes an empty cell, which the upper layer leaves out.
pub proof fn lemma_map_code_texture(tilesets: Seq<TileSets>, chip: u32)
    ensures
        texture_of(tile_code(tilesets, tileset_textures(tilesets), chip)) < 3,
        chip == 0 ==> is_empty_cell(tile_code(tilesets, tileset_textures(tilesets), chip)),
{
    let e = empty_tile_code();
    assert(e >> 28u32 == 0 && e & 0xFFFFu32 == 0xFFFF) by (bit_vector)
        requires
            e == (1u32 << 21u32) | 0xFFFFu32,
    ;
    lemma_pack_tile_fields(0, 4, 0xFFFF);
    if chip != 0 {
        let indices = tileset_textures(tilesets);
        match owning_tileset(tilesets, chip, tilesets.len() as int) {
            None => {},
            Some(i) => {
                lemma_owning_in_range(tilesets, chip, tilesets.len() as int);
                let t = indices[i];
                if t >= 0 {
                    let offset = (chip - tilesets[i].firstgid) as u32;
                    lemma_pack_tile_fields(t as u32, anim_index_for(t as u32, offset), offset);
                }
            },
        }
    }
}


/// Splitting a tile keeps its texture index and frame-count bits, doubles
/// its animation index, and gives half-tile `i` (left to right, top to
/// bottom) the id of its 16px sub-cell, as long as sub-cell ids fit 16 bits
/// and the doubled animation index fits 4 bits.
pub proof fn lemma_quad_fields(tile_data: u32, x: i32, y: i32, counts: [u32; 3], i: int)
    requires
        quad_fits(tile_data, x, y, counts),
        sub_tile(tile_id_of(tile_data), counts[texture_of(tile_data) as int], 1, 1) <= 0xFFFF,
        anim_of(tile_data) < 8,
        0 <= i < 4,
    ensures
        texture_of(tile_quad(tile_data, x, y, counts)[i].tile_data) == texture_of(tile_data),
        anim_of(tile_quad(tile_data, x, y, counts)[i].tile_data) == 2 * anim_of(tile_data),
        (tile_quad(tile_data, x, y, counts)[i].tile_data >> 21u32) & 7u32 == (tile_data >> 21u32)
            & 7u32,
        tile_id_of(tile_quad(tile_data, x, y, counts)[i].tile_data) == sub_tile(
            tile_id_of(tile_data),
            counts[texture_of(tile_data) as int],
            i % 2,
            i / 2,
        ),
{
    let cx = counts[texture_of(tile_data) as int];
    let id = tile_id_of(tile_data);
    lemma_sub_tile_bounds(id, cx);
    let s = sub_tile(id, cx, i % 2, i / 2) as u32;
    let a = anim_of(tile_data);
    let up = quad_upper(tile_data);
    let v = up | s;
    assert(tile_quad(tile_data, x, y, counts)[i].tile_data == v);
    assert(v >> 28u32 == tile_data >> 28u32 && (v >> 24u32) & 0xFu32 == ((a * 2) as u32) && (v
        >> 21u32) & 7u32 == (tile_data >> 21u32) & 7u32 && v & 0xFFFFu32 == s) by (bit_vector)
        requires
            a == (tile_data >> 24u32) & 0xFu32,
            a < 8,
            up == (tile_data & 0xF0FF0000u32) | (((a * 2) as u32) << 24u32),
            s <= 0xFFFF,
            v == up | s,
    ;
}

impl TileInstance {
    /// Splits the 32px tile `tile_data` at tile position (`x`, `y`) into
    /// four 16px instances and appends them to `tiles`.
    pub fn push_tile(tiles: &mut Vec<TileInstance>, tile_data: u32, x: i32, y: i32, counts: [u32; 3])
        requires
            quad_fits(tile_data, x, y, counts),
        ensures
            final(tiles)@ == old(tiles)@ + tile_quad(tile_data, x, y, counts),
    {
        proof {
            lemma_half_grid_even(x);
            lemma_half_grid_even(y);
        }
        let ghost (x0, y0) = (x, y);
        let x = #[verifier::truncate] ((x * 2) as i16);
        let y = #[verifier::truncate] ((y * 2) as i16);
        let tex_index = tile_data >> 28;
        let anim_index = (tile_data >> 24) & 0xF;
        let tile_id = tile_data & 0xFFFF;
        assert(anim_index <= 15) by (bit_vector)
            requires
                anim_index == (tile_data >> 24) & 0xF,
        ;
        let count_x = counts[tex_index as usize];
        proof {
            lemma_sub_tile_bounds(tile_id, count_x);
            assert(tile_id <= 0xFFFF) by (bit_vector)
                requires
                    tile_id == tile_data & 0xFFFF,
            ;
        }
        let tile_x = (tile_id % count_x) * 2;
        let tile_y = (tile_id / count_x) * 2;
        let count_x2 = count_x * 2;
        let upper = (tile_data & 0xF0FF0000) | ((anim_index * 2) << 24);
        proof {
            assert(tile_y * count_x2 == (2 * (tile_id / count_x) + 0) * (2 * count_x));
            assert((tile_y + 1) * count_x2 == (2 * (tile_id / count_x) + 1) * (2 * count_x));
        }
        tiles.push(TileInstance { grid_pos: [x, y], tile_data: upper | (tile_x + tile_y * count_x2) });
        tiles.push(
            TileInstance { grid_pos: [x + 1, y], tile_data: upper | (tile_x + 1 + tile_y * count_x2) },
        );
        tiles.push(
            TileInstance {
                grid_pos: [x, y + 1],
                tile_data: upper | (tile_x + (tile_y + 1) * count_x2),
            },
        );
        tiles.push(
            TileInstance {
                grid_pos: [x + 1, y + 1],
                tile_data: upper | (tile_x + 1 + (tile_y + 1) * count_x2),
            },
        );
        assert(tiles@ =~= old(tiles)@ + tile_quad(tile_data, x0, y0, counts));
    }
}

/// Appends the instances of one layer's cells in the window, row by row.
fn push_layer(
    tiles: &mut Vec<TileInstance>,
    map_data: &Vec<u32>,
    offset: usize,
    map_width: i32,
    map_height: i32,
    start_x: i32,
    end_x: i32,
    start_y: i32,
    end_y: i32,
    counts: [u32; 3],
    skip_empty: bool,
)
    requires
        window_fits(
            map_data@,
            offset as int,
            map_width,
            map_height,
            start_x as int,
            end_x as int,
            start_y as int,
            end_y as int,
            counts,
            skip_empty,
        ),
    ensures
        final(tiles)@ == old(tiles)@ + window_quads(
            map_data@,
            offset as int,
            map_width,
            map_height,
            start_x as int,
            end_x as int,
            start_y as int,
            end_y as int,
            counts,
            skip_empty,
        ),
{
    let ghost map = map_data@;
    let map_len = map_data.len();
    let ghost (sx, ex, sy, ey) = (start_x as int, end_x as int, start_y as int, end_y as int);
    let ghost (off, w, h) = (offset as int, map_width, map_height);
    let mut y: i64 = start_y as i64;
    assert(window_quads(map, off, w, h, sx, ex, sy, y - 1, counts, skip_empty) =~= Seq::<
        TileInstance,
    >::empty());
    while y <= end_y as i64
        invariant
            sy <= y,
            y <= ey + 1 || y == sy,
            map == map_data@,
            map.len() == map_len,
            sx == start_x,
            ex == end_x,
            sy == start_y,
            ey == end_y,
            off == offset,
            w == map_width,
            h == map_height,
            window_fits(map, off, w, h, sx, ex, sy, ey, counts, skip_empty),
            tiles@ == old(tiles)@ + window_quads(
                map,
                off,
                w,
                h,
                sx,
                ex,
                sy,
                y - 1,
                counts,
                skip_empty,
            ),
        decreases ey + 1 - y,
    {
        let ghost before_row = tiles@;
        let mut x: i64 = start_x as i64;
        assert(row_quads(map, off, w, h, y as int, sx, x - 1, counts, skip_empty) =~= Seq::<
            TileInstance,
        >::empty());
        while x <= end_x as i64
            invariant
                sx <= x,
                x <= ex + 1 || x == sx,
                sy <= y <= ey,
                map == map_data@,
                map.len() == map_len,
                sx == start_x,
                ex == end_x,
                sy == start_y,
                ey == end_y,
                off == offset,
                w == map_width,
                h == map_height,
                window_fits(map, off, w, h, sx, ex, sy, ey, counts, skip_empty),
                tiles@ == before_row + row_quads(
                    map,
                    off,
                    w,
                    h,
                    y as int,
                    sx,
                    x - 1,
                    counts,
                    skip_empty,
                ),
            decreases ex + 1 - x,
        {
            let xi = x as i32;
            let yi = y as i32;
            let ghost prev = tiles@;
            proof {
                assert(cell_fits(map, off, w, h, x as int, y as int, counts, skip_empty));
                assert(row_quads(map, off, w, h, y as int, sx, x as int, counts, skip_empty)
                    == row_quads(map, off, w, h, y as int, sx, x - 1, counts, skip_empty)
                    + cell_quads(map, off, w, h, x as int, y as int, counts, skip_empty));
            }
            if xi < 0 || xi >= map_width || yi < 0 || yi >= map_height {
                assert(prev + Seq::<TileInstance>::empty() =~= prev);
                x += 1;
                continue;
            }
            assert(0 <= yi * map_width) by (nonlinear_arith)
                requires
                    0 <= yi,
                    0 <= map_width,
            ;
            assert(on_map(w, h, x as int, y as int));
            assert(cell_index(off, w, x as int, y as int) < map.len());
            let tile = map_data[(yi * map_width + xi) as usize + offset];
            if skip_empty && tile & 0xFFFF == 0xFFFF {
                assert(prev + Seq::<TileInstance>::empty() =~= prev);
                x += 1;
                continue;
            }
            TileInstance::push_tile(tiles, tile, xi, yi, counts);
            proof {
                assert(tiles@ =~= before_row + row_quads(map, off, w, h, y as int, sx, x as int, counts, skip_empty));
            }
            x += 1;
        }
        proof {
            if x != ex + 1 {
                assert(row_quads(map, off, w, h, y as int, sx, ex, counts, skip_empty) =~= Seq::<
                    TileInstance,
                >::empty());
                assert(row_quads(map, off, w, h, y as int, sx, x - 1, counts, skip_empty) =~= Seq::<
                    TileInstance,
                >::empty());
            }
            assert(window_quads(map, off, w, h, sx, ex, sy, y as int, counts, skip_empty)
                == window_quads(map, off, w, h, sx, ex, sy, y - 1, counts, skip_empty)
                + row_quads(map, off, w, h, y as int, sx, ex, counts, skip_empty));
            assert(tiles@ =~= old(tiles)@ + window_quads(map, off, w, h, sx, ex, sy, y as int, counts, skip_empty));
        }
        y += 1;
    }
    proof {
        if y != ey + 1 {
            assert(window_quads(map, off, w, h, sx, ex, sy, ey, counts, skip_empty) =~= Seq::<
                TileInstance,
            >::empty());
            assert(window_quads(map, off, w, h, sx, ex, sy, y - 1, counts, skip_empty) =~= Seq::<
                TileInstance,
            >::empty());
        }
    }
}

/// Rebuilds the instances of the visible part of a two-layer map: the
/// cells of the window `start_x..=end_x` x `start_y..=end_y` that lie on
/// the map, row by row, first all of layer 0, then the non-empty cells of
/// layer 1 (which starts `map_width * map_height` cells into `map_data`).
/// Returns the instance range of each layer.
pub fn build_visible_tiles(
    tiles: &mut Vec<TileInstance>,
    map_data: &Vec<u32>,
    map_width: u32,
    map_height: u32,
    start_x: i32,
    end_x: i32,
    start_y: i32,
    end_y: i32,
    counts: [u32; 3],
) -> (draw_ranges: [Range<u32>; 2])
    requires
        map_width * map_height <= u32::MAX,
        window_fits(
            map_data@,
            0,
            map_width as i32,
            map_height as i32,
            start_x as int,
            end_x as int,
            start_y as int,
            end_y as int,
            counts,
            false,
        ),
        window_fits(
            map_data@,
            map_width * map_height,
            map_width as i32,
            map_height as i32,
            start_x as int,
            end_x as int,
            start_y as int,
            end_y as int,
            counts,
            true,
        ),
    ensures
        ({
            let lower = window_quads(
                map_data@,
                0,
                map_width as i32,
                map_height as i32,
                start_x as int,
                end_x as int,
                start_y as int,
                end_y as int,
                counts,
                false,
            );
            let upper = window_quads(
                map_data@,
                map_width * map_height,
                map_width as i32,
                map_height as i32,
                start_x as int,
                end_x as int,
                start_y as int,
                end_y as int,
                counts,
                true,
            );
            &&& final(tiles)@ == lower + upper
            &&& draw_ranges[0].start == 0
            &&& draw_ranges[0].end == lower.len() as u32
            &&& draw_ranges[1].start == lower.len() as u32
            &&& draw_ranges[1].end == (lower.len() + upper.len()) as u32
        }),
{
    let map_width_i = map_width as i32;
    let map_height_i = map_height as i32;
    tiles.clear();
    push_layer(tiles, map_data, 0, map_width_i, map_height_i, start_x, end_x, start_y, end_y, counts, false);
    let tile_count = #[verifier::truncate] (tiles.len() as u32);
    let one_layer_size = (map_width * map_height) as usize;
    push_layer(
        tiles,
        map_data,
        one_layer_size,
        map_width_i,
        map_height_i,
        start_x,
        end_x,
        start_y,
        end_y,
        counts,
        true,
    );
    let total = #[verifier::truncate] (tiles.len() as u32);
    [Range { start: 0, end: tile_count }, Range { start: tile_count, end: total }]
}

} // verus!
