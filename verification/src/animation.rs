use vstd::prelude::*;

verus! {

/// Number of updates in one walk cycle.
pub const WALK_CYCLE: u32 = 60;

/// The sprite row a character faces after moving by (`dx`, `dy`): a
/// horizontal move wins (right 2, left 1), then a vertical one (down 0,
/// up 3); without movement the row is kept.
pub open spec fn facing(dx: i32, dy: i32, current: u32) -> u32 {
    if dx > 0 {
        2
    } else if dx < 0 {
        1
    } else if dy > 0 {
        0
    } else if dy < 0 {
        3
    } else {
        current
    }
}

/// The sprite column shown at a point of the walk cycle: columns 1, 2, 1, 0,
/// each held for a quarter of the cycle.
pub open spec fn walk_frame(pattern_count: u32) -> u32 {
    let quarter = pattern_count / 15;
    if quarter == 0 {
        1
    } else if quarter == 1 {
        2
    } else if quarter == 2 {
        1
    } else {
        0
    }
}

/// Walk animation of a character sprite sheet: the row it faces and where
/// it is in the walk cycle.
pub struct WalkAnimation {
    pub direction: u32,
    pub pattern_count: u32,
}

impl WalkAnimation {
    /// Starts facing down at the beginning of the cycle.
    pub fn new() -> (a: Self)
        ensures
            a.direction == 0,
            a.pattern_count == 0,
    {
        WalkAnimation { direction: 0, pattern_count: 0 }
    }

    /// One update with the movement (`dx`, `dy`): the cycle advances by one
    /// (wrapping at `WALK_CYCLE`), a move turns the character, and the
    /// column to show is returned.
    pub fn step(&mut self, dx: i32, dy: i32) -> (frame: u32)
        requires
            old(self).pattern_count < u32::MAX,
        ensures
            final(self).pattern_count == (old(self).pattern_count + 1) % (WALK_CYCLE as int),
            final(self).direction == facing(dx, dy, old(self).direction),
            frame == walk_frame(final(self).pattern_count),
    {
        self.pattern_count = (self.pattern_count + 1) % WALK_CYCLE;
        if dx != 0 || dy != 0 {
            self.direction = if dx > 0 {
                2
            } else if dx < 0 {
                1
            } else if dy > 0 {
                0
            } else if dy < 0 {
                3
            } else {
                self.direction
            };
        }
        let pattern = (self.pattern_count / 15) as usize;
        let pattern_table: [u32; 4] = [1, 2, 1, 0];
        pattern_table[pattern]
    }
}

/// One update of the tile animation clock: the clock advances by one and
/// wraps at 60; the animation pattern of the previous tick (a third of the
/// cycle each) is returned for upload unless it equals the new clock value.
pub fn advance_tile_pattern(map_count: &mut u32) -> (upload: Option<[u32; 2]>)
    requires
        *old(map_count) < u32::MAX,
    ensures
        *final(map_count) == (*old(map_count) + 1) % 60,
        upload == (if *old(map_count) / 20 != *final(map_count) {
            Some([*old(map_count) / 20, 0u32])
        } else {
            None
        }),
{
    let pattern: [u32; 2] = [*map_count / 20, 0];
    *map_count = (*map_count + 1) % 60;
    if pattern[0] != *map_count {
        Some(pattern)
    } else {
        None
    }
}

/// Which way a character faces after a move: any horizontal move decides
/// alone, whatever the vertical part (right is row 2, left row 1); a purely
/// vertical move gives down (row 0) or up (row 3); standing still keeps
/// the current row. The rows used are always 0 to 3 when the current one is.
pub proof fn lemma_facing_rules(dx: i32, dy: i32, current: u32, other_dy: i32, other: u32)
    ensures
        dx > 0 ==> facing(dx, dy, current) == 2,
        dx < 0 ==> facing(dx, dy, current) == 1,
        dx != 0 ==> facing(dx, dy, current) == facing(dx, other_dy, other),
        dx == 0 && dy > 0 ==> facing(dx, dy, current) == 0,
        dx == 0 && dy < 0 ==> facing(dx, dy, current) == 3,
        dx == 0 && dy == 0 ==> facing(dx, dy, current) == current,
        current < 4 ==> facing(dx, dy, current) < 4,
{
}

/// The walk cycle shows column 1, then 2, then 1, then 0, each for fifteen
/// updates of the sixty-update cycle.
pub proof fn lemma_walk_frames(pattern_count: u32)
    requires
        pattern_count < WALK_CYCLE,
    ensures
        pattern_count < 15 ==> walk_frame(pattern_count) == 1,
        15 <= pattern_count < 30 ==> walk_frame(pattern_count) == 2,
        30 <= pattern_count < 45 ==> walk_frame(pattern_count) == 1,
        45 <= pattern_count < 60 ==> walk_frame(pattern_count) == 0,
        walk_frame(pattern_count) <= 2,
{
}

/// From any point of the tile animation cycle (0 to 59) the clock moves on
/// to a different value than the pattern it leaves, so every tick uploads
/// the pattern, which is the third of the cycle it was in (0, 1 or 2).
pub proof fn lemma_tile_pattern_uploads(map_count: u32)
    requires
        map_count < 60,
    ensures
        map_count / 20 != (map_count + 1) % 60,
        map_count / 20 < 3,
        (map_count + 1) % 60 < 60,
{
}

/// Where the walk cycle is after `n` updates started at `pattern_count`.
pub open spec fn walk_count_after(pattern_count: u32, n: nat) -> u32
    decreases n,
{
    if n == 0 {
        pattern_count
    } else {
        ((walk_count_after(pattern_count, (n - 1) as nat) + 1) % (WALK_CYCLE as int)) as u32
    }
}

/// The walk cycle repeats: from any point of the cycle, `WALK_CYCLE`
/// updates lead back to it, and after `n` updates it is `n` further on.
pub proof fn lemma_walk_cycle(pattern_count: u32, n: nat)
    requires
        pattern_count < WALK_CYCLE,
    ensures
        walk_count_after(pattern_count, n) == (pattern_count + n) % (WALK_CYCLE as int),
        walk_count_after(pattern_count, WALK_CYCLE as nat) == pattern_count,
{
    lemma_walk_count_offset(pattern_count, n);
    lemma_walk_count_offset(pattern_count, WALK_CYCLE as nat);
}

proof fn lemma_walk_count_offset(pattern_count: u32, n: nat)
    requires
        pattern_count < WALK_CYCLE,
    ensures
        walk_count_after(pattern_count, n) == (pattern_count + n) % (WALK_CYCLE as int),
    decreases n,
{
    if n > 0 {
        lemma_walk_count_offset(pattern_count, (n - 1) as nat);
    }
}

} // verus!
