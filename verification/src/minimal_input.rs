use vstd::prelude::*;
use crate::input::{axis, KeyCode};

verus! {

/// The four movement flags of the minimal sample.
pub struct MoveFlags {
    pub up: bool,
    pub down: bool,
    pub left: bool,
    pub right: bool,
}

/// The flags after a key event: arrows and WASD set their direction's flag
/// to `pressed`; any other key changes nothing.
pub open spec fn apply_move_key(f: MoveFlags, key: KeyCode, pressed: bool) -> MoveFlags {
    match key {
        KeyCode::ArrowUp | KeyCode::KeyW => MoveFlags { up: pressed, ..f },
        KeyCode::ArrowDown | KeyCode::KeyS => MoveFlags { down: pressed, ..f },
        KeyCode::ArrowLeft | KeyCode::KeyA => MoveFlags { left: pressed, ..f },
        KeyCode::ArrowRight | KeyCode::KeyD => MoveFlags { right: pressed, ..f },
        _ => f,
    }
}

/// Whether the minimal sample reacts to a key: arrows and WASD only.
pub open spec fn is_move_key(key: KeyCode) -> bool {
    match key {
        KeyCode::ArrowUp | KeyCode::KeyW | KeyCode::ArrowDown | KeyCode::KeyS | KeyCode::ArrowLeft
        | KeyCode::KeyA | KeyCode::ArrowRight | KeyCode::KeyD => true,
        _ => false,
    }
}

/// Arrow keys and WASD are interchangeable in the minimal sample: W acts as
/// up, S as down, A as left and D as right.
pub proof fn lemma_move_key_aliases(f: MoveFlags, pressed: bool)
    ensures
        apply_move_key(f, KeyCode::KeyW, pressed) == apply_move_key(f, KeyCode::ArrowUp, pressed),
        apply_move_key(f, KeyCode::KeyS, pressed) == apply_move_key(f, KeyCode::ArrowDown, pressed),
        apply_move_key(f, KeyCode::KeyA, pressed) == apply_move_key(f, KeyCode::ArrowLeft, pressed),
        apply_move_key(f, KeyCode::KeyD, pressed) == apply_move_key(f, KeyCode::ArrowRight, pressed),
{
}

/// Pressing a movement key moves that way when the opposite key is not
/// held (down and S give dy = +1, up and W dy = -1, right and D dx = +1,
/// left and A dx = -1), releasing it stops that way, and the other axis is
/// left as it was.
pub proof fn lemma_move_key_direction(f: MoveFlags, pressed: bool)
    ensures
        ({
            let g = apply_move_key(f, KeyCode::ArrowDown, pressed);
            &&& !f.up ==> axis(g.up, g.down) == (if pressed { 1int } else { 0int })
            &&& axis(g.left, g.right) == axis(f.left, f.right)
        }),
        ({
            let g = apply_move_key(f, KeyCode::KeyS, pressed);
            &&& !f.up ==> axis(g.up, g.down) == (if pressed { 1int } else { 0int })
            &&& axis(g.left, g.right) == axis(f.left, f.right)
        }),
        ({
            let g = apply_move_key(f, KeyCode::ArrowUp, pressed);
            &&& !f.down ==> axis(g.up, g.down) == (if pressed { -1int } else { 0int })
            &&& axis(g.left, g.right) == axis(f.left, f.right)
        }),
        ({
            let g = apply_move_key(f, KeyCode::KeyW, pressed);
            &&& !f.down ==> axis(g.up, g.down) == (if pressed { -1int } else { 0int })
            &&& axis(g.left, g.right) == axis(f.left, f.right)
        }),
        ({
            let g = apply_move_key(f, KeyCode::ArrowRight, pressed);
            &&& !f.left ==> axis(g.left, g.right) == (if pressed { 1int } else { 0int })
            &&& axis(g.up, g.down) == axis(f.up, f.down)
        }),
        ({
            let g = apply_move_key(f, KeyCode::KeyD, pressed);
            &&& !f.left ==> axis(g.left, g.right) == (if pressed { 1int } else { 0int })
            &&& axis(g.up, g.down) == axis(f.up, f.down)
        }),
        ({
            let g = apply_move_key(f, KeyCode::ArrowLeft, pressed);
            &&& !f.right ==> axis(g.left, g.right) == (if pressed { -1int } else { 0int })
            &&& axis(g.up, g.down) == axis(f.up, f.down)
        }),
        ({
            let g = apply_move_key(f, KeyCode::KeyA, pressed);
            &&& !f.right ==> axis(g.left, g.right) == (if pressed { -1int } else { 0int })
            &&& axis(g.up, g.down) == axis(f.up, f.down)
        }),
{
}

/// Keys other than arrows and WASD change nothing in the minimal sample.
pub proof fn lemma_other_keys_ignored(f: MoveFlags, key: KeyCode, pressed: bool)
    requires
        !is_move_key(key),
    ensures
        apply_move_key(f, key, pressed) == f,
{
}

/// Which movement keys are held in the minimal sample.
pub struct InputState {
    up: bool,
    down: bool,
    left: bool,
    right: bool,
}

impl View for InputState {
    type V = MoveFlags;

    closed spec fn view(&self) -> MoveFlags {
        MoveFlags { up: self.up, down: self.down, left: self.left, right: self.right }
    }
}

impl InputState {
    /// Records a key press or release; returns whether the key is a
    /// movement key.
    pub fn process_key(&mut self, key: KeyCode, is_pressed: bool) -> (handled: bool)
        ensures
            handled == is_move_key(key),
            final(self)@ == apply_move_key(old(self)@, key, is_pressed),
    {
        match key {
            KeyCode::ArrowUp | KeyCode::KeyW => {
                self.up = is_pressed;
                true
            },
            KeyCode::ArrowDown | KeyCode::KeyS => {
                self.down = is_pressed;
                true
            },
            KeyCode::ArrowLeft | KeyCode::KeyA => {
                self.left = is_pressed;
                true
            },
            KeyCode::ArrowRight | KeyCode::KeyD => {
                self.right = is_pressed;
                true
            },
            _ => false,
        }
    }

    /// The movement vector `[dx, dy]` for the held keys: left is -x, right
    /// is +x, up is -y, down is +y; opposite keys cancel.
    pub fn direction(&self) -> (d: [i32; 2])
        ensures
            d[0] == axis(self@.left, self@.right),
            d[1] == axis(self@.up, self@.down),
    {
        let mut dx: i32 = 0;
        let mut dy: i32 = 0;
        if self.left {
            dx -= 1;
        }
        if self.right {
            dx += 1;
        }
        if self.up {
            dy -= 1;
        }
        if self.down {
            dy += 1;
        }
        [dx, dy]
    }
}

impl Default for InputState {
    /// No key held.
    fn default() -> (s: Self)
        ensures
            s@ == (MoveFlags { up: false, down: false, left: false, right: false }),
    {
        InputState { up: false, down: false, left: false, right: false }
    }
}

} // verus!
