use vstd::prelude::*;

verus! {

/// The keys the sample reacts to, named as the windowing layer names them.
/// Every other key is `Other`.
#[derive(Clone, Copy, Debug, PartialEq, Eq, Structural)]
pub enum KeyCode {
    ArrowUp,
    ArrowDown,
    ArrowLeft,
    ArrowRight,
    KeyW,
    KeyA,
    KeyS,
    KeyD,
    KeyQ,
    KeyE,
    KeyL,
    KeyR,
    Space,
    Escape,
    Other,
}

/// Which held-key flag a key controls.
pub enum KeySlot {
    Up,
    Down,
    Left,
    Right,
    Plus,
    Minus,
    Reset,
    RotationL,
    RotationR,
}

/// The flag a key controls, if any: arrows and WASD move, Q/E zoom,
/// Space resets, L/R rotate.
pub open spec fn slot_of(key: KeyCode) -> Option<KeySlot> {
    match key {
        KeyCode::ArrowUp | KeyCode::KeyW => Some(KeySlot::Up),
        KeyCode::ArrowDown | KeyCode::KeyS => Some(KeySlot::Down),
        KeyCode::ArrowLeft | KeyCode::KeyA => Some(KeySlot::Left),
        KeyCode::ArrowRight | KeyCode::KeyD => Some(KeySlot::Right),
        KeyCode::KeyQ => Some(KeySlot::Plus),
        KeyCode::KeyE => Some(KeySlot::Minus),
        KeyCode::Space => Some(KeySlot::Reset),
        KeyCode::KeyL => Some(KeySlot::RotationL),
        KeyCode::KeyR => Some(KeySlot::RotationR),
        KeyCode::Escape | KeyCode::Other => None,
    }
}

/// Which keys are currently held.
pub struct InputState {
    up: bool,
    down: bool,
    left: bool,
    right: bool,
    pub plus: bool,
    pub minus: bool,
    pub reset: bool,
    pub rotation_l: bool,
    pub rotation_r: bool,
}

/// The nine held-key flags as one value.
pub struct InputFlags {
    pub up: bool,
    pub down: bool,
    pub left: bool,
    pub right: bool,
    pub plus: bool,
    pub minus: bool,
    pub reset: bool,
    pub rotation_l: bool,
    pub rotation_r: bool,
}

/// One step of movement along an axis: +1 when only the positive key is
/// held, -1 when only the negative key is held, 0 otherwise.
pub open spec fn axis(negative: bool, positive: bool) -> int {
    (if positive { 1int } else { 0int }) - (if negative { 1int } else { 0int })
}

/// The flags after a key event: the flag the key controls becomes
/// `pressed`; every other flag is kept.
pub open spec fn apply_key(f: InputFlags, key: KeyCode, pressed: bool) -> InputFlags {
    match slot_of(key) {
        Some(KeySlot::Up) => InputFlags { up: pressed, ..f },
        Some(KeySlot::Down) => InputFlags { down: pressed, ..f },
        Some(KeySlot::Left) => InputFlags { left: pressed, ..f },
        Some(KeySlot::Right) => InputFlags { right: pressed, ..f },
        Some(KeySlot::Plus) => InputFlags { plus: pressed, ..f },
        Some(KeySlot::Minus) => InputFlags { minus: pressed, ..f },
        Some(KeySlot::Reset) => InputFlags { reset: pressed, ..f },
        Some(KeySlot::RotationL) => InputFlags { rotation_l: pressed, ..f },
        Some(KeySlot::RotationR) => InputFlags { rotation_r: pressed, ..f },
        None => f,
    }
}

/// Arrow keys and WASD are interchangeable: W acts as up, S as down, A as
/// left and D as right.
pub proof fn lemma_key_aliases(f: InputFlags, pressed: bool)
    ensures
        apply_key(f, KeyCode::ArrowUp, pressed) == apply_key(f, KeyCode::KeyW, pressed),
        apply_key(f, KeyCode::ArrowDown, pressed) == apply_key(f, KeyCode::KeyS, pressed),
        apply_key(f, KeyCode::ArrowLeft, pressed) == apply_key(f, KeyCode::KeyA, pressed),
        apply_key(f, KeyCode::ArrowRight, pressed) == apply_key(f, KeyCode::KeyD, pressed),
{
}

/// The last event for a key decides its flag: pressing and then releasing
/// (or the other way round) is the same as the last event alone.
pub proof fn lemma_last_event_wins(f: InputFlags, key: KeyCode, first: bool, second: bool)
    ensures
        apply_key(apply_key(f, key, first), key, second) == apply_key(f, key, second),
{
}

/// Events for keys that control different flags can be handled in either
/// order.
#[verifier::rlimit(40)]
pub proof fn lemma_independent_keys_commute(
    f: InputFlags,
    k1: KeyCode,
    p1: bool,
    k2: KeyCode,
    p2: bool,
)
    requires
        slot_of(k1) != slot_of(k2),
    ensures
        apply_key(apply_key(f, k1, p1), k2, p2) == apply_key(apply_key(f, k2, p2), k1, p1),
{
    match slot_of(k1) {
        Some(KeySlot::Up) => {},
        Some(KeySlot::Down) => {},
        Some(KeySlot::Left) => {},
        Some(KeySlot::Right) => {},
        Some(KeySlot::Plus) => {},
        Some(KeySlot::Minus) => {},
        Some(KeySlot::Reset) => {},
        Some(KeySlot::RotationL) => {},
        Some(KeySlot::RotationR) => {},
        None => {},
    }
}

/// Pressing a movement key moves that way when the opposite key is not
/// held (down and S give dy = +1, up and W dy = -1, right and D dx = +1,
/// left and A dx = -1), releasing it stops that way, and the other axis is
/// left as it was.
pub proof fn lemma_key_direction(f: InputFlags, pressed: bool)
    ensures
        ({
            let g = apply_key(f, KeyCode::ArrowDown, pressed);
            &&& !f.up ==> axis(g.up, g.down) == (if pressed { 1int } else { 0int })
            &&& axis(g.left, g.right) == axis(f.left, f.right)
        }),
        ({
            let g = apply_key(f, KeyCode::KeyS, pressed);
            &&& !f.up ==> axis(g.up, g.down) == (if pressed { 1int } else { 0int })
            &&& axis(g.left, g.right) == axis(f.left, f.right)
        }),
        ({
            let g = apply_key(f, KeyCode::ArrowUp, pressed);
            &&& !f.down ==> axis(g.up, g.down) == (if pressed { -1int } else { 0int })
            &&& axis(g.left, g.right) == axis(f.left, f.right)
        }),
        ({
            let g = apply_key(f, KeyCode::KeyW, pressed);
            &&& !f.down ==> axis(g.up, g.down) == (if pressed { -1int } else { 0int })
            &&& axis(g.left, g.right) == axis(f.left, f.right)
        }),
        ({
            let g = apply_key(f, KeyCode::ArrowRight, pressed);
            &&& !f.left ==> axis(g.left, g.right) == (if pressed { 1int } else { 0int })
            &&& axis(g.up, g.down) == axis(f.up, f.down)
        }),
        ({
            let g = apply_key(f, KeyCode::KeyD, pressed);
            &&& !f.left ==> axis(g.left, g.right) == (if pressed { 1int } else { 0int })
            &&& axis(g.up, g.down) == axis(f.up, f.down)
        }),
        ({
            let g = apply_key(f, KeyCode::ArrowLeft, pressed);
            &&& !f.right ==> axis(g.left, g.right) == (if pressed { -1int } else { 0int })
            &&& axis(g.up, g.down) == axis(f.up, f.down)
        }),
        ({
            let g = apply_key(f, KeyCode::KeyA, pressed);
            &&& !f.right ==> axis(g.left, g.right) == (if pressed { -1int } else { 0int })
            &&& axis(g.up, g.down) == axis(f.up, f.down)
        }),
{
}

/// The action keys set their own flag and leave movement alone: Q sets
/// `plus`, E `minus`, Space `reset`, L `rotation_l` and R `rotation_r`;
/// Escape and other keys change nothing.
pub proof fn lemma_action_keys(f: InputFlags, pressed: bool)
    ensures
        apply_key(f, KeyCode::KeyQ, pressed) == (InputFlags { plus: pressed, ..f }),
        apply_key(f, KeyCode::KeyE, pressed) == (InputFlags { minus: pressed, ..f }),
        apply_key(f, KeyCode::Space, pressed) == (InputFlags { reset: pressed, ..f }),
        apply_key(f, KeyCode::KeyL, pressed) == (InputFlags { rotation_l: pressed, ..f }),
        apply_key(f, KeyCode::KeyR, pressed) == (InputFlags { rotation_r: pressed, ..f }),
        apply_key(f, KeyCode::Escape, pressed) == f,
        apply_key(f, KeyCode::Other, pressed) == f,
{
}

/// Each component of the movement vector is -1, 0 or 1.
pub proof fn lemma_axis_unit(negative: bool, positive: bool)
    ensures
        -1 <= axis(negative, positive) <= 1,
        axis(negative, positive) == 0 <==> negative == positive,
{
}

impl View for InputState {
    type V = InputFlags;

    closed spec fn view(&self) -> InputFlags {
        InputFlags {
            up: self.up,
            down: self.down,
            left: self.left,
            right: self.right,
            plus: self.plus,
            minus: self.minus,
            reset: self.reset,
            rotation_l: self.rotation_l,
            rotation_r: self.rotation_r,
        }
    }
}

impl InputState {
    /// Records a key press or release; returns whether the key is one the
    /// state tracks.
    pub fn process_key(&mut self, key: KeyCode, is_pressed: bool) -> (handled: bool)
        ensures
            handled == slot_of(key).is_some(),
            final(self)@ == apply_key(old(self)@, key, is_pressed),
    {
        match key {
            KeyCode::ArrowUp | KeyCode::KeyW => {
                self.up = is_pressed;
                true
            },
            KeyCode::ArrowDown | KeyCode::KeyS => {
                self.down = is_pressed;
                true
            },
            KeyCode::ArrowLeft | KeyCode::KeyA => {
                self.left = is_pressed;
                true
            },
            KeyCode::ArrowRight | KeyCode::KeyD => {
                self.right = is_pressed;
                true
            },
            KeyCode::KeyQ => {
                self.plus = is_pressed;
                true
            },
            KeyCode::KeyE => {
                self.minus = is_pressed;
                true
            },
            KeyCode::Space => {
                self.reset = is_pressed;
                true
            },
            KeyCode::KeyL => {
                self.rotation_l = is_pressed;
                true
            },
            KeyCode::KeyR => {
                self.rotation_r = is_pressed;
                true
            },
            _ => false,
        }
    }

    /// A key event of a sample window: pressing Escape asks to close the
    /// window and changes nothing; every other event goes to
    /// `process_key`.
    pub fn handle_key(&mut self, key: KeyCode, pressed: bool) -> (exit: bool)
        ensures
            exit == (key == KeyCode::Escape && pressed),
            final(self)@ == (if exit {
                old(self)@
            } else {
                apply_key(old(self)@, key, pressed)
            }),
    {
        match (key, pressed) {
            (KeyCode::Escape, true) => true,
            _ => {
                self.process_key(key, pressed);
                false
            },
        }
    }

    /// The movement vector `[dx, dy]` for the held keys: left is -x, right
    /// is +x, up is -y, down is +y; opposite keys cancel.
    pub fn direction(&self) -> (d: [i32; 2])
        ensures
            d[0] == axis(self@.left, self@.right),
            d[1] == axis(self@.up, self@.down),
    {
        let mut dx: i32 = 0;
        let mut dy: i32 = 0;
        if self.left {
            dx -= 1;
        }
        if self.right {
            dx += 1;
        }
        if self.up {
            dy -= 1;
        }
        if self.down {
            dy += 1;
        }
        [dx, dy]
    }
}

impl Default for InputState {
    /// No key held.
    fn default() -> (s: Self)
        ensures
            s@ == (InputFlags {
                up: false,
                down: false,
                left: false,
                right: false,
                plus: false,
                minus: false,
                reset: false,
                rotation_l: false,
                rotation_r: false,
            }),
    {
        InputState {
            up: false,
            down: false,
            left: false,
            right: false,
            plus: false,
            minus: false,
            reset: false,
            rotation_l: false,
            rotation_r: false,
        }
    }
}

} // verus!
