//! Digital pad state in GameCube layout — the lingua franca that keyboard, Wiimote,
//! Classic and Nunchuk buttons all merge onto.
use vstd::prelude::*;

verus! {

/// Digital buttons shared across GCN / Classic / emulated keyboard.
#[derive(Clone, Copy, Debug, PartialEq, Eq, Hash, Structural)]
pub enum Button {
    A,
    B,
    X,
    Y,
    Start,
    Z,
    L,
    R,
    DPadUp,
    DPadDown,
    DPadLeft,
    DPadRight,
}

/// Bit position of a button in the GCN-layout mask.
pub open spec fn button_index(b: Button) -> u32 {
    match b {
        Button::A => 0,
        Button::B => 1,
        Button::X => 2,
        Button::Y => 3,
        Button::Start => 4,
        Button::Z => 5,
        Button::L => 6,
        Button::R => 7,
        Button::DPadUp => 8,
        Button::DPadDown => 9,
        Button::DPadLeft => 10,
        Button::DPadRight => 11,
    }
}

/// Single-bit mask of a button.
pub open spec fn button_mask(b: Button) -> u32 {
    1u32 << button_index(b)
}

/// The button at bit position `i` (`i < 12`).
pub open spec fn button_at(i: u32) -> Button {
    if i == 0 {
        Button::A
    } else if i == 1 {
        Button::B
    } else if i == 2 {
        Button::X
    } else if i == 3 {
        Button::Y
    } else if i == 4 {
        Button::Start
    } else if i == 5 {
        Button::Z
    } else if i == 6 {
        Button::L
    } else if i == 7 {
        Button::R
    } else if i == 8 {
        Button::DPadUp
    } else if i == 9 {
        Button::DPadDown
    } else if i == 10 {
        Button::DPadLeft
    } else {
        Button::DPadRight
    }
}

impl Button {
    /// Bit position of this button in the GCN-layout mask.
    pub fn index(self) -> (r: u32)
        ensures
            r == button_index(self),
    {
        match self {
            Button::A => 0,
            Button::B => 1,
            Button::X => 2,
            Button::Y => 3,
            Button::Start => 4,
            Button::Z => 5,
            Button::L => 6,
            Button::R => 7,
            Button::DPadUp => 8,
            Button::DPadDown => 9,
            Button::DPadLeft => 10,
            Button::DPadRight => 11,
        }
    }

    fn from_index(i: u32) -> (b: Button)
        requires
            i < 12,
        ensures
            b == button_at(i),
            button_index(b) == i,
    {
        if i == 0 {
            Button::A
        } else if i == 1 {
            Button::B
        } else if i == 2 {
            Button::X
        } else if i == 3 {
            Button::Y
        } else if i == 4 {
            Button::Start
        } else if i == 5 {
            Button::Z
        } else if i == 6 {
            Button::L
        } else if i == 7 {
            Button::R
        } else if i == 8 {
            Button::DPadUp
        } else if i == 9 {
            Button::DPadDown
        } else if i == 10 {
            Button::DPadLeft
        } else {
            Button::DPadRight
        }
    }
}

/// Held, pressed-this-frame and released-this-frame masks.
pub type PadBits = (u32, u32, u32);

/// State after setting the button with mask `m` to `is_down`: press and release edges
/// are recorded only on a change.
pub open spec fn set_down_model(s: PadBits, m: u32, is_down: bool) -> PadBits {
    let was = s.0 & m != 0;
    if is_down {
        (s.0 | m, if !was { s.1 | m } else { s.1 }, s.2)
    } else {
        (s.0 & !m, s.1, if was { s.2 | m } else { s.2 })
    }
}

/// State after applying a held mask to all twelve buttons.
pub open spec fn apply_bits_model(s: PadBits, bits: u32) -> PadBits {
    (
        (s.0 & !0xfffu32) | (bits & 0xfffu32),
        s.1 | (bits & !s.0 & 0xfffu32),
        s.2 | (s.0 & !bits & 0xfffu32),
    )
}

/// Snapshot of the digital pad for one frame. Backends fill this; games only read it.
#[derive(Clone, Debug)]
pub struct Input {
    down: u32,
    pressed: u32,
    released: u32,
}

impl View for Input {
    type V = PadBits;

    closed spec fn view(&self) -> PadBits {
        (self.down, self.pressed, self.released)
    }
}

impl Input {
    pub fn new() -> (r: Self)
        ensures
            r@ == (0u32, 0u32, 0u32),
    {
        Input { down: 0, pressed: 0, released: 0 }
    }

    fn mask(button: Button) -> (m: u32)
        ensures
            m == button_mask(button),
    {
        1u32 << button.index()
    }

    pub fn set_down(&mut self, button: Button, is_down: bool)
        ensures
            final(self)@ == set_down_model(old(self)@, button_mask(button), is_down),
    {
        let m = Self::mask(button);
        let was = self.down & m != 0;
        if is_down {
            self.down = self.down | m;
            if !was {
                self.pressed = self.pressed | m;
            }
        } else {
            self.down = self.down & !m;
            if was {
                self.released = self.released | m;
            }
        }
    }

    /// Call once at the start of each frame before applying fresh device state.
    pub fn begin_frame(&mut self)
        ensures
            final(self)@ == (old(self)@.0, 0u32, 0u32),
    {
        self.pressed = 0;
        self.released = 0;
    }

    pub fn down(&self, button: Button) -> (r: bool)
        ensures
            r == (self@.0 & button_mask(button) != 0),
    {
        self.down & Self::mask(button) != 0
    }

    pub fn pressed(&self, button: Button) -> (r: bool)
        ensures
            r == (self@.1 & button_mask(button) != 0),
    {
        self.pressed & Self::mask(button) != 0
    }

    pub fn released(&self, button: Button) -> (r: bool)
        ensures
            r == (self@.2 & button_mask(button) != 0),
    {
        self.released & Self::mask(button) != 0
    }

    /// Restore edge bits after reconstructing [`Input`] from a held-button snapshot.
    pub fn set_edge_bits(&mut self, pressed: u32, released: u32)
        ensures
            final(self)@ == (old(self)@.0, pressed, released),
    {
        self.pressed = pressed;
        self.released = released;
    }

    pub fn down_bits(&self) -> (r: u32)
        ensures
            r == self@.0,
    {
        self.down
    }

    pub fn pressed_bits(&self) -> (r: u32)
        ensures
            r == self@.1,
    {
        self.pressed
    }

    pub fn released_bits(&self) -> (r: u32)
        ensures
            r == self@.2,
    {
        self.released
    }

    /// Apply a GCN-layout held mask: each of the twelve buttons takes its bit.
    pub fn apply_down_bits(&mut self, bits: u32)
        ensures
            final(self)@ == apply_bits_model(old(self)@, bits),
    {
        let ghost s0 = self@;
        proof {
            let (d0, p0, r0) = s0;
            assert(({
                let mk = ((1u32 << 0u32) - 1) as u32;
                d0 == (d0 & !mk) | (bits & mk) && p0 == p0 | (bits & !d0 & mk) && r0 == r0 | (d0 & !bits
                    & mk)
            })) by (bit_vector);
        }
        let mut i: u32 = 0;
        while i < 12
            invariant
                i <= 12,
                ({
                    let mk = ((1u32 << i) - 1) as u32;
                    self@ == (
                        (s0.0 & !mk) | (bits & mk),
                        s0.1 | (bits & !s0.0 & mk),
                        s0.2 | (s0.0 & !bits & mk),
                    )
                }),
            decreases 12 - i,
        {
            let b = Button::from_index(i);
            let on = bits & (1u32 << i) != 0;
            let ghost before = self@;
            self.set_down(b, on);
            proof {
                let d0 = s0.0;
                let p0 = s0.1;
                let r0 = s0.2;
                assert(button_mask(b) == 1u32 << i);
                assert(i < 12 ==> ({
                    let mk = ((1u32 << i) - 1) as u32;
                    let mk2 = ((1u32 << (i + 1) as u32) - 1) as u32;
                    let m = 1u32 << i;
                    let d = (d0 & !mk) | (bits & mk);
                    let p = p0 | (bits & !d0 & mk);
                    let r = r0 | (d0 & !bits & mk);
                    let on = bits & m != 0;
                    let was = d & m != 0;
                    let nd = if on { d | m } else { d & !m };
                    let np = if on && !was { p | m } else { p };
                    let nr = if !on && was { r | m } else { r };
                    nd == (d0 & !mk2) | (bits & mk2) && np == p0 | (bits & !d0 & mk2) && nr == r0 | (d0
                        & !bits & mk2)
                })) by (bit_vector);
            }
            i = i + 1;
        }
        assert(((1u32 << 12u32) - 1) as u32 == 0xfffu32) by (bit_vector);
    }
}

/// Keyboard keys the host window reads each frame (arrows or WASD, Z or Space, X, Enter).
#[derive(Clone, Copy, Debug, PartialEq, Eq, Structural)]
pub struct KeyState {
    pub left: bool,
    pub right: bool,
    pub up: bool,
    pub down: bool,
    /// Z or Space.
    pub confirm: bool,
    /// X.
    pub back: bool,
    /// Enter.
    pub start: bool,
}

/// Pad state after a keyboard frame: edges cleared, then A, B, Start and the D-pad set
/// from the keys in that order.
pub open spec fn keys_model(s: PadBits, k: KeyState) -> PadBits {
    let s0 = (s.0, 0u32, 0u32);
    let s1 = set_down_model(s0, button_mask(Button::A), k.confirm);
    let s2 = set_down_model(s1, button_mask(Button::B), k.back);
    let s3 = set_down_model(s2, button_mask(Button::Start), k.start);
    let s4 = set_down_model(s3, button_mask(Button::DPadUp), k.up);
    let s5 = set_down_model(s4, button_mask(Button::DPadDown), k.down);
    let s6 = set_down_model(s5, button_mask(Button::DPadLeft), k.left);
    set_down_model(s6, button_mask(Button::DPadRight), k.right)
}

impl Input {
    /// Start a frame from the keyboard: clear edges, then map keys to buttons
    /// (Z/Space → A, X → B, Enter → Start, arrows/WASD → D-pad).
    pub fn apply_keys(&mut self, keys: KeyState)
        ensures
            final(self)@ == keys_model(old(self)@, keys),
    {
        self.begin_frame();
        self.set_down(Button::A, keys.confirm);
        self.set_down(Button::B, keys.back);
        self.set_down(Button::Start, keys.start);
        self.set_down(Button::DPadUp, keys.up);
        self.set_down(Button::DPadDown, keys.down);
        self.set_down(Button::DPadLeft, keys.left);
        self.set_down(Button::DPadRight, keys.right);
    }
}

/// Pressing a button makes it held and records a press edge only when it was up;
/// releasing clears it and records a release edge only when it was held. Other
/// buttons are untouched either way.
pub proof fn lemma_set_down_edges(s: PadBits, b: Button, other: Button, is_down: bool)
    requires
        other != b,
    ensures
        ({
            let t = set_down_model(s, button_mask(b), is_down);
            let m = button_mask(b);
            let o = button_mask(other);
            &&& (t.0 & m != 0) == is_down
            &&& (t.1 & m != 0) == ((s.1 & m != 0) || (is_down && s.0 & m == 0))
            &&& (t.2 & m != 0) == ((s.2 & m != 0) || (!is_down && s.0 & m != 0))
            &&& (t.0 & o != 0) == (s.0 & o != 0)
            &&& (t.1 & o != 0) == (s.1 & o != 0)
            &&& (t.2 & o != 0) == (s.2 & o != 0)
        }),
{
    let i = button_index(b);
    let j = button_index(other);
    assert(i != j);
    let (d, p, r) = s;
    assert(i < 12 && j < 12 && i != j ==> ({
        let m = 1u32 << i;
        let o = 1u32 << j;
        let was = d & m != 0;
        let t0 = if is_down { d | m } else { d & !m };
        let t1 = if is_down && !was { p | m } else { p };
        let t2 = if !is_down && was { r | m } else { r };
        &&& (t0 & m != 0) == is_down
        &&& (t1 & m != 0) == ((p & m != 0) || (is_down && d & m == 0))
        &&& (t2 & m != 0) == ((r & m != 0) || (!is_down && d & m != 0))
        &&& (t0 & o != 0) == (d & o != 0)
        &&& (t1 & o != 0) == (p & o != 0)
        &&& (t2 & o != 0) == (r & o != 0)
    })) by (bit_vector);
}

/// Whether button `b`'s bit is set in a mask.
pub open spec fn held_bit(m: u32, b: Button) -> bool {
    m & button_mask(b) != 0
}

/// A keyboard frame drives exactly its own buttons: Z/Space holds A, X holds B, Enter
/// holds Start and each arrow holds its own D-pad direction; a button is pressed when its
/// key goes down and released when it comes up; the other buttons stay held as they were,
/// with no edges.
pub proof fn lemma_keys_drive_buttons(s: PadBits, k: KeyState)
    ensures
        held_bit(keys_model(s, k).0, Button::A) == k.confirm,
        held_bit(keys_model(s, k).1, Button::A) == (k.confirm && !held_bit(s.0, Button::A)),
        held_bit(keys_model(s, k).2, Button::A) == (!k.confirm && held_bit(s.0, Button::A)),
        held_bit(keys_model(s, k).0, Button::B) == k.back,
        held_bit(keys_model(s, k).1, Button::B) == (k.back && !held_bit(s.0, Button::B)),
        held_bit(keys_model(s, k).2, Button::B) == (!k.back && held_bit(s.0, Button::B)),
        held_bit(keys_model(s, k).0, Button::Start) == k.start,
        held_bit(keys_model(s, k).1, Button::Start) == (k.start && !held_bit(s.0, Button::Start)),
        held_bit(keys_model(s, k).2, Button::Start) == (!k.start && held_bit(s.0, Button::Start)),
        held_bit(keys_model(s, k).0, Button::DPadUp) == k.up,
        held_bit(keys_model(s, k).1, Button::DPadUp) == (k.up && !held_bit(s.0, Button::DPadUp)),
        held_bit(keys_model(s, k).2, Button::DPadUp) == (!k.up && held_bit(s.0, Button::DPadUp)),
        held_bit(keys_model(s, k).0, Button::DPadDown) == k.down,
        held_bit(keys_model(s, k).1, Button::DPadDown) == (k.down && !held_bit(s.0, Button::DPadDown)),
        held_bit(keys_model(s, k).2, Button::DPadDown) == (!k.down && held_bit(s.0, Button::DPadDown)),
        held_bit(keys_model(s, k).0, Button::DPadLeft) == k.left,
        held_bit(keys_model(s, k).1, Button::DPadLeft) == (k.left && !held_bit(s.0, Button::DPadLeft)),
        held_bit(keys_model(s, k).2, Button::DPadLeft) == (!k.left && held_bit(s.0, Button::DPadLeft)),
        held_bit(keys_model(s, k).0, Button::DPadRight) == k.right,
        held_bit(keys_model(s, k).1, Button::DPadRight) == (k.right && !held_bit(s.0, Button::DPadRight)),
        held_bit(keys_model(s, k).2, Button::DPadRight) == (!k.right && held_bit(s.0, Button::DPadRight)),
        held_bit(keys_model(s, k).0, Button::X) == held_bit(s.0, Button::X),
        !held_bit(keys_model(s, k).1, Button::X),
        !held_bit(keys_model(s, k).2, Button::X),
        held_bit(keys_model(s, k).0, Button::Y) == held_bit(s.0, Button::Y),
        !held_bit(keys_model(s, k).1, Button::Y),
        !held_bit(keys_model(s, k).2, Button::Y),
        held_bit(keys_model(s, k).0, Button::Z) == held_bit(s.0, Button::Z),
        !held_bit(keys_model(s, k).1, Button::Z),
        !held_bit(keys_model(s, k).2, Button::Z),
        held_bit(keys_model(s, k).0, Button::L) == held_bit(s.0, Button::L),
        !held_bit(keys_model(s, k).1, Button::L),
        !held_bit(keys_model(s, k).2, Button::L),
        held_bit(keys_model(s, k).0, Button::R) == held_bit(s.0, Button::R),
        !held_bit(keys_model(s, k).1, Button::R),
        !held_bit(keys_model(s, k).2, Button::R),
{
    let s0 = (s.0, 0u32, 0u32);
    let s1 = set_down_model(s0, button_mask(Button::A), k.confirm);
    let s2 = set_down_model(s1, button_mask(Button::B), k.back);
    let s3 = set_down_model(s2, button_mask(Button::Start), k.start);
    let s4 = set_down_model(s3, button_mask(Button::DPadUp), k.up);
    let s5 = set_down_model(s4, button_mask(Button::DPadDown), k.down);
    let s6 = set_down_model(s5, button_mask(Button::DPadLeft), k.left);
    let s7 = set_down_model(s6, button_mask(Button::DPadRight), k.right);
    assert(keys_model(s, k) == s7);
    assert forall|m: u32| #[trigger] (0u32 & m) == 0 by {
        assert(0u32 & m == 0) by (bit_vector);
    }
    lemma_set_down_edges(s0, Button::A, Button::X, k.confirm);
    lemma_set_down_edges(s0, Button::A, Button::B, k.confirm);
    lemma_set_down_edges(s0, Button::A, Button::X, k.confirm);
    lemma_set_down_edges(s0, Button::A, Button::Y, k.confirm);
    lemma_set_down_edges(s0, Button::A, Button::Start, k.confirm);
    lemma_set_down_edges(s0, Button::A, Button::Z, k.confirm);
    lemma_set_down_edges(s0, Button::A, Button::L, k.confirm);
    lemma_set_down_edges(s0, Button::A, Button::R, k.confirm);
    lemma_set_down_edges(s0, Button::A, Button::DPadUp, k.confirm);
    lemma_set_down_edges(s0, Button::A, Button::DPadDown, k.confirm);
    lemma_set_down_edges(s0, Button::A, Button::DPadLeft, k.confirm);
    lemma_set_down_edges(s0, Button::A, Button::DPadRight, k.confirm);
    lemma_set_down_edges(s1, Button::B, Button::X, k.back);
    lemma_set_down_edges(s1, Button::B, Button::A, k.back);
    lemma_set_down_edges(s1, Button::B, Button::X, k.back);
    lemma_set_down_edges(s1, Button::B, Button::Y, k.back);
    lemma_set_down_edges(s1, Button::B, Button::Start, k.back);
    lemma_set_down_edges(s1, Button::B, Button::Z, k.back);
    lemma_set_down_edges(s1, Button::B, Button::L, k.back);
    lemma_set_down_edges(s1, Button::B, Button::R, k.back);
    lemma_set_down_edges(s1, Button::B, Button::DPadUp, k.back);
    lemma_set_down_edges(s1, Button::B, Button::DPadDown, k.back);
    lemma_set_down_edges(s1, Button::B, Button::DPadLeft, k.back);
    lemma_set_down_edges(s1, Button::B, Button::DPadRight, k.back);
    lemma_set_down_edges(s2, Button::Start, Button::X, k.start);
    lemma_set_down_edges(s2, Button::Start, Button::A, k.start);
    lemma_set_down_edges(s2, Button::Start, Button::B, k.start);
    lemma_set_down_edges(s2, Button::Start, Button::X, k.start);
    lemma_set_down_edges(s2, Button::Start, Button::Y, k.start);
    lemma_set_down_edges(s2, Button::Start, Button::Z, k.start);
    lemma_set_down_edges(s2, Button::Start, Button::L, k.start);
    lemma_set_down_edges(s2, Button::Start, Button::R, k.start);
    lemma_set_down_edges(s2, Button::Start, Button::DPadUp, k.start);
    lemma_set_down_edges(s2, Button::Start, Button::DPadDown, k.start);
    lemma_set_down_edges(s2, Button::Start, Button::DPadLeft, k.start);
    lemma_set_down_edges(s2, Button::Start, Button::DPadRight, k.start);
    lemma_set_down_edges(s3, Button::DPadUp, Button::X, k.up);
    lemma_set_down_edges(s3, Button::DPadUp, Button::A, k.up);
    lemma_set_down_edges(s3, Button::DPadUp, Button::B, k.up);
    lemma_set_down_edges(s3, Button::DPadUp, Button::X, k.up);
    lemma_set_down_edges(s3, Button::DPadUp, Button::Y, k.up);
    lemma_set_down_edges(s3, Button::DPadUp, Button::Start, k.up);
    lemma_set_down_edges(s3, Button::DPadUp, Button::Z, k.up);
    lemma_set_down_edges(s3, Button::DPadUp, Button::L, k.up);
    lemma_set_down_edges(s3, Button::DPadUp, Button::R, k.up);
    lemma_set_down_edges(s3, Button::DPadUp, Button::DPadDown, k.up);
    lemma_set_down_edges(s3, Button::DPadUp, Button::DPadLeft, k.up);
    lemma_set_down_edges(s3, Button::DPadUp, Button::DPadRight, k.up);
    lemma_set_down_edges(s4, Button::DPadDown, Button::X, k.down);
    lemma_set_down_edges(s4, Button::DPadDown, Button::A, k.down);
    lemma_set_down_edges(s4, Button::DPadDown, Button::B, k.down);
    lemma_set_down_edges(s4, Button::DPadDown, Button::X, k.down);
    lemma_set_down_edges(s4, Button::DPadDown, Button::Y, k.down);
    lemma_set_down_edges(s4, Button::DPadDown, Button::Start, k.down);
    lemma_set_down_edges(s4, Button::DPadDown, Button::Z, k.down);
    lemma_set_down_edges(s4, Button::DPadDown, Button::L, k.down);
    lemma_set_down_edges(s4, Button::DPadDown, Button::R, k.down);
    lemma_set_down_edges(s4, Button::DPadDown, Button::DPadUp, k.down);
    lemma_set_down_edges(s4, Button::DPadDown, Button::DPadLeft, k.down);
    lemma_set_down_edges(s4, Button::DPadDown, Button::DPadRight, k.down);
    lemma_set_down_edges(s5, Button::DPadLeft, Button::X, k.left);
    lemma_set_down_edges(s5, Button::DPadLeft, Button::A, k.left);
    lemma_set_down_edges(s5, Button::DPadLeft, Button::B, k.left);
    lemma_set_down_edges(s5, Button::DPadLeft, Button::X, k.left);
    lemma_set_down_edges(s5, Button::DPadLeft, Button::Y, k.left);
    lemma_set_down_edges(s5, Button::DPadLeft, Button::Start, k.left);
    lemma_set_down_edges(s5, Button::DPadLeft, Button::Z, k.left);
    lemma_set_down_edges(s5, Button::DPadLeft, Button::L, k.left);
    lemma_set_down_edges(s5, Button::DPadLeft, Button::R, k.left);
    lemma_set_down_edges(s5, Button::DPadLeft, Button::DPadUp, k.left);
    lemma_set_down_edges(s5, Button::DPadLeft, Button::DPadDown, k.left);
    lemma_set_down_edges(s5, Button::DPadLeft, Button::DPadRight, k.left);
    lemma_set_down_edges(s6, Button::DPadRight, Button::X, k.right);
    lemma_set_down_edges(s6, Button::DPadRight, Button::A, k.right);
    lemma_set_down_edges(s6, Button::DPadRight, Button::B, k.right);
    lemma_set_down_edges(s6, Button::DPadRight, Button::X, k.right);
    lemma_set_down_edges(s6, Button::DPadRight, Button::Y, k.right);
    lemma_set_down_edges(s6, Button::DPadRight, Button::Start, k.right);
    lemma_set_down_edges(s6, Button::DPadRight, Button::Z, k.right);
    lemma_set_down_edges(s6, Button::DPadRight, Button::L, k.right);
    lemma_set_down_edges(s6, Button::DPadRight, Button::R, k.right);
    lemma_set_down_edges(s6, Button::DPadRight, Button::DPadUp, k.right);
    lemma_set_down_edges(s6, Button::DPadRight, Button::DPadDown, k.right);
    lemma_set_down_edges(s6, Button::DPadRight, Button::DPadLeft, k.right);
}

} // verus!
