//! GCN-layout button merge shared by the Wii bootstrap, the CLI and the editor.
//!
//! Button bits match the C runtime ABI; WPAD constants match libogc.
use vstd::prelude::*;
use crate::input::{Input, Button, button_mask};
use crate::strings::{string_from_chars, push_str};

verus! {

/// `WIIMAKER_BTN_A`
pub const BTN_A: u32 = 0x0001;
/// `WIIMAKER_BTN_B`
pub const BTN_B: u32 = 0x0002;
/// `WIIMAKER_BTN_X`
pub const BTN_X: u32 = 0x0004;
/// `WIIMAKER_BTN_Y`
pub const BTN_Y: u32 = 0x0008;
/// `WIIMAKER_BTN_START`
pub const BTN_START: u32 = 0x0010;
/// `WIIMAKER_BTN_Z`
pub const BTN_Z: u32 = 0x0020;
/// `WIIMAKER_BTN_L`
pub const BTN_L: u32 = 0x0040;
/// `WIIMAKER_BTN_R`
pub const BTN_R: u32 = 0x0080;
/// `WIIMAKER_BTN_UP`
pub const BTN_UP: u32 = 0x0100;
/// `WIIMAKER_BTN_DOWN`
pub const BTN_DOWN: u32 = 0x0200;
/// `WIIMAKER_BTN_LEFT`
pub const BTN_LEFT: u32 = 0x0400;
/// `WIIMAKER_BTN_RIGHT`
pub const BTN_RIGHT: u32 = 0x0800;

pub const WPAD_BUTTON_2: u32 = 0x0001;
pub const WPAD_BUTTON_1: u32 = 0x0002;
pub const WPAD_BUTTON_B: u32 = 0x0004;
pub const WPAD_BUTTON_A: u32 = 0x0008;
pub const WPAD_BUTTON_MINUS: u32 = 0x0010;
pub const WPAD_BUTTON_HOME: u32 = 0x0080;
pub const WPAD_BUTTON_LEFT: u32 = 0x0100;
pub const WPAD_BUTTON_RIGHT: u32 = 0x0200;
pub const WPAD_BUTTON_DOWN: u32 = 0x0400;
pub const WPAD_BUTTON_UP: u32 = 0x0800;
pub const WPAD_BUTTON_PLUS: u32 = 0x1000;

pub const WPAD_CLASSIC_BUTTON_UP: u32 = 0x0001_0000;
pub const WPAD_CLASSIC_BUTTON_LEFT: u32 = 0x0002_0000;
pub const WPAD_CLASSIC_BUTTON_ZR: u32 = 0x0004_0000;
pub const WPAD_CLASSIC_BUTTON_X: u32 = 0x0008_0000;
pub const WPAD_CLASSIC_BUTTON_A: u32 = 0x0010_0000;
pub const WPAD_CLASSIC_BUTTON_Y: u32 = 0x0020_0000;
pub const WPAD_CLASSIC_BUTTON_B: u32 = 0x0040_0000;
pub const WPAD_CLASSIC_BUTTON_ZL: u32 = 0x0080_0000;
pub const WPAD_CLASSIC_BUTTON_FULL_R: u32 = 0x0200_0000;
pub const WPAD_CLASSIC_BUTTON_PLUS: u32 = 0x0400_0000;
pub const WPAD_CLASSIC_BUTTON_HOME: u32 = 0x0800_0000;
pub const WPAD_CLASSIC_BUTTON_MINUS: u32 = 0x1000_0000;
pub const WPAD_CLASSIC_BUTTON_FULL_L: u32 = 0x2000_0000;
pub const WPAD_CLASSIC_BUTTON_DOWN: u32 = 0x4000_0000;
pub const WPAD_CLASSIC_BUTTON_RIGHT: u32 = 0x8000_0000;

/// `bit` when `on`, else nothing.
pub open spec fn bit_if(on: bool, bit: u32) -> u32 {
    if on { bit } else { 0 }
}

/// True when any of `mask` is held.
pub open spec fn any_held(held: u32, mask: u32) -> bool {
    held & mask != 0
}

/// GCN-layout mask for core Wiimote bits (`1→X`, `2→Y`, Minus→Z, Home/Plus→Start).
pub open spec fn spec_wiimote_core_to_gcn(held: u32) -> u32 {
    bit_if(any_held(held, WPAD_BUTTON_A), BTN_A)
    | bit_if(any_held(held, WPAD_BUTTON_B), BTN_B)
    | bit_if(any_held(held, WPAD_BUTTON_1), BTN_X)
    | bit_if(any_held(held, WPAD_BUTTON_2), BTN_Y)
    | bit_if(any_held(held, WPAD_BUTTON_PLUS | WPAD_BUTTON_HOME), BTN_START)
    | bit_if(any_held(held, WPAD_BUTTON_MINUS), BTN_Z)
    | bit_if(any_held(held, WPAD_BUTTON_UP), BTN_UP)
    | bit_if(any_held(held, WPAD_BUTTON_DOWN), BTN_DOWN)
    | bit_if(any_held(held, WPAD_BUTTON_LEFT), BTN_LEFT)
    | bit_if(any_held(held, WPAD_BUTTON_RIGHT), BTN_RIGHT)
}

/// Core Wiimote held bits → GCN-layout.
pub fn wiimote_core_to_gcn(held: u32) -> (out: u32)
    ensures
        out == spec_wiimote_core_to_gcn(held),
{
    (if held & WPAD_BUTTON_A != 0 { BTN_A } else { 0 })
    | (if held & WPAD_BUTTON_B != 0 { BTN_B } else { 0 })
    | (if held & WPAD_BUTTON_1 != 0 { BTN_X } else { 0 })
    | (if held & WPAD_BUTTON_2 != 0 { BTN_Y } else { 0 })
    | (if held & (WPAD_BUTTON_PLUS | WPAD_BUTTON_HOME) != 0 { BTN_START } else { 0 })
    | (if held & WPAD_BUTTON_MINUS != 0 { BTN_Z } else { 0 })
    | (if held & WPAD_BUTTON_UP != 0 { BTN_UP } else { 0 })
    | (if held & WPAD_BUTTON_DOWN != 0 { BTN_DOWN } else { 0 })
    | (if held & WPAD_BUTTON_LEFT != 0 { BTN_LEFT } else { 0 })
    | (if held & WPAD_BUTTON_RIGHT != 0 { BTN_RIGHT } else { 0 })
}

/// GCN-layout mask for Classic Controller bits (high word of the WPAD mask).
pub open spec fn spec_classic_to_gcn(held: u32) -> u32 {
    bit_if(any_held(held, WPAD_CLASSIC_BUTTON_A), BTN_A)
    | bit_if(any_held(held, WPAD_CLASSIC_BUTTON_B), BTN_B)
    | bit_if(any_held(held, WPAD_CLASSIC_BUTTON_X), BTN_X)
    | bit_if(any_held(held, WPAD_CLASSIC_BUTTON_Y), BTN_Y)
    | bit_if(any_held(held, WPAD_CLASSIC_BUTTON_PLUS | WPAD_CLASSIC_BUTTON_HOME), BTN_START)
    | bit_if(any_held(held, WPAD_CLASSIC_BUTTON_MINUS), BTN_Z)
    | bit_if(any_held(held, WPAD_CLASSIC_BUTTON_FULL_L | WPAD_CLASSIC_BUTTON_ZL), BTN_L)
    | bit_if(any_held(held, WPAD_CLASSIC_BUTTON_FULL_R | WPAD_CLASSIC_BUTTON_ZR), BTN_R)
    | bit_if(any_held(held, WPAD_CLASSIC_BUTTON_UP), BTN_UP)
    | bit_if(any_held(held, WPAD_CLASSIC_BUTTON_DOWN), BTN_DOWN)
    | bit_if(any_held(held, WPAD_CLASSIC_BUTTON_LEFT), BTN_LEFT)
    | bit_if(any_held(held, WPAD_CLASSIC_BUTTON_RIGHT), BTN_RIGHT)
}

/// Classic Controller bits → GCN-layout (OR-only).
pub fn classic_to_gcn(held: u32) -> (out: u32)
    ensures
        out == spec_classic_to_gcn(held),
{
    (if held & WPAD_CLASSIC_BUTTON_A != 0 { BTN_A } else { 0 })
    | (if held & WPAD_CLASSIC_BUTTON_B != 0 { BTN_B } else { 0 })
    | (if held & WPAD_CLASSIC_BUTTON_X != 0 { BTN_X } else { 0 })
    | (if held & WPAD_CLASSIC_BUTTON_Y != 0 { BTN_Y } else { 0 })
    | (if held & (WPAD_CLASSIC_BUTTON_PLUS | WPAD_CLASSIC_BUTTON_HOME) != 0 { BTN_START } else { 0 })
    | (if held & WPAD_CLASSIC_BUTTON_MINUS != 0 { BTN_Z } else { 0 })
    | (if held & (WPAD_CLASSIC_BUTTON_FULL_L | WPAD_CLASSIC_BUTTON_ZL) != 0 { BTN_L } else { 0 })
    | (if held & (WPAD_CLASSIC_BUTTON_FULL_R | WPAD_CLASSIC_BUTTON_ZR) != 0 { BTN_R } else { 0 })
    | (if held & WPAD_CLASSIC_BUTTON_UP != 0 { BTN_UP } else { 0 })
    | (if held & WPAD_CLASSIC_BUTTON_DOWN != 0 { BTN_DOWN } else { 0 })
    | (if held & WPAD_CLASSIC_BUTTON_LEFT != 0 { BTN_LEFT } else { 0 })
    | (if held & WPAD_CLASSIC_BUTTON_RIGHT != 0 { BTN_RIGHT } else { 0 })
}

/// OR two GCN-layout masks (GCN + Wiimote + Classic coexist).
pub fn or_buttons(a: u32, b: u32) -> (out: u32)
    ensures
        out == a | b,
{
    a | b
}

/// Merging never loses a button already held by either side, and merging is
/// order-independent: `or_buttons` is commutative and keeps every bit of both inputs.
pub proof fn lemma_or_buttons_keeps_bits(a: u32, b: u32)
    ensures
        (a | b) & a == a,
        (a | b) & b == b,
        a | b == b | a,
{
    assert((a | b) & a == a) by (bit_vector);
    assert((a | b) & b == b) by (bit_vector);
    assert(a | b == b | a) by (bit_vector);
}

/// One-line legend for Game view / Inspector / `wiimaker input map`.
pub const INPUT_LEGEND: &'static str = "Keyboard · Wiimote D-pad/A/B/1/2 · Classic · GCN";

/// Static mapping row for `wiimaker input map` / Inspector copy.
#[derive(Clone, Copy, Debug, PartialEq, Eq)]
pub struct MapRow {
    pub source: &'static str,
    pub control: &'static str,
    pub target: &'static str,
}

/// The mapping table: keyboard, Wiimote, Classic, Nunchuk and GCN controls onto the
/// GCN-layout input, as (source, control, target).
pub open spec fn map_table() -> Seq<(Seq<char>, Seq<char>, Seq<char>)> {
    seq![
        ("Keyboard"@, "W / Arrow Up"@, "D-pad Up + main +Y"@),
        ("Keyboard"@, "S / Arrow Down"@, "D-pad Down + main −Y"@),
        ("Keyboard"@, "A / Arrow Left"@, "D-pad Left + main −X"@),
        ("Keyboard"@, "D / Arrow Right"@, "D-pad Right + main +X"@),
        ("Keyboard"@, "Z / Space"@, "A"@),
        ("Keyboard"@, "X"@, "B"@),
        ("Keyboard"@, "Enter"@, "Start"@),
        ("GCN"@, "A / B / X / Y / Start / Z / D-pad"@, "same bits"@),
        ("GCN"@, "Main stick"@, "main"@),
        ("GCN"@, "C-stick"@, "c"@),
        ("Wiimote"@, "A"@, "A"@),
        ("Wiimote"@, "B"@, "B"@),
        ("Wiimote"@, "Plus"@, "Start"@),
        ("Wiimote"@, "Minus"@, "Z"@),
        ("Wiimote"@, "1"@, "X"@),
        ("Wiimote"@, "2"@, "Y"@),
        ("Wiimote"@, "D-pad"@, "D-pad (synthesizes main if analog idle)"@),
        ("Nunchuk"@, "Stick"@, "main (if GCN idle)"@),
        ("Classic"@, "Left stick"@, "main (if GCN idle)"@),
        ("Classic"@, "Right stick"@, "c (if GCN C idle)"@),
        ("Classic"@, "A / B / X / Y"@, "A / B / X / Y"@),
        ("Classic"@, "Plus / Home"@, "Start"@),
        ("Classic"@, "Minus"@, "Z"@),
        ("Classic"@, "L / ZL"@, "L"@),
        ("Classic"@, "R / ZR"@, "R"@),
        ("Classic"@, "D-pad"@, "D-pad"@)
    ]
}

/// Keyboard, Wiimote, Classic, Nunchuk, GCN → GCN-layout `Input`.
pub fn map_rows() -> (rows: Vec<MapRow>)
    ensures
        rows@.map_values(|r: MapRow| (r.source@, r.control@, r.target@)) == map_table(),
{
    let mut rows: Vec<MapRow> = Vec::new();
    rows.push(MapRow { source: "Keyboard", control: "W / Arrow Up", target: "D-pad Up + main +Y" });
    rows.push(MapRow { source: "Keyboard", control: "S / Arrow Down", target: "D-pad Down + main −Y" });
    rows.push(MapRow { source: "Keyboard", control: "A / Arrow Left", target: "D-pad Left + main −X" });
    rows.push(MapRow { source: "Keyboard", control: "D / Arrow Right", target: "D-pad Right + main +X" });
    rows.push(MapRow { source: "Keyboard", control: "Z / Space", target: "A" });
    rows.push(MapRow { source: "Keyboard", control: "X", target: "B" });
    rows.push(MapRow { source: "Keyboard", control: "Enter", target: "Start" });
    rows.push(MapRow { source: "GCN", control: "A / B / X / Y / Start / Z / D-pad", target: "same bits" });
    rows.push(MapRow { source: "GCN", control: "Main stick", target: "main" });
    rows.push(MapRow { source: "GCN", control: "C-stick", target: "c" });
    rows.push(MapRow { source: "Wiimote", control: "A", target: "A" });
    rows.push(MapRow { source: "Wiimote", control: "B", target: "B" });
    rows.push(MapRow { source: "Wiimote", control: "Plus", target: "Start" });
    rows.push(MapRow { source: "Wiimote", control: "Minus", target: "Z" });
    rows.push(MapRow { source: "Wiimote", control: "1", target: "X" });
    rows.push(MapRow { source: "Wiimote", control: "2", target: "Y" });
    rows.push(MapRow { source: "Wiimote", control: "D-pad", target: "D-pad (synthesizes main if analog idle)" });
    rows.push(MapRow { source: "Nunchuk", control: "Stick", target: "main (if GCN idle)" });
    rows.push(MapRow { source: "Classic", control: "Left stick", target: "main (if GCN idle)" });
    rows.push(MapRow { source: "Classic", control: "Right stick", target: "c (if GCN C idle)" });
    rows.push(MapRow { source: "Classic", control: "A / B / X / Y", target: "A / B / X / Y" });
    rows.push(MapRow { source: "Classic", control: "Plus / Home", target: "Start" });
    rows.push(MapRow { source: "Classic", control: "Minus", target: "Z" });
    rows.push(MapRow { source: "Classic", control: "L / ZL", target: "L" });
    rows.push(MapRow { source: "Classic", control: "R / ZR", target: "R" });
    rows.push(MapRow { source: "Classic", control: "D-pad", target: "D-pad" });
    assert(rows@.map_values(|r: MapRow| (r.source@, r.control@, r.target@)) =~= map_table());
    rows
}

/// Each core Wiimote control sets exactly its GCN target: A→A, B→B, 1→X, 2→Y, Plus or
/// Home→Start, Minus→Z, D-pad→D-pad; no other GCN bit is ever set.
pub proof fn lemma_wiimote_core_rows(held: u32)
    ensures
        (spec_wiimote_core_to_gcn(held) & BTN_A != 0) == (held & WPAD_BUTTON_A != 0),
        (spec_wiimote_core_to_gcn(held) & BTN_B != 0) == (held & WPAD_BUTTON_B != 0),
        (spec_wiimote_core_to_gcn(held) & BTN_X != 0) == (held & WPAD_BUTTON_1 != 0),
        (spec_wiimote_core_to_gcn(held) & BTN_Y != 0) == (held & WPAD_BUTTON_2 != 0),
        (spec_wiimote_core_to_gcn(held) & BTN_START != 0) == (held & (WPAD_BUTTON_PLUS | WPAD_BUTTON_HOME) != 0),
        (spec_wiimote_core_to_gcn(held) & BTN_Z != 0) == (held & WPAD_BUTTON_MINUS != 0),
        (spec_wiimote_core_to_gcn(held) & BTN_UP != 0) == (held & WPAD_BUTTON_UP != 0),
        (spec_wiimote_core_to_gcn(held) & BTN_DOWN != 0) == (held & WPAD_BUTTON_DOWN != 0),
        (spec_wiimote_core_to_gcn(held) & BTN_LEFT != 0) == (held & WPAD_BUTTON_LEFT != 0),
        (spec_wiimote_core_to_gcn(held) & BTN_RIGHT != 0) == (held & WPAD_BUTTON_RIGHT != 0),
        spec_wiimote_core_to_gcn(held) & !(BTN_A | BTN_B | BTN_X | BTN_Y | BTN_START | BTN_Z | BTN_UP | BTN_DOWN
            | BTN_LEFT | BTN_RIGHT) == 0,
{
    assert(((spec_wiimote_core_to_gcn(held) & BTN_A != 0) == (held & WPAD_BUTTON_A != 0))
        && ((spec_wiimote_core_to_gcn(held) & BTN_B != 0) == (held & WPAD_BUTTON_B != 0))
        && ((spec_wiimote_core_to_gcn(held) & BTN_X != 0) == (held & WPAD_BUTTON_1 != 0))
        && ((spec_wiimote_core_to_gcn(held) & BTN_Y != 0) == (held & WPAD_BUTTON_2 != 0))
        && ((spec_wiimote_core_to_gcn(held) & BTN_START != 0) == (held & (WPAD_BUTTON_PLUS | WPAD_BUTTON_HOME) != 0))
        && ((spec_wiimote_core_to_gcn(held) & BTN_Z != 0) == (held & WPAD_BUTTON_MINUS != 0))
        && ((spec_wiimote_core_to_gcn(held) & BTN_UP != 0) == (held & WPAD_BUTTON_UP != 0))
        && ((spec_wiimote_core_to_gcn(held) & BTN_DOWN != 0) == (held & WPAD_BUTTON_DOWN != 0))
        && ((spec_wiimote_core_to_gcn(held) & BTN_LEFT != 0) == (held & WPAD_BUTTON_LEFT != 0))
        && ((spec_wiimote_core_to_gcn(held) & BTN_RIGHT != 0) == (held & WPAD_BUTTON_RIGHT != 0))
        && (spec_wiimote_core_to_gcn(held) & !(BTN_A | BTN_B | BTN_X | BTN_Y | BTN_START | BTN_Z | BTN_UP | BTN_DOWN | BTN_LEFT | BTN_RIGHT) == 0)) by (bit_vector);
}

/// Each Classic Controller control sets exactly its GCN target: A, B, X, Y to themselves,
/// Plus or Home→Start, Minus→Z, L or ZL→L, R or ZR→R, D-pad→D-pad; no other bit is set.
pub proof fn lemma_classic_rows(held: u32)
    ensures
        (spec_classic_to_gcn(held) & BTN_A != 0) == (held & WPAD_CLASSIC_BUTTON_A != 0),
        (spec_classic_to_gcn(held) & BTN_B != 0) == (held & WPAD_CLASSIC_BUTTON_B != 0),
        (spec_classic_to_gcn(held) & BTN_X != 0) == (held & WPAD_CLASSIC_BUTTON_X != 0),
        (spec_classic_to_gcn(held) & BTN_Y != 0) == (held & WPAD_CLASSIC_BUTTON_Y != 0),
        (spec_classic_to_gcn(held) & BTN_START != 0) == (held & (WPAD_CLASSIC_BUTTON_PLUS | WPAD_CLASSIC_BUTTON_HOME)
            != 0),
        (spec_classic_to_gcn(held) & BTN_Z != 0) == (held & WPAD_CLASSIC_BUTTON_MINUS != 0),
        (spec_classic_to_gcn(held) & BTN_L != 0) == (held & (WPAD_CLASSIC_BUTTON_FULL_L | WPAD_CLASSIC_BUTTON_ZL)
            != 0),
        (spec_classic_to_gcn(held) & BTN_R != 0) == (held & (WPAD_CLASSIC_BUTTON_FULL_R | WPAD_CLASSIC_BUTTON_ZR)
            != 0),
        (spec_classic_to_gcn(held) & BTN_UP != 0) == (held & WPAD_CLASSIC_BUTTON_UP != 0),
        (spec_classic_to_gcn(held) & BTN_DOWN != 0) == (held & WPAD_CLASSIC_BUTTON_DOWN != 0),
        (spec_classic_to_gcn(held) & BTN_LEFT != 0) == (held & WPAD_CLASSIC_BUTTON_LEFT != 0),
        (spec_classic_to_gcn(held) & BTN_RIGHT != 0) == (held & WPAD_CLASSIC_BUTTON_RIGHT != 0),
        spec_classic_to_gcn(held) & !0x0fffu32 == 0,
{
    assert(((spec_classic_to_gcn(held) & BTN_A != 0) == (held & WPAD_CLASSIC_BUTTON_A != 0))
        && ((spec_classic_to_gcn(held) & BTN_B != 0) == (held & WPAD_CLASSIC_BUTTON_B != 0))
        && ((spec_classic_to_gcn(held) & BTN_X != 0) == (held & WPAD_CLASSIC_BUTTON_X != 0))
        && ((spec_classic_to_gcn(held) & BTN_Y != 0) == (held & WPAD_CLASSIC_BUTTON_Y != 0))
        && ((spec_classic_to_gcn(held) & BTN_START != 0) == (held & (WPAD_CLASSIC_BUTTON_PLUS | WPAD_CLASSIC_BUTTON_HOME) != 0))
        && ((spec_classic_to_gcn(held) & BTN_Z != 0) == (held & WPAD_CLASSIC_BUTTON_MINUS != 0))
        && ((spec_classic_to_gcn(held) & BTN_L != 0) == (held & (WPAD_CLASSIC_BUTTON_FULL_L | WPAD_CLASSIC_BUTTON_ZL) != 0))
        && ((spec_classic_to_gcn(held) & BTN_R != 0) == (held & (WPAD_CLASSIC_BUTTON_FULL_R | WPAD_CLASSIC_BUTTON_ZR) != 0))
        && ((spec_classic_to_gcn(held) & BTN_UP != 0) == (held & WPAD_CLASSIC_BUTTON_UP != 0))
        && ((spec_classic_to_gcn(held) & BTN_DOWN != 0) == (held & WPAD_CLASSIC_BUTTON_DOWN != 0))
        && ((spec_classic_to_gcn(held) & BTN_LEFT != 0) == (held & WPAD_CLASSIC_BUTTON_LEFT != 0))
        && ((spec_classic_to_gcn(held) & BTN_RIGHT != 0) == (held & WPAD_CLASSIC_BUTTON_RIGHT != 0))
        && (spec_classic_to_gcn(held) & !0x0fffu32 == 0)) by (bit_vector);
}

/// Button half of the pad merge: GCN buttons, then the Wiimote core and Classic
/// buttons of the same WPAD mask, all OR-ed (merges never clear a bit).
pub fn merge_buttons(gcn_buttons: u32, wpad_held: u32) -> (out: u32)
    ensures
        out == gcn_buttons | (spec_wiimote_core_to_gcn(wpad_held) | spec_classic_to_gcn(wpad_held)),
{
    or_buttons(gcn_buttons, or_buttons(wiimote_core_to_gcn(wpad_held), classic_to_gcn(wpad_held)))
}

/// Is `b` held in the mask?
pub open spec fn held(mask: u32, b: Button) -> bool {
    mask & button_mask(b) != 0
}

/// `s` when `on`, else nothing.
pub open spec fn if_held(on: bool, s: Seq<char>) -> Seq<char> {
    if on {
        s
    } else {
        Seq::empty()
    }
}

/// Held D-pad directions as letters in `U D L R` order, or `·` when none is held.
pub open spec fn dpad_label_of(mask: u32) -> Seq<char> {
    let raw = if_held(held(mask, Button::DPadUp), seq!['U']) + if_held(held(mask, Button::DPadDown), seq!['D'])
        + if_held(held(mask, Button::DPadLeft), seq!['L']) + if_held(held(mask, Button::DPadRight), seq!['R']);
    if raw.len() == 0 {
        seq!['\u{b7}']
    } else {
        raw
    }
}

/// Held face / shoulder buttons, each followed by a space, in `A B X Y Start Z L R` order.
pub open spec fn face_words(mask: u32) -> Seq<char> {
    if_held(held(mask, Button::A), "A "@) + if_held(held(mask, Button::B), "B "@) + if_held(
        held(mask, Button::X),
        "X "@,
    ) + if_held(held(mask, Button::Y), "Y "@) + if_held(held(mask, Button::Start), "Start "@) + if_held(
        held(mask, Button::Z),
        "Z "@,
    ) + if_held(held(mask, Button::L), "L "@) + if_held(held(mask, Button::R), "R "@)
}

/// The held buttons' names separated by single spaces, or `·` when none is held.
pub open spec fn face_label_of(mask: u32) -> Seq<char> {
    let w = face_words(mask);
    if w.len() == 0 {
        seq!['\u{b7}']
    } else {
        w.drop_last()
    }
}

/// D-pad part of the input status line.
pub fn dpad_label(input: &Input) -> (r: String)
    ensures
        r@ == dpad_label_of(input@.0),
{
    let mut d: Vec<char> = Vec::new();
    if input.down(Button::DPadUp) {
        d.push('U');
    }
    if input.down(Button::DPadDown) {
        d.push('D');
    }
    if input.down(Button::DPadLeft) {
        d.push('L');
    }
    if input.down(Button::DPadRight) {
        d.push('R');
    }
    if d.len() == 0 {
        d.push('\u{b7}');
    }
    assert(d@ =~= dpad_label_of(input@.0));
    string_from_chars(&d)
}

/// Face-button part of the input status line.
pub fn face_label(input: &Input) -> (r: String)
    ensures
        r@ == face_label_of(input@.0),
{
    let mut f: Vec<char> = Vec::new();
    let ghost m = input@.0;
    if input.down(Button::A) {
        push_str(&mut f, "A ");
    }
    assert(f@ =~= if_held(held(m, Button::A), "A "@));
    if input.down(Button::B) {
        push_str(&mut f, "B ");
    }
    assert(f@ =~= if_held(held(m, Button::A), "A "@) + if_held(held(m, Button::B), "B "@));
    if input.down(Button::X) {
        push_str(&mut f, "X ");
    }
    if input.down(Button::Y) {
        push_str(&mut f, "Y ");
    }
    if input.down(Button::Start) {
        push_str(&mut f, "Start ");
    }
    if input.down(Button::Z) {
        push_str(&mut f, "Z ");
    }
    if input.down(Button::L) {
        push_str(&mut f, "L ");
    }
    if input.down(Button::R) {
        push_str(&mut f, "R ");
    }
    assert(f@ =~= face_words(m));
    if f.len() == 0 {
        f.push('\u{b7}');
    } else {
        f.pop();
    }
    assert(f@ =~= face_label_of(m));
    string_from_chars(&f)
}

} // verus!
