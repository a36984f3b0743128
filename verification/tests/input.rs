use wiimaker::input::{Button, Input, KeyState};

#[test]
fn set_down_records_edges_once() {
    let mut i = Input::new();
    i.set_down(Button::A, true);
    assert!(i.down(Button::A) && i.pressed(Button::A) && !i.released(Button::A));
    i.begin_frame();
    i.set_down(Button::A, true);
    assert!(i.down(Button::A) && !i.pressed(Button::A));
    i.set_down(Button::A, false);
    assert!(!i.down(Button::A) && i.released(Button::A));
    assert!(!i.down(Button::B));
    assert_eq!(Button::A.index(), 0);
    assert_eq!(Button::DPadRight.index(), 11);
}

#[test]
fn apply_down_bits_diffs_against_previous_frame() {
    let mut i = Input::new();
    i.apply_down_bits(0b101);
    assert_eq!(i.down_bits(), 0b101);
    assert_eq!(i.pressed_bits(), 0b101);
    i.begin_frame();
    i.apply_down_bits(0b110);
    assert_eq!(i.down_bits(), 0b110);
    assert_eq!(i.pressed_bits(), 0b010);
    assert_eq!(i.released_bits(), 0b001);
    i.set_edge_bits(0, 0b100);
    assert_eq!(i.pressed_bits(), 0);
    assert_eq!(i.released_bits(), 0b100);
    assert!(i.down(Button::B) && i.down(Button::X) && !i.down(Button::A));
}

#[test]
fn keyboard_frame_maps_keys_to_buttons() {
    let mut i = Input::new();
    let keys = KeyState { left: true, right: false, up: false, down: true, confirm: true, back: false, start: true };
    i.apply_keys(keys);
    assert!(i.down(Button::A) && i.pressed(Button::A));
    assert!(i.down(Button::Start) && i.down(Button::DPadLeft) && i.down(Button::DPadDown));
    assert!(!i.down(Button::B) && !i.down(Button::DPadRight));
    let keys2 = KeyState { confirm: false, ..keys };
    i.apply_keys(keys2);
    assert!(!i.down(Button::A) && i.released(Button::A) && !i.pressed(Button::Start));
}
