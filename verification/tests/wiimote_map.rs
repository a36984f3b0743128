use wiimaker::input::{Button, Input};
use wiimaker::wiimote_map::{
    classic_to_gcn, dpad_label, face_label, map_rows, merge_buttons, or_buttons, wiimote_core_to_gcn, BTN_A, BTN_B,
    BTN_DOWN, BTN_L, BTN_LEFT, BTN_R, BTN_RIGHT, BTN_START, BTN_UP, BTN_X, BTN_Y, BTN_Z, INPUT_LEGEND,
    WPAD_BUTTON_1, WPAD_BUTTON_2, WPAD_BUTTON_A, WPAD_BUTTON_B, WPAD_BUTTON_HOME, WPAD_BUTTON_LEFT,
    WPAD_BUTTON_MINUS, WPAD_BUTTON_UP, WPAD_CLASSIC_BUTTON_B, WPAD_CLASSIC_BUTTON_X,
};

#[test]
fn classic_or_keeps_gcn_bits() {
    let gcn = BTN_A | BTN_START;
    let held = WPAD_CLASSIC_BUTTON_B | WPAD_CLASSIC_BUTTON_X;
    let merged = or_buttons(gcn, classic_to_gcn(held));
    assert_ne!(merged & BTN_A, 0);
    assert_ne!(merged & BTN_START, 0);
    assert_ne!(merged & BTN_B, 0);
    assert_ne!(merged & BTN_X, 0);
}

#[test]
fn wiimote_1_2_minus_home() {
    let bits = wiimote_core_to_gcn(WPAD_BUTTON_1 | WPAD_BUTTON_2 | WPAD_BUTTON_MINUS | WPAD_BUTTON_HOME);
    assert_eq!(bits, BTN_X | BTN_Y | BTN_Z | BTN_START);
}

#[test]
fn legend_is_compact() {
    assert!(INPUT_LEGEND.contains("Keyboard"));
    assert!(INPUT_LEGEND.contains("Wiimote"));
    assert!(INPUT_LEGEND.contains("Classic"));
    assert!(INPUT_LEGEND.contains("GCN"));
}

#[test]
fn map_rows_cover_sources() {
    let rows = map_rows();
    let sources: Vec<_> = rows.iter().map(|r| r.source).collect();
    for need in ["Keyboard", "GCN", "Wiimote", "Classic", "Nunchuk"] {
        assert!(sources.contains(&need), "missing {need}");
    }
}

#[test]
fn wiimote_core_exact_bits() {
    assert_eq!(wiimote_core_to_gcn(0), 0);
    assert_eq!(wiimote_core_to_gcn(WPAD_BUTTON_A), BTN_A);
    assert_eq!(wiimote_core_to_gcn(WPAD_BUTTON_B), BTN_B);
    assert_eq!(wiimote_core_to_gcn(WPAD_BUTTON_UP | WPAD_BUTTON_LEFT), BTN_UP | BTN_LEFT);
}

#[test]
fn or_buttons_is_union() {
    assert_eq!(or_buttons(BTN_L, BTN_R), BTN_L | BTN_R);
    assert_eq!(or_buttons(BTN_DOWN, 0), BTN_DOWN);
    assert_eq!(or_buttons(BTN_RIGHT | BTN_Z, BTN_Z), BTN_RIGHT | BTN_Z);
}

#[test]
fn status_labels_name_held_buttons() {
    let mut input = Input::new();
    assert_eq!(dpad_label(&input), "\u{b7}");
    assert_eq!(face_label(&input), "\u{b7}");
    input.set_down(Button::A, true);
    input.set_down(Button::Start, true);
    input.set_down(Button::DPadRight, true);
    input.set_down(Button::DPadUp, true);
    assert_eq!(dpad_label(&input), "UR");
    assert_eq!(face_label(&input), "A Start");
    input.set_down(Button::R, true);
    assert_eq!(face_label(&input), "A Start R");
}

#[test]
fn merged_buttons_or_every_source() {
    let m = merge_buttons(BTN_A, WPAD_BUTTON_UP | WPAD_CLASSIC_BUTTON_B);
    assert_eq!(m, BTN_A | BTN_UP | BTN_B);
    assert_eq!(merge_buttons(0, 0), 0);
    assert_eq!(merge_buttons(BTN_L, WPAD_BUTTON_1), BTN_L | BTN_X);
}
