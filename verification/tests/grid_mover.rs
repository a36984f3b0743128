use wiimaker::grid_mover::{dir_from_axes, dpad_cardinal, Dir, GridHeading};
use wiimaker::input::{Button, Input};

fn pad(up: bool, down: bool, left: bool, right: bool) -> Input {
    let mut i = Input::new();
    i.set_down(Button::DPadUp, up);
    i.set_down(Button::DPadDown, down);
    i.set_down(Button::DPadLeft, left);
    i.set_down(Button::DPadRight, right);
    i
}

#[test]
fn up_plus_right_is_horizontal_only() {
    let i = pad(true, false, false, true);
    assert_eq!(dpad_cardinal(&i), Some(Dir::Right));
    let i = pad(true, false, true, false);
    assert_eq!(dpad_cardinal(&i), Some(Dir::Left));
}

#[test]
fn opposite_dpad_buttons_cancel() {
    assert_eq!(dpad_cardinal(&pad(false, false, true, true)), None);
    assert_eq!(dpad_cardinal(&pad(true, true, true, true)), None);
    assert_eq!(dpad_cardinal(&pad(true, true, false, true)), Some(Dir::Right));
    assert_eq!(dpad_cardinal(&pad(false, true, false, false)), Some(Dir::Down));
    assert_eq!(dpad_cardinal(&Input::new()), None);
}

#[test]
fn dir_names_deltas_and_axes() {
    assert_eq!(Dir::Up.delta(), (0, -1));
    assert_eq!(Dir::Right.delta(), (1, 0));
    assert_eq!(Dir::Left.opposite(), Dir::Right);
    assert_eq!(Dir::Down.opposite().opposite(), Dir::Down);
    assert_eq!(Dir::Left.as_str(), "Left");
    assert_eq!(Dir::parse(" UP "), None);
    assert_eq!(Dir::parse("uP"), Some(Dir::Up));
    assert_eq!(Dir::parse("right"), Some(Dir::Right));
    assert_eq!(Dir::parse("north"), None);
    for d in [Dir::Up, Dir::Down, Dir::Left, Dir::Right] {
        assert_eq!(Dir::parse(d.as_str()), Some(d));
    }
    assert_eq!(dir_from_axes(1, 1), Some(Dir::Right));
    assert_eq!(dir_from_axes(0, -3), Some(Dir::Up));
    assert_eq!(dir_from_axes(0, 0), None);
}

#[test]
fn reverse_applies_immediately_and_turns_queue() {
    let mut h = GridHeading::new();
    h.ingest(Some(Dir::Right));
    assert_eq!(h, GridHeading { queued_dir: Some(Dir::Right), current_dir: None });
    h.at_center(true, true, true, true);
    assert_eq!(h, GridHeading { queued_dir: None, current_dir: Some(Dir::Right) });
    h.ingest(Some(Dir::Up));
    assert_eq!(h, GridHeading { queued_dir: Some(Dir::Up), current_dir: Some(Dir::Right) });
    h.ingest(Some(Dir::Left));
    assert_eq!(h, GridHeading { queued_dir: None, current_dir: Some(Dir::Left) });
    h.ingest(Some(Dir::Left));
    h.ingest(None);
    assert_eq!(h, GridHeading { queued_dir: None, current_dir: Some(Dir::Left) });
}

#[test]
fn blocked_turn_waits_and_wall_stops() {
    let mut h = GridHeading { queued_dir: Some(Dir::Up), current_dir: Some(Dir::Right) };
    // Up is walled: keep going right, turn stays queued.
    h.at_center(false, true, true, true);
    assert_eq!(h, GridHeading { queued_dir: Some(Dir::Up), current_dir: Some(Dir::Right) });
    // Right is walled too: stop, still waiting to turn up.
    h.at_center(false, true, true, false);
    assert_eq!(h, GridHeading { queued_dir: Some(Dir::Up), current_dir: None });
}

#[test]
fn reverse_applies_immediately_off_center() {
    let mut gm = GridHeading { queued_dir: None, current_dir: Some(Dir::Right) };
    gm.ingest(dpad_cardinal(&pad(false, false, true, false)));
    assert_eq!(gm.current_dir, Some(Dir::Left));
    assert_eq!(gm.queued_dir, None);
}
