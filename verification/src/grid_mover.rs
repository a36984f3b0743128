//! Cardinal headings for the 4-way grid-snap mover (Pac-Man-style queued turns).
//!
//! World space is Y-down: [`Dir::Up`] is −Y. When both axes are held the horizontal
//! axis wins.
use vstd::prelude::*;
use crate::input::{Input, Button, button_mask};
use crate::strings::{chars_of, ascii_lower_chars, chars_eq, ascii_lower};

verus! {

/// Cardinal heading in world space (Y-down: [`Dir::Up`] is −Y).
#[derive(Clone, Copy, Debug, PartialEq, Eq, Hash, Structural)]
pub enum Dir {
    Up,
    Down,
    Left,
    Right,
}

pub open spec fn spec_opposite(d: Dir) -> Dir {
    match d {
        Dir::Up => Dir::Down,
        Dir::Down => Dir::Up,
        Dir::Left => Dir::Right,
        Dir::Right => Dir::Left,
    }
}

pub open spec fn spec_delta(d: Dir) -> (i32, i32) {
    match d {
        Dir::Up => (0i32, -1i32),
        Dir::Down => (0i32, 1i32),
        Dir::Left => (-1i32, 0i32),
        Dir::Right => (1i32, 0i32),
    }
}

pub open spec fn dir_name(d: Dir) -> Seq<char> {
    match d {
        Dir::Up => "Up"@,
        Dir::Down => "Down"@,
        Dir::Left => "Left"@,
        Dir::Right => "Right"@,
    }
}

/// The heading a case-insensitive (ASCII) name denotes.
pub open spec fn spec_parse_dir(s: Seq<char>) -> Option<Dir> {
    let k = ascii_lower(s);
    if k == "up"@ {
        Some(Dir::Up)
    } else if k == "down"@ {
        Some(Dir::Down)
    } else if k == "left"@ {
        Some(Dir::Left)
    } else if k == "right"@ {
        Some(Dir::Right)
    } else {
        None
    }
}

impl Dir {
    pub fn opposite(self) -> (r: Self)
        ensures
            r == spec_opposite(self),
    {
        match self {
            Dir::Up => Dir::Down,
            Dir::Down => Dir::Up,
            Dir::Left => Dir::Right,
            Dir::Right => Dir::Left,
        }
    }

    /// Unit step in cells.
    pub fn delta(self) -> (r: (i32, i32))
        ensures
            r == spec_delta(self),
    {
        match self {
            Dir::Up => (0, -1),
            Dir::Down => (0, 1),
            Dir::Left => (-1, 0),
            Dir::Right => (1, 0),
        }
    }

    pub fn as_str(self) -> (r: &'static str)
        ensures
            r@ == dir_name(self),
    {
        match self {
            Dir::Up => "Up",
            Dir::Down => "Down",
            Dir::Left => "Left",
            Dir::Right => "Right",
        }
    }

    /// Parse `up` / `down` / `left` / `right`, ignoring ASCII case.
    pub fn parse(s: &str) -> (r: Option<Self>)
        ensures
            r == spec_parse_dir(s@),
    {
        let k = ascii_lower_chars(&chars_of(s));
        if chars_eq(&k, &chars_of("up")) {
            Some(Dir::Up)
        } else if chars_eq(&k, &chars_of("down")) {
            Some(Dir::Down)
        } else if chars_eq(&k, &chars_of("left")) {
            Some(Dir::Left)
        } else if chars_eq(&k, &chars_of("right")) {
            Some(Dir::Right)
        } else {
            None
        }
    }
}

/// Heading from integer axes: horizontal wins, `+x` is Right, `+y` is Down.
pub open spec fn spec_dir_from_axes(x: i32, y: i32) -> Option<Dir> {
    if x != 0 {
        Some(if x > 0 { Dir::Right } else { Dir::Left })
    } else if y != 0 {
        Some(if y > 0 { Dir::Down } else { Dir::Up })
    } else {
        None
    }
}

/// Heading from integer axes (D-pad or thresholded stick): horizontal wins.
pub fn dir_from_axes(x: i32, y: i32) -> (r: Option<Dir>)
    ensures
        r == spec_dir_from_axes(x, y),
{
    if x != 0 {
        return Some(if x > 0 { Dir::Right } else { Dir::Left });
    }
    if y != 0 {
        return Some(if y > 0 { Dir::Down } else { Dir::Up });
    }
    None
}

/// Reversing twice is the identity, a reversed heading steps the opposite way,
/// and every heading's name parses back to it.
pub proof fn lemma_dir_laws(d: Dir)
    ensures
        spec_opposite(spec_opposite(d)) == d,
        spec_opposite(d) != d,
        spec_delta(spec_opposite(d)).0 == -spec_delta(d).0,
        spec_delta(spec_opposite(d)).1 == -spec_delta(d).1,
        spec_parse_dir(dir_name(d)) == Some(d),
{
    reveal_strlit("Up");
    reveal_strlit("Down");
    reveal_strlit("Left");
    reveal_strlit("Right");
    reveal_strlit("up");
    reveal_strlit("down");
    reveal_strlit("left");
    reveal_strlit("right");
    match d {
        Dir::Up => {
            assert(ascii_lower("Up"@) =~= "up"@);
        },
        Dir::Down => {
            assert(ascii_lower("Down"@) =~= "down"@);
            assert(ascii_lower("Down"@) != "up"@);
        },
        Dir::Left => {
            assert(ascii_lower("Left"@) =~= "left"@);
            assert(ascii_lower("Left"@) != "up"@);
            assert(ascii_lower("Left"@)[0] != "down"@[0]);
        },
        Dir::Right => {
            assert(ascii_lower("Right"@) =~= "right"@);
            assert(ascii_lower("Right"@) != "up"@);
            assert(ascii_lower("Right"@)[0] != "down"@[0]);
            assert(ascii_lower("Right"@)[0] != "left"@[0]);
        },
    }
}

/// One D-pad axis from its two buttons: `-1`, `+1`, or `0` when neither or both are held.
pub open spec fn pad_axis(neg: bool, pos: bool) -> i32 {
    if neg && !pos {
        -1i32
    } else if pos && !neg {
        1i32
    } else {
        0i32
    }
}

/// Heading the D-pad asks for, from a held mask: horizontal wins.
pub open spec fn spec_dpad_cardinal(held: u32) -> Option<Dir> {
    spec_dir_from_axes(
        pad_axis(held & button_mask(Button::DPadLeft) != 0, held & button_mask(Button::DPadRight) != 0),
        pad_axis(held & button_mask(Button::DPadUp) != 0, held & button_mask(Button::DPadDown) != 0),
    )
}

fn axis(neg: bool, pos: bool) -> (r: i32)
    ensures
        r == pad_axis(neg, pos),
{
    if neg && !pos {
        -1
    } else if pos && !neg {
        1
    } else {
        0
    }
}

/// The D-pad part of the cardinal read: a heading when a D-pad axis is held (opposite
/// buttons cancel), horizontal winning over vertical; `None` leaves the stick to decide.
pub fn dpad_cardinal(input: &Input) -> (r: Option<Dir>)
    ensures
        r == spec_dpad_cardinal(input@.0),
{
    let x = axis(input.down(Button::DPadLeft), input.down(Button::DPadRight));
    let y = axis(input.down(Button::DPadUp), input.down(Button::DPadDown));
    dir_from_axes(x, y)
}

/// Turn state of a grid mover: the heading it travels and the pending 90° turn.
#[derive(Clone, Copy, Debug, PartialEq, Eq, Structural)]
pub struct GridHeading {
    /// Pending turn (90°). Reverse does not wait here.
    pub queued_dir: Option<Dir>,
    /// Heading currently traveled.
    pub current_dir: Option<Dir>,
}

/// Heading state after one frame's cardinal `want`: a reverse applies at once and
/// drops the queued turn, the same heading changes nothing, any other heading queues.
pub open spec fn spec_ingest(h: GridHeading, want: Option<Dir>) -> GridHeading {
    match want {
        None => h,
        Some(w) => match h.current_dir {
            Some(cur) => if spec_opposite(cur) == w {
                GridHeading { queued_dir: None, current_dir: Some(w) }
            } else if cur == w {
                h
            } else {
                GridHeading { queued_dir: Some(w), current_dir: h.current_dir }
            },
            None => GridHeading { queued_dir: Some(w), current_dir: None },
        },
    }
}

/// Heading state on reaching a cell center, given which neighbor cells are open
/// (`open(d)` for each heading): an open queued turn is taken, then a blocked heading stops.
pub open spec fn spec_at_center(h: GridHeading, up: bool, down: bool, left: bool, right: bool) -> GridHeading {
    let open = |d: Dir| match d {
        Dir::Up => up,
        Dir::Down => down,
        Dir::Left => left,
        Dir::Right => right,
    };
    let h1 = match h.queued_dir {
        Some(q) => if open(q) {
            GridHeading { queued_dir: None, current_dir: Some(q) }
        } else {
            h
        },
        None => h,
    };
    match h1.current_dir {
        Some(c) => if !open(c) {
            GridHeading { queued_dir: h1.queued_dir, current_dir: None }
        } else {
            h1
        },
        None => h1,
    }
}

impl GridHeading {
    /// At rest, nothing queued.
    pub fn new() -> (r: Self)
        ensures
            r.queued_dir is None,
            r.current_dir is None,
    {
        GridHeading { queued_dir: None, current_dir: None }
    }

    /// Fold a frame's cardinal into the queue / an immediate reverse.
    pub fn ingest(&mut self, want: Option<Dir>)
        ensures
            *final(self) == spec_ingest(*old(self), want),
    {
        if let Some(w) = want {
            match self.current_dir {
                Some(cur) => {
                    if cur.opposite() == w {
                        self.current_dir = Some(w);
                        self.queued_dir = None;
                    } else if cur == w {
                    } else {
                        self.queued_dir = Some(w);
                    }
                },
                None => {
                    self.queued_dir = Some(w);
                },
            }
        }
    }

    /// Decide turns on a cell center from which neighbor cells are open.
    pub fn at_center(&mut self, up: bool, down: bool, left: bool, right: bool)
        ensures
            *final(self) == spec_at_center(*old(self), up, down, left, right),
    {
        if let Some(q) = self.queued_dir {
            if open_toward(q, up, down, left, right) {
                self.current_dir = Some(q);
                self.queued_dir = None;
            }
        }
        if let Some(c) = self.current_dir {
            if !open_toward(c, up, down, left, right) {
                self.current_dir = None;
            }
        }
    }
}

fn open_toward(d: Dir, up: bool, down: bool, left: bool, right: bool) -> (r: bool)
    ensures
        r == match d {
            Dir::Up => up,
            Dir::Down => down,
            Dir::Left => left,
            Dir::Right => right,
        },
{
    match d {
        Dir::Up => up,
        Dir::Down => down,
        Dir::Left => left,
        Dir::Right => right,
    }
}

/// A reverse never waits: whatever was queued, asking for the opposite of the current
/// heading makes it current at once and clears the queue; asking for nothing changes nothing.
pub proof fn lemma_reverse_is_immediate(h: GridHeading, d: Dir)
    requires
        h.current_dir == Some(d),
    ensures
        spec_ingest(h, Some(spec_opposite(d))) == (GridHeading { queued_dir: None, current_dir: Some(spec_opposite(d)) }),
        spec_ingest(h, None) == h,
{
}

/// Whether the neighbor cell toward `d` is open, from the four flags.
pub open spec fn open_to(d: Dir, up: bool, down: bool, left: bool, right: bool) -> bool {
    match d {
        Dir::Up => up,
        Dir::Down => down,
        Dir::Left => left,
        Dir::Right => right,
    }
}

/// Turning at a cell center: an open queued turn is always taken, whatever the current
/// heading; a walled queued turn stays queued; and a heading that ends walled stops.
pub proof fn lemma_at_center_turns(h: GridHeading, up: bool, down: bool, left: bool, right: bool)
    ensures
        forall|q: Dir|
            h.queued_dir == Some(q) && open_to(q, up, down, left, right) ==> spec_at_center(
                h,
                up,
                down,
                left,
                right,
            ) == (GridHeading { queued_dir: None, current_dir: Some(q) }),
        forall|q: Dir|
            h.queued_dir == Some(q) && !open_to(q, up, down, left, right) ==> spec_at_center(
                h,
                up,
                down,
                left,
                right,
            ).queued_dir == Some(q),
        (h.queued_dir is None || !open_to(h.queued_dir->0, up, down, left, right)) ==> spec_at_center(
            h,
            up,
            down,
            left,
            right,
        ).current_dir == (match h.current_dir {
            Some(c) => if open_to(c, up, down, left, right) {
                Some(c)
            } else {
                None
            },
            None => None,
        }),
        h.queued_dir is None ==> spec_at_center(h, up, down, left, right).queued_dir is None,
{
}

} // verus!
