//! HUD text: alignment of each line relative to the transform anchor, and the glyph
//! grid a string covers.
use vstd::prelude::*;
use crate::strings::{chars_of, ascii_lower_chars, chars_eq, ascii_lower, trim, trim_chars, trim_start, trim_end};
use crate::util::{split_on, split_chars};

verus! {

/// Horizontal alignment of each line relative to the transform anchor.
#[derive(Clone, Copy, Debug, PartialEq, Eq, Structural)]
pub enum TextAlign {
    Left,
    Center,
    Right,
}

impl Default for TextAlign {
    fn default() -> (r: Self)
        ensures
            r == TextAlign::Left,
    {
        TextAlign::Left
    }
}

pub open spec fn align_name(a: TextAlign) -> Seq<char> {
    match a {
        TextAlign::Left => "Left"@,
        TextAlign::Center => "Center"@,
        TextAlign::Right => "Right"@,
    }
}

/// The alignment a name denotes after trimming and ASCII lowercasing.
pub open spec fn spec_parse_align(s: Seq<char>) -> Option<TextAlign> {
    let k = ascii_lower(trim(s));
    if k == "left"@ || k == "l"@ {
        Some(TextAlign::Left)
    } else if k == "center"@ || k == "centre"@ || k == "c"@ || k == "middle"@ {
        Some(TextAlign::Center)
    } else if k == "right"@ || k == "r"@ {
        Some(TextAlign::Right)
    } else {
        None
    }
}

fn is_one_of(k: &Vec<char>, names: &[&str]) -> (r: bool)
    ensures
        r == exists|i: int| 0 <= i < names@.len() && k@ == names@[i]@,
{
    let mut i: usize = 0;
    while i < names.len()
        invariant
            i <= names@.len(),
            forall|j: int| 0 <= j < i ==> k@ != names@[j]@,
        decreases names@.len() - i,
    {
        if chars_eq(k, &chars_of(names[i])) {
            return true;
        }
        i = i + 1;
    }
    false
}

impl TextAlign {
    /// Parse `left`/`l`, `center`/`centre`/`c`/`middle`, `right`/`r` (trimmed, any ASCII case).
    pub fn parse(s: &str) -> (r: Option<Self>)
        ensures
            r == spec_parse_align(s@),
    {
        let k = ascii_lower_chars(&trim_chars(&chars_of(s)));
        let left = ["left", "l"];
        let center = ["center", "centre", "c", "middle"];
        let right = ["right", "r"];
        assert(left@ == seq!["left", "l"]);
        assert(center@ == seq!["center", "centre", "c", "middle"]);
        assert(right@ == seq!["right", "r"]);
        if is_one_of(&k, &left) {
            proof {
                let i = choose|i: int| 0 <= i < left@.len() && k@ == left@[i]@;
                assert(i == 0 || i == 1);
            }
            Some(TextAlign::Left)
        } else if is_one_of(&k, &center) {
            proof {
                let i = choose|i: int| 0 <= i < center@.len() && k@ == center@[i]@;
                assert(i == 0 || i == 1 || i == 2 || i == 3);
            }
            Some(TextAlign::Center)
        } else if is_one_of(&k, &right) {
            proof {
                let i = choose|i: int| 0 <= i < right@.len() && k@ == right@[i]@;
                assert(i == 0 || i == 1);
            }
            Some(TextAlign::Right)
        } else {
            proof {
                assert(k@ != left@[0]@ && k@ != left@[1]@);
                assert(k@ != center@[0]@ && k@ != center@[1]@ && k@ != center@[2]@ && k@ != center@[3]@);
                assert(k@ != right@[0]@ && k@ != right@[1]@);
            }
            None
        }
    }

    pub fn as_str(self) -> (r: &'static str)
        ensures
            r@ == align_name(self),
    {
        match self {
            TextAlign::Left => "Left",
            TextAlign::Center => "Center",
            TextAlign::Right => "Right",
        }
    }
}

proof fn lemma_trim_plain(s: Seq<char>)
    requires
        s.len() > 0,
        forall|i: int| 0 <= i < s.len() ==> 'A' <= #[trigger] s[i] <= 'z',
    ensures
        trim(s) == s,
{
    assert(trim_start(s) == s);
    assert(trim_end(s) == s);
}

/// Every alignment's name parses back to it.
pub proof fn lemma_align_name_parses(a: TextAlign)
    ensures
        spec_parse_align(align_name(a)) == Some(a),
{
    reveal_strlit("Left");
    reveal_strlit("Center");
    reveal_strlit("Right");
    reveal_strlit("left");
    reveal_strlit("l");
    reveal_strlit("center");
    reveal_strlit("centre");
    reveal_strlit("c");
    reveal_strlit("middle");
    reveal_strlit("right");
    reveal_strlit("r");
    match a {
        TextAlign::Left => {
            lemma_trim_plain("Left"@);
            assert(ascii_lower("Left"@) =~= "left"@);
        },
        TextAlign::Center => {
            lemma_trim_plain("Center"@);
            assert(ascii_lower("Center"@) =~= "center"@);
            assert(ascii_lower("Center"@) != "left"@);
        },
        TextAlign::Right => {
            lemma_trim_plain("Right"@);
            assert(ascii_lower("Right"@) =~= "right"@);
            assert(ascii_lower("Right"@) != "left"@);
            assert(ascii_lower("Right"@) != "center"@);
            assert(ascii_lower("Right"@) != "centre"@);
            assert(ascii_lower("Right"@) != "middle"@);
        },
    }
}

/// Longest piece.
pub open spec fn max_len(ls: Seq<Seq<char>>) -> nat
    decreases ls.len(),
{
    if ls.len() == 0 {
        0
    } else {
        let m = max_len(ls.drop_last());
        if ls.last().len() > m {
            ls.last().len()
        } else {
            m
        }
    }
}

/// Glyph grid a HUD string covers: the most characters on one line and the number of
/// lines (`\n` separates lines; each line is aligned on its own).
pub fn text_grid_size(text: &str) -> (r: (usize, usize))
    ensures
        r.0 == max_len(split_on(text@, '\n')),
        r.1 == split_on(text@, '\n').len(),
{
    let lines = split_chars(&chars_of(text), '\n');
    let mut cols: usize = 0;
    let mut i: usize = 0;
    while i < lines.len()
        invariant
            i <= lines@.len(),
            lines@.len() == split_on(text@, '\n').len(),
            forall|k: int| 0 <= k < lines@.len() ==> (#[trigger] lines@[k])@ == split_on(text@, '\n')[k],
            cols == max_len(split_on(text@, '\n').subrange(0, i as int)),
        decreases lines@.len() - i,
    {
        let ghost sp = split_on(text@, '\n');
        assert(sp.subrange(0, i + 1).drop_last() =~= sp.subrange(0, i as int));
        if lines[i].len() > cols {
            cols = lines[i].len();
        }
        i = i + 1;
    }
    assert(split_on(text@, '\n').subrange(0, i as int) =~= split_on(text@, '\n'));
    (cols, lines.len())
}

} // verus!
