//! Named sorting layers (Unity Sorting Layer analogue).
//!
//! Drawables sort by layer list order, then order-in-layer within a layer.
use vstd::prelude::*;
use crate::strings::{chars_of, chars_eq, trim, trim_chars, ascii_lower, ascii_lower_chars, string_from_chars, trim_start, trim_end};

verus! {

/// Canonical default layer name (Unity `Default`).
pub const DEFAULT_SORTING_LAYER: &'static str = "Default";

/// Built-in project layers when `game.toml` omits `sorting_layers`.
pub const DEFAULT_SORTING_LAYERS: [&'static str; 3] = ["Background", "Default", "Foreground"];

/// Index of the first entry equal to `key`, or -1.
pub open spec fn first_index(s: Seq<Seq<char>>, key: Seq<char>) -> int
    decreases s.len(),
{
    if s.len() == 0 {
        -1
    } else if s[0] == key {
        0
    } else {
        let r = first_index(s.drop_first(), key);
        if r < 0 {
            -1
        } else {
            r + 1
        }
    }
}

proof fn lemma_first_index(s: Seq<Seq<char>>, key: Seq<char>, i: int)
    requires
        0 <= i <= s.len(),
        forall|j: int| 0 <= j < i ==> s[j] != key,
    ensures
        i < s.len() && s[i] == key ==> first_index(s, key) == i,
        i == s.len() ==> first_index(s, key) == -1,
    decreases i,
{
    if i > 0 {
        lemma_first_index(s.drop_first(), key, i - 1);
    } else if s.len() > 0 {
    }
}

/// The name a layer lookup uses: the trimmed name, or `Default` when blank.
pub open spec fn layer_key(name: Seq<char>) -> Seq<char> {
    if trim(name).len() == 0 {
        "Default"@
    } else {
        trim(name)
    }
}

/// Index of the layer named by `name`; unknown names fall back to `Default` when the list
/// has it, otherwise to `0`.
pub open spec fn spec_sorting_layer_index(layers: Seq<Seq<char>>, name: Seq<char>) -> u16 {
    let i = first_index(layers, layer_key(name));
    if i >= 0 {
        i as u16
    } else {
        let d = first_index(layers, "Default"@);
        if d >= 0 {
            d as u16
        } else {
            0
        }
    }
}

pub open spec fn views(layers: Seq<&str>) -> Seq<Seq<char>> {
    layers.map_values(|l: &str| l@)
}

fn find_layer(layers: &[&str], key: &Vec<char>) -> (r: Option<usize>)
    ensures
        match r {
            Some(i) => first_index(views(layers@), key@) == i,
            None => first_index(views(layers@), key@) == -1,
        },
{
    let mut i: usize = 0;
    while i < layers.len()
        invariant
            i <= layers@.len(),
            forall|j: int| 0 <= j < i ==> views(layers@)[j] != key@,
        decreases layers@.len() - i,
    {
        if chars_eq(&chars_of(layers[i]), key) {
            proof {
                lemma_first_index(views(layers@), key@, i as int);
            }
            return Some(i);
        }
        i = i + 1;
    }
    proof {
        lemma_first_index(views(layers@), key@, i as int);
    }
    None
}

/// Resolve a layer name against an ordered list.
///
/// Empty / omitted → `Default`. Unknown names also fall back to `Default` when present,
/// otherwise index `0`.
pub fn sorting_layer_index(layers: &[&str], name: &str) -> (r: u16)
    ensures
        r == spec_sorting_layer_index(views(layers@), name@),
{
    let t = trim_chars(&chars_of(name));
    let key = if t.len() == 0 {
        chars_of(DEFAULT_SORTING_LAYER)
    } else {
        t
    };
    match find_layer(layers, &key) {
        Some(i) => #[verifier::truncate] (i as u16),
        None => match find_layer(layers, &chars_of(DEFAULT_SORTING_LAYER)) {
            Some(d) => #[verifier::truncate] (d as u16),
            None => 0,
        },
    }
}

/// Owned copy of [`DEFAULT_SORTING_LAYERS`].
pub fn default_sorting_layers() -> (r: Vec<String>)
    ensures
        r@.map_values(|s: String| s@) == seq!["Background"@, "Default"@, "Foreground"@],
{
    let mut r: Vec<String> = Vec::new();
    r.push(string_from_chars(&chars_of("Background")));
    r.push(string_from_chars(&chars_of("Default")));
    r.push(string_from_chars(&chars_of("Foreground")));
    assert(r@.map_values(|s: String| s@) =~= seq!["Background"@, "Default"@, "Foreground"@]);
    r
}

/// Index of `Default` in the built-in list (`1`).
pub fn default_sorting_layer_index() -> (r: u16)
    ensures
        r == 1,
{
    let layers = DEFAULT_SORTING_LAYERS;
    let r = sorting_layer_index(&layers, "");
    proof {
        reveal_strlit("");
        reveal_strlit("Background");
        reveal_strlit("Default");
        reveal_strlit("Foreground");
        let v = views(layers@);
        assert(layers@ == seq!["Background", "Default", "Foreground"]);
        assert(v =~= seq!["Background"@, "Default"@, "Foreground"@]);
        assert(trim(""@) =~= Seq::<char>::empty());
        assert("Background"@[0] != "Default"@[0]);
        assert(v[0] != "Default"@);
        lemma_first_index(v, "Default"@, 1);
    }
    r
}

/// True when the name is blank or `Default` in any ASCII case.
pub open spec fn spec_is_default_name(name: Seq<char>) -> bool {
    trim(name).len() == 0 || ascii_lower(trim(name)) == "default"@
}

/// True when JSON/TOML should omit the field (empty or the Default name).
pub fn is_default_sorting_layer_name(name: &str) -> (r: bool)
    ensures
        r == spec_is_default_name(name@),
{
    let t = trim_chars(&chars_of(name));
    t.len() == 0 || chars_eq(&ascii_lower_chars(&t), &chars_of("default"))
}

/// Omitting a name that `is_default_sorting_layer_name` accepts resolves to the same layer,
/// unless the list also holds a layer spelled exactly like that name in another case.
pub proof fn lemma_default_name_omittable(layers: Seq<Seq<char>>, name: Seq<char>)
    requires
        spec_is_default_name(name),
        forall|i: int| 0 <= i < layers.len() && layers[i] == trim(name) ==> trim(name) == "Default"@,
    ensures
        spec_sorting_layer_index(layers, name) == spec_sorting_layer_index(layers, Seq::empty()),
{
    assert(trim(Seq::<char>::empty()) =~= Seq::<char>::empty());
    if trim(name).len() != 0 && trim(name) != "Default"@ {
        assert forall|j: int| 0 <= j < layers.len() implies layers[j] != trim(name) by {}
        lemma_first_index(layers, trim(name), layers.len() as int);
    }
}

} // verus!
