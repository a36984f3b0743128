//! Command-line value parsing shared by the tools.
use vstd::prelude::*;
use crate::strings::{chars_of, trim, trim_chars, string_from_chars};

verus! {

/// `s` split at every `sep` (as `str::split(sep)`): empty pieces kept, one piece when
/// `sep` does not occur.
pub open spec fn split_on(s: Seq<char>, sep: char) -> Seq<Seq<char>>
    decreases s.len(),
{
    if s.len() == 0 {
        seq![Seq::empty()]
    } else {
        let rest = split_on(s.drop_first(), sep);
        if s[0] == sep {
            seq![Seq::<char>::empty()] + rest
        } else {
            rest.update(0, seq![s[0]] + rest[0])
        }
    }
}

/// `s` split at every `,`.
pub open spec fn split_commas(s: Seq<char>) -> Seq<Seq<char>> {
    split_on(s, ',')
}

/// Splitting always gives at least one piece.
pub proof fn lemma_split_nonempty(s: Seq<char>, sep: char)
    ensures
        split_on(s, sep).len() >= 1,
    decreases s.len(),
{
    if s.len() > 0 {
        lemma_split_nonempty(s.drop_first(), sep);
    }
}

/// Is `c` an ASCII decimal digit?
pub open spec fn is_digit(c: char) -> bool {
    '0' <= c <= '9'
}

/// Value of a run of decimal digits, most significant first.
pub open spec fn digits_value(d: Seq<char>) -> int
    decreases d.len(),
{
    if d.len() == 0 {
        0
    } else {
        digits_value(d.drop_last()) * 10 + (d.last() as int - '0' as int)
    }
}

/// What `u8::from_str` accepts, per its documentation: an optional `+` then one or
/// more ASCII digits whose value fits in `u8`; anything else (signs other than a
/// leading `+`, whitespace, an empty string, overflow) is an error.
pub open spec fn spec_parse_u8(s: Seq<char>) -> Option<u8> {
    let d = if s.len() > 0 && s[0] == '+' {
        s.drop_first()
    } else {
        s
    };
    if d.len() > 0 && (forall|i: int| 0 <= i < d.len() ==> is_digit(#[trigger] d[i])) && digits_value(d) <= 255 {
        Some(digits_value(d) as u8)
    } else {
        None
    }
}

/// The text of the error `u8::from_str` gives for `s` (`ParseIntError`'s `Display`).
pub uninterp spec fn parse_u8_error_text(s: Seq<char>) -> Seq<char>;

/// `str::parse::<u8>` (std), its error turned into its `Display` text.
/// Claims what the documentation of `u8::from_str` says is accepted (see
/// [`spec_parse_u8`]); the wording of the error text is named, not stated.
#[verifier::external_body]
fn parse_u8(s: &str) -> (r: Result<u8, String>)
    ensures
        match r {
            Ok(v) => spec_parse_u8(s@) == Some(v),
            Err(m) => spec_parse_u8(s@) is None && m@ == parse_u8_error_text(s@),
        },
{
    s.parse::<u8>().map_err(|e| e.to_string())
}

/// Error text when the value does not have three comma-separated parts.
pub open spec fn rgb_shape_error() -> Seq<char> {
    "expected R,G,B"@
}

/// One trimmed component: its value, or the parse error's text.
pub open spec fn rgb_component(part: Seq<char>) -> Result<u8, Seq<char>> {
    match spec_parse_u8(trim(part)) {
        Some(v) => Ok(v),
        None => Err(parse_u8_error_text(trim(part))),
    }
}

/// `R,G,B` with each part trimmed and parsed as `u8`; the first failing part's error wins.
pub open spec fn spec_parse_rgb(s: Seq<char>) -> Result<Seq<u8>, Seq<char>> {
    let parts = split_commas(s);
    if parts.len() != 3 {
        Err(rgb_shape_error())
    } else {
        match (rgb_component(parts[0]), rgb_component(parts[1]), rgb_component(parts[2])) {
            (Err(e), _, _) => Err(e),
            (Ok(_), Err(e), _) => Err(e),
            (Ok(_), Ok(_), Err(e)) => Err(e),
            (Ok(r), Ok(g), Ok(b)) => Ok(seq![r, g, b]),
        }
    }
}

/// Split at every `sep` into owned pieces.
pub fn split_chars(s: &Vec<char>, sep: char) -> (parts: Vec<Vec<char>>)
    ensures
        parts@.len() == split_on(s@, sep).len(),
        forall|i: int| 0 <= i < parts@.len() ==> (#[trigger] parts@[i])@ == split_on(s@, sep)[i],
{
    // Walk from the back so each step matches the head-first definition.
    let mut parts: Vec<Vec<char>> = Vec::new();
    parts.push(Vec::new());
    let mut k: usize = s.len();
    assert(s@.subrange(k as int, s@.len() as int) =~= Seq::<char>::empty());
    while k > 0
        invariant
            k <= s@.len(),
            parts@.len() >= 1,
            ({
                let sp = split_on(s@.subrange(k as int, s@.len() as int), sep);
                &&& sp.len() == parts@.len()
                &&& forall|i: int| 0 <= i < parts@.len() ==> (#[trigger] parts@[parts@.len() - 1 - i])@ == sp[i]
            }),
        decreases k,
    {
        let ghost before = parts@;
        let ghost tail = s@.subrange(k as int, s@.len() as int);
        k = k - 1;
        let c = s[k];
        let ghost cur = s@.subrange(k as int, s@.len() as int);
        assert(cur.drop_first() =~= tail);
        assert(cur[0] == c);
        if c == sep {
            parts.push(Vec::new());
            proof {
                let sp = split_on(cur, sep);
                assert(sp =~= seq![Seq::<char>::empty()] + split_on(tail, sep));
                assert forall|i: int| 0 <= i < parts@.len() implies (#[trigger] parts@[parts@.len() - 1 - i])@ == sp[i] by {
                    if i > 0 {
                        assert(parts@[parts@.len() - 1 - i] == before[before.len() - 1 - (i - 1)]);
                    }
                }
            }
        } else {
            proof {
                assert(before[before.len() - 1 - 0]@ == split_on(tail, sep)[0]);
                assert(before[before.len() - 1] == before[before.len() - 1 - 0]);
            }
            let mut piece = parts.pop().unwrap();
            let ghost old_piece = piece@;
            // Prepend `c`: rebuild the piece with `c` first.
            let mut fresh: Vec<char> = Vec::new();
            fresh.push(c);
            let mut j: usize = 0;
            while j < piece.len()
                invariant
                    j <= piece@.len(),
                    piece@ == old_piece,
                    fresh@ == seq![c] + old_piece.subrange(0, j as int),
                decreases piece@.len() - j,
            {
                fresh.push(piece[j]);
                j = j + 1;
                assert(fresh@ =~= seq![c] + old_piece.subrange(0, j as int));
            }
            assert(old_piece.subrange(0, old_piece.len() as int) =~= old_piece);
            piece = fresh;
            parts.push(piece);
            proof {
                let sp = split_on(cur, sep);
                let rest = split_on(tail, sep);
                lemma_split_nonempty(tail, sep);
                assert(sp == rest.update(0, seq![c] + rest[0]));
                assert(old_piece == rest[0]);
                assert forall|i: int| 0 <= i < parts@.len() implies (#[trigger] parts@[parts@.len() - 1 - i])@ == sp[i] by {
                    if i > 0 {
                        assert(parts@[parts@.len() - 1 - i] == before[before.len() - 1 - i]);
                    }
                }
            }
        }
    }
    assert(s@.subrange(0, s@.len() as int) =~= s@);
    // Reverse into reading order.
    let ghost sp = split_on(s@, sep);
    let mut out: Vec<Vec<char>> = Vec::new();
    let mut i: usize = parts.len();
    while i > 0
        invariant
            i <= parts@.len(),
            sp.len() == parts@.len(),
            forall|t: int| 0 <= t < parts@.len() ==> (#[trigger] parts@[parts@.len() - 1 - t])@ == sp[t],
            out@.len() == parts@.len() - i,
            forall|t: int| 0 <= t < out@.len() ==> (#[trigger] out@[t])@ == sp[t],
        decreases i,
    {
        i = i - 1;
        let piece = parts[i].clone();
        assert(parts@[parts@.len() - 1 - (parts@.len() - 1 - i)] == parts@[i as int]);
        out.push(piece);
    }
    out
}

/// Parse `R,G,B` (each part trimmed, `0..=255`) into a colour.
pub fn parse_rgb(s: &str) -> (r: Result<[u8; 3], String>)
    ensures
        match r {
            Ok(c) => spec_parse_rgb(s@) == Ok::<Seq<u8>, Seq<char>>(c@),
            Err(m) => spec_parse_rgb(s@) == Err::<Seq<u8>, Seq<char>>(m@),
        },
{
    let parts = split_chars(&chars_of(s), ',');
    if parts.len() != 3 {
        return Err(string_from_chars(&chars_of("expected R,G,B")));
    }
    let mut vals: [u8; 3] = [0, 0, 0];
    let mut k: usize = 0;
    while k < 3
        invariant
            parts@.len() == 3,
            split_commas(s@).len() == 3,
            forall|i: int| 0 <= i < 3 ==> (#[trigger] parts@[i])@ == split_commas(s@)[i],
            k <= 3,
            forall|i: int| 0 <= i < k ==> rgb_component(split_commas(s@)[i]) == Ok::<u8, Seq<char>>(#[trigger] vals@[i]),
        decreases 3 - k,
    {
        let t = string_from_chars(&trim_chars(&parts[k]));
        match parse_u8(t.as_str()) {
            Ok(v) => {
                vals[k] = v;
            },
            Err(e) => {
                proof {
                    let sp = split_commas(s@);
                    assert(t@ == trim(sp[k as int]));
                    assert(rgb_component(sp[k as int]) == Err::<u8, Seq<char>>(e@));
                    if k >= 1 {
                        assert(rgb_component(sp[0]) == Ok::<u8, Seq<char>>(vals@[0]));
                    }
                    if k == 2 {
                        assert(rgb_component(sp[1]) == Ok::<u8, Seq<char>>(vals@[1]));
                    }
                }
                return Err(e);
            },
        }
        k = k + 1;
    }
    proof {
        let sp = split_commas(s@);
        assert(rgb_component(sp[0]) == Ok::<u8, Seq<char>>(vals@[0]));
        assert(rgb_component(sp[1]) == Ok::<u8, Seq<char>>(vals@[1]));
        assert(rgb_component(sp[2]) == Ok::<u8, Seq<char>>(vals@[2]));
        assert(vals@ =~= seq![vals@[0], vals@[1], vals@[2]]);
    }
    Ok(vals)
}

} // verus!
