//! Editor Console filtering: Search text, level tags and level toggles.
use vstd::prelude::*;
use crate::strings::{chars_of, trim_chars, trim, contains_chars, seq_contains, string_from_chars, push_decimal, decimal, push_str};

verus! {

/// Severity of a Console line.
#[derive(Clone, Copy, Debug, PartialEq, Eq, Structural)]
pub enum ConsoleLevel {
    Info,
    Warn,
    Error,
}

/// One Console message.
#[derive(Clone, Debug)]
pub struct ConsoleLine {
    pub level: ConsoleLevel,
    pub text: String,
}

pub open spec fn level_tag(level: ConsoleLevel) -> Seq<char> {
    match level {
        ConsoleLevel::Info => "info"@,
        ConsoleLevel::Warn => "warn"@,
        ConsoleLevel::Error => "error"@,
    }
}

impl ConsoleLevel {
    /// Lowercase tag shown beside each line (`info` / `warn` / `error`).
    pub fn as_tag(self) -> (r: &'static str)
        ensures
            r@ == level_tag(self),
    {
        match self {
            ConsoleLevel::Info => "info",
            ConsoleLevel::Warn => "warn",
            ConsoleLevel::Error => "error",
        }
    }
}

/// What `str::to_lowercase` gives for a string (full Unicode case mapping).
pub uninterp spec fn unicode_lowercase(s: Seq<char>) -> Seq<char>;

/// `str::to_lowercase` (std). The contract names the result: it is `unicode_lowercase`
/// of the characters; the Unicode mapping itself is not stated.
#[verifier::external_body]
fn to_lowercase(s: &str) -> (r: String)
    ensures
        r@ == unicode_lowercase(s@),
{
    s.to_lowercase()
}

/// Search match on already-lowercased text and needle: the needle occurs in the text or
/// in the level tag.
pub fn lowered_line_matches(level: ConsoleLevel, text_lower: &str, needle_lower: &str) -> (r: bool)
    ensures
        r == (seq_contains(text_lower@, needle_lower@) || seq_contains(level_tag(level), needle_lower@)),
{
    let n = chars_of(needle_lower);
    contains_chars(&chars_of(text_lower), &n) || contains_chars(&chars_of(level.as_tag()), &n)
}

/// Whether the trimmed, lowercased Search needle matches a line of `text` at `level`.
pub open spec fn spec_line_matches(level: ConsoleLevel, text: Seq<char>, needle: Seq<char>) -> bool {
    let t = trim(needle);
    t.len() == 0 || seq_contains(unicode_lowercase(text), unicode_lowercase(t)) || seq_contains(
        level_tag(level),
        unicode_lowercase(t),
    )
}

/// Case-insensitive substring match on line text **or** the level tag
/// (`info` / `warn` / `error`). Empty / whitespace-only needle matches all.
pub fn console_line_matches(level: ConsoleLevel, text: &str, needle: &str) -> (r: bool)
    ensures
        r == spec_line_matches(level, text@, needle@),
{
    let t = trim_chars(&chars_of(needle));
    if t.len() == 0 {
        return true;
    }
    let ts = string_from_chars(&t);
    let n = to_lowercase(ts.as_str());
    let tl = to_lowercase(text);
    lowered_line_matches(level, tl.as_str(), n.as_str())
}

pub open spec fn spec_level_enabled(level: ConsoleLevel, show_info: bool, show_warn: bool, show_error: bool) -> bool {
    match level {
        ConsoleLevel::Info => show_info,
        ConsoleLevel::Warn => show_warn,
        ConsoleLevel::Error => show_error,
    }
}

pub fn console_level_enabled(level: ConsoleLevel, show_info: bool, show_warn: bool, show_error: bool) -> (r: bool)
    ensures
        r == spec_level_enabled(level, show_info, show_warn, show_error),
{
    match level {
        ConsoleLevel::Info => show_info,
        ConsoleLevel::Warn => show_warn,
        ConsoleLevel::Error => show_error,
    }
}

/// Visible when the level toggle is on **and** Search matches text or tag.
pub fn console_line_visible(
    line: &ConsoleLine,
    needle: &str,
    show_info: bool,
    show_warn: bool,
    show_error: bool,
) -> (r: bool)
    ensures
        r == (spec_level_enabled(line.level, show_info, show_warn, show_error) && spec_line_matches(
            line.level,
            line.text@,
            needle@,
        )),
{
    console_level_enabled(line.level, show_info, show_warn, show_error) && console_line_matches(
        line.level,
        line.text.as_str(),
        needle,
    )
}

pub open spec fn count_label(visible: usize, total: usize, filtering: bool) -> Seq<char> {
    if filtering {
        decimal(visible as nat) + " / "@ + decimal(total as nat) + " messages"@
    } else {
        decimal(total as nat) + " messages"@
    }
}

/// `3 / 12 messages` while Search or a level toggle is narrowing the list, else `12 messages`.
pub fn console_count_label(visible: usize, total: usize, filtering: bool) -> (r: String)
    ensures
        r@ == count_label(visible, total, filtering),
{
    let mut out: Vec<char> = Vec::new();
    if filtering {
        push_decimal(&mut out, visible as u64);
        push_str(&mut out, " / ");
    }
    push_decimal(&mut out, total as u64);
    push_str(&mut out, " messages");
    assert(out@ =~= count_label(visible, total, filtering));
    string_from_chars(&out)
}

pub open spec fn spec_is_filtering(needle: Seq<char>, show_info: bool, show_warn: bool, show_error: bool) -> bool {
    trim(needle).len() != 0 || !show_info || !show_warn || !show_error
}

/// True while Search text or an off level toggle narrows the list.
pub fn console_is_filtering(needle: &str, show_info: bool, show_warn: bool, show_error: bool) -> (r: bool)
    ensures
        r == spec_is_filtering(needle@, show_info, show_warn, show_error),
{
    trim_chars(&chars_of(needle)).len() != 0 || !show_info || !show_warn || !show_error
}

/// When nothing is filtering, every line is visible; and a visible line always has its
/// level toggle on.
pub proof fn lemma_console_filter_laws(
    level: ConsoleLevel,
    text: Seq<char>,
    needle: Seq<char>,
    show_info: bool,
    show_warn: bool,
    show_error: bool,
)
    ensures
        !spec_is_filtering(needle, show_info, show_warn, show_error) ==> spec_level_enabled(
            level,
            show_info,
            show_warn,
            show_error,
        ) && spec_line_matches(level, text, needle),
        trim(needle).len() == 0 ==> spec_line_matches(level, text, needle),
{
}

} // verus!
