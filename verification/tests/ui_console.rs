use wiimaker::console::{
    console_count_label, console_is_filtering, console_level_enabled, console_line_matches,
    console_line_visible, ConsoleLevel, ConsoleLine,
};

fn line(level: ConsoleLevel, text: &str) -> ConsoleLine {
    ConsoleLine { level, text: text.into() }
}

#[test]
fn empty_filter_matches_all_text() {
    assert!(console_line_matches(ConsoleLevel::Info, "doctor: ok", ""));
    assert!(console_line_matches(ConsoleLevel::Error, "missing clip", "   "));
}

#[test]
fn text_match_is_case_insensitive() {
    assert!(console_line_matches(ConsoleLevel::Warn, "Doctor: Missing PNG", "missing"));
    assert!(console_line_matches(ConsoleLevel::Info, "Play started", "PLAY"));
    assert!(!console_line_matches(ConsoleLevel::Info, "Play started", "clip"));
}

#[test]
fn level_tag_match_is_case_insensitive() {
    assert!(console_line_matches(ConsoleLevel::Error, "boom", "error"));
    assert!(console_line_matches(ConsoleLevel::Warn, "slow", "WARN"));
    assert!(console_line_matches(ConsoleLevel::Info, "hi", "InFo"));
    assert!(!console_line_matches(ConsoleLevel::Info, "hi", "error"));
}

#[test]
fn level_toggles_hide_rows_even_when_text_matches() {
    let warn = line(ConsoleLevel::Warn, "doctor: missing png");
    assert!(console_line_visible(&warn, "missing", true, true, true));
    assert!(!console_line_visible(&warn, "missing", true, false, true));
    assert!(console_line_visible(&warn, "", true, true, false));
    assert!(!console_line_visible(&line(ConsoleLevel::Error, "fail"), "", true, true, false));
}

#[test]
fn count_label_shows_filtered_over_total() {
    assert_eq!(console_count_label(12, 12, false), "12 messages");
    assert_eq!(console_count_label(3, 12, true), "3 / 12 messages");
    assert_eq!(console_count_label(0, 5, true), "0 / 5 messages");
}

#[test]
fn filtering_flag_covers_text_and_level_toggles() {
    assert!(!console_is_filtering("", true, true, true));
    assert!(console_is_filtering("err", true, true, true));
    assert!(console_is_filtering("", true, false, true));
}

#[test]
fn needle_is_trimmed_and_tags_are_whole_words() {
    assert!(console_line_matches(ConsoleLevel::Info, "cooked 3 textures", "  textures  "));
    assert!(console_line_matches(ConsoleLevel::Warn, "x", "war"));
    assert!(!console_line_matches(ConsoleLevel::Warn, "x", "warnings"));
    assert!(!console_is_filtering("   ", true, true, true));
    assert!(console_level_enabled(ConsoleLevel::Info, true, false, false));
    assert!(!console_level_enabled(ConsoleLevel::Error, true, true, false));
    assert_eq!(ConsoleLevel::Error.as_tag(), "error");
}

#[test]
fn unicode_text_lowercases() {
    assert!(console_line_matches(ConsoleLevel::Info, "ÉCOLE ready", "école"));
}
