use wiimaker::text::{text_grid_size, TextAlign};

#[test]
fn align_names_parse_in_any_case() {
    assert_eq!(TextAlign::parse(" Centre "), Some(TextAlign::Center));
    assert_eq!(TextAlign::parse("MIDDLE"), Some(TextAlign::Center));
    assert_eq!(TextAlign::parse("l"), Some(TextAlign::Left));
    assert_eq!(TextAlign::parse("R"), Some(TextAlign::Right));
    assert_eq!(TextAlign::parse("justify"), None);
    assert_eq!(TextAlign::parse(""), None);
    for a in [TextAlign::Left, TextAlign::Center, TextAlign::Right] {
        assert_eq!(TextAlign::parse(a.as_str()), Some(a));
    }
    assert_eq!(TextAlign::default(), TextAlign::Left);
}

#[test]
fn glyph_grid_counts_lines_and_widest_line() {
    assert_eq!(text_grid_size("SCORE 10"), (8, 1));
    assert_eq!(text_grid_size("ab\nabcd\n"), (4, 3));
    assert_eq!(text_grid_size(""), (0, 1));
    assert_eq!(text_grid_size("é\n\n"), (1, 3));
}
