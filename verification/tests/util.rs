use wiimaker::util::parse_rgb;

#[test]
fn rgb_triplets_parse_with_spaces() {
    assert_eq!(parse_rgb("48,88,176"), Ok([48, 88, 176]));
    assert_eq!(parse_rgb(" 1 , +2 ,3 "), Ok([1, 2, 3]));
}

#[test]
fn rgb_errors_match_the_parser() {
    assert_eq!(parse_rgb("1,2"), Err("expected R,G,B".to_string()));
    assert_eq!(parse_rgb("1,2,3,4"), Err("expected R,G,B".to_string()));
    assert_eq!(parse_rgb(""), Err("expected R,G,B".to_string()));
    assert_eq!(parse_rgb("1,256,3"), Err("number too large to fit in target type".to_string()));
    assert_eq!(parse_rgb("1,x,3"), Err("invalid digit found in string".to_string()));
    assert_eq!(parse_rgb(",2,3"), Err("cannot parse integer from empty string".to_string()));
    assert_eq!(parse_rgb("-1,2,3"), Err("invalid digit found in string".to_string()));
}
