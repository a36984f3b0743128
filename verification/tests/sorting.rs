use wiimaker::sorting::{
    default_sorting_layer_index, default_sorting_layers, is_default_sorting_layer_name, sorting_layer_index,
    DEFAULT_SORTING_LAYER, DEFAULT_SORTING_LAYERS,
};

#[test]
fn default_index_is_middle_builtin() {
    assert_eq!(default_sorting_layer_index(), 1);
    assert_eq!(sorting_layer_index(&DEFAULT_SORTING_LAYERS, ""), 1);
    assert_eq!(sorting_layer_index(&DEFAULT_SORTING_LAYERS, "Foreground"), 2);
    assert_eq!(sorting_layer_index(&DEFAULT_SORTING_LAYERS, "nope"), 1);
}

#[test]
fn unknown_without_default_is_zero() {
    let layers = ["A", "B"];
    assert_eq!(sorting_layer_index(&layers, "missing"), 0);
}

#[test]
fn known_name_gives_its_position() {
    let layers = ["Sky", "Default", "Hud", "Default"];
    assert_eq!(sorting_layer_index(&layers, "Sky"), 0);
    assert_eq!(sorting_layer_index(&layers, "Hud"), 2);
    // The first of two equal names wins; an unknown name falls back to it.
    assert_eq!(sorting_layer_index(&layers, "Default"), 1);
    assert_eq!(sorting_layer_index(&layers, "Clouds"), 1);
    assert_eq!(sorting_layer_index(&layers, ""), 1);
}

#[test]
fn builtin_layers_and_default_name() {
    let v = default_sorting_layers();
    assert_eq!(v, vec!["Background".to_string(), "Default".to_string(), "Foreground".to_string()]);
    assert_eq!(DEFAULT_SORTING_LAYER, "Default");
    assert!(is_default_sorting_layer_name(""));
    assert!(is_default_sorting_layer_name("Default"));
    assert!(is_default_sorting_layer_name(" default "));
    assert!(is_default_sorting_layer_name("   "));
    assert!(!is_default_sorting_layer_name("Foreground"));
}
