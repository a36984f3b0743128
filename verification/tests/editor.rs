use wiimaker::editor::{file_kind_label, EditTool, EditorTab, TileBrush};

#[test]
fn file_kinds_by_suffix_name_and_extension() {
    assert_eq!(file_kind_label("scenes", true), "Folder");
    assert_eq!(file_kind_label("scenes/main.scene.json", false), "Scene");
    assert_eq!(file_kind_label("prefabs/coin.prefab.json", false), "Prefab");
    assert_eq!(file_kind_label("assets/hero.sprites.json", false), "Sprite sheet meta");
    assert_eq!(file_kind_label("assets/walk.anim.json", false), "Animation clip");
    assert_eq!(file_kind_label("game.toml", false), "Project");
    assert_eq!(file_kind_label("sub/game.toml", false), "TOML");
    assert_eq!(file_kind_label("assets/hero.png", false), "PNG texture");
    assert_eq!(file_kind_label("build/assets.wpack", false), "Asset pack");
    assert_eq!(file_kind_label("build/main.wscn", false), "Baked scene");
    assert_eq!(file_kind_label("notes.json", false), "JSON");
    assert_eq!(file_kind_label("README", false), "File");
    assert_eq!(file_kind_label(".png", false), "File");
    assert_eq!(file_kind_label("x.PNG", false), "File");
}

#[test]
fn tab_titles_and_tile_tools() {
    assert_eq!(EditorTab::Hierarchy.title(), "Hierarchy");
    assert_eq!(EditorTab::Console.title(), "Console");
    assert_eq!(EditorTab::Inspector.title(), "Inspector");
    assert!(EditTool::Paint.is_tile_tool());
    assert!(EditTool::Erase.is_tile_tool());
    assert!(EditTool::Pick.is_tile_tool());
    assert!(!EditTool::Translate.is_tile_tool());
    assert!(!EditTool::Rotate.is_tile_tool());
    assert!(!EditTool::Scale.is_tile_tool());
}

#[test]
fn tile_brush_pick_and_stroke() {
    let mut b = TileBrush { id: 3, solid: false };
    assert_eq!(b.stroke(false), (3, false));
    assert_eq!(b.stroke(true), (0, false));
    b.pick(0, false);
    assert_eq!(b, TileBrush { id: 1, solid: true });
    b.pick(7, false);
    assert_eq!(b, TileBrush { id: 7, solid: false });
}
