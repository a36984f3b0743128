//! Editor vocabulary that is not drawing: dock tab titles, tool kinds, the tile
//! brush and the Project panel's file-kind labels.
use vstd::prelude::*;
use crate::strings::{chars_of, chars_eq, ends_with_chars, seq_ends_with};
use crate::paths::{path_extension, extension_of};

verus! {

/// Dock tabs of the editor layout.
#[derive(Clone, Copy, Debug, PartialEq, Eq, Hash, Structural)]
pub enum EditorTab {
    Hierarchy,
    Scene,
    Game,
    Inspector,
    Project,
    Console,
}

pub open spec fn tab_title(t: EditorTab) -> Seq<char> {
    match t {
        EditorTab::Hierarchy => "Hierarchy"@,
        EditorTab::Scene => "Scene"@,
        EditorTab::Game => "Game"@,
        EditorTab::Inspector => "Inspector"@,
        EditorTab::Project => "Project"@,
        EditorTab::Console => "Console"@,
    }
}

impl EditorTab {
    /// Title shown on the tab.
    pub fn title(self) -> (r: &'static str)
        ensures
            r@ == tab_title(self),
    {
        match self {
            EditorTab::Hierarchy => "Hierarchy",
            EditorTab::Scene => "Scene",
            EditorTab::Game => "Game",
            EditorTab::Inspector => "Inspector",
            EditorTab::Project => "Project",
            EditorTab::Console => "Console",
        }
    }
}

/// Scene-view tools.
#[derive(Clone, Copy, Debug, PartialEq, Eq, Structural)]
pub enum EditTool {
    Translate,
    Scale,
    Rotate,
    Paint,
    Erase,
    Pick,
}

impl EditTool {
    /// Paint, Erase and Pick work on tilemap cells.
    pub fn is_tile_tool(self) -> (r: bool)
        ensures
            r == (self == EditTool::Paint || self == EditTool::Erase || self == EditTool::Pick),
    {
        match self {
            EditTool::Paint | EditTool::Erase | EditTool::Pick => true,
            _ => false,
        }
    }
}

/// Current tile brush of the Paint tool.
#[derive(Clone, Copy, Debug, PartialEq, Eq, Structural)]
pub struct TileBrush {
    pub id: u16,
    pub solid: bool,
}

impl TileBrush {
    /// Take the brush from a picked cell; an empty cell picks a solid id `1`.
    pub fn pick(&mut self, id: u16, solid: bool)
        ensures
            final(self).id == (if id == 0 { 1 } else { id }),
            final(self).solid == (if id == 0 { true } else { solid }),
    {
        if id == 0 {
            self.id = 1;
            self.solid = true;
        } else {
            self.id = id;
            self.solid = solid;
        }
    }

    /// Cell id and solid flag a stroke writes: the brush, or an empty open cell when erasing.
    pub fn stroke(self, erase: bool) -> (r: (u16, bool))
        ensures
            r == (if erase { (0u16, false) } else { (self.id, self.solid) }),
    {
        if erase {
            (0, false)
        } else {
            (self.id, self.solid)
        }
    }
}

/// Label for an extension the Project panel knows.
pub open spec fn extension_label(ext: Option<Seq<char>>) -> Seq<char> {
    match ext {
        Some(e) => if e == "png"@ {
            "PNG texture"@
        } else if e == "json"@ {
            "JSON"@
        } else if e == "toml"@ {
            "TOML"@
        } else if e == "wpack"@ {
            "Asset pack"@
        } else if e == "wscn"@ {
            "Baked scene"@
        } else {
            "File"@
        },
        None => "File"@,
    }
}

/// Kind label of a project-relative path: compound suffixes first, then `game.toml`,
/// then the extension.
pub open spec fn spec_file_kind_label(rel: Seq<char>, is_dir: bool) -> Seq<char> {
    if is_dir {
        "Folder"@
    } else if seq_ends_with(rel, ".scene.json"@) {
        "Scene"@
    } else if seq_ends_with(rel, ".prefab.json"@) {
        "Prefab"@
    } else if seq_ends_with(rel, ".sprites.json"@) {
        "Sprite sheet meta"@
    } else if seq_ends_with(rel, ".anim.json"@) {
        "Animation clip"@
    } else if rel == "game.toml"@ {
        "Project"@
    } else {
        extension_label(path_extension(rel))
    }
}

fn is(s: &Vec<char>, lit: &str) -> (r: bool)
    ensures
        r == (s@ == lit@),
{
    chars_eq(s, &chars_of(lit))
}

fn label_for_extension(ext: Option<String>) -> (r: &'static str)
    ensures
        r@ == extension_label(match ext {
            Some(e) => Some(e@),
            None => None,
        }),
{
    match ext {
        Some(e) => {
            let c = chars_of(e.as_str());
            if is(&c, "png") {
                "PNG texture"
            } else if is(&c, "json") {
                "JSON"
            } else if is(&c, "toml") {
                "TOML"
            } else if is(&c, "wpack") {
                "Asset pack"
            } else if is(&c, "wscn") {
                "Baked scene"
            } else {
                "File"
            }
        },
        None => "File",
    }
}

/// What the Project panel shows as the kind of `rel` (a path relative to the game).
pub fn file_kind_label(rel: &str, is_dir: bool) -> (r: &'static str)
    ensures
        r@ == spec_file_kind_label(rel@, is_dir),
{
    if is_dir {
        return "Folder";
    }
    let name = chars_of(rel);
    if ends_with_chars(&name, &chars_of(".scene.json")) {
        "Scene"
    } else if ends_with_chars(&name, &chars_of(".prefab.json")) {
        "Prefab"
    } else if ends_with_chars(&name, &chars_of(".sprites.json")) {
        "Sprite sheet meta"
    } else if ends_with_chars(&name, &chars_of(".anim.json")) {
        "Animation clip"
    } else if is(&name, "game.toml") {
        "Project"
    } else {
        label_for_extension(extension_of(rel))
    }
}

} // verus!
