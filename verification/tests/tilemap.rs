use wiimaker::tilemap::{
    autotile_bits, tile_get, tile_solid, AutoTileMatch, PaletteAuto, Tilemap, AUTOTILE_E, AUTOTILE_N, AUTOTILE_S,
    AUTOTILE_W,
};

fn maze() -> Tilemap {
    let mut tm = Tilemap::new(5, 3);
    // corridor along y=1: open at (1,1) (2,1) (3,1)
    for x in 0..5 {
        for y in 0..3 {
            let wall = y != 1 || x == 0 || x == 4;
            tm.set(x, y, if wall { 1 } else { 0 }, wall);
        }
    }
    tm
}

#[test]
fn set_get_solid() {
    let tm = maze();
    assert_eq!(tm.get(0, 0), 1);
    assert!(tm.solid_at(0, 0));
    assert_eq!(tm.get(2, 1), 0);
    assert!(!tm.solid_at(2, 1));
    assert_eq!(tm.get(9, 9), 0);
    assert!(!tm.solid_at(-1, 0));
}

#[test]
fn tile_solid_blocks_walls_and_oob() {
    let world = [maze()];
    assert!(tile_solid(&world, 0, 0));
    assert!(tile_solid(&world, 0, 1));
    assert!(!tile_solid(&world, 1, 1));
    assert!(!tile_solid(&world, 2, 1));
    assert!(tile_solid(&world, 4, 1));
    // out of bounds is solid when a tilemap exists
    assert!(tile_solid(&world, -1, 1));
    assert!(tile_solid(&world, 5, 1));
    assert!(tile_solid(&world, 2, 9));
}

#[test]
fn empty_world_is_not_solid() {
    let world: [Tilemap; 0] = [];
    assert!(!tile_solid(&world, 0, 0));
    assert_eq!(tile_get(&world, 0, 0), 0);
}

#[test]
fn autotile_id_nesw_bitmask() {
    let mut tm = Tilemap::new(3, 3);
    for x in 0..3 {
        for y in 0..3 {
            tm.set(x, y, 1, true);
        }
    }
    let palette = vec![PaletteAuto { id: 1, auto_tile: Some(AutoTileMatch::Id) }];
    // Center has all four neighbors.
    assert_eq!(tm.autotile_mask(&palette, 1, 1), 15);
    // Top-middle: N missing, E/S/W present → 2|4|8 = 14
    assert_eq!(tm.autotile_mask(&palette, 1, 0), AUTOTILE_E | AUTOTILE_S | AUTOTILE_W);
    tm.set(2, 1, 0, false);
    // Center without east neighbor.
    assert_eq!(tm.autotile_mask(&palette, 1, 1), AUTOTILE_N | AUTOTILE_S | AUTOTILE_W);
}

#[test]
fn palette_picks_the_neighbor_rule() {
    // Row: solid id 2, id 1, open id 0.
    let mut tm = Tilemap::new(3, 1);
    tm.set(0, 0, 2, true);
    tm.set(1, 0, 1, false);
    let solid_rule = vec![PaletteAuto { id: 1, auto_tile: Some(AutoTileMatch::Solid) }];
    // Solid rule: N and S out of bounds (solid), W solid, E open.
    assert_eq!(tm.autotile_mask(&solid_rule, 1, 0), AUTOTILE_N | AUTOTILE_S | AUTOTILE_W);
    // No rule on the entry: Id, and no neighbor has id 1.
    let no_rule = vec![PaletteAuto { id: 1, auto_tile: None }];
    assert_eq!(tm.autotile_mask(&no_rule, 1, 0), 0);
    // No entry for id 1: the first entry's rule applies.
    let other = vec![PaletteAuto { id: 5, auto_tile: Some(AutoTileMatch::Solid) }, PaletteAuto { id: 6, auto_tile: None }];
    assert_eq!(tm.autotile_mask(&other, 1, 0), AUTOTILE_N | AUTOTILE_S | AUTOTILE_W);
    // The first entry with the id wins over later ones.
    let twice = vec![PaletteAuto { id: 1, auto_tile: None }, PaletteAuto { id: 1, auto_tile: Some(AutoTileMatch::Solid) }];
    assert_eq!(tm.autotile_mask(&twice, 1, 0), 0);
    // Empty cell or empty palette: Id, which never links an empty cell.
    assert_eq!(tm.autotile_mask(&solid_rule, 2, 0), 0);
    assert_eq!(tm.autotile_mask(&[], 1, 0), 0);
}

#[test]
fn autotile_solid_oob_is_solid() {
    let mut tm = Tilemap::new(2, 1);
    tm.set(0, 0, 1, true);
    tm.set(1, 0, 0, false);
    // (0,0): N/S/W OOB solid, E is empty → N|S|W = 1|4|8 = 13
    assert_eq!(tm.autotile_mask_mode(0, 0, AutoTileMatch::Solid), AUTOTILE_N | AUTOTILE_S | AUTOTILE_W);
}

#[test]
fn set_outside_is_refused_and_keeps_cells() {
    let mut tm = Tilemap::new(2, 2);
    assert!(!tm.set(2, 0, 7, true));
    assert!(!tm.set(0, -1, 7, true));
    assert!(tm.set(1, 1, 7, true));
    assert_eq!(tm.get(1, 1), 7);
    assert!(tm.solid_at(1, 1));
    assert_eq!(tm.get(0, 0), 0);
    assert!(tm.set(1, 1, 3, false));
    assert_eq!(tm.get(1, 1), 3);
    assert!(!tm.solid_at(1, 1));
    assert_eq!(tm.len(), 4);
    assert!(tm.in_bounds(1, 0));
    assert!(!tm.in_bounds(1, 2));
    assert_eq!(tm.index(1, 1), Some(3));
    assert_eq!(tm.index(-1, 1), None);
}

#[test]
fn autotile_bits_pack_nesw() {
    assert_eq!(autotile_bits(false, false, false, false), 0);
    assert_eq!(autotile_bits(true, false, true, false), 5);
    assert_eq!(autotile_bits(true, true, true, true), 15);
    assert_eq!(autotile_bits(false, true, false, true), 10);
}

#[test]
fn id_match_ignores_empty_cells() {
    let mut tm = Tilemap::new(3, 1);
    tm.set(1, 0, 2, false);
    // (0,0) holds id 0; Id matching never links empty cells, and out-of-bounds is no match.
    assert_eq!(tm.autotile_mask_mode(1, 0, AutoTileMatch::Id), 0);
    tm.set(2, 0, 2, false);
    assert_eq!(tm.autotile_mask_mode(1, 0, AutoTileMatch::Id), AUTOTILE_E);
    let world = [tm.clone(), maze()];
    // First tilemap that holds the cell answers.
    assert_eq!(tile_get(&world, 1, 0), 2);
    assert_eq!(tile_get(&world, 4, 2), 1);
}
