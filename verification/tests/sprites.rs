use wiimaker::sprites::{grid_by_cell_count, GridError, SpriteCell, SpriteSheetMeta, HALF_F32_BITS};

#[test]
fn grid_four_by_one() {
    let rects = grid_by_cell_count(64, 16, 4, 1).unwrap();
    assert_eq!(rects.len(), 4);
    assert_eq!(rects[0], [0, 0, 16, 16]);
    assert_eq!(rects[2], [32, 0, 16, 16]);
    assert_eq!(rects[3], [48, 0, 16, 16]);
}

#[test]
fn slice_preserves_pivot_by_name() {
    let mut meta = SpriteSheetMeta {
        columns: 4,
        rows: 1,
        sprites: vec![SpriteCell {
            name: "sheet_2".into(),
            rect: [32, 0, 16, 16],
            pivot: [0.375f32.to_bits(), 0.375f32.to_bits()],
        }],
    };
    let _ = meta.slice_grid(64, 16, 4, 1, "sheet").unwrap();
    assert_eq!(meta.sprites.len(), 4);
    assert_eq!(meta.sprites[2].name, "sheet_2");
    assert_eq!(meta.sprites[2].pivot, [0.375f32.to_bits(), 0.375f32.to_bits()]);
    assert_eq!(meta.sprites[0].pivot, [0.5f32.to_bits(), 0.5f32.to_bits()]);
}

#[test]
fn grid_rows_are_row_major_and_errors_are_named() {
    let rects = grid_by_cell_count(30, 20, 3, 2).unwrap();
    assert_eq!(rects, vec![[0, 0, 10, 10], [10, 0, 10, 10], [20, 0, 10, 10], [0, 10, 10, 10], [10, 10, 10, 10], [20, 10, 10, 10]]);
    assert_eq!(grid_by_cell_count(64, 16, 0, 1).unwrap_err(), GridError::ZeroCount);
    assert_eq!(grid_by_cell_count(3, 16, 4, 1).unwrap_err(), GridError::ZeroCellSize);
    // Floor division leaves the remainder unused.
    let r = grid_by_cell_count(10, 10, 3, 3).unwrap();
    assert_eq!(r[8], [6, 6, 3, 3]);
}

#[test]
fn slice_warns_on_uneven_sheet_and_refuses_empty_grid() {
    let mut meta = SpriteSheetMeta { columns: 1, rows: 1, sprites: Vec::new() };
    let w = meta.slice_grid(10, 10, 3, 3, "s").unwrap();
    assert_eq!(w, vec!["sheet 10x10 does not divide evenly by 3x3; cells use floor division".to_string()]);
    assert_eq!(meta.sprites.len(), 9);
    assert_eq!(meta.sprites[8].name, "s_8");
    assert_eq!(meta.sprites[8].rect, [6, 6, 3, 3]);
    assert_eq!(meta.sprites[8].pivot, [HALF_F32_BITS, HALF_F32_BITS]);
    assert_eq!((meta.columns, meta.rows), (3, 3));
    let e = meta.slice_grid(10, 10, 0, 3, "s").unwrap_err();
    assert_eq!(e, "columns and rows must be >= 1");
    let e = meta.slice_grid(2, 10, 3, 3, "s").unwrap_err();
    assert_eq!(e, "cell size is zero \u{2014} image too small for 3x3");
    assert_eq!(meta.sprites.len(), 9);
    assert_eq!((meta.columns, meta.rows), (3, 3));
}

#[test]
fn set_pivot_targets_the_named_cell() {
    let mut meta = SpriteSheetMeta { columns: 1, rows: 1, sprites: Vec::new() };
    meta.slice_grid(32, 16, 2, 1, "p").unwrap();
    meta.set_pivot("p_1", [0, 1.0f32.to_bits()]).unwrap();
    assert_eq!(meta.sprites[1].pivot, [0, 1.0f32.to_bits()]);
    assert_eq!(meta.sprites[0].pivot, [HALF_F32_BITS, HALF_F32_BITS]);
    assert_eq!(meta.set_pivot("nope", [0, 0]).unwrap_err(), "sprite 'nope' not in sheet");
}
