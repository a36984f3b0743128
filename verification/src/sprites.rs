//! Sprite sheet sidecar model: named cells cut from one sheet on an equal grid, each
//! with a pivot that survives re-slicing under the same name.
use vstd::prelude::*;
use vstd::arithmetic::div_mod::lemma_fundamental_div_mod;
use crate::strings::{chars_of, chars_eq, string_from_chars, push_decimal, decimal, push_str};

verus! {

/// Pixel rect in source PNG space: `[x, y, w, h]`.
pub type PixelRect = [u32; 4];

/// Why a grid cannot be cut.
#[derive(Clone, Copy, Debug, PartialEq, Eq, Structural)]
pub enum GridError {
    /// `columns` or `rows` is zero.
    ZeroCount,
    /// The sheet is too small: a cell would be zero pixels wide or tall.
    ZeroCellSize,
}

/// Cell `k` (row-major) of a `columns`-wide grid of `cw × ch` cells.
pub open spec fn grid_rect(k: int, columns: int, cw: int, ch: int) -> Seq<u32> {
    seq![((k % columns) * cw) as u32, ((k / columns) * ch) as u32, cw as u32, ch as u32]
}

/// Equal cell rects for a grid (left→right, top→bottom).
pub fn grid_by_cell_count(sheet_w: u32, sheet_h: u32, columns: u32, rows: u32) -> (r: Result<
    Vec<PixelRect>,
    GridError,
>)
    requires
        columns > 0 && rows > 0 && sheet_w / columns > 0 && sheet_h / rows > 0 ==> columns * rows
            <= u32::MAX,
    ensures
        (columns == 0 || rows == 0) <==> r == Err::<Vec<PixelRect>, GridError>(GridError::ZeroCount),
        (columns > 0 && rows > 0 && (sheet_w / columns == 0 || sheet_h / rows == 0)) <==> r == Err::<
            Vec<PixelRect>,
            GridError,
        >(GridError::ZeroCellSize),
        r matches Ok(rects) ==> {
            &&& rects@.len() == columns * rows
            &&& forall|k: int|
                0 <= k < rects@.len() ==> (#[trigger] rects@[k])@ == grid_rect(
                    k,
                    columns as int,
                    (sheet_w / columns) as int,
                    (sheet_h / rows) as int,
                )
            &&& forall|k: int|
                0 <= k < rects@.len() ==> (#[trigger] rects@[k])[0] + rects@[k][2] <= sheet_w && rects@[k][1]
                    + rects@[k][3] <= sheet_h
        },
{
    if columns == 0 || rows == 0 {
        return Err(GridError::ZeroCount);
    }
    let cell_w = sheet_w / columns;
    let cell_h = sheet_h / rows;
    if cell_w == 0 || cell_h == 0 {
        return Err(GridError::ZeroCellSize);
    }
    let n = columns * rows;
    let mut rects: Vec<PixelRect> = Vec::new();
    let mut k: u32 = 0;
    while k < n
        invariant
            n == columns * rows,
            columns > 0,
            rows > 0,
            cell_w == sheet_w / columns,
            cell_h == sheet_h / rows,
            k <= n,
            rects@.len() == k,
            forall|j: int|
                0 <= j < k ==> (#[trigger] rects@[j])@ == grid_rect(j, columns as int, cell_w as int, cell_h as int),
            forall|j: int|
                0 <= j < k ==> (#[trigger] rects@[j])[0] + rects@[j][2] <= sheet_w && rects@[j][1] + rects@[j][3]
                    <= sheet_h,
        decreases n - k,
    {
        let col = k % columns;
        let row = k / columns;
        proof {
            lemma_fundamental_div_mod(k as int, columns as int);
            lemma_fundamental_div_mod(sheet_w as int, columns as int);
            lemma_fundamental_div_mod(sheet_h as int, rows as int);
            assert(row < rows) by (nonlinear_arith)
                requires k == columns * row + col, k < columns * rows, 0 <= col;
            assert(col * cell_w + cell_w <= sheet_w) by (nonlinear_arith)
                requires col < columns, sheet_w == columns * cell_w + sheet_w % columns, 0 <= sheet_w % columns;
            assert(row * cell_h + cell_h <= sheet_h) by (nonlinear_arith)
                requires row < rows, sheet_h == rows * cell_h + sheet_h % rows, 0 <= sheet_h % rows;
        }
        let rect: PixelRect = [col * cell_w, row * cell_h, cell_w, cell_h];
        assert(rect@ =~= grid_rect(k as int, columns as int, cell_w as int, cell_h as int));
        rects.push(rect);
        k = k + 1;
    }
    Ok(rects)
}

/// Normalized pivot `[x, y]` in cell space; each `f32` is held by its IEEE-754 bit
/// pattern (`f32::to_bits`), since the sheet logic only stores and copies pivots.
pub type PivotBits = [u32; 2];

/// Bit pattern of `0.5f32`.
pub const HALF_F32_BITS: u32 = 0x3f00_0000;

/// The default pivot, the cell center `[0.5, 0.5]`.
pub open spec fn default_pivot() -> Seq<u32> {
    seq![HALF_F32_BITS, HALF_F32_BITS]
}

/// One named cell of a sheet.
#[derive(Clone, Debug)]
pub struct SpriteCell {
    pub name: String,
    /// `[x, y, w, h]` in source PNG pixels.
    pub rect: PixelRect,
    /// Normalized pivot; default center.
    pub pivot: PivotBits,
}

/// Sidecar of one sheet: its grid and its cells.
#[derive(Clone, Debug)]
pub struct SpriteSheetMeta {
    pub columns: u32,
    pub rows: u32,
    pub sprites: Vec<SpriteCell>,
}

/// Name of cell `i` of the sheet `stem`: `stem_i`.
pub open spec fn cell_name(stem: Seq<char>, i: nat) -> Seq<char> {
    stem + "_"@ + decimal(i)
}

/// Pivot kept for `name`: that of the last cell so named, else the default.
pub open spec fn kept_pivot(cells: Seq<SpriteCell>, name: Seq<char>) -> Seq<u32>
    decreases cells.len(),
{
    if cells.len() == 0 {
        default_pivot()
    } else if cells.last().name@ == name {
        cells.last().pivot@
    } else {
        kept_pivot(cells.drop_last(), name)
    }
}

/// Warning when the sheet does not divide evenly into the grid.
pub open spec fn uneven_warning(w: u32, h: u32, c: u32, r: u32) -> Seq<char> {
    "sheet "@ + decimal(w as nat) + "x"@ + decimal(h as nat) + " does not divide evenly by "@ + decimal(
        c as nat,
    ) + "x"@ + decimal(r as nat) + "; cells use floor division"@
}

/// Error when the grid has no columns or no rows.
pub open spec fn zero_count_error() -> Seq<char> {
    "columns and rows must be >= 1"@
}

/// Error when a cell would be zero pixels wide or tall.
pub open spec fn zero_cell_error(c: u32, r: u32) -> Seq<char> {
    "cell size is zero \u{2014} image too small for "@ + decimal(c as nat) + "x"@ + decimal(r as nat)
}

/// Error when no cell has the name.
pub open spec fn missing_sprite_error(name: Seq<char>) -> Seq<char> {
    "sprite '"@ + name + "' not in sheet"@
}

fn last_pivot_for(cells: &Vec<SpriteCell>, name: &Vec<char>) -> (p: PivotBits)
    ensures
        p@ == kept_pivot(cells@, name@),
{
    let mut k: usize = cells.len();
    assert(cells@.subrange(0, k as int) =~= cells@);
    while k > 0
        invariant
            k <= cells@.len(),
            kept_pivot(cells@.subrange(0, k as int), name@) == kept_pivot(cells@, name@),
        decreases k,
    {
        let ghost pre = cells@.subrange(0, k as int);
        assert(pre.drop_last() =~= cells@.subrange(0, k - 1));
        if chars_eq(&chars_of(cells[k - 1].name.as_str()), name) {
            return cells[k - 1].pivot;
        }
        k = k - 1;
    }
    assert(cells@.subrange(0, 0) =~= Seq::<SpriteCell>::empty());
    [HALF_F32_BITS, HALF_F32_BITS]
}

fn copy_string(s: &String) -> (r: String)
    ensures
        r@ == s@,
{
    string_from_chars(&chars_of(s.as_str()))
}

impl SpriteSheetMeta {
    /// Regenerate equal cell rects from `columns × rows`, naming cell `i` `stem_i` and
    /// keeping the pivot of any old cell of that name. Returns warnings.
    pub fn slice_grid(&mut self, sheet_w: u32, sheet_h: u32, columns: u32, rows: u32, stem: &str) -> (r: Result<
        Vec<String>,
        String,
    >)
        requires
            columns > 0 && rows > 0 && sheet_w / columns > 0 && sheet_h / rows > 0 ==> columns * rows
                <= u32::MAX,
        ensures
            (columns == 0 || rows == 0) ==> (r matches Err(e) && e@ == zero_count_error()),
            (columns > 0 && rows > 0 && (sheet_w / columns == 0 || sheet_h / rows == 0)) ==> (r matches Err(e)
                && e@ == zero_cell_error(columns, rows)),
            r is Err ==> final(self).columns == old(self).columns && final(self).rows == old(self).rows
                && final(self).sprites@ == old(self).sprites@,
            (columns > 0 && rows > 0 && sheet_w / columns > 0 && sheet_h / rows > 0) ==> (r matches Ok(warnings)
                && {
                let cw = (sheet_w / columns) as int;
                let ch = (sheet_h / rows) as int;
                let cells = final(self).sprites@;
                &&& final(self).columns == columns
                &&& final(self).rows == rows
                &&& cells.len() == columns * rows
                &&& forall|k: int|
                    0 <= k < cells.len() ==> {
                        &&& (#[trigger] cells[k]).name@ == cell_name(stem@, k as nat)
                        &&& cells[k].rect@ == grid_rect(k, columns as int, cw, ch)
                        &&& cells[k].pivot@ == kept_pivot(old(self).sprites@, cell_name(stem@, k as nat))
                    }
                &&& (sheet_w % columns == 0 && sheet_h % rows == 0) ==> warnings@.len() == 0
                &&& !(sheet_w % columns == 0 && sheet_h % rows == 0) ==> warnings@.len() == 1
                    && warnings@[0]@ == uneven_warning(sheet_w, sheet_h, columns, rows)
            }),
    {
        if columns == 0 || rows == 0 {
            return Err(string_from_chars(&chars_of("columns and rows must be >= 1")));
        }
        let mut warnings: Vec<String> = Vec::new();
        if sheet_w % columns != 0 || sheet_h % rows != 0 {
            let mut m: Vec<char> = Vec::new();
            push_str(&mut m, "sheet ");
            push_decimal(&mut m, sheet_w as u64);
            push_str(&mut m, "x");
            push_decimal(&mut m, sheet_h as u64);
            push_str(&mut m, " does not divide evenly by ");
            push_decimal(&mut m, columns as u64);
            push_str(&mut m, "x");
            push_decimal(&mut m, rows as u64);
            push_str(&mut m, "; cells use floor division");
            assert(m@ =~= uneven_warning(sheet_w, sheet_h, columns, rows));
            warnings.push(string_from_chars(&m));
        }
        let cell_w = sheet_w / columns;
        let cell_h = sheet_h / rows;
        if cell_w == 0 || cell_h == 0 {
            let mut m: Vec<char> = Vec::new();
            push_str(&mut m, "cell size is zero \u{2014} image too small for ");
            push_decimal(&mut m, columns as u64);
            push_str(&mut m, "x");
            push_decimal(&mut m, rows as u64);
            assert(m@ =~= zero_cell_error(columns, rows));
            return Err(string_from_chars(&m));
        }
        let rects = match grid_by_cell_count(sheet_w, sheet_h, columns, rows) {
            Ok(v) => v,
            Err(e) => {
                proof {
                    match e {
                        GridError::ZeroCount => {},
                        GridError::ZeroCellSize => {},
                    }
                }
                return Err(string_from_chars(&chars_of("columns and rows must be >= 1")));
            },
        };
        let mut old_cells: Vec<SpriteCell> = Vec::new();
        std::mem::swap(&mut old_cells, &mut self.sprites);
        let stem_chars = chars_of(stem);
        let n = rects.len();
        let mut cells: Vec<SpriteCell> = Vec::new();
        let mut i: usize = 0;
        while i < n
            invariant
                n == rects@.len(),
                n == columns * rows,
                stem_chars@ == stem@,
                i <= n,
                cells@.len() == i,
                forall|k: int|
                    0 <= k < rects@.len() ==> (#[trigger] rects@[k])@ == grid_rect(
                        k,
                        columns as int,
                        (sheet_w / columns) as int,
                        (sheet_h / rows) as int,
                    ),
                forall|k: int|
                    0 <= k < i ==> {
                        &&& (#[trigger] cells@[k]).name@ == cell_name(stem@, k as nat)
                        &&& cells@[k].rect@ == rects@[k]@
                        &&& cells@[k].pivot@ == kept_pivot(old_cells@, cell_name(stem@, k as nat))
                    },
            decreases n - i,
        {
            let mut name: Vec<char> = Vec::new();
            let mut j: usize = 0;
            while j < stem_chars.len()
                invariant
                    j <= stem_chars@.len(),
                    name@ == stem_chars@.subrange(0, j as int),
                decreases stem_chars@.len() - j,
            {
                name.push(stem_chars[j]);
                j = j + 1;
                assert(name@ =~= stem_chars@.subrange(0, j as int));
            }
            assert(stem_chars@.subrange(0, stem_chars@.len() as int) =~= stem_chars@);
            name.push('_');
            push_decimal(&mut name, i as u64);
            proof {
                reveal_strlit("_");
            }
            assert(name@ =~= cell_name(stem@, i as nat));
            let pivot = last_pivot_for(&old_cells, &name);
            cells.push(SpriteCell { name: string_from_chars(&name), rect: rects[i], pivot });
            i = i + 1;
        }
        self.columns = columns;
        self.rows = rows;
        self.sprites = cells;
        Ok(warnings)
    }

    /// Set the pivot of the first cell named `sprite_name`.
    pub fn set_pivot(&mut self, sprite_name: &str, pivot: PivotBits) -> (r: Result<(), String>)
        ensures
            final(self).columns == old(self).columns,
            final(self).rows == old(self).rows,
            final(self).sprites@.len() == old(self).sprites@.len(),
            match r {
                Ok(()) => exists|k: int|
                    0 <= k < old(self).sprites@.len() && (#[trigger] old(self).sprites@[k]).name@ == sprite_name@
                        && (forall|j: int| 0 <= j < k ==> (#[trigger] old(self).sprites@[j]).name@ != sprite_name@)
                        && final(self).sprites@[k].pivot@ == pivot@ && final(self).sprites@[k].name@
                        == sprite_name@ && final(self).sprites@[k].rect == old(self).sprites@[k].rect
                        && forall|j: int|
                        0 <= j < old(self).sprites@.len() && j != k ==> #[trigger] final(self).sprites@[j]
                            == old(self).sprites@[j],
                Err(e) => e@ == missing_sprite_error(sprite_name@) && final(self).sprites@ == old(self).sprites@
                    && forall|j: int|
                    0 <= j < old(self).sprites@.len() ==> (#[trigger] old(self).sprites@[j]).name@ != sprite_name@,
            },
    {
        let want = chars_of(sprite_name);
        let mut k: usize = 0;
        while k < self.sprites.len()
            invariant
                k <= self.sprites@.len(),
                want@ == sprite_name@,
                self.columns == old(self).columns,
                self.rows == old(self).rows,
                self.sprites@ == old(self).sprites@,
                forall|j: int| 0 <= j < k ==> (#[trigger] self.sprites@[j]).name@ != sprite_name@,
            decreases self.sprites@.len() - k,
        {
            if chars_eq(&chars_of(self.sprites[k].name.as_str()), &want) {
                let cell = SpriteCell { name: copy_string(&self.sprites[k].name), rect: self.sprites[k].rect, pivot };
                self.sprites.set(k, cell);
                assert(self.sprites@[k as int].name@ == sprite_name@);
                return Ok(());
            }
            k = k + 1;
        }
        let mut m: Vec<char> = Vec::new();
        push_str(&mut m, "sprite '");
        push_str(&mut m, sprite_name);
        push_str(&mut m, "' not in sheet");
        assert(m@ =~= missing_sprite_error(sprite_name@));
        Err(string_from_chars(&m))
    }
}

} // verus!
