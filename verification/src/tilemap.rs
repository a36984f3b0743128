//! Grid tilemap: cell ids, packed solid bits and 4-neighbor auto-tiling
//! (Unity Tilemap / RuleTile analogue). Cell `(0, 0)` is top-left, +Y is south.
use vstd::prelude::*;
use crate::sorting::default_sorting_layer_index;

verus! {

/// 4-neighbor auto-tile match (Unity RuleTile analogue).
#[derive(Clone, Copy, Debug, PartialEq, Eq, Structural)]
pub enum AutoTileMatch {
    /// Neighbor matches when it has the same non-zero palette id.
    Id,
    /// Neighbor matches when it is solid. Out-of-bounds is solid (maze walls).
    Solid,
}

pub const AUTOTILE_N: u8 = 1;
pub const AUTOTILE_E: u8 = 2;
pub const AUTOTILE_S: u8 = 4;
pub const AUTOTILE_W: u8 = 8;

pub open spec fn spec_autotile_bits(north: bool, east: bool, south: bool, west: bool) -> u8 {
    (if north { 1u8 } else { 0u8 }) | (if east { 2u8 } else { 0u8 }) | (if south { 4u8 } else { 0u8 }) | (
    if west { 8u8 } else { 0u8 })
}

/// Pack NESW occupancy into a 0..=15 bitmask (North=1, East=2, South=4, West=8).
pub fn autotile_bits(north: bool, east: bool, south: bool, west: bool) -> (r: u8)
    ensures
        r == spec_autotile_bits(north, east, south, west),
        r < 16,
        (r & 1 != 0) == north,
        (r & 2 != 0) == east,
        (r & 4 != 0) == south,
        (r & 8 != 0) == west,
{
    let r = (if north { AUTOTILE_N } else { 0 }) | (if east { AUTOTILE_E } else { 0 }) | (if south {
        AUTOTILE_S
    } else {
        0
    }) | (if west { AUTOTILE_W } else { 0 });
    assert(({
        let r = (if north { 1u8 } else { 0u8 }) | (if east { 2u8 } else { 0u8 }) | (if south { 4u8 } else { 0u8 }) | (
        if west { 8u8 } else { 0u8 });
        r < 16 && (r & 1 != 0) == north && (r & 2 != 0) == east && (r & 4 != 0) == south && (r & 8 != 0) == west
    })) by (bit_vector);
    r
}

/// Grid of cell ids + packed solid bits, row-major, in the entity's local space.
#[derive(Clone, Debug)]
pub struct Tilemap {
    pub width: u32,
    pub height: u32,
    /// Row-major `width * height` cell ids. `0` = empty.
    pub cells: Vec<u16>,
    /// Bit-packed solid flags, row-major, same cell order as `cells`.
    pub solid: Vec<u8>,
    /// Index into the project's sorting layers.
    pub sorting_layer: u16,
}

pub open spec fn spec_in_bounds(w: u32, h: u32, x: i32, y: i32) -> bool {
    x >= 0 && y >= 0 && x < w && y < h
}

impl Tilemap {
    /// The cell index can be computed in a `usize`.
    pub open spec fn dims_fit(&self) -> bool {
        self.width as int * self.height as int <= usize::MAX
    }

    pub open spec fn spec_index(&self, x: i32, y: i32) -> int {
        y as int * self.width as int + x as int
    }

    /// Id of cell `(x, y)`; out-of-bounds or missing cells read `0`.
    pub open spec fn spec_get(&self, x: i32, y: i32) -> u16 {
        let i = self.spec_index(x, y);
        if spec_in_bounds(self.width, self.height, x, y) && i < self.cells@.len() {
            self.cells@[i]
        } else {
            0
        }
    }

    /// Solid flag of cell `(x, y)`; out-of-bounds or missing bits read `false`.
    pub open spec fn spec_solid_at(&self, x: i32, y: i32) -> bool {
        let i = self.spec_index(x, y);
        spec_in_bounds(self.width, self.height, x, y) && i / 8 < self.solid@.len() && self.solid@[i
            / 8] & (1u8 << ((i % 8) as u8)) != 0
    }

    /// An empty `width × height` grid (all ids `0`, nothing solid).
    pub fn new(width: u32, height: u32) -> (t: Self)
        requires
            width as int * height as int * 2 <= isize::MAX,
        ensures
            t.width == width,
            t.height == height,
            t.cells@.len() == width as int * height as int,
            t.solid@.len() == (width as int * height as int + 7) / 8,
            forall|i: int| 0 <= i < t.cells@.len() ==> t.cells@[i] == 0,
            forall|i: int| 0 <= i < t.solid@.len() ==> t.solid@[i] == 0,
            t.dims_fit(),
    {
        let n = (width as usize) * (height as usize);
        let mut cells: Vec<u16> = Vec::new();
        let mut i: usize = 0;
        while i < n
            invariant
                i <= n,
                cells@.len() == i,
                forall|j: int| 0 <= j < i ==> cells@[j] == 0,
            decreases n - i,
        {
            cells.push(0);
            i = i + 1;
        }
        let nb = (n + 7) / 8;
        let mut solid: Vec<u8> = Vec::new();
        let mut i: usize = 0;
        while i < nb
            invariant
                i <= nb,
                solid@.len() == i,
                forall|j: int| 0 <= j < i ==> solid@[j] == 0,
            decreases nb - i,
        {
            solid.push(0);
            i = i + 1;
        }
        Tilemap { width, height, cells, solid, sorting_layer: default_sorting_layer_index() }
    }

    /// Number of cells (`width * height`, saturating).
    pub fn len(&self) -> (r: usize)
        ensures
            r == (if self.width as int * self.height as int <= usize::MAX {
                self.width as int * self.height as int
            } else {
                usize::MAX as int
            }),
    {
        let w = self.width as u64;
        let h = self.height as u64;
        assert(w * h <= u64::MAX) by (nonlinear_arith)
            requires w <= u32::MAX, h <= u32::MAX;
        let n = w * h;
        if n > usize::MAX as u64 {
            usize::MAX
        } else {
            n as usize
        }
    }

    pub fn in_bounds(&self, x: i32, y: i32) -> (r: bool)
        ensures
            r == spec_in_bounds(self.width, self.height, x, y),
    {
        x >= 0 && y >= 0 && (x as u32) < self.width && (y as u32) < self.height
    }

    /// Row-major index of an in-bounds cell.
    pub fn index(&self, x: i32, y: i32) -> (r: Option<usize>)
        requires
            self.dims_fit(),
        ensures
            r == (if spec_in_bounds(self.width, self.height, x, y) {
                Some(self.spec_index(x, y) as usize)
            } else {
                None::<usize>
            }),
            r matches Some(i) ==> i == self.spec_index(x, y) && i < self.width as int * self.height as int,
    {
        if self.in_bounds(x, y) {
            proof {
                lemma_index_in_grid(self.width as int, self.height as int, x as int, y as int);
            }
            Some(y as usize * self.width as usize + x as usize)
        } else {
            None
        }
    }

    pub fn get(&self, x: i32, y: i32) -> (r: u16)
        requires
            self.dims_fit(),
        ensures
            r == self.spec_get(x, y),
    {
        match self.index(x, y) {
            Some(i) => if i < self.cells.len() {
                self.cells[i]
            } else {
                0
            },
            None => 0,
        }
    }

    pub fn solid_at(&self, x: i32, y: i32) -> (r: bool)
        requires
            self.dims_fit(),
        ensures
            r == self.spec_solid_at(x, y),
    {
        match self.index(x, y) {
            None => false,
            Some(i) => {
                let byte = i / 8;
                let bit = (i % 8) as u8;
                if byte < self.solid.len() {
                    self.solid[byte] & (1u8 << bit) != 0
                } else {
                    false
                }
            },
        }
    }

    /// Write id and solid flag of cell `(x, y)`. Returns `false` (and changes nothing) when
    /// the cell is out of bounds or has no id slot.
    pub fn set(&mut self, x: i32, y: i32, id: u16, solid: bool) -> (r: bool)
        requires
            old(self).dims_fit(),
        ensures
            r == (spec_in_bounds(old(self).width, old(self).height, x, y) && old(self).spec_index(x, y)
                < old(self).cells@.len()),
            final(self).width == old(self).width,
            final(self).height == old(self).height,
            final(self).cells@.len() == old(self).cells@.len(),
            final(self).sorting_layer == old(self).sorting_layer,
            !r ==> final(self).cells@ == old(self).cells@ && final(self).solid@ == old(self).solid@,
            r ==> final(self).spec_get(x, y) == id && final(self).spec_solid_at(x, y) == solid,
            forall|x2: i32, y2: i32|
                (x2 != x || y2 != y) ==> #[trigger] final(self).spec_get(x2, y2) == old(self).spec_get(
                    x2,
                    y2,
                ),
            forall|x2: i32, y2: i32|
                (x2 != x || y2 != y) ==> #[trigger] final(self).spec_solid_at(x2, y2) == old(self).spec_solid_at(
                    x2,
                    y2,
                ),
    {
        let i = match self.index(x, y) {
            None => return false,
            Some(i) => i,
        };
        if i >= self.cells.len() {
            return false;
        }
        let ghost old_self = *self;
        assert(old_self == *old(self));
        self.cells.set(i, id);
        let byte = i / 8;
        let bit = (i % 8) as u8;
        while self.solid.len() <= byte
            invariant
                self.width == old_self.width,
                self.height == old_self.height,
                i < old_self.cells@.len(),
                self.sorting_layer == old_self.sorting_layer,
                self.cells@ == old_self.cells@.update(i as int, id),
                self.solid@.len() >= old_self.solid@.len(),
                self.solid@.len() <= byte + 1 || self.solid@.len() == old_self.solid@.len(),
                forall|j: int| 0 <= j < old_self.solid@.len() ==> self.solid@[j] == old_self.solid@[j],
                forall|j: int| old_self.solid@.len() <= j < self.solid@.len() ==> self.solid@[j] == 0,
            decreases byte + 1 - self.solid@.len(),
        {
            self.solid.push(0);
        }
        let old_byte = self.solid[byte];
        let new_byte = if solid {
            old_byte | (1u8 << bit)
        } else {
            old_byte & !(1u8 << bit)
        };
        self.solid.set(byte, new_byte);
        proof {
            assert(bit < 8);
            assert(solid ==> (old_byte | (1u8 << bit)) & (1u8 << bit) != 0) by (bit_vector)
                requires bit < 8;
            assert(!solid ==> (old_byte & !(1u8 << bit)) & (1u8 << bit) == 0) by (bit_vector)
                requires bit < 8;
            assert forall|x2: i32, y2: i32| (x2 != x || y2 != y) implies #[trigger] self.spec_get(x2, y2)
                == old_self.spec_get(x2, y2) && self.spec_solid_at(x2, y2) == old_self.spec_solid_at(x2, y2) by {
                if spec_in_bounds(self.width, self.height, x2, y2) {
                    lemma_index_injective(self.width as int, self.height as int, x as int, y as int, x2 as int, y2 as int);
                    lemma_index_in_grid(self.width as int, self.height as int, x2 as int, y2 as int);
                    let j = old_self.spec_index(x2, y2);
                    assert(j != i);
                    let bj = (j % 8) as u8;
                    if j < self.cells@.len() {
                        assert(self.cells@[j] == old_self.cells@[j]);
                    }
                    assert(0u8 & (1u8 << bj) == 0) by (bit_vector);
                    if j / 8 == byte as int {
                        assert(bj != bit);
                        assert(bj < 8 && bit < 8 && bj != bit ==> ((old_byte | (1u8 << bit)) & (1u8 << bj)
                            != 0) == (old_byte & (1u8 << bj) != 0) && ((old_byte & !(1u8 << bit)) & (1u8
                            << bj) != 0) == (old_byte & (1u8 << bj) != 0)) by (bit_vector);
                    }
                }
            }
            assert forall|x2: i32, y2: i32| (x2 != x || y2 != y) implies #[trigger] self.spec_solid_at(x2, y2)
                == old(self).spec_solid_at(x2, y2) by {
                assert(self.spec_get(x2, y2) == old_self.spec_get(x2, y2));
            }
        }
        true
    }

    /// NESW mask of cell `(x, y)` under `mode`.
    pub open spec fn spec_autotile_mask(&self, x: i32, y: i32, mode: AutoTileMatch) -> u8 {
        let id = self.spec_get(x, y);
        spec_autotile_bits(
            self.spec_neighbor_match(x as int, y - 1, id, mode),
            self.spec_neighbor_match(x + 1, y as int, id, mode),
            self.spec_neighbor_match(x as int, y + 1, id, mode),
            self.spec_neighbor_match(x - 1, y as int, id, mode),
        )
    }

    pub open spec fn spec_neighbor_match(&self, nx: int, ny: int, id: u16, mode: AutoTileMatch) -> bool {
        let inb = spec_in_bounds(self.width, self.height, nx as i32, ny as i32);
        match mode {
            AutoTileMatch::Id => inb && id != 0 && self.spec_get(nx as i32, ny as i32) == id,
            AutoTileMatch::Solid => if inb {
                self.spec_solid_at(nx as i32, ny as i32)
            } else {
                true
            },
        }
    }

    fn neighbor_match(&self, nx: i32, ny: i32, id: u16, mode: AutoTileMatch) -> (r: bool)
        requires
            self.dims_fit(),
        ensures
            r == self.spec_neighbor_match(nx as int, ny as int, id, mode),
    {
        match mode {
            AutoTileMatch::Id => self.in_bounds(nx, ny) && id != 0 && self.get(nx, ny) == id,
            AutoTileMatch::Solid => {
                if self.in_bounds(nx, ny) {
                    self.solid_at(nx, ny)
                } else {
                    true
                }
            },
        }
    }

    /// NESW bitmask for cell `(x, y)`: which neighbors match under `mode`.
    pub fn autotile_mask_mode(&self, x: i32, y: i32, mode: AutoTileMatch) -> (r: u8)
        requires
            self.dims_fit(),
            i32::MIN < x < i32::MAX,
            i32::MIN < y < i32::MAX,
        ensures
            r == self.spec_autotile_mask(x, y, mode),
    {
        let id = self.get(x, y);
        autotile_bits(
            self.neighbor_match(x, y - 1, id, mode),
            self.neighbor_match(x + 1, y, id, mode),
            self.neighbor_match(x, y + 1, id, mode),
            self.neighbor_match(x - 1, y, id, mode),
        )
    }
}

/// The auto-tile part of a palette entry: which cell id it draws and its neighbor rule.
#[derive(Clone, Copy, Debug, PartialEq, Eq, Structural)]
pub struct PaletteAuto {
    pub id: u16,
    pub auto_tile: Option<AutoTileMatch>,
}

/// Index of the first palette entry with `id`, or `-1`.
pub open spec fn first_with_id(palette: Seq<PaletteAuto>, id: u16) -> int
    decreases palette.len(),
{
    if palette.len() == 0 {
        -1
    } else if palette.last().id == id && first_with_id(palette.drop_last(), id) == -1 {
        palette.len() - 1
    } else {
        first_with_id(palette.drop_last(), id)
    }
}

/// Palette entry used for cell id `id`: none for the empty id `0`; otherwise the first
/// entry with that id, or else the first entry.
pub open spec fn visual_for(palette: Seq<PaletteAuto>, id: u16) -> Option<PaletteAuto> {
    if id == 0 || palette.len() == 0 {
        None
    } else if first_with_id(palette, id) >= 0 {
        Some(palette[first_with_id(palette, id)])
    } else {
        Some(palette[0])
    }
}

/// Neighbor rule of cell id `id` under the palette: the entry's rule, `Id` when it has none
/// or there is no entry.
pub open spec fn palette_mode(palette: Seq<PaletteAuto>, id: u16) -> AutoTileMatch {
    match visual_for(palette, id) {
        Some(v) => match v.auto_tile {
            Some(m) => m,
            None => AutoTileMatch::Id,
        },
        None => AutoTileMatch::Id,
    }
}

proof fn lemma_first_with_id(palette: Seq<PaletteAuto>, id: u16, k: int)
    requires
        0 <= k <= palette.len(),
        forall|j: int| 0 <= j < k ==> palette[j].id != id,
    ensures
        k < palette.len() && palette[k].id == id ==> first_with_id(palette, id) == k,
        k == palette.len() ==> first_with_id(palette, id) == -1,
        -1 <= first_with_id(palette, id) < palette.len(),
    decreases palette.len(),
{
    if palette.len() > 0 {
        let pre = palette.drop_last();
        if k == palette.len() {
            lemma_first_with_id(pre, id, k - 1);
        } else {
            lemma_first_with_id(pre, id, k);
            if palette[k].id == id && k < pre.len() {
                assert(pre[k] == palette[k]);
            } else if palette[k].id == id {
                lemma_first_with_id(pre, id, pre.len() as int);
            }
        }
    }
}

fn palette_mode_of(palette: &[PaletteAuto], id: u16) -> (m: AutoTileMatch)
    ensures
        m == palette_mode(palette@, id),
{
    if id == 0 || palette.len() == 0 {
        return AutoTileMatch::Id;
    }
    let mut k: usize = 0;
    while k < palette.len()
        invariant
            k <= palette@.len(),
            id != 0,
            palette@.len() > 0,
            forall|j: int| 0 <= j < k ==> palette@[j].id != id,
        decreases palette@.len() - k,
    {
        if palette[k].id == id {
            proof {
                lemma_first_with_id(palette@, id, k as int);
                assert(first_with_id(palette@, id) == k);
                assert(visual_for(palette@, id) == Some(palette@[k as int]));
            }
            return match palette[k].auto_tile {
                Some(m) => m,
                None => AutoTileMatch::Id,
            };
        }
        k = k + 1;
    }
    proof {
        lemma_first_with_id(palette@, id, k as int);
    }
    match palette[0].auto_tile {
        Some(m) => m,
        None => AutoTileMatch::Id,
    }
}

impl Tilemap {
    /// NESW bitmask for cell `(x, y)` under that cell's palette auto-tile rule
    /// (`Id` when the palette has no rule for it).
    pub fn autotile_mask(&self, palette: &[PaletteAuto], x: i32, y: i32) -> (r: u8)
        requires
            self.dims_fit(),
            i32::MIN < x < i32::MAX,
            i32::MIN < y < i32::MAX,
        ensures
            r == self.spec_autotile_mask(x, y, palette_mode(palette@, self.spec_get(x, y))),
    {
        let id = self.get(x, y);
        let mode = palette_mode_of(palette, id);
        self.autotile_mask_mode(x, y, mode)
    }
}

proof fn lemma_index_in_grid(w: int, h: int, x: int, y: int)
    requires
        0 <= x < w,
        0 <= y < h,
    ensures
        0 <= y * w + x < w * h,
{
    assert(0 <= y * w + x < w * h) by (nonlinear_arith)
        requires 0 <= x < w, 0 <= y < h;
}

proof fn lemma_index_injective(w: int, h: int, x: int, y: int, x2: int, y2: int)
    requires
        0 <= x < w,
        0 <= y < h,
        0 <= x2 < w,
        0 <= y2 < h,
        x != x2 || y != y2,
    ensures
        y * w + x != y2 * w + x2,
{
    if y == y2 {
    } else if y < y2 {
        assert(y * w + x < y2 * w + x2) by (nonlinear_arith)
            requires y < y2, 0 <= x < w, 0 <= x2;
    } else {
        assert(y2 * w + x2 < y * w + x) by (nonlinear_arith)
            requires y2 < y, 0 <= x2 < w, 0 <= x;
    }
}

/// `true` if cell `(x, y)` is solid on any of the tilemaps. Out-of-bounds cells are solid
/// when at least one tilemap exists (maze walls); with no tilemaps nothing is solid.
pub open spec fn spec_tile_solid(maps: Seq<Tilemap>, x: i32, y: i32) -> bool {
    if exists|i: int| 0 <= i < maps.len() && #[trigger] maps[i].spec_solid_at(x, y) {
        true
    } else {
        maps.len() > 0 && forall|i: int| 0 <= i < maps.len() ==> !spec_in_bounds(
            #[trigger] maps[i].width,
            maps[i].height,
            x,
            y,
        )
    }
}

/// Solid query across every tilemap of a world (entity order).
pub fn tile_solid(maps: &[Tilemap], x: i32, y: i32) -> (r: bool)
    requires
        forall|i: int| 0 <= i < maps@.len() ==> (#[trigger] maps@[i]).dims_fit(),
    ensures
        r == spec_tile_solid(maps@, x, y),
{
    let mut any = false;
    let mut in_grid = false;
    let mut k: usize = 0;
    while k < maps.len()
        invariant
            k <= maps@.len(),
            forall|i: int| 0 <= i < maps@.len() ==> (#[trigger] maps@[i]).dims_fit(),
            any == (k > 0),
            in_grid == exists|i: int| 0 <= i < k && spec_in_bounds(#[trigger] maps@[i].width, maps@[i].height, x, y),
            forall|i: int| 0 <= i < k ==> !(#[trigger] maps@[i]).spec_solid_at(x, y),
        decreases maps@.len() - k,
    {
        any = true;
        if maps[k].in_bounds(x, y) {
            in_grid = true;
            if maps[k].solid_at(x, y) {
                return true;
            }
        }
        k = k + 1;
    }
    any && !in_grid
}

/// Cell id at `(x, y)` on the first tilemap that contains it, or `0`.
pub fn tile_get(maps: &[Tilemap], x: i32, y: i32) -> (r: u16)
    requires
        forall|i: int| 0 <= i < maps@.len() ==> (#[trigger] maps@[i]).dims_fit(),
    ensures
        r == (if exists|i: int| 0 <= i < maps@.len() && spec_in_bounds(#[trigger] maps@[i].width, maps@[i].height, x, y) {
            let i = choose|i: int| 0 <= i < maps@.len() && spec_in_bounds(#[trigger] maps@[i].width, maps@[i].height, x, y)
                && forall|j: int| 0 <= j < i ==> !spec_in_bounds(#[trigger] maps@[j].width, maps@[j].height, x, y);
            maps@[i].spec_get(x, y)
        } else {
            0
        }),
{
    let mut k: usize = 0;
    while k < maps.len()
        invariant
            k <= maps@.len(),
            forall|i: int| 0 <= i < maps@.len() ==> (#[trigger] maps@[i]).dims_fit(),
            forall|j: int| 0 <= j < k ==> !spec_in_bounds(#[trigger] maps@[j].width, maps@[j].height, x, y),
        decreases maps@.len() - k,
    {
        if maps[k].in_bounds(x, y) {
            proof {
                let ki = k as int;
                assert(0 <= ki < maps@.len() && spec_in_bounds(maps@[ki].width, maps@[ki].height, x, y)
                    && forall|j: int| 0 <= j < ki ==> !spec_in_bounds(#[trigger] maps@[j].width, maps@[j].height, x, y));
                let i = choose|i: int| 0 <= i < maps@.len() && spec_in_bounds(#[trigger] maps@[i].width, maps@[i].height, x, y)
                    && forall|j: int| 0 <= j < i ==> !spec_in_bounds(#[trigger] maps@[j].width, maps@[j].height, x, y);
                assert(i == ki) by {
                    if i < ki {
                    } else if i > ki {
                    }
                }
            }
            return maps[k].get(x, y);
        }
        k = k + 1;
    }
    0
}

} // verus!
