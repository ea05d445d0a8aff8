//! The tile grid: its dimensions, validated cells and per-cell colour.
use vstd::prelude::*;

use crate::color::Color;

verus! {

/// Width and height of a tile grid, in tiles.
#[derive(Clone, Copy, Debug, PartialEq, Eq, Structural)]
pub struct GridSize {
    pub x: u32,
    pub y: u32,
}

/// A tile coordinate. Cells handed out by the grid are always in range.
#[derive(Clone, Copy, Debug, PartialEq, Eq, Structural)]
pub struct Cell {
    pub x: u32,
    pub y: u32,
}

/// Whether the integer coordinate `(x, y)` lies on a grid of the given size.
pub open spec fn in_grid(x: int, y: int, size: GridSize) -> bool {
    0 <= x < size.x && 0 <= y < size.y
}

/// Whether a cell lies on a grid of the given size.
pub open spec fn cell_in_grid(c: Cell, size: GridSize) -> bool {
    in_grid(c.x as int, c.y as int, size)
}

/// The cell at `(x, y)` when it is on the grid, nothing otherwise.
pub open spec fn tile_at(x: int, y: int, size: GridSize) -> Option<Cell> {
    if in_grid(x, y, size) {
        Some(Cell { x: x as u32, y: y as u32 })
    } else {
        None
    }
}

/// The single bounds check: a cell for an on-grid coordinate, `None` for any
/// other. Out-of-range positions are dropped, never wrapped or clamped.
pub fn try_tile_pos(x: i64, y: i64, map_size: GridSize) -> (r: Option<Cell>)
    ensures
        r == tile_at(x as int, y as int, map_size),
        r matches Some(c) ==> cell_in_grid(c, map_size) && c.x == x && c.y == y,
{
    if x >= 0 && y >= 0 && x < map_size.x as i64 && y < map_size.y as i64 {
        Some(Cell { x: x as u32, y: y as u32 })
    } else {
        None
    }
}

/// Paints `cell` with `color` in a colour map; a cell outside the map's
/// domain is ignored.
pub open spec fn paint(m: Map<Cell, Color>, cell: Cell, color: Color) -> Map<Cell, Color> {
    if m.contains_key(cell) {
        m.insert(cell, color)
    } else {
        m
    }
}

/// Painting a cell twice with one colour leaves the grid as painting it once.
pub proof fn lemma_paint_idempotent(m: Map<Cell, Color>, cell: Cell, color: Color)
    ensures
        paint(paint(m, cell, color), cell, color) == paint(m, cell, color),
{
    if m.contains_key(cell) {
        assert(m.insert(cell, color).insert(cell, color) =~= m.insert(cell, color));
    }
}

/// Position of a cell in the row-major colour vector.
pub open spec fn slot(c: Cell, size: GridSize) -> int {
    c.y * size.x + c.x
}

proof fn lemma_slot_bounds(c: Cell, size: GridSize)
    requires
        cell_in_grid(c, size),
    ensures
        0 <= slot(c, size) < size.x * size.y,
{
    let (x, y, w, h) = (c.x as int, c.y as int, size.x as int, size.y as int);
    assert(0 <= y * w + x < w * h) by (nonlinear_arith)
        requires
            0 <= x < w,
            0 <= y < h,
    ;
}

proof fn lemma_slot_injective(a: Cell, b: Cell, size: GridSize)
    requires
        cell_in_grid(a, size),
        cell_in_grid(b, size),
        slot(a, size) == slot(b, size),
    ensures
        a == b,
{
    let (ax, ay, bx, by, w) = (a.x as int, a.y as int, b.x as int, b.y as int, size.x as int);
    assert(ay == by && ax == bx) by (nonlinear_arith)
        requires
            0 <= ax < w,
            0 <= bx < w,
            0 <= ay,
            0 <= by,
            ay * w + ax == by * w + bx,
    ;
}

/// A fixed-size grid of coloured tiles. Its view maps every on-grid cell to
/// its colour.
pub struct TileGrid {
    size: GridSize,
    colors: Vec<Color>,
}

impl View for TileGrid {
    type V = Map<Cell, Color>;

    closed spec fn view(&self) -> Map<Cell, Color> {
        Map::new(
            |c: Cell| cell_in_grid(c, self.size),
            |c: Cell| self.colors@[slot(c, self.size)],
        )
    }
}

impl TileGrid {
    /// The grid's dimensions.
    pub closed spec fn spec_size(&self) -> GridSize {
        self.size
    }

    /// The colour vector holds one entry per cell, and every cell has an
    /// index that fits a `usize`.
    pub closed spec fn wf(&self) -> bool {
        &&& self.colors@.len() == self.size.x * self.size.y
        &&& self.size.x * self.size.y <= usize::MAX
    }

    /// The domain of the view is exactly the on-grid cells.
    pub proof fn lemma_domain(&self)
        ensures
            forall|c: Cell| #[trigger] self@.contains_key(c) <==> cell_in_grid(c, self.spec_size()),
    {
    }

    /// A grid of the given size with every tile in the neutral colour.
    pub fn new(size: GridSize) -> (g: TileGrid)
        requires
            size.x * size.y <= usize::MAX,
        ensures
            g.wf(),
            g.spec_size() == size,
            forall|c: Cell| #[trigger] g@.contains_key(c) <==> cell_in_grid(c, size),
            forall|c: Cell| cell_in_grid(c, size) ==> #[trigger] g@[c] == Color::White,
    {
        let n: usize = (size.x as usize) * (size.y as usize);
        let mut colors: Vec<Color> = Vec::new();
        let mut i: usize = 0;
        while i < n
            invariant
                i <= n,
                n == size.x * size.y,
                colors@.len() == i,
                forall|k: int| 0 <= k < i ==> colors@[k] == Color::White,
            decreases n - i,
        {
            colors.push(Color::White);
            i = i + 1;
        }
        let g = TileGrid { size, colors };
        assert forall|c: Cell| cell_in_grid(c, size) implies #[trigger] g@[c] == Color::White by {
            lemma_slot_bounds(c, size);
        }
        g
    }

    /// The grid's dimensions.
    pub fn size(&self) -> (r: GridSize)
        ensures
            r == self.spec_size(),
    {
        self.size
    }

    /// The cell at `(x, y)` if it is on this grid.
    pub fn try_position(&self, x: i64, y: i64) -> (r: Option<Cell>)
        ensures
            r == tile_at(x as int, y as int, self.spec_size()),
    {
        try_tile_pos(x, y, self.size)
    }

    /// The colour of a cell; the neutral colour for a cell off the grid.
    pub fn get_color(&self, cell: Cell) -> (r: Color)
        requires
            self.wf(),
        ensures
            r == (if self@.contains_key(cell) { self@[cell] } else { Color::White }),
    {
        if cell.x < self.size.x && cell.y < self.size.y {
            proof {
                lemma_slot_bounds(cell, self.size);
            }
            let i: usize = (cell.y as usize) * (self.size.x as usize) + (cell.x as usize);
            self.colors[i]
        } else {
            Color::White
        }
    }

    /// Paints one cell; a cell off the grid is ignored.
    pub fn set_color(&mut self, cell: Cell, color: Color)
        requires
            old(self).wf(),
        ensures
            final(self).wf(),
            final(self).spec_size() == old(self).spec_size(),
            final(self)@ == paint(old(self)@, cell, color),
    {
        if cell.x < self.size.x && cell.y < self.size.y {
            proof {
                lemma_slot_bounds(cell, self.size);
            }
            let i: usize = (cell.y as usize) * (self.size.x as usize) + (cell.x as usize);
            self.colors.set(i, color);
            proof {
                let size = self.size;
                assert forall|c: Cell| #[trigger] self@.contains_key(c) implies self@[c] == old(self)@.insert(cell, color)[c] by {
                    lemma_slot_bounds(c, size);
                    if c != cell {
                        if slot(c, size) == slot(cell, size) {
                            lemma_slot_injective(c, cell, size);
                        }
                    }
                }
                assert(self@ =~= old(self)@.insert(cell, color));
            }
        }
    }
}

} // verus!
