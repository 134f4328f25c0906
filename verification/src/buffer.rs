//! The cell grid a frame draws into: a rectangle of styled characters.

use vstd::prelude::*;

use crate::layout::Rect;
use crate::style::Style;

verus! {

/// One character cell of the grid, with its style.
#[derive(Debug, Clone, Copy, PartialEq, Eq)]
pub struct Cell {
    /// The character shown in the cell.
    pub symbol: char,
    /// The style the cell is drawn with.
    pub style: Style,
}

impl Cell {
    /// A blank cell: a space with no colors and no modifiers.
    pub open spec fn blank() -> Cell {
        Cell { symbol: ' ', style: Style::plain() }
    }
}

/// The smaller of two integers.
pub open spec fn min2(a: int, b: int) -> int {
    if a <= b {
        a
    } else {
        b
    }
}

/// How many cells of a run of `len` starting at `start` fall before
/// `bound`.
pub open spec fn clip_len(len: u16, start: u16, bound: u16) -> int {
    if start < bound {
        min2(len as int, (bound - start) as int)
    } else {
        0
    }
}

/// A rectangle of styled character cells, stored row by row.
pub struct Buffer {
    width: u16,
    height: u16,
    cells: Vec<Cell>,
}

proof fn lemma_mul_bound_u16(a: int, b: int)
    by (nonlinear_arith)
    requires
        0 <= a < 0x10000,
        0 <= b < 0x10000,
    ensures
        0 <= a * b <= 0xfffe0001,
{
}

proof fn lemma_grid_index_bound(x: int, y: int, w: int, h: int)
    by (nonlinear_arith)
    requires
        0 <= x < w,
        0 <= y < h,
    ensures
        0 <= y * w + x < w * h,
{
}

proof fn lemma_grid_index_injective(x1: int, y1: int, x2: int, y2: int, w: int)
    by (nonlinear_arith)
    requires
        0 <= x1 < w,
        0 <= x2 < w,
        0 <= y1,
        0 <= y2,
        y1 * w + x1 == y2 * w + x2,
    ensures
        x1 == x2 && y1 == y2,
{
}

impl Buffer {
    /// Well-formedness: the cell store holds exactly one cell per grid
    /// position.
    pub closed spec fn wf(&self) -> bool {
        self.cells@.len() == self.width as int * self.height as int
    }

    /// The grid width in columns.
    pub closed spec fn width_spec(&self) -> u16 {
        self.width
    }

    /// The grid height in rows.
    pub closed spec fn height_spec(&self) -> u16 {
        self.height
    }

    /// The cell at column `x`, row `y`.
    pub closed spec fn cell_at(&self, x: int, y: int) -> Cell
        recommends
            0 <= x < self.width_spec(),
            0 <= y < self.height_spec(),
    {
        self.cells@[y * self.width as int + x]
    }

    /// True when `(x, y)` lies on the grid.
    pub open spec fn in_bounds(&self, x: int, y: int) -> bool {
        0 <= x < self.width_spec() && 0 <= y < self.height_spec()
    }

    /// A grid of the given size, every cell blank.
    pub fn new(width: u16, height: u16) -> (b: Buffer)
        ensures
            b.wf(),
            b.width_spec() == width,
            b.height_spec() == height,
            forall|x: int, y: int| b.in_bounds(x, y) ==> b.cell_at(x, y) == Cell::blank(),
    {
        proof {
            lemma_mul_bound_u16(width as int, height as int);
        }
        let n: usize = width as usize * height as usize;
        let mut cells: Vec<Cell> = Vec::new();
        let mut k: usize = 0;
        while k < n
            invariant
                k <= n,
                cells@.len() == k,
                forall|i: int| 0 <= i < k ==> cells@[i] == Cell::blank(),
            decreases n - k,
        {
            cells.push(Cell { symbol: ' ', style: Style::new() });
            k += 1;
        }
        let b = Buffer { width, height, cells };
        proof {
            assert forall|x: int, y: int| b.in_bounds(x, y) implies b.cell_at(x, y)
                == Cell::blank() by {
                lemma_grid_index_bound(x, y, width as int, height as int);
            }
        }
        b
    }

    /// The grid width in columns.
    pub fn width(&self) -> (w: u16)
        ensures
            w == self.width_spec(),
    {
        self.width
    }

    /// The grid height in rows.
    pub fn height(&self) -> (h: u16)
        ensures
            h == self.height_spec(),
    {
        self.height
    }

    /// The cell at column `x`, row `y`.
    pub fn get(&self, x: u16, y: u16) -> (c: Cell)
        requires
            self.wf(),
            self.in_bounds(x as int, y as int),
        ensures
            c == self.cell_at(x as int, y as int),
    {
        proof {
            lemma_grid_index_bound(x as int, y as int, self.width as int, self.height as int);
            lemma_mul_bound_u16(self.width as int, self.height as int);
        }
        let i: usize = y as usize * self.width as usize + x as usize;
        self.cells[i]
    }

    /// Puts `cell` at column `x`, row `y`; a position off the grid is
    /// ignored.
    pub fn set_cell(&mut self, x: u16, y: u16, cell: Cell)
        requires
            old(self).wf(),
        ensures
            final(self).wf(),
            final(self).width_spec() == old(self).width_spec(),
            final(self).height_spec() == old(self).height_spec(),
            old(self).in_bounds(x as int, y as int) ==> final(self).cell_at(x as int, y as int)
                == cell,
            forall|xx: int, yy: int|
                old(self).in_bounds(xx, yy) && !(xx == x as int && yy == y as int) ==> final(self).cell_at(xx, yy) == old(self).cell_at(xx, yy),
            !old(self).in_bounds(x as int, y as int) ==> *final(self) == *old(self),
    {
        if x < self.width && y < self.height {
            proof {
                lemma_grid_index_bound(x as int, y as int, self.width as int,
                    self.height as int);
                lemma_mul_bound_u16(self.width as int, self.height as int);
            }
            let i: usize = y as usize * self.width as usize + x as usize;
            self.cells.set(i, cell);
            proof {
                assert forall|xx: int, yy: int|
                    old(self).in_bounds(xx, yy) && !(xx == x as int && yy
                        == y as int) implies self.cell_at(xx, yy) == old(self).cell_at(xx,
                    yy) by {
                    lemma_grid_index_bound(xx, yy, self.width as int, self.height as int);
                    if yy * self.width as int + xx == y as int * self.width as int + x as int {
                        lemma_grid_index_injective(xx, yy, x as int, y as int,
                            self.width as int);
                    }
                }
            }
        }
    }

    /// Puts `symbol` at column `x`, row `y`, keeping the cell's style; a
    /// position off the grid is ignored.
    pub fn set(&mut self, x: u16, y: u16, symbol: char)
        requires
            old(self).wf(),
        ensures
            final(self).wf(),
            final(self).width_spec() == old(self).width_spec(),
            final(self).height_spec() == old(self).height_spec(),
            old(self).in_bounds(x as int, y as int) ==> final(self).cell_at(x as int, y as int)
                == (Cell { symbol, style: old(self).cell_at(x as int, y as int).style }),
            forall|xx: int, yy: int|
                old(self).in_bounds(xx, yy) && !(xx == x as int && yy == y as int) ==> final(self).cell_at(xx, yy) == old(self).cell_at(xx, yy),
            !old(self).in_bounds(x as int, y as int) ==> *final(self) == *old(self),
    {
        if x < self.width && y < self.height {
            let style = self.get(x, y).style;
            self.set_cell(x, y, Cell { symbol, style });
        }
    }

    /// Copies the cells of `src` inside `src_rect` onto this grid with the
    /// rectangle's corner moved to `(dst_x, dst_y)`, clipping to both
    /// grids.
    pub fn copy_from(&mut self, src: &Buffer, src_rect: Rect, dst_x: u16, dst_y: u16)
        requires
            old(self).wf(),
            src.wf(),
        ensures
            final(self).wf(),
            final(self).width_spec() == old(self).width_spec(),
            final(self).height_spec() == old(self).height_spec(),
            ({
                let cw = min2(clip_len(src_rect.width, src_rect.x, src.width_spec()), clip_len(
                    src_rect.width, dst_x, old(self).width_spec()));
                let ch = min2(clip_len(src_rect.height, src_rect.y, src.height_spec()),
                    clip_len(src_rect.height, dst_y, old(self).height_spec()));
                &&& forall|i: int, j: int|
                    0 <= i < cw && 0 <= j < ch ==> #[trigger] final(self).cell_at(dst_x + i,
                        dst_y + j) == src.cell_at(src_rect.x + i, src_rect.y + j)
                &&& forall|xx: int, yy: int|
                    old(self).in_bounds(xx, yy) && !(dst_x <= xx < dst_x + cw && dst_y <= yy
                        < dst_y + ch) ==> #[trigger] final(self).cell_at(xx, yy) == old(
                        self).cell_at(xx, yy)
            }),
    {
        let ghost cw = min2(clip_len(src_rect.width, src_rect.x, src.width_spec()), clip_len(
            src_rect.width, dst_x, old(self).width_spec()));
        let ghost ch = min2(clip_len(src_rect.height, src_rect.y, src.height_spec()), clip_len(
            src_rect.height, dst_y, old(self).height_spec()));
        let src_w_avail: u16 = if src_rect.x < src.width {
            src.width - src_rect.x
        } else {
            0
        };
        let dst_w_avail: u16 = if dst_x < self.width {
            self.width - dst_x
        } else {
            0
        };
        let src_h_avail: u16 = if src_rect.y < src.height {
            src.height - src_rect.y
        } else {
            0
        };
        let dst_h_avail: u16 = if dst_y < self.height {
            self.height - dst_y
        } else {
            0
        };
        let mut w: u16 = src_rect.width;
        if src_w_avail < w {
            w = src_w_avail;
        }
        if dst_w_avail < w {
            w = dst_w_avail;
        }
        let mut h: u16 = src_rect.height;
        if src_h_avail < h {
            h = src_h_avail;
        }
        if dst_h_avail < h {
            h = dst_h_avail;
        }
        assert(w == cw && h == ch);
        let mut j: u16 = 0;
        while j < h
            invariant
                old(self).wf(),
                src.wf(),
                self.wf(),
                self.width_spec() == old(self).width_spec(),
                self.height_spec() == old(self).height_spec(),
                j <= h,
                cw == w as int,
                ch == h as int,
                w as int <= clip_len(src_rect.width, src_rect.x, src.width_spec()),
                w as int <= clip_len(src_rect.width, dst_x, old(self).width_spec()),
                h as int <= clip_len(src_rect.height, src_rect.y, src.height_spec()),
                h as int <= clip_len(src_rect.height, dst_y, old(self).height_spec()),
                forall|i2: int, j2: int|
                    0 <= i2 < w as int && 0 <= j2 < j as int ==> #[trigger] self.cell_at(
                        dst_x + i2, dst_y + j2) == src.cell_at(src_rect.x + i2,
                        src_rect.y + j2),
                forall|xx: int, yy: int|
                    old(self).in_bounds(xx, yy) && !(dst_x <= xx < dst_x + w as int && dst_y
                        <= yy < dst_y + j as int) ==> #[trigger] self.cell_at(xx, yy) == old(
                        self).cell_at(xx, yy),
            decreases h - j,
        {
            let mut i: u16 = 0;
            while i < w
                invariant
                    old(self).wf(),
                    src.wf(),
                    self.wf(),
                    self.width_spec() == old(self).width_spec(),
                    self.height_spec() == old(self).height_spec(),
                    i <= w,
                    j < h,
                    w as int <= clip_len(src_rect.width, src_rect.x, src.width_spec()),
                    w as int <= clip_len(src_rect.width, dst_x, old(self).width_spec()),
                    h as int <= clip_len(src_rect.height, src_rect.y, src.height_spec()),
                    h as int <= clip_len(src_rect.height, dst_y, old(self).height_spec()),
                    forall|i2: int, j2: int|
                        0 <= i2 < w as int && 0 <= j2 < j as int ==> #[trigger] self.cell_at(
                            dst_x + i2, dst_y + j2) == src.cell_at(src_rect.x + i2,
                            src_rect.y + j2),
                    forall|i2: int|
                        0 <= i2 < i as int ==> #[trigger] self.cell_at(dst_x + i2,
                            dst_y + j as int) == src.cell_at(src_rect.x + i2,
                            src_rect.y + j as int),
                    forall|xx: int, yy: int|
                        old(self).in_bounds(xx, yy) && !(dst_x <= xx < dst_x + w as int
                            && dst_y <= yy < dst_y + j as int) && !(dst_x <= xx < dst_x
                            + i as int && yy == dst_y + j as int) ==> #[trigger] self.cell_at(
                            xx, yy) == old(self).cell_at(xx, yy),
                decreases w - i,
            {
                let c = src.get(src_rect.x + i, src_rect.y + j);
                self.set_cell(dst_x + i, dst_y + j, c);
                i += 1;
            }
            j += 1;
        }
    }
}

} // verus!
