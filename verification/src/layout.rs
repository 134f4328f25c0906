//! Division of terminal space.
//!
//! [`Rect`] is a rectangular area of the screen; [`Layout`] splits one into
//! sub-rectangles following a list of [`Constraint`]s.

use vstd::prelude::*;

verus! {

/// The direction in which a rectangle is split.
#[derive(Debug, Clone, Copy, PartialEq, Eq, Structural)]
pub enum Direction {
    /// Split into side-by-side columns.
    Horizontal,
    /// Split into stacked rows.
    Vertical,
}

/// The size demanded for one segment of a layout.
#[derive(Debug, Clone, Copy, PartialEq, Eq, Structural)]
pub enum Constraint {
    /// A percentage of the available space (0 to 100).
    Percentage(u16),
    /// A fixed number of cells.
    Length(u16),
}

/// A rectangular area on the screen.
#[derive(Debug, Clone, Copy, PartialEq, Eq, Structural)]
pub struct Rect {
    /// The column of the top-left corner.
    pub x: u16,
    /// The row of the top-left corner.
    pub y: u16,
    /// The width in columns.
    pub width: u16,
    /// The height in rows.
    pub height: u16,
}

impl Rect {
    /// A rectangle from its corner and size.
    pub fn new(x: u16, y: u16, width: u16, height: u16) -> (r: Rect)
        ensures
            r == (Rect { x, y, width, height }),
    {
        Rect { x, y, width, height }
    }

    /// The number of cells in the rectangle.
    pub fn area(&self) -> (a: u16)
        requires
            self.width * self.height <= u16::MAX,
        ensures
            a == self.width * self.height,
    {
        self.width * self.height
    }

    /// The column of the left edge.
    pub fn left(&self) -> (c: u16)
        ensures
            c == self.x,
    {
        self.x
    }

    /// The column just past the right edge.
    pub fn right(&self) -> (c: u16)
        requires
            self.x + self.width <= u16::MAX,
        ensures
            c == self.x + self.width,
    {
        self.x + self.width
    }

    /// The row of the top edge.
    pub fn top(&self) -> (r: u16)
        ensures
            r == self.y,
    {
        self.y
    }

    /// The row just past the bottom edge.
    pub fn bottom(&self) -> (r: u16)
        requires
            self.y + self.height <= u16::MAX,
        ensures
            r == self.y + self.height,
    {
        self.y + self.height
    }
}

impl Default for Rect {
    /// The empty rectangle at the origin.
    fn default() -> (r: Self)
        ensures
            r == (Rect { x: 0, y: 0, width: 0, height: 0 }),
    {
        Rect { x: 0, y: 0, width: 0, height: 0 }
    }
}

/// The cells a segment takes along the primary direction: its fixed length,
/// or its percentage of `total` rounded down.
pub open spec fn seg_size(c: Constraint, total: u16) -> int {
    match c {
        Constraint::Length(l) => l as int,
        Constraint::Percentage(p) => (p * total) / 100,
    }
}

/// The offset along the primary direction where segment `i` starts: the sum
/// of the sizes of the segments before it.
pub open spec fn seg_offset(cs: Seq<Constraint>, total: u16, i: int) -> int
    decreases i,
{
    if i <= 0 {
        0
    } else {
        seg_offset(cs, total, i - 1) + seg_size(cs[i - 1], total)
    }
}

proof fn lemma_seg_size_nonneg(c: Constraint, total: u16)
    ensures
        seg_size(c, total) >= 0,
{
}

proof fn lemma_seg_offset_mono(cs: Seq<Constraint>, total: u16, i: int, j: int)
    requires
        0 <= i <= j,
    ensures
        seg_offset(cs, total, i) <= seg_offset(cs, total, j),
    decreases j - i,
{
    if i < j {
        lemma_seg_offset_mono(cs, total, i, j - 1);
        lemma_seg_size_nonneg(cs[j - 1], total);
    }
}

/// A layout: a split direction and the constraints of its segments.
pub struct Layout {
    /// The direction of the split.
    pub direction: Direction,
    /// The constraints, one per segment.
    pub constraints: Vec<Constraint>,
}

impl Layout {
    /// The space `rect` offers along the primary direction of the split.
    pub open spec fn primary_total(&self, rect: Rect) -> u16 {
        match self.direction {
            Direction::Horizontal => rect.width,
            Direction::Vertical => rect.height,
        }
    }

    /// The coordinate where the split starts along the primary direction.
    pub open spec fn primary_start(&self, rect: Rect) -> int {
        match self.direction {
            Direction::Horizontal => rect.x as int,
            Direction::Vertical => rect.y as int,
        }
    }

    /// The sub-rectangle that segment `i` of the split of `rect` gets.
    pub open spec fn seg_rect(&self, rect: Rect, i: int) -> Rect {
        let total = self.primary_total(rect);
        let off = seg_offset(self.constraints@, total, i);
        let size = seg_size(self.constraints@[i], total);
        match self.direction {
            Direction::Horizontal => Rect {
                x: (rect.x + off) as u16,
                y: rect.y,
                width: size as u16,
                height: rect.height,
            },
            Direction::Vertical => Rect {
                x: rect.x,
                y: (rect.y + off) as u16,
                width: rect.width,
                height: size as u16,
            },
        }
    }

    /// A layout from a direction and constraints.
    pub fn new(direction: Direction, constraints: Vec<Constraint>) -> (l: Layout)
        ensures
            l.direction == direction,
            l.constraints == constraints,
    {
        Layout { direction, constraints }
    }

    /// Splits `rect` into one sub-rectangle per constraint, packed along
    /// the primary direction in constraint order.
    pub fn split(&self, rect: Rect) -> (r: Vec<Rect>)
        requires
            forall|i: int|
                0 <= i < self.constraints@.len() ==> ((#[trigger] self.constraints@[i]) matches
                Constraint::Percentage(p) ==> p * self.primary_total(rect) <= u16::MAX),
            self.primary_start(rect) + seg_offset(self.constraints@, self.primary_total(rect),
                self.constraints@.len() as int) <= u16::MAX,
        ensures
            r@.len() == self.constraints@.len(),
            forall|i: int| 0 <= i < r@.len() ==> r@[i] == self.seg_rect(rect, i),
    {
        let ghost cs = self.constraints@;
        let mut rects: Vec<Rect> = Vec::new();
        let total: u16 = match self.direction {
            Direction::Horizontal => rect.width,
            Direction::Vertical => rect.height,
        };
        let start_x = rect.x;
        let start_y = rect.y;
        let mut offset: u16 = 0;
        let n = self.constraints.len();
        let mut idx: usize = 0;
        while idx < n
            invariant
                n == cs.len(),
                cs == self.constraints@,
                idx <= n,
                total == self.primary_total(rect),
                start_x == rect.x,
                start_y == rect.y,
                offset == seg_offset(cs, total, idx as int),
                self.primary_start(rect) + seg_offset(cs, total, n as int) <= u16::MAX,
                forall|i: int|
                    0 <= i < cs.len() ==> ((#[trigger] cs[i]) matches Constraint::Percentage(p)
                        ==> p * total <= u16::MAX),
                rects@.len() == idx,
                forall|i: int| 0 <= i < idx ==> rects@[i] == self.seg_rect(rect, i),
            decreases n - idx,
        {
            proof {
                lemma_seg_offset_mono(cs, total, idx as int, n as int);
                lemma_seg_offset_mono(cs, total, idx + 1, n as int);
                lemma_seg_size_nonneg(cs[idx as int], total);
            }
            let size: u16 = match self.constraints[idx] {
                Constraint::Length(l) => l,
                Constraint::Percentage(p) => (p * total) / 100,
            };
            assert(size == seg_size(cs[idx as int], total));
            let sub_rect = match self.direction {
                Direction::Horizontal => Rect {
                    x: start_x + offset,
                    y: start_y,
                    width: size,
                    height: rect.height,
                },
                Direction::Vertical => Rect {
                    x: start_x,
                    y: start_y + offset,
                    width: rect.width,
                    height: size,
                },
            };
            rects.push(sub_rect);
            offset = offset + size;
            idx += 1;
        }
        rects
    }
}

} // verus!
