//! A drawing handle: a cell grid together with the area being drawn and
//! the style to draw with.

use vstd::prelude::*;

use crate::buffer::{Buffer, Cell};
use crate::layout::Rect;
use crate::style::Style;

verus! {

/// A high-level handle for drawing. It owns the [`Buffer`] being drawn
/// into, an area of it that drawing is clipped to, and the current style.
pub struct Frame {
    buffer: Buffer,
    area: Rect,
    style: Style,
}

impl Frame {
    /// Well-formedness: the grid is well-formed and the area lies on it.
    pub open spec fn wf(&self) -> bool {
        &&& self.buffer_spec().wf()
        &&& self.area_spec().x + self.area_spec().width <= self.buffer_spec().width_spec()
        &&& self.area_spec().y + self.area_spec().height <= self.buffer_spec().height_spec()
    }

    /// The grid being drawn into.
    pub closed spec fn buffer_spec(&self) -> Buffer {
        self.buffer
    }

    /// The area drawing is clipped to.
    pub closed spec fn area_spec(&self) -> Rect {
        self.area
    }

    /// The style characters are drawn with.
    pub closed spec fn style_spec(&self) -> Style {
        self.style
    }

    /// True when writing at column `x` of length `len` on row `y` of the
    /// area puts a character at grid position `(xx, yy)`.
    pub open spec fn writes_at(&self, x: u16, y: u16, len: int, xx: int, yy: int) -> bool {
        let a = self.area_spec();
        &&& y < a.height
        &&& yy == a.y + y
        &&& a.x + x <= xx < a.x + x + len
        &&& xx < a.x + a.width
    }

    /// A frame drawing into `buffer`, clipped to `area`, with the plain
    /// style.
    pub fn new(buffer: Buffer, area: Rect) -> (f: Frame)
        requires
            buffer.wf(),
            area.x + area.width <= buffer.width_spec(),
            area.y + area.height <= buffer.height_spec(),
        ensures
            f.wf(),
            f.buffer_spec() == buffer,
            f.area_spec() == area,
            f.style_spec() == Style::plain(),
    {
        Frame { buffer, area, style: Style::new() }
    }

    /// The width of the frame's area.
    pub fn width(&self) -> (w: u16)
        ensures
            w == self.area_spec().width,
    {
        self.area.width
    }

    /// The height of the frame's area.
    pub fn height(&self) -> (h: u16)
        ensures
            h == self.area_spec().height,
    {
        self.area.height
    }

    /// The area drawing is clipped to.
    pub fn area(&self) -> (a: Rect)
        ensures
            a == self.area_spec(),
    {
        self.area
    }

    /// A view of the grid drawn into, for reading results back.
    pub fn buffer(&self) -> (b: &Buffer)
        ensures
            *b == self.buffer_spec(),
    {
        &self.buffer
    }

    /// The grid drawn into, handed back by value.
    pub fn into_buffer(self) -> (b: Buffer)
        ensures
            b == self.buffer_spec(),
    {
        self.buffer
    }

    /// Mutable access to the grid, for copying prepared cells in.
    pub fn buffer_mut(&mut self) -> (b: &mut Buffer)
        ensures
            *b == old(self).buffer_spec(),
            final(self).buffer_spec() == *final(b),
            final(self).area_spec() == old(self).area_spec(),
            final(self).style_spec() == old(self).style_spec(),
    {
        &mut self.buffer
    }

    /// The style characters are currently drawn with.
    pub fn current_style(&self) -> (s: Style)
        ensures
            s == self.style_spec(),
    {
        self.style
    }

    /// Sets the style that later writes draw with.
    pub fn set_style(&mut self, style: Style)
        ensures
            final(self).style_spec() == style,
            final(self).buffer_spec() == old(self).buffer_spec(),
            final(self).area_spec() == old(self).area_spec(),
    {
        self.style = style;
    }

    /// Writes `text` starting at column `x`, row `y` of the area, in the
    /// current style; whatever falls outside the area is clipped.
    pub fn write_str(&mut self, x: u16, y: u16, text: &str)
        requires
            old(self).wf(),
        ensures
            final(self).wf(),
            final(self).area_spec() == old(self).area_spec(),
            final(self).style_spec() == old(self).style_spec(),
            final(self).buffer_spec().width_spec() == old(self).buffer_spec().width_spec(),
            final(self).buffer_spec().height_spec() == old(self).buffer_spec().height_spec(),
            forall|i: int|
                0 <= i < text@.len() && x + i < old(self).area_spec().width && y < old(
                    self,
                ).area_spec().height ==> #[trigger] final(self).buffer_spec().cell_at(old(
                    self,
                ).area_spec().x + x + i, old(self).area_spec().y + y) == (Cell {
                    symbol: text@[i],
                    style: old(self).style_spec(),
                }),
            forall|xx: int, yy: int|
                old(self).buffer_spec().in_bounds(xx, yy) && !old(self).writes_at(x, y,
                    text@.len() as int, xx, yy) ==> #[trigger] final(self).buffer_spec().cell_at(
                    xx, yy) == old(self).buffer_spec().cell_at(xx, yy),
    {
        let n = text.unicode_len();
        let mut i: usize = 0;
        while i < n
            invariant
                self.wf(),
                n == text@.len(),
                i <= n,
                self.area == old(self).area,
                self.style == old(self).style,
                self.buffer.width_spec() == old(self).buffer_spec().width_spec(),
                self.buffer.height_spec() == old(self).buffer_spec().height_spec(),
                forall|i2: int|
                    0 <= i2 < i && x + i2 < self.area.width && y < self.area.height
                        ==> #[trigger] self.buffer.cell_at(self.area.x + x + i2, self.area.y
                        + y) == (Cell { symbol: text@[i2], style: self.style }),
                forall|xx: int, yy: int|
                    old(self).buffer_spec().in_bounds(xx, yy) && !old(self).writes_at(x, y,
                        i as int, xx, yy) ==> #[trigger] self.buffer.cell_at(xx, yy) == old(
                        self).buffer_spec().cell_at(xx, yy),
            decreases n - i,
        {
            let c = text.get_char(i);
            let w_us: usize = self.area.width as usize;
            if y < self.area.height && (x as usize) < w_us && i < w_us - (x as usize) {
                let cx: u16 = self.area.x + x + (i as u16);
                let cy: u16 = self.area.y + y;
                self.buffer.set_cell(cx, cy, Cell { symbol: c, style: self.style });
            }
            i += 1;
        }
    }

    /// True when writing `len` characters at column `x`, row `y` of the
    /// sub-area `clip` (itself given relative to the frame's area) puts a
    /// character at grid position `(xx, yy)`.
    pub open spec fn writes_at_in(
        &self,
        clip: Rect,
        x: u16,
        y: u16,
        len: int,
        xx: int,
        yy: int,
    ) -> bool {
        let a = self.area_spec();
        &&& y < clip.height
        &&& clip.y + y < a.height
        &&& yy == a.y + clip.y + y
        &&& a.x + clip.x + x <= xx < a.x + clip.x + x + len
        &&& xx < a.x + clip.x + clip.width
        &&& xx < a.x + a.width
    }

    /// Writes `text` at column `x`, row `y` of the sub-area `clip` (given
    /// relative to the frame's area), in the current style; whatever falls
    /// outside `clip` or outside the frame's area is clipped.
    pub fn write_str_in(&mut self, clip: Rect, x: u16, y: u16, text: &str)
        requires
            old(self).wf(),
        ensures
            final(self).wf(),
            final(self).area_spec() == old(self).area_spec(),
            final(self).style_spec() == old(self).style_spec(),
            final(self).buffer_spec().width_spec() == old(self).buffer_spec().width_spec(),
            final(self).buffer_spec().height_spec() == old(self).buffer_spec().height_spec(),
            forall|i: int|
                0 <= i < text@.len() && x + i < clip.width && y < clip.height && clip.x + x + i
                    < old(self).area_spec().width && clip.y + y < old(self).area_spec().height
                    ==> #[trigger] final(self).buffer_spec().cell_at(old(self).area_spec().x
                    + clip.x + x + i, old(self).area_spec().y + clip.y + y) == (Cell {
                    symbol: text@[i],
                    style: old(self).style_spec(),
                }),
            forall|xx: int, yy: int|
                old(self).buffer_spec().in_bounds(xx, yy) && !old(self).writes_at_in(clip, x,
                    y, text@.len() as int, xx, yy) ==> #[trigger] final(
                    self).buffer_spec().cell_at(xx, yy) == old(self).buffer_spec().cell_at(xx,
                    yy),
    {
        let n = text.unicode_len();
        let mut i: usize = 0;
        while i < n
            invariant
                self.wf(),
                n == text@.len(),
                i <= n,
                self.area == old(self).area,
                self.style == old(self).style,
                self.buffer.width_spec() == old(self).buffer_spec().width_spec(),
                self.buffer.height_spec() == old(self).buffer_spec().height_spec(),
                forall|i2: int|
                    0 <= i2 < i && x + i2 < clip.width && y < clip.height && clip.x + x + i2
                        < self.area.width && clip.y + y < self.area.height
                        ==> #[trigger] self.buffer.cell_at(self.area.x + clip.x + x + i2,
                        self.area.y + clip.y + y) == (Cell {
                        symbol: text@[i2],
                        style: self.style,
                    }),
                forall|xx: int, yy: int|
                    old(self).buffer_spec().in_bounds(xx, yy) && !old(self).writes_at_in(clip,
                        x, y, i as int, xx, yy) ==> #[trigger] self.buffer.cell_at(xx, yy)
                        == old(self).buffer_spec().cell_at(xx, yy),
            decreases n - i,
        {
            let c = text.get_char(i);
            let cw_us: usize = clip.width as usize;
            if y < clip.height && (clip.y as usize + y as usize) < self.area.height as usize
                && (x as usize) < cw_us && i < cw_us - (x as usize) {
                let col_rel: usize = clip.x as usize + x as usize + i;
                if col_rel < self.area.width as usize {
                    let cx: u16 = self.area.x + (col_rel as u16);
                    let cy_us: usize = self.area.y as usize + clip.y as usize + y as usize;
                    let cy: u16 = cy_us as u16;
                    self.buffer.set_cell(cx, cy, Cell { symbol: c, style: self.style });
                }
            }
            i += 1;
        }
    }
}

} // verus!
