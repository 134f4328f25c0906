//! A widget that renders its child into a virtual grid and shows a
//! scrolled viewport of it.

use vstd::prelude::*;

use crate::buffer::Buffer;
use crate::frame::Frame;
use crate::layout::Rect;
use crate::widgets::Widget;

verus! {

/// A wrapper widget: its child draws into a virtual grid of a chosen
/// size, and the wrapper copies the part starting at the scroll offset
/// into the area it is rendered to.
pub struct Scrollable<W> {
    content: W,
    x: u16,
    y: u16,
    width: u16,
    height: u16,
}

impl<W> Scrollable<W> {
    /// The wrapped widget.
    pub closed spec fn content_spec(&self) -> W {
        self.content
    }

    /// The scroll offset, as (column, row) of the virtual grid.
    pub closed spec fn scroll_spec(&self) -> (u16, u16) {
        (self.x, self.y)
    }

    /// The virtual grid's size, as (width, height).
    pub closed spec fn virtual_size_spec(&self) -> (u16, u16) {
        (self.width, self.height)
    }

    /// Wraps `content` with a 100 by 100 virtual grid and no scroll.
    pub fn new(content: W) -> (s: Scrollable<W>)
        ensures
            s.content_spec() == content,
            s.scroll_spec() == (0u16, 0u16),
            s.virtual_size_spec() == (100u16, 100u16),
    {
        Scrollable { content, x: 0, y: 0, width: 100, height: 100 }
    }

    /// The same widget with the scroll offset set.
    pub fn scroll(self, x: u16, y: u16) -> (s: Scrollable<W>)
        ensures
            s.content_spec() == self.content_spec(),
            s.scroll_spec() == (x, y),
            s.virtual_size_spec() == self.virtual_size_spec(),
    {
        Scrollable { x, y, ..self }
    }

    /// The same widget with the virtual grid's size set.
    pub fn virtual_size(self, width: u16, height: u16) -> (s: Scrollable<W>)
        ensures
            s.content_spec() == self.content_spec(),
            s.scroll_spec() == self.scroll_spec(),
            s.virtual_size_spec() == (width, height),
    {
        Scrollable { width, height, ..self }
    }
}

impl<W: Widget> Widget for Scrollable<W> {
    fn render(self, area: Rect, frame: &mut Frame) {
        let buffer = Buffer::new(self.width, self.height);
        let tmp_area = Rect::new(0, 0, self.width, self.height);
        let mut tmp_frame = Frame::new(buffer, tmp_area);
        self.content.render(tmp_area, &mut tmp_frame);
        let src = tmp_frame.into_buffer();

        let fa = frame.area();
        let avail_w_src: u16 = if self.x < self.width {
            self.width - self.x
        } else {
            0
        };
        let avail_h_src: u16 = if self.y < self.height {
            self.height - self.y
        } else {
            0
        };
        let avail_w_dst: u16 = if area.x < fa.width {
            fa.width - area.x
        } else {
            0
        };
        let avail_h_dst: u16 = if area.y < fa.height {
            fa.height - area.y
        } else {
            0
        };
        let mut cw: u16 = area.width;
        if avail_w_src < cw {
            cw = avail_w_src;
        }
        if avail_w_dst < cw {
            cw = avail_w_dst;
        }
        let mut ch: u16 = area.height;
        if avail_h_src < ch {
            ch = avail_h_src;
        }
        if avail_h_dst < ch {
            ch = avail_h_dst;
        }
        if cw > 0 && ch > 0 {
            let dst_x: u16 = fa.x + area.x;
            let dst_y: u16 = fa.y + area.y;
            let src_rect = Rect::new(self.x, self.y, cw, ch);
            let b = frame.buffer_mut();
            b.copy_from(&src, src_rect, dst_x, dst_y);
        }
    }
}

} // verus!
