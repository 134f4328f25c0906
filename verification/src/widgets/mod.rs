//! Reusable UI components that draw themselves into a [`Frame`].

use vstd::prelude::*;

use crate::frame::Frame;
use crate::layout::Rect;

pub mod scrollable;
pub mod text;

pub use scrollable::Scrollable;
pub use text::Text;

verus! {

/// True when grid position `(xx, yy)` lies inside the part of `area`
/// (given relative to the frame's area) that falls on the frame.
pub open spec fn area_covers(f: Frame, area: Rect, xx: int, yy: int) -> bool {
    let fa = f.area_spec();
    &&& fa.x + area.x <= xx < fa.x + area.x + area.width
    &&& xx < fa.x + fa.width
    &&& fa.y + area.y <= yy < fa.y + area.y + area.height
    &&& yy < fa.y + fa.height
}

/// The interface of every UI component: drawing itself into the given
/// area of a frame. Rendering keeps the frame well-formed and touches no
/// cell outside the area it was given.
pub trait Widget: Sized {
    /// Draws the widget into `area`, given relative to the frame's area.
    fn render(self, area: Rect, frame: &mut Frame)
        requires
            old(frame).wf(),
        ensures
            final(frame).wf(),
            final(frame).area_spec() == old(frame).area_spec(),
            final(frame).style_spec() == old(frame).style_spec(),
            final(frame).buffer_spec().width_spec() == old(frame).buffer_spec().width_spec(),
            final(frame).buffer_spec().height_spec() == old(frame).buffer_spec().height_spec(),
            forall|xx: int, yy: int|
                old(frame).buffer_spec().in_bounds(xx, yy) && !area_covers(*old(frame), area,
                    xx, yy) ==> #[trigger] final(frame).buffer_spec().cell_at(xx, yy) == old(
                    frame,
                ).buffer_spec().cell_at(xx, yy),
    ;
}

} // verus!
