//! Tests for rectangles and the layout engine.

use briks::{Constraint, Direction, Layout, Rect};

#[test]
fn test_rect_calculations() {
    let rect = Rect::new(10, 10, 20, 5);
    assert_eq!(rect.area(), 100);
    assert_eq!(rect.left(), 10);
    assert_eq!(rect.right(), 30);
    assert_eq!(rect.top(), 10);
    assert_eq!(rect.bottom(), 15);
}

#[test]
fn test_layout_split_vertical() {
    let layout = Layout::new(
        Direction::Vertical,
        vec![Constraint::Length(2), Constraint::Percentage(50)],
    );
    let rect = Rect::new(0, 0, 10, 10);
    let rects = layout.split(rect);

    assert_eq!(rects.len(), 2);
    assert_eq!(rects[0], Rect::new(0, 0, 10, 2));
    assert_eq!(rects[1], Rect::new(0, 2, 10, 5));
}

#[test]
fn test_layout_split_horizontal() {
    let layout = Layout::new(
        Direction::Horizontal,
        vec![
            Constraint::Percentage(25),
            Constraint::Percentage(25),
            Constraint::Length(3),
        ],
    );
    let rect = Rect::new(4, 2, 40, 6);
    let rects = layout.split(rect);

    assert_eq!(rects.len(), 3);
    assert_eq!(rects[0], Rect::new(4, 2, 10, 6));
    assert_eq!(rects[1], Rect::new(14, 2, 10, 6));
    assert_eq!(rects[2], Rect::new(24, 2, 3, 6));
}
