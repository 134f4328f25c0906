//! Tests for the text and scrollable widgets.

use briks::widgets::{Scrollable, Text};
use briks::{Buffer, Color, Frame, Rect, Style, Widget};

#[test]
fn test_text_render() {
    let buffer = Buffer::new(10, 1);
    let mut frame = Frame::new(buffer, Rect::new(0, 0, 10, 1));
    let text = Text::new("Hello");

    text.render(Rect::new(0, 0, 10, 1), &mut frame);

    let buffer = frame.buffer();
    assert_eq!(buffer.get(0, 0).symbol, 'H');
    assert_eq!(buffer.get(4, 0).symbol, 'o');
}

#[test]
fn test_text_styled_render() {
    let buffer = Buffer::new(10, 1);
    let mut frame = Frame::new(buffer, Rect::new(0, 0, 10, 1));
    let style = Style::new().fg(Color::Red);
    let text = Text::new("A").style(style);

    text.render(Rect::new(0, 0, 10, 1), &mut frame);

    let buffer = frame.buffer();
    assert_eq!(buffer.get(0, 0).symbol, 'A');
    assert_eq!(buffer.get(0, 0).style.foreground, Some(Color::Red));
}

#[test]
fn test_text_wrap() {
    let buffer = Buffer::new(5, 3);
    let mut frame = Frame::new(buffer, Rect::new(0, 0, 5, 3));
    let text = Text::new("Hello World").wrap(true);

    text.render(Rect::new(0, 0, 5, 3), &mut frame);

    let buffer = frame.buffer();
    // "Hello" (5 characters) fits on row 0.
    assert_eq!(buffer.get(0, 0).symbol, 'H');
    assert_eq!(buffer.get(4, 0).symbol, 'o');
    // "World" (5 characters) wraps to row 1.
    assert_eq!(buffer.get(0, 1).symbol, 'W');
    assert_eq!(buffer.get(4, 1).symbol, 'd');
}

#[test]
fn test_scrollable_render() {
    let buffer = Buffer::new(5, 1);
    let mut frame = Frame::new(buffer, Rect::new(0, 0, 5, 1));

    // The text is "Hello World" (11 characters), drawn into a 20 by 1
    // virtual grid; scrolled by 6 the viewport starts at 'W'.
    let text = Text::new("Hello World");
    let scrollable = Scrollable::new(text).virtual_size(20, 1).scroll(6, 0);

    scrollable.render(Rect::new(0, 0, 5, 1), &mut frame);

    let buffer = frame.buffer();
    assert_eq!(buffer.get(0, 0).symbol, 'W');
    assert_eq!(buffer.get(1, 0).symbol, 'o');
    assert_eq!(buffer.get(4, 0).symbol, 'd');
}
