//! Tests for the buffer and the drawing frame.

use briks::{Buffer, Frame, Rect};

#[test]
fn test_frame_write_str() {
    let buffer = Buffer::new(10, 1);
    let mut frame = Frame::new(buffer, Rect::new(0, 0, 10, 1));

    frame.write_str(2, 0, "Hello");

    let buffer = frame.buffer();
    assert_eq!(buffer.get(1, 0).symbol, ' ');
    assert_eq!(buffer.get(2, 0).symbol, 'H');
    assert_eq!(buffer.get(6, 0).symbol, 'o');
    assert_eq!(buffer.get(7, 0).symbol, ' ');
}

#[test]
fn test_frame_write_str_clipping() {
    let buffer = Buffer::new(5, 1);
    let mut frame = Frame::new(buffer, Rect::new(0, 0, 5, 1));

    // "Hello World" is 11 characters, the frame is 5 wide.
    // Starting at 2, only "Hel" fits.
    frame.write_str(2, 0, "Hello World");

    let buffer = frame.buffer();
    assert_eq!(buffer.get(1, 0).symbol, ' ');
    assert_eq!(buffer.get(2, 0).symbol, 'H');
    assert_eq!(buffer.get(4, 0).symbol, 'l');
}

#[test]
fn test_buffer_set_and_get() {
    let mut buffer = Buffer::new(3, 2);
    buffer.set(2, 1, 'x');
    assert_eq!(buffer.get(2, 1).symbol, 'x');
    assert_eq!(buffer.get(0, 0).symbol, ' ');
    // A position off the grid is ignored.
    buffer.set(3, 0, 'y');
    buffer.set(0, 2, 'z');
    assert_eq!(buffer.get(0, 0).symbol, ' ');
}
