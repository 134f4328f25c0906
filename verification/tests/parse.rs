//! Tests for the incremental byte-stream decoder.

use briks::{Event, KeyCode, KeyEvent};
use briks::input::Parser;

fn key(code: KeyCode) -> Event {
    Event::Key(KeyEvent::new(code))
}

#[test]
fn test_parse_simple_char() {
    let mut parser = Parser::new();
    let events = parser.parse(b"a");
    assert_eq!(events, vec![key(KeyCode::Char('a'))]);
}

#[test]
fn test_parse_enter() {
    let mut parser = Parser::new();
    let events = parser.parse(b"\r");
    assert_eq!(events, vec![key(KeyCode::Enter)]);
}

#[test]
fn test_parse_arrow() {
    let mut parser = Parser::new();
    let events = parser.parse(b"\x1b[A");
    assert_eq!(events, vec![key(KeyCode::Up)]);
}

#[test]
fn test_parse_multiple() {
    let mut parser = Parser::new();
    let events = parser.parse(b"a\rb");
    assert_eq!(
        events,
        vec![
            key(KeyCode::Char('a')),
            key(KeyCode::Enter),
            key(KeyCode::Char('b')),
        ]
    );
}

#[test]
fn test_parse_utf8() {
    let mut parser = Parser::new();
    // 'é' is 0xC3 0xA9 in UTF-8
    let events = parser.parse(&[0xc3, 0xa9]);
    assert_eq!(events, vec![key(KeyCode::Char('é'))]);
}

#[test]
fn test_parse_utf8_split_across_calls() {
    let mut parser = Parser::new();
    // The first half of 'é' alone yields nothing and stays buffered.
    let events = parser.parse(&[0xc3]);
    assert_eq!(events, vec![]);
    // The second half completes the character.
    let events = parser.parse(&[0xa9]);
    assert_eq!(events, vec![key(KeyCode::Char('é'))]);
}

#[test]
fn test_parse_lone_escape_stays_buffered() {
    let mut parser = Parser::new();
    // A lone trailing escape yields no event and remains buffered.
    let events = parser.parse(b"\x1b");
    assert_eq!(events, vec![]);
    // A disambiguating byte resolves it: escape not followed by '[' is the
    // escape key, and the new byte is an ordinary character.
    let events = parser.parse(b"a");
    assert_eq!(events, vec![key(KeyCode::Esc), key(KeyCode::Char('a'))]);
}

#[test]
fn test_parse_unrecognized_csi_resynchronizes() {
    let mut parser = Parser::new();
    // An unrecognized terminator drops only the escape byte; the rest is
    // reinterpreted as ordinary characters.
    let events = parser.parse(b"\x1b[B");
    assert_eq!(
        events,
        vec![
            key(KeyCode::Esc),
            key(KeyCode::Char('[')),
            key(KeyCode::Char('B')),
        ]
    );
}

#[test]
fn test_parse_invalid_bytes_are_skipped() {
    let mut parser = Parser::new();
    // 0xFF can begin no UTF-8 sequence: it is consumed without an event.
    let events = parser.parse(&[0xff, b'a']);
    assert_eq!(events, vec![key(KeyCode::Char('a'))]);
    // A two-byte sequence with a bad continuation byte is consumed whole.
    let events = parser.parse(&[0xc3, 0x28]);
    assert_eq!(events, vec![]);
}

#[test]
fn test_parse_chunking_invisible() {
    // Feeding the same bytes in chunks produces the same events as feeding
    // them at once, as long as no chunk ends between escape and '['.
    let bytes: &[u8] = b"ab\r\x1b[A\xc3\xa9x";
    let mut whole = Parser::new();
    let all = whole.parse(bytes);
    for split in 0..bytes.len() {
        let mut parser = Parser::new();
        let (a, b) = bytes.split_at(split);
        if a.ends_with(b"\x1b[") {
            // The one boundary the decoder's resynchronization makes
            // visible; see test_parse_csi_split_boundary.
            continue;
        }
        let _ = b;
        let mut events = parser.parse(a);
        events.extend(parser.parse(b));
        assert_eq!(events, all);
    }
}

#[test]
fn test_parse_csi_split_boundary() {
    // The one boundary chunking is visible at: a chunk ending between
    // escape and '[' makes the decoder give up on the sequence.
    let mut parser = Parser::new();
    let mut events = parser.parse(b"\x1b[");
    events.extend(parser.parse(b"A"));
    assert_eq!(
        events,
        vec![
            key(KeyCode::Esc),
            key(KeyCode::Char('[')),
            key(KeyCode::Char('A')),
        ]
    );
}
