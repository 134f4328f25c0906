//! Types describing the appearance of text: ANSI-style colors and text
//! modifiers such as bold, italic and underline.

use vstd::prelude::*;

verus! {

/// A terminal color.
#[derive(Debug, Clone, Copy, PartialEq, Eq, Structural)]
pub enum Color {
    Reset,
    Black,
    Red,
    Green,
    Yellow,
    Blue,
    Magenta,
    Cyan,
    White,
    BrightBlack,
    BrightRed,
    BrightGreen,
    BrightYellow,
    BrightBlue,
    BrightMagenta,
    BrightCyan,
    BrightWhite,
    /// A color of the 256-color palette.
    Indexed(u8),
    /// A direct red-green-blue color.
    Rgb(u8, u8, u8),
}

/// The value of `c` as a hexadecimal digit, or -1 when it is none.
pub open spec fn hex_digit_val(c: char) -> int {
    let u = c as u32;
    if 48 <= u <= 57 {
        u - 48
    } else if 97 <= u <= 102 {
        u - 87
    } else if 65 <= u <= 70 {
        u - 55
    } else {
        -1
    }
}

/// The byte value of the two-character chunk `c0`, `c1` read as hexadecimal
/// (an optional leading plus sign before a single digit is accepted), or -1
/// when the chunk is not a number.
pub open spec fn hex_pair_val(c0: char, c1: char) -> int {
    if hex_digit_val(c0) >= 0 && hex_digit_val(c1) >= 0 {
        hex_digit_val(c0) * 16 + hex_digit_val(c1)
    } else if c0 == '+' && hex_digit_val(c1) >= 0 {
        hex_digit_val(c1)
    } else {
        -1
    }
}

/// The characters of `s` with one leading `#`, if any, removed.
pub open spec fn hex_body(s: Seq<char>) -> Seq<char> {
    if s.len() >= 1 && s[0] == '#' {
        s.skip(1)
    } else {
        s
    }
}

/// The color denoted by `s` as a six-digit hexadecimal triple, with an
/// optional leading `#`, or None when `s` has another shape.
pub open spec fn from_hex_spec(s: Seq<char>) -> Option<Color> {
    let b = hex_body(s);
    if b.len() == 6 && hex_pair_val(b[0], b[1]) >= 0 && hex_pair_val(b[2], b[3]) >= 0
        && hex_pair_val(b[4], b[5]) >= 0 {
        Some(
            Color::Rgb(
                hex_pair_val(b[0], b[1]) as u8,
                hex_pair_val(b[2], b[3]) as u8,
                hex_pair_val(b[4], b[5]) as u8,
            ),
        )
    } else {
        None
    }
}

/// The value of `c` as a hexadecimal digit, or -1 when it is none.
fn hex_digit(c: char) -> (v: i32)
    ensures
        v == hex_digit_val(c),
{
    let u = c as u32;
    if 48 <= u && u <= 57 {
        (u - 48) as i32
    } else if 97 <= u && u <= 102 {
        (u - 87) as i32
    } else if 65 <= u && u <= 70 {
        (u - 55) as i32
    } else {
        -1
    }
}

/// The byte value of a two-character hexadecimal chunk, or -1.
fn hex_pair(c0: char, c1: char) -> (v: i32)
    ensures
        v == hex_pair_val(c0, c1),
{
    let d0 = hex_digit(c0);
    let d1 = hex_digit(c1);
    if d0 >= 0 && d1 >= 0 {
        d0 * 16 + d1
    } else if c0 == '+' && d1 >= 0 {
        d1
    } else {
        -1
    }
}

impl Color {
    /// Reads a color from a six-digit hexadecimal triple such as
    /// `#ff5733`, with the leading `#` optional.
    pub fn from_hex(hex: &str) -> (r: Option<Color>)
        ensures
            r == from_hex_spec(hex@),
    {
        let n = hex.unicode_len();
        let start: usize = if n >= 1 && hex.get_char(0) == '#' {
            1
        } else {
            0
        };
        proof {
            assert(hex_body(hex@) =~= hex@.skip(start as int));
        }
        if n - start != 6 {
            return None;
        }
        let p0 = hex_pair(hex.get_char(start), hex.get_char(start + 1));
        let p1 = hex_pair(hex.get_char(start + 2), hex.get_char(start + 3));
        let p2 = hex_pair(hex.get_char(start + 4), hex.get_char(start + 5));
        if p0 >= 0 && p1 >= 0 && p2 >= 0 {
            Some(Color::Rgb(p0 as u8, p1 as u8, p2 as u8))
        } else {
            None
        }
    }
}

/// A set of text modifiers, kept as a bit mask.
#[derive(Debug, Clone, Copy, PartialEq, Eq, Structural)]
pub struct Modifier(pub u16);

impl Modifier {
    /// The set holding only bold.
    pub fn bold() -> (m: Modifier)
        ensures
            m == Modifier(0b0000_0001u16),
    {
        Modifier(0b0000_0001)
    }

    /// The set holding only italic.
    pub fn italic() -> (m: Modifier)
        ensures
            m == Modifier(0b0000_0010u16),
    {
        Modifier(0b0000_0010)
    }

    /// The set holding only underline.
    pub fn underline() -> (m: Modifier)
        ensures
            m == Modifier(0b0000_0100u16),
    {
        Modifier(0b0000_0100)
    }

    /// The set holding only reverse video.
    pub fn reversed() -> (m: Modifier)
        ensures
            m == Modifier(0b0000_1000u16),
    {
        Modifier(0b0000_1000)
    }

    /// The set holding only dim.
    pub fn dim() -> (m: Modifier)
        ensures
            m == Modifier(0b0001_0000u16),
    {
        Modifier(0b0001_0000)
    }

    /// The empty modifier set.
    pub fn empty() -> (m: Modifier)
        ensures
            m == Modifier(0u16),
    {
        Modifier(0)
    }

    /// True when every modifier of `other` is also in `self`.
    pub fn contains(self, other: Modifier) -> (r: bool)
        ensures
            r == ((self.0 & other.0) == other.0),
    {
        (self.0 & other.0) == other.0
    }

    /// Adds the modifiers of `other` to the set.
    pub fn insert(&mut self, other: Modifier)
        ensures
            final(self).0 == (old(self).0 | other.0),
    {
        self.0 = self.0 | other.0;
    }

    /// The union of the two modifier sets.
    pub fn with(self, other: Modifier) -> (r: Modifier)
        ensures
            r.0 == (self.0 | other.0),
    {
        Modifier(self.0 | other.0)
    }
}

impl Default for Modifier {
    /// The empty modifier set.
    fn default() -> (m: Self)
        ensures
            m == Modifier(0u16),
    {
        Modifier(0)
    }
}

/// The visual style of a cell: optional foreground and background colors,
/// and a set of text modifiers.
#[derive(Debug, Clone, Copy, PartialEq, Eq)]
pub struct Style {
    /// The foreground color, if any is set.
    pub foreground: Option<Color>,
    /// The background color, if any is set.
    pub background: Option<Color>,
    /// The text modifiers.
    pub modifiers: Modifier,
}

impl Style {
    /// A style with no colors and no modifiers, as a spec value.
    pub open spec fn plain() -> Style {
        Style { foreground: None, background: None, modifiers: Modifier(0) }
    }

    /// A style with no colors and no modifiers.
    pub fn new() -> (s: Style)
        ensures
            s == Style::plain(),
    {
        Style { foreground: None, background: None, modifiers: Modifier(0) }
    }

    /// The same style with the foreground color set.
    pub fn fg(self, color: Color) -> (s: Style)
        ensures
            s == (Style { foreground: Some(color), ..self }),
    {
        Style { foreground: Some(color), ..self }
    }

    /// The same style with the background color set.
    pub fn bg(self, color: Color) -> (s: Style)
        ensures
            s == (Style { background: Some(color), ..self }),
    {
        Style { background: Some(color), ..self }
    }

    /// The same style with the given modifiers added.
    pub fn modifier(self, modifier: Modifier) -> (s: Style)
        ensures
            s == (Style { modifiers: Modifier(self.modifiers.0 | modifier.0), ..self }),
    {
        let mut m = self.modifiers;
        m.insert(modifier);
        Style { modifiers: m, ..self }
    }
}

impl Default for Style {
    /// A style with no colors and no modifiers.
    fn default() -> (s: Self)
        ensures
            s == Style::plain(),
    {
        Style::new()
    }
}

} // verus!
