//! A widget that displays a string of text, optionally word-wrapped.

use vstd::prelude::*;

use crate::buffer::Cell;
use crate::frame::Frame;
use crate::layout::Rect;
use crate::style::Style;
use crate::widgets::{area_covers, Widget};

verus! {

/// True for the characters that separate words within a line.
pub open spec fn is_wrap_space(c: char) -> bool {
    c == ' ' || c == '\t' || c == '\r'
}

/// The index just past the word starting at `i`: the first position at or
/// after `i` holding a space or a line break, or the end of the text.
pub open spec fn word_end(s: Seq<char>, i: int) -> int
    decreases s.len() - i,
    when 0 <= i <= s.len()
{
    if i >= s.len() {
        i
    } else if is_wrap_space(s[i]) || s[i] == '\n' {
        i
    } else {
        word_end(s, i + 1)
    }
}

proof fn lemma_word_end(s: Seq<char>, i: int)
    requires
        0 <= i <= s.len(),
    ensures
        i <= word_end(s, i) <= s.len(),
        i < s.len() && !(is_wrap_space(s[i]) || s[i] == '\n') ==> word_end(s, i) > i,
    decreases s.len() - i,
{
    if i < s.len() && !(is_wrap_space(s[i]) || s[i] == '\n') {
        lemma_word_end(s, i + 1);
    }
}

/// One word laid out by wrapping: which characters it is, and the column
/// and row of the area it is drawn at.
pub struct Placement {
    /// The index of the word's first character in the text.
    pub start: int,
    /// The word's length in characters.
    pub len: int,
    /// The area column the word starts at.
    pub col: int,
    /// The area row the word is drawn on.
    pub row: int,
}

/// The cursor column after a word, held at one past the width: a further
/// word never fits there anyway, so every later decision is unchanged.
pub open spec fn clamp_col(wx: int, w: int) -> int {
    if wx <= w + 1 {
        wx
    } else {
        w + 1
    }
}

/// The words laid out by wrapping the text from index `i` with the cursor
/// at column `wx`, row `wy`, into a width of `w` and a height of `h`:
/// spaces are skipped, a line break moves to the start of the next row, a
/// word that would run past the width moves to the next row first, and
/// everything from the first word that lands below the height is dropped.
pub open spec fn wrap_places(s: Seq<char>, i: int, wx: int, wy: int, w: int, h: int) -> Seq<
    Placement,
>
    decreases s.len() - i,
    when 0 <= i <= s.len()
    via wrap_places_dec
{
    if i >= s.len() || wy >= h {
        Seq::<Placement>::empty()
    } else if s[i] == '\n' {
        wrap_places(s, i + 1, 0, wy + 1, w, h)
    } else if is_wrap_space(s[i]) {
        wrap_places(s, i + 1, wx, wy, w, h)
    } else {
        let e = word_end(s, i);
        let wl = e - i;
        let col = if wx + wl > w {
            0
        } else {
            wx
        };
        let row = if wx + wl > w {
            wy + 1
        } else {
            wy
        };
        if row >= h {
            Seq::<Placement>::empty()
        } else {
            seq![Placement { start: i, len: wl, col, row }] + wrap_places(s, e, clamp_col(
                col + wl + 1, w), row, w, h)
        }
    }
}

#[via_fn]
proof fn wrap_places_dec(s: Seq<char>, i: int, wx: int, wy: int, w: int, h: int) {
    if 0 <= i <= s.len() && i < s.len() && wy < h {
        lemma_word_end(s, i);
    }
}

/// Every placement of a wrap names a word of the text lying on the area:
/// its characters are inside the text, its column is not negative, and its
/// row is on the area.
pub open spec fn placement_wf(p: Placement, s: Seq<char>, h: int) -> bool {
    &&& 0 <= p.start
    &&& p.start + p.len <= s.len()
    &&& 1 <= p.len
    &&& 0 <= p.col
    &&& 0 <= p.row < h
}

proof fn lemma_wrap_places_wf(s: Seq<char>, i: int, wx: int, wy: int, w: int, h: int)
    requires
        0 <= i <= s.len(),
        0 <= wx,
        0 <= wy,
        0 <= w,
    ensures
        forall|pi: int|
            0 <= pi < wrap_places(s, i, wx, wy, w, h).len() ==> placement_wf(
                #[trigger] wrap_places(s, i, wx, wy, w, h)[pi],
                s,
                h,
            ),
    decreases s.len() - i,
{
    if i >= s.len() || wy >= h {
    } else if s[i] == '\n' {
        lemma_wrap_places_wf(s, i + 1, 0, wy + 1, w, h);
        assert forall|pi: int|
            0 <= pi < wrap_places(s, i, wx, wy, w, h).len() implies placement_wf(
            #[trigger] wrap_places(s, i, wx, wy, w, h)[pi], s, h) by {
            assert(wrap_places(s, i, wx, wy, w, h)[pi] == wrap_places(s, i + 1, 0, wy + 1, w,
                h)[pi]);
        }
    } else if is_wrap_space(s[i]) {
        lemma_wrap_places_wf(s, i + 1, wx, wy, w, h);
        assert forall|pi: int|
            0 <= pi < wrap_places(s, i, wx, wy, w, h).len() implies placement_wf(
            #[trigger] wrap_places(s, i, wx, wy, w, h)[pi], s, h) by {
            assert(wrap_places(s, i, wx, wy, w, h)[pi] == wrap_places(s, i + 1, wx, wy, w,
                h)[pi]);
        }
    } else {
        lemma_word_end(s, i);
        let e = word_end(s, i);
        let wl = e - i;
        let col = if wx + wl > w {
            0
        } else {
            wx
        };
        let row = if wx + wl > w {
            wy + 1
        } else {
            wy
        };
        if row < h {
            lemma_wrap_places_wf(s, e, clamp_col(col + wl + 1, w), row, w, h);
            let head = Placement { start: i, len: wl, col, row };
            let rest = wrap_places(s, e, clamp_col(col + wl + 1, w), row, w, h);
            assert(wrap_places(s, i, wx, wy, w, h) == seq![head] + rest);
            assert forall|pi: int|
                0 <= pi < wrap_places(s, i, wx, wy, w, h).len() implies placement_wf(
                #[trigger] wrap_places(s, i, wx, wy, w, h)[pi], s, h) by {
                if pi == 0 {
                    assert(wrap_places(s, i, wx, wy, w, h)[0] == head);
                } else {
                    assert(wrap_places(s, i, wx, wy, w, h)[pi] == rest[pi - 1]);
                }
            }
        }
    }
}

/// True when placement `p` lies entirely before the wrap cursor at column
/// `wx`, row `wy`: on an earlier row, or on the cursor's row with the
/// cursor past the column the word ends at.
pub open spec fn placement_before(p: Placement, wx: int, wy: int, w: int) -> bool {
    ||| p.row < wy
    ||| (p.row == wy && clamp_col(p.col + p.len + 1, w) <= wx)
}

/// True when laying out the placements of `done` in `area` (relative to
/// the frame's area of `f`) writes grid position `(xx, yy)`.
pub open spec fn wrap_writes_at(
    f: Frame,
    area: Rect,
    done: Seq<Placement>,
    xx: int,
    yy: int,
) -> bool {
    let fa = f.area_spec();
    exists|pi: int, k: int|
        {
            &&& 0 <= pi < done.len()
            &&& 0 <= k < done[pi].len
            &&& #[trigger] (done[pi].col + k) < area.width
            &&& done[pi].row < area.height
            &&& area.x + done[pi].col + k < fa.width
            &&& area.y + done[pi].row < fa.height
            &&& xx == fa.x + area.x + done[pi].col + k
            &&& yy == fa.y + area.y + done[pi].row
        }
}

/// A widget that displays a string of text.
pub struct Text {
    text: String,
    style: Style,
    wrap: bool,
}

impl Text {
    /// The characters displayed.
    pub closed spec fn text_spec(&self) -> Seq<char> {
        self.text@
    }

    /// The style the text is drawn with.
    pub closed spec fn style_spec(&self) -> Style {
        self.style
    }

    /// Whether the text is word-wrapped.
    pub closed spec fn wrap_spec(&self) -> bool {
        self.wrap
    }

    /// A widget displaying `text`, unwrapped, in the plain style.
    pub fn new(text: &str) -> (t: Text)
        ensures
            t.text_spec() == text@,
            t.style_spec() == Style::plain(),
            !t.wrap_spec(),
    {
        Text { text: String::from_str(text), style: Style::new(), wrap: false }
    }

    /// The same widget with the given style.
    pub fn style(self, style: Style) -> (t: Text)
        ensures
            t.text_spec() == self.text_spec(),
            t.style_spec() == style,
            t.wrap_spec() == self.wrap_spec(),
    {
        Text { style, ..self }
    }

    /// The same widget with word-wrapping turned on or off.
    pub fn wrap(self, wrapped: bool) -> (t: Text)
        ensures
            t.text_spec() == self.text_spec(),
            t.style_spec() == self.style_spec(),
            t.wrap_spec() == wrapped,
    {
        Text { wrap: wrapped, ..self }
    }

    /// Draws the text on the first row of `area`, clipped to it.
    pub fn draw_plain(self, area: Rect, frame: &mut Frame)
        requires
            old(frame).wf(),
        ensures
            final(frame).wf(),
            final(frame).area_spec() == old(frame).area_spec(),
            final(frame).style_spec() == old(frame).style_spec(),
            final(frame).buffer_spec().width_spec() == old(frame).buffer_spec().width_spec(),
            final(frame).buffer_spec().height_spec() == old(frame).buffer_spec().height_spec(),
            forall|i: int|
                0 <= i < self.text_spec().len() && i < area.width && 0 < area.height && area.x
                    + i < old(frame).area_spec().width && area.y < old(frame).area_spec().height ==> #[trigger] final(frame).buffer_spec().cell_at(old(frame).area_spec().x + area.x + i, old(frame).area_spec().y + area.y) == (Cell {
                    symbol: self.text_spec()[i],
                    style: self.style_spec(),
                }),
            forall|xx: int, yy: int|
                old(frame).buffer_spec().in_bounds(xx, yy) && !old(frame).writes_at_in(area, 0,
                    0, self.text_spec().len() as int, xx, yy) ==> #[trigger] final(frame).buffer_spec().cell_at(xx, yy) == old(frame).buffer_spec().cell_at(xx, yy),
    {
        let saved = frame.current_style();
        frame.set_style(self.style);
        frame.write_str_in(area, 0, 0, self.text.as_str());
        frame.set_style(saved);
    }
}

impl Widget for Text {
    fn render(self, area: Rect, frame: &mut Frame) {
        let ghost s = self.text_spec();
        let ghost style0 = self.style_spec();
        if self.wrap {
            let ghost pall = wrap_places(s, 0, 0, 0, area.width as int, area.height as int);
            self.draw_wrapped(area, frame);
            proof {
                lemma_wrap_places_wf(s, 0, 0, 0, area.width as int, area.height as int);
                assert forall|xx: int, yy: int|
                    old(frame).buffer_spec().in_bounds(xx, yy) && !area_covers(*old(frame),
                        area, xx, yy) implies #[trigger] frame.buffer_spec().cell_at(xx, yy)
                    == old(frame).buffer_spec().cell_at(xx, yy) by {
                    if wrap_writes_at(*old(frame), area, pall, xx, yy) {
                        let (pi, k) = choose|pi: int, k: int|
                            {
                                &&& 0 <= pi < pall.len()
                                &&& 0 <= k < pall[pi].len
                                &&& #[trigger] (pall[pi].col + k) < area.width
                                &&& pall[pi].row < area.height
                                &&& area.x + pall[pi].col + k < old(frame).area_spec().width
                                &&& area.y + pall[pi].row < old(frame).area_spec().height
                                &&& xx == old(frame).area_spec().x + area.x + pall[pi].col + k
                                &&& yy == old(frame).area_spec().y + area.y + pall[pi].row
                            };
                        assert(placement_wf(pall[pi], s, area.height as int));
                        assert(area_covers(*old(frame), area, xx, yy));
                    }
                }
            }
        } else {
            self.draw_plain(area, frame);
            proof {
                assert forall|xx: int, yy: int|
                    old(frame).buffer_spec().in_bounds(xx, yy) && !area_covers(*old(frame),
                        area, xx, yy) implies #[trigger] frame.buffer_spec().cell_at(xx, yy)
                    == old(frame).buffer_spec().cell_at(xx, yy) by {
                    if old(frame).writes_at_in(area, 0, 0, s.len() as int, xx, yy) {
                        assert(area_covers(*old(frame), area, xx, yy));
                    }
                }
            }
        }
    }
}

impl Text {
    /// Draws the text word-wrapped into `area`: the cells of every word
    /// that [`wrap_places`] lays out get that word's characters in the
    /// widget's style, and every other cell keeps its content.
    pub fn draw_wrapped(self, area: Rect, frame: &mut Frame)
        requires
            old(frame).wf(),
        ensures
            final(frame).wf(),
            final(frame).area_spec() == old(frame).area_spec(),
            final(frame).style_spec() == old(frame).style_spec(),
            final(frame).buffer_spec().width_spec() == old(frame).buffer_spec().width_spec(),
            final(frame).buffer_spec().height_spec() == old(frame).buffer_spec().height_spec(),
            ({
                let pall = wrap_places(self.text_spec(), 0, 0, 0, area.width as int,
                    area.height as int);
                let fa = old(frame).area_spec();
                &&& forall|pi: int, k: int|
                    0 <= pi < pall.len() && 0 <= k < pall[pi].len && #[trigger] (pall[pi].col
                        + k) < area.width && area.x + pall[pi].col + k < fa.width && area.y
                        + pall[pi].row < fa.height ==> final(frame).buffer_spec().cell_at(fa.x
                        + area.x + pall[pi].col + k, fa.y + area.y + pall[pi].row) == (Cell {
                        symbol: self.text_spec()[pall[pi].start + k],
                        style: self.style_spec(),
                    })
                &&& forall|xx: int, yy: int|
                    old(frame).buffer_spec().in_bounds(xx, yy) && !wrap_writes_at(*old(frame),
                        area, pall, xx, yy) ==> #[trigger] final(frame).buffer_spec().cell_at(
                        xx, yy) == old(frame).buffer_spec().cell_at(xx, yy)
            }),
    {
        let ghost s = self.text@;
        let ghost w = area.width as int;
        let ghost h = area.height as int;
        let ghost pall = wrap_places(s, 0, 0, 0, w, h);
        let saved = frame.current_style();
        frame.set_style(self.style);
        let n = self.text.as_str().unicode_len();
        let w_us: usize = area.width as usize;
        let mut i: usize = 0;
        let mut wx: usize = 0;
        let mut wy: usize = 0;
        let ghost mut done: Seq<Placement> = Seq::<Placement>::empty();
        proof {
            assert(done + wrap_places(s, 0, 0, 0, w, h) =~= pall);
        }
        loop
            invariant
                frame.wf(),
                frame.area_spec() == old(frame).area_spec(),
                frame.style_spec() == self.style,
                frame.buffer_spec().width_spec() == old(frame).buffer_spec().width_spec(),
                frame.buffer_spec().height_spec() == old(frame).buffer_spec().height_spec(),
                n == s.len(),
                s == self.text@,
                w == area.width as int,
                h == area.height as int,
                w_us == area.width as usize,
                i <= n,
                wx <= w_us + 1,
                pall == done + wrap_places(s, i as int, wx as int, wy as int, w, h),
                forall|pi: int|
                    0 <= pi < done.len() ==> placement_wf(#[trigger] done[pi], s, h),
                forall|pi: int|
                    0 <= pi < done.len() ==> placement_before(#[trigger] done[pi], wx as int,
                        wy as int, w),
                forall|pi: int, k: int|
                    0 <= pi < done.len() && 0 <= k < done[pi].len && #[trigger] (done[pi].col
                        + k) < area.width && area.x + done[pi].col + k < old(frame).area_spec().width && area.y + done[pi].row < old(frame).area_spec().height ==> frame.buffer_spec().cell_at(old(frame).area_spec().x + area.x + done[pi].col + k, old(frame).area_spec().y
                        + area.y + done[pi].row) == (Cell {
                        symbol: s[done[pi].start + k],
                        style: self.style,
                    }),
                forall|xx: int, yy: int|
                    old(frame).buffer_spec().in_bounds(xx, yy) && !wrap_writes_at(*old(frame),
                        area, done, xx, yy) ==> #[trigger] frame.buffer_spec().cell_at(xx, yy)
                        == old(frame).buffer_spec().cell_at(xx, yy),
            ensures
                frame.wf(),
                frame.area_spec() == old(frame).area_spec(),
                frame.style_spec() == self.style,
                frame.buffer_spec().width_spec() == old(frame).buffer_spec().width_spec(),
                frame.buffer_spec().height_spec() == old(frame).buffer_spec().height_spec(),
                pall == done,
                forall|pi: int|
                    0 <= pi < done.len() ==> placement_wf(#[trigger] done[pi], s, h),
                forall|pi: int, k: int|
                    0 <= pi < done.len() && 0 <= k < done[pi].len && #[trigger] (done[pi].col
                        + k) < area.width && area.x + done[pi].col + k < old(frame).area_spec().width && area.y + done[pi].row < old(frame).area_spec().height ==> frame.buffer_spec().cell_at(old(frame).area_spec().x + area.x + done[pi].col + k, old(frame).area_spec().y
                        + area.y + done[pi].row) == (Cell {
                        symbol: s[done[pi].start + k],
                        style: self.style,
                    }),
                forall|xx: int, yy: int|
                    old(frame).buffer_spec().in_bounds(xx, yy) && !wrap_writes_at(*old(frame),
                        area, done, xx, yy) ==> #[trigger] frame.buffer_spec().cell_at(xx, yy)
                        == old(frame).buffer_spec().cell_at(xx, yy),
            decreases n - i,
        {
            if wy >= area.height as usize {
                proof {
                    assert(pall =~= done);
                }
                break;
            }
            if i >= n {
                proof {
                    assert(pall =~= done);
                }
                break;
            }
            let c = self.text.as_str().get_char(i);
            if c == '\n' {
                i = i + 1;
                wx = 0;
                wy = wy + 1;
            } else if c == ' ' || c == '\t' || c == '\r' {
                i = i + 1;
            } else {
                let mut e: usize = i;
                loop
                    invariant
                        n == s.len(),
                        s == self.text@,
                        i <= e <= n,
                        word_end(s, i as int) == word_end(s, e as int),
                    ensures
                        i <= e <= n,
                        word_end(s, i as int) == e,
                    decreases n - e,
                {
                    if e >= n {
                        break;
                    }
                    let ec = self.text.as_str().get_char(e);
                    if ec == '\n' || ec == ' ' || ec == '\t' || ec == '\r' {
                        break;
                    }
                    e = e + 1;
                }
                let wl: usize = e - i;
                let over: bool = wl > w_us || wx > w_us - wl;
                assert(over == (wx as int + wl as int > w));
                let col: usize = if over {
                    0
                } else {
                    wx
                };
                let row: usize = if over {
                    wy + 1
                } else {
                    wy
                };
                if row >= area.height as usize {
                    proof {
                        assert(pall =~= done);
                    }
                    break;
                }
                proof {
                    lemma_word_end(s, i as int);
                }
                let word = self.text.as_str().substring_char(i, e);
                let ghost frame_before = *frame;
                frame.write_str_in(area, col as u16, row as u16, word);
                proof {
                    let fa = old(frame).area_spec();
                    let p = Placement {
                        start: i as int,
                        len: wl as int,
                        col: col as int,
                        row: row as int,
                    };
                    let done2 = done.push(p);
                    assert(word@.len() == wl as int);
                    assert(pall =~= done2 + wrap_places(s, e as int, clamp_col(col + wl + 1,
                        w), row as int, w, h));

                    // No cell of an earlier word is touched by this write: earlier words lie
                    // on earlier rows, or on this row wholly left of the cursor.
                    assert forall|pi: int, k: int|
                        0 <= pi < done.len() && 0 <= k < done[pi].len implies
                        !frame_before.writes_at_in(area, col as u16, row as u16, wl as int,
                        fa.x + area.x + #[trigger] (done[pi].col + k), fa.y + area.y
                        + done[pi].row) by {
                        if frame_before.writes_at_in(area, col as u16, row as u16, wl as int,
                            fa.x + area.x + done[pi].col + k, fa.y + area.y + done[pi].row) {
                            assert(done[pi].row == row as int);
                            assert(placement_before(done[pi], wx as int, wy as int, w));
                            if over {
                                assert(done[pi].row <= wy as int);
                                assert(false);
                            } else {
                                let end1 = done[pi].col + done[pi].len + 1;
                                if end1 <= w + 1 {
                                    assert(done[pi].col + k < end1 - 1 <= wx as int);
                                    assert(fa.x + area.x + done[pi].col + k < fa.x + area.x
                                        + col);
                                    assert(false);
                                } else {
                                    assert(w + 1 <= wx as int);
                                    assert(wx as int + wl as int <= w);
                                    assert(false);
                                }
                            }
                        }
                    }

                    assert forall|pi: int, k: int|
                        0 <= pi < done2.len() && 0 <= k < done2[pi].len && #[trigger] (
                        done2[pi].col + k) < area.width && area.x + done2[pi].col + k
                            < fa.width && area.y + done2[pi].row < fa.height implies
                        frame.buffer_spec().cell_at(fa.x + area.x + done2[pi].col + k, fa.y
                        + area.y + done2[pi].row) == (Cell {
                        symbol: s[done2[pi].start + k],
                        style: self.style,
                    }) by {
                        if pi < done.len() {
                            assert(done2[pi] == done[pi]);
                            assert(frame.buffer_spec().cell_at(fa.x + area.x + (done[pi].col
                                + k), fa.y + area.y + done[pi].row)
                                == frame_before.buffer_spec().cell_at(fa.x + area.x + (
                            done[pi].col + k), fa.y + area.y + done[pi].row));
                        } else {
                            assert(done2[pi] == p);
                            assert(frame.buffer_spec().cell_at(fa.x + area.x + col + k, fa.y
                                + area.y + row) == (Cell {
                                symbol: word@[k],
                                style: self.style,
                            }));
                            assert(word@[k] == s[i + k]);
                        }
                    }

                    // A cell no placement of done2 writes was neither written before nor by
                    // this word, so it keeps its original content.
                    assert forall|xx: int, yy: int|
                        old(frame).buffer_spec().in_bounds(xx, yy) && !wrap_writes_at(*old(
                        frame), area, done2, xx, yy) implies
                        #[trigger] frame.buffer_spec().cell_at(xx, yy) == old(
                        frame).buffer_spec().cell_at(xx, yy) by {
                        assert(!wrap_writes_at(*old(frame), area, done, xx, yy)) by {
                            if wrap_writes_at(*old(frame), area, done, xx, yy) {
                                let (pi, k) = choose|pi: int, k: int|
                                    {
                                        &&& 0 <= pi < done.len()
                                        &&& 0 <= k < done[pi].len
                                        &&& #[trigger] (done[pi].col + k) < area.width
                                        &&& done[pi].row < area.height
                                        &&& area.x + done[pi].col + k < fa.width
                                        &&& area.y + done[pi].row < fa.height
                                        &&& xx == fa.x + area.x + done[pi].col + k
                                        &&& yy == fa.y + area.y + done[pi].row
                                    };
                                assert(done2[pi] == done[pi]);
                                assert(#[trigger] (done2[pi].col + k) < area.width);
                                assert(wrap_writes_at(*old(frame), area, done2, xx, yy));
                            }
                        }
                        assert(!frame_before.writes_at_in(area, col as u16, row as u16,
                            wl as int, xx, yy)) by {
                            if frame_before.writes_at_in(area, col as u16, row as u16,
                                wl as int, xx, yy) {
                                let k = xx - (fa.x + area.x + col);
                                assert(0 <= k < wl);
                                assert(done2[done.len() as int] == p);
                                assert(#[trigger] (done2[done.len() as int].col + k)
                                    < area.width);
                                assert(area.x + done2[done.len() as int].col + k < fa.width);
                                assert(area.y + done2[done.len() as int].row < fa.height);
                                assert(wrap_writes_at(*old(frame), area, done2, xx, yy));
                            }
                        }
                        assert(frame.buffer_spec().cell_at(xx, yy)
                            == frame_before.buffer_spec().cell_at(xx, yy));
                    }

                    // Every placed word, this one included, now lies before the moved cursor.
                    assert forall|pi: int|
                        0 <= pi < done2.len() implies placement_before(#[trigger] done2[pi],
                        clamp_col(col as int + wl as int + 1, w), row as int, w) by {
                        if pi < done.len() {
                            assert(done2[pi] == done[pi]);
                            assert(placement_before(done[pi], wx as int, wy as int, w));
                            if !over {
                                assert(wx as int + wl as int <= w);
                                assert(clamp_col(col as int + wl as int + 1, w) > col as int);
                            }
                        } else {
                            assert(done2[pi] == p);
                        }
                    }
                    done = done2;
                }
                i = e;
                wy = row;
                wx = if wl > w_us {
                    w_us + 1
                } else {
                    let step: usize = col + wl + 1;
                    if step <= w_us + 1 {
                        step
                    } else {
                        w_us + 1
                    }
                };
                proof {
                    assert(wx as int == clamp_col(col as int + wl as int + 1, w));
                }
            }
        }
        frame.set_style(saved);
        proof {
            lemma_wrap_places_wf(s, 0, 0, 0, w, h);
        }
    }
}

} // verus!
