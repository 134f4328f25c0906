//! Parsing of raw terminal byte streams into semantic key events.
//!
//! The central type is [`Parser`], an incremental decoder: bytes are fed in
//! arbitrary chunks, complete sequences are turned into [`Event`]s, and any
//! trailing bytes that might still grow into a complete sequence stay
//! buffered for the next call.

use vstd::prelude::*;

use crate::terminal::{Call, System, Terminal};

verus! {

/// A distinct happening reported to the application.
#[derive(Debug, Clone, PartialEq, Eq, Structural)]
pub enum Event {
    /// A keyboard press.
    Key(KeyEvent),
    /// A terminal resize, as (columns, rows). Reserved for the caller's
    /// environment; the decoder itself never produces it.
    Resize(u16, u16),
}

/// A specific key press, including held modifiers.
#[derive(Debug, Clone, PartialEq, Eq, Structural)]
pub struct KeyEvent {
    /// The key that was pressed.
    pub code: KeyCode,
    /// Modifiers held down with it.
    pub modifiers: KeyModifiers,
}

impl KeyEvent {
    /// A key press with no modifiers.
    pub fn new(code: KeyCode) -> (e: KeyEvent)
        ensures
            e.code == code,
            e.modifiers == KeyModifiers::empty_spec(),
    {
        KeyEvent { code, modifiers: KeyModifiers::empty() }
    }

    /// A key press with the given modifiers.
    pub fn with_modifiers(code: KeyCode, modifiers: KeyModifiers) -> (e: KeyEvent)
        ensures
            e.code == code,
            e.modifiers == modifiers,
    {
        KeyEvent { code, modifiers }
    }
}

/// The key identifier.
#[derive(Debug, Clone, PartialEq, Eq, Structural)]
pub enum KeyCode {
    /// A printable character key.
    Char(char),
    Enter,
    Backspace,
    Esc,
    Left,
    Right,
    Up,
    Down,
    Tab,
    Delete,
    Home,
    End,
    PageUp,
    PageDown,
    /// A function key (1 through 12).
    F(u8),
    Null,
}

/// A set over the modifiers Shift, Ctrl and Alt, kept as a 3-bit mask.
#[derive(Debug, Clone, Copy, PartialEq, Eq, Structural)]
pub struct KeyModifiers(pub u8);

impl KeyModifiers {
    /// The set holding only Shift.
    pub fn shift() -> (m: KeyModifiers)
        ensures
            m == KeyModifiers(0b0000_0001u8),
    {
        KeyModifiers(0b0000_0001)
    }

    /// The set holding only Ctrl.
    pub fn ctrl() -> (m: KeyModifiers)
        ensures
            m == KeyModifiers(0b0000_0010u8),
    {
        KeyModifiers(0b0000_0010)
    }

    /// The set holding only Alt.
    pub fn alt() -> (m: KeyModifiers)
        ensures
            m == KeyModifiers(0b0000_0100u8),
    {
        KeyModifiers(0b0000_0100)
    }

    /// The empty modifier set, as a spec value.
    pub open spec fn empty_spec() -> KeyModifiers {
        KeyModifiers(0)
    }

    /// The empty modifier set.
    pub fn empty() -> (m: KeyModifiers)
        ensures
            m == KeyModifiers::empty_spec(),
    {
        KeyModifiers(0)
    }

    /// True when every modifier of `other` is also in `self`.
    pub fn contains(self, other: KeyModifiers) -> (r: bool)
        ensures
            r == ((self.0 & other.0) == other.0),
    {
        (self.0 & other.0) == other.0
    }

    /// Adds the modifiers of `other` to the set.
    pub fn insert(&mut self, other: KeyModifiers)
        ensures
            final(self).0 == (old(self).0 | other.0),
    {
        self.0 = self.0 | other.0;
    }

    /// The union of the two modifier sets.
    pub fn with(self, other: KeyModifiers) -> (r: KeyModifiers)
        ensures
            r.0 == (self.0 | other.0),
    {
        KeyModifiers(self.0 | other.0)
    }
}

/// The union of two modifier sets is the same in either order.
pub proof fn lemma_modifiers_union_commutative(a: KeyModifiers, b: KeyModifiers)
    ensures
        KeyModifiers(a.0 | b.0) == KeyModifiers(b.0 | a.0),
{
    let x = a.0;
    let y = b.0;
    assert(x | y == y | x) by (bit_vector);
}

/// Taking the union of a modifier set with itself changes nothing.
pub proof fn lemma_modifiers_union_idempotent(a: KeyModifiers)
    ensures
        KeyModifiers(a.0 | a.0) == a,
{
    let x = a.0;
    assert(x | x == x) by (bit_vector);
}

/// The membership test classifies every subset of {Shift, Ctrl, Alt}: a set
/// built as a union of chosen flags contains exactly the chosen flags.
pub proof fn lemma_modifiers_classify(s: bool, c: bool, a: bool)
    ensures
        ({
            let ms: u8 = if s { 0b0000_0001 } else { 0 };
            let mc: u8 = if c { 0b0000_0010 } else { 0 };
            let ma: u8 = if a { 0b0000_0100 } else { 0 };
            let m = KeyModifiers(ms | mc | ma);
            &&& ((m.0 & 0b0000_0001) == 0b0000_0001) == s
            &&& ((m.0 & 0b0000_0010) == 0b0000_0010) == c
            &&& ((m.0 & 0b0000_0100) == 0b0000_0100) == a
        }),
{
    let ms: u8 = if s { 0b0000_0001 } else { 0 };
    let mc: u8 = if c { 0b0000_0010 } else { 0 };
    let ma: u8 = if a { 0b0000_0100 } else { 0 };
    assert((ms == 0 || ms == 1) && (mc == 0 || mc == 2) && (ma == 0 || ma == 4) ==> (((ms | mc
        | ma) & 1) == 1) == (ms == 1)) by (bit_vector);
    assert((ms == 0 || ms == 1) && (mc == 0 || mc == 2) && (ma == 0 || ma == 4) ==> (((ms | mc
        | ma) & 2) == 2) == (mc == 2)) by (bit_vector);
    assert((ms == 0 || ms == 1) && (mc == 0 || mc == 2) && (ma == 0 || ma == 4) ==> (((ms | mc
        | ma) & 4) == 4) == (ma == 4)) by (bit_vector);
}

/// Width in bytes of the UTF-8 sequence introduced by `first_byte`,
/// or 0 when `first_byte` cannot begin a sequence.
pub open spec fn utf8_width_spec(first_byte: u8) -> int {
    if first_byte < 0x80 {
        1
    } else if 0xc0 <= first_byte < 0xe0 {
        2
    } else if 0xe0 <= first_byte < 0xf0 {
        3
    } else if 0xf0 <= first_byte < 0xf8 {
        4
    } else {
        0
    }
}

/// Determines the byte width of a UTF-8 character from its first byte.
pub fn utf8_char_width(first_byte: u8) -> (w: usize)
    ensures
        w == utf8_width_spec(first_byte),
{
    if first_byte < 0x80 {
        1
    } else if 0xc0 <= first_byte && first_byte < 0xe0 {
        2
    } else if 0xe0 <= first_byte && first_byte < 0xf0 {
        3
    } else if 0xf0 <= first_byte && first_byte < 0xf8 {
        4
    } else {
        0
    }
}

/// True when `b` has the shape `10xxxxxx` of a UTF-8 continuation byte.
pub open spec fn is_continuation(b: u8) -> bool {
    0x80 <= b < 0xc0
}

/// The scalar value encoded by a UTF-8 sequence whose length matches the
/// width announced by its first byte.
pub open spec fn utf8_value(s: Seq<u8>) -> int
    recommends
        s.len() == utf8_width_spec(s[0]),
{
    if s.len() == 1 {
        s[0] as int
    } else if s.len() == 2 {
        (s[0] - 0xc0) * 0x40 + (s[1] - 0x80)
    } else if s.len() == 3 {
        (s[0] - 0xe0) * 0x1000 + (s[1] - 0x80) * 0x40 + (s[2] - 0x80)
    } else {
        (s[0] - 0xf0) * 0x40000 + (s[1] - 0x80) * 0x1000 + (s[2] - 0x80) * 0x40 + (s[3] - 0x80)
    }
}

/// True when `s` is exactly one well-formed UTF-8 character: the width
/// announced by the first byte matches the length, all later bytes are
/// continuation bytes, and the value is neither over-long, a surrogate,
/// nor beyond the last Unicode scalar.
pub open spec fn utf8_seq_valid(s: Seq<u8>) -> bool {
    &&& s.len() >= 1
    &&& s.len() == utf8_width_spec(s[0])
    &&& forall|i: int| 1 <= i < s.len() ==> is_continuation(#[trigger] s[i])
    &&& (s.len() == 2 ==> utf8_value(s) >= 0x80)
    &&& (s.len() == 3 ==> utf8_value(s) >= 0x800)
    &&& (s.len() == 4 ==> 0x10000 <= utf8_value(s) <= 0x10ffff)
    &&& !(0xd800 <= utf8_value(s) <= 0xdfff)
}

/// The character encoded by a valid one-character UTF-8 sequence.
pub open spec fn utf8_seq_char(s: Seq<u8>) -> char
    recommends
        utf8_seq_valid(s),
{
    (utf8_value(s) as u32) as char
}

/// A key press of `code` with no modifiers, as the decoder emits it.
pub open spec fn key_press(code: KeyCode) -> Event {
    Event::Key(KeyEvent { code, modifiers: KeyModifiers(0) })
}

/// What the decoder does with the head of the pending queue: emit an event
/// and consume some bytes, consume bytes silently, or wait for more input.
pub enum Step {
    Emit(Event, int),
    Skip(int),
    Wait,
}

/// The decoder's resolution policy, evaluated at the head of the pending
/// queue `q`: carriage return first, then escape sequences, then UTF-8.
pub open spec fn decode_step(q: Seq<u8>) -> Step
    recommends
        q.len() > 0,
{
    let b = q[0];
    if b == 0x0d {
        Step::Emit(key_press(KeyCode::Enter), 1)
    } else if b == 0x1b {
        if q.len() == 1 {
            Step::Wait
        } else if q.len() >= 3 && q[1] == 0x5b {
            if q[2] == 0x41 {
                Step::Emit(key_press(KeyCode::Up), 3)
            } else {
                Step::Emit(key_press(KeyCode::Esc), 1)
            }
        } else {
            Step::Emit(key_press(KeyCode::Esc), 1)
        }
    } else {
        let w = utf8_width_spec(b);
        if w == 0 {
            Step::Skip(1)
        } else if q.len() >= w {
            if utf8_seq_valid(q.take(w)) {
                Step::Emit(key_press(KeyCode::Char(utf8_seq_char(q.take(w)))), w)
            } else {
                Step::Skip(w)
            }
        } else {
            Step::Wait
        }
    }
}

/// The events produced and the bytes left pending when the decoder runs on
/// queue `q` until it is empty or its head is an incomplete sequence.
pub open spec fn parse_spec(q: Seq<u8>) -> (Seq<Event>, Seq<u8>)
    decreases q.len(),
{
    if q.len() == 0 {
        (Seq::<Event>::empty(), q)
    } else {
        match decode_step(q) {
            Step::Wait => (Seq::<Event>::empty(), q),
            Step::Skip(n) => {
                if 1 <= n <= q.len() {
                    parse_spec(q.skip(n))
                } else {
                    (Seq::<Event>::empty(), q)
                }
            },
            Step::Emit(e, n) => {
                if 1 <= n <= q.len() {
                    let r = parse_spec(q.skip(n));
                    (seq![e] + r.0, r.1)
                } else {
                    (Seq::<Event>::empty(), q)
                }
            },
        }
    }
}

/// Relies on char::from_u32: it returns the character of a Unicode scalar
/// value, and None exactly on surrogates and values beyond 0x10ffff.
pub assume_specification[ char::from_u32 ](v: u32) -> (r: Option<char>)
    ensures
        r is Some <==> (v < 0xd800 || (0xdfff < v && v <= 0x10ffff)),
        r matches Some(c) ==> c as u32 == v,
;

/// The incremental decoder: a state machine turning arbitrarily chunked
/// bytes into key events, buffering what cannot be resolved yet.
pub struct Parser {
    buffer: Vec<u8>,
}

impl Parser {
    /// The bytes that have been fed in but not yet resolved into events,
    /// oldest first.
    pub closed spec fn pending(&self) -> Seq<u8> {
        self.buffer@
    }

    /// A decoder with nothing pending.
    pub fn new() -> (p: Parser)
        ensures
            p.pending() == Seq::<u8>::empty(),
    {
        Parser { buffer: Vec::new() }
    }

    /// Appends `bytes` to the pending queue, then emits every event the
    /// queue's head resolves to, stopping only on an empty queue or an
    /// incomplete head sequence, which stays buffered.
    pub fn parse(&mut self, bytes: &[u8]) -> (events: Vec<Event>)
        ensures
            events@ == parse_spec(old(self).pending() + bytes@).0,
            final(self).pending() == parse_spec(old(self).pending() + bytes@).1,
    {
        let ghost total: Seq<u8> = self.buffer@ + bytes@;
        let mut k: usize = 0;
        while k < bytes.len()
            invariant
                k <= bytes@.len(),
                self.buffer@ == old(self).buffer@ + bytes@.take(k as int),
            decreases bytes@.len() - k,
        {
            let b = bytes[k];
            self.buffer.push(b);
            k += 1;
            proof {
                assert(old(self).buffer@ + bytes@.take(k as int) =~= (old(self).buffer@
                    + bytes@.take(k - 1)).push(bytes@[k - 1]));
            }
        }
        proof {
            assert(self.buffer@ =~= total);
        }

        let mut events: Vec<Event> = Vec::new();
        loop
            invariant
                parse_spec(total).0 == events@ + parse_spec(self.buffer@).0,
                parse_spec(total).1 == parse_spec(self.buffer@).1,
            ensures
                parse_spec(self.buffer@) == (Seq::<Event>::empty(), self.buffer@),
            decreases self.buffer@.len(),
        {
            if self.buffer.len() == 0 {
                break;
            }
            let ghost cur: Seq<u8> = self.buffer@;
            let ghost evs0: Seq<Event> = events@;
            let b = self.buffer[0];
            if b == 0x0d {
                events.push(Event::key(KeyCode::Enter));
                self.consume(1);
                proof {
                    lemma_step_run(cur, total, evs0, 1);
                }
            } else if b == 0x1b {
                if self.buffer.len() == 1 {
                    break;
                }
                let second = self.buffer[1];
                if self.buffer.len() >= 3 && second == 0x5b {
                    let third = self.buffer[2];
                    if third == 0x41 {
                        events.push(Event::key(KeyCode::Up));
                        self.consume(3);
                        proof {
                            lemma_step_run(cur, total, evs0, 3);
                        }
                    } else {
                        events.push(Event::key(KeyCode::Esc));
                        self.consume(1);
                        proof {
                            lemma_step_run(cur, total, evs0, 1);
                        }
                    }
                } else {
                    events.push(Event::key(KeyCode::Esc));
                    self.consume(1);
                    proof {
                        lemma_step_run(cur, total, evs0, 1);
                    }
                }
            } else {
                let w = utf8_char_width(b);
                if w == 0 {
                    self.consume(1);
                    proof {
                        lemma_skip_run(cur, total, evs0, 1);
                    }
                } else if w <= self.buffer.len() {
                    let decoded = self.decode_head(w);
                    match decoded {
                        Some(c) => {
                            events.push(Event::key(KeyCode::Char(c)));
                        },
                        None => {},
                    }
                    self.consume(w);
                    proof {
                        if decoded is Some {
                            lemma_step_run(cur, total, evs0, w as int);
                        } else {
                            lemma_skip_run(cur, total, evs0, w as int);
                        }
                    }
                } else {
                    break;
                }
            }
        }
        events
    }

    /// Attempts to decode the first `w` pending bytes as one UTF-8
    /// character; returns None when their content is not a valid character.
    fn decode_head(&self, w: usize) -> (r: Option<char>)
        requires
            1 <= w <= self.pending().len(),
            w == utf8_width_spec(self.pending()[0]),
            self.pending()[0] != 0x0d,
            self.pending()[0] != 0x1b,
        ensures
            r is Some <==> utf8_seq_valid(self.pending().take(w as int)),
            r matches Some(c) ==> c == utf8_seq_char(self.pending().take(w as int)),
    {
        let ghost s = self.pending().take(w as int);
        let b = self.buffer[0];
        let v: u32;
        if w == 1 {
            v = b as u32;
        } else if w == 2 {
            let b1 = self.buffer[1];
            if !(0x80 <= b1 && b1 < 0xc0) {
                return None;
            }
            v = (b - 0xc0) as u32 * 0x40 + (b1 - 0x80) as u32;
            if v < 0x80 {
                return None;
            }
        } else if w == 3 {
            let b1 = self.buffer[1];
            let b2 = self.buffer[2];
            if !(0x80 <= b1 && b1 < 0xc0) || !(0x80 <= b2 && b2 < 0xc0) {
                return None;
            }
            v = (b - 0xe0) as u32 * 0x1000 + (b1 - 0x80) as u32 * 0x40 + (b2 - 0x80) as u32;
            if v < 0x800 || (0xd800 <= v && v <= 0xdfff) {
                return None;
            }
        } else {
            let b1 = self.buffer[1];
            let b2 = self.buffer[2];
            let b3 = self.buffer[3];
            if !(0x80 <= b1 && b1 < 0xc0) || !(0x80 <= b2 && b2 < 0xc0) || !(0x80 <= b3 && b3
                < 0xc0) {
                return None;
            }
            v = (b - 0xf0) as u32 * 0x40000 + (b1 - 0x80) as u32 * 0x1000 + (b2 - 0x80) as u32
                * 0x40 + (b3 - 0x80) as u32;
            if v < 0x10000 || v > 0x10ffff {
                return None;
            }
        }
        assert(v == utf8_value(s));
        assert(utf8_seq_valid(s));
        match char::from_u32(v) {
            Some(c) => {
                proof {
                    vstd::utf8::char_u32_cast(c, v);
                }
                Some(c)
            },
            None => {
                proof {
                    assert(false);
                }
                None
            },
        }
    }

    /// Removes `n` bytes from the front of the pending queue.
    fn consume(&mut self, n: usize)
        requires
            n <= old(self).pending().len(),
        ensures
            final(self).pending() == old(self).pending().skip(n as int),
    {
        let mut i: usize = 0;
        while i < n
            invariant
                i <= n,
                n <= old(self).buffer@.len(),
                self.buffer@ == old(self).buffer@.skip(i as int),
            decreases n - i,
        {
            self.buffer.remove(0);
            i += 1;
            proof {
                assert(old(self).buffer@.skip(i - 1).remove(0) =~= old(self).buffer@.skip(
                    i as int));
            }
        }
    }
}

impl Event {
    /// A key-press event for `code` with no modifiers.
    pub fn key(code: KeyCode) -> (e: Event)
        ensures
            e == key_press(code),
    {
        Event::Key(KeyEvent::new(code))
    }
}

/// Running one emitting step of the decoder and continuing preserves the
/// relation between the whole input's parse and the events gathered so far.
proof fn lemma_step_run(cur: Seq<u8>, total: Seq<u8>, evs0: Seq<Event>, n: int)
    requires
        cur.len() > 0,
        1 <= n <= cur.len(),
        decode_step(cur) is Emit,
        decode_step(cur)->Emit_1 == n,
        parse_spec(total).0 == evs0 + parse_spec(cur).0,
        parse_spec(total).1 == parse_spec(cur).1,
    ensures
        parse_spec(total).0 == evs0.push(decode_step(cur)->Emit_0) + parse_spec(cur.skip(n)).0,
        parse_spec(total).1 == parse_spec(cur.skip(n)).1,
{
    let e = decode_step(cur)->Emit_0;
    assert(parse_spec(cur).0 == seq![e] + parse_spec(cur.skip(n)).0);
    assert(evs0 + (seq![e] + parse_spec(cur.skip(n)).0) =~= evs0.push(e) + parse_spec(
        cur.skip(n)).0);
}

/// True when the decoder, run on queue `q`, at some point sees a queue that
/// is exactly the two bytes escape, `[`: the one head on which its decision
/// (emit escape, keep one byte) changes if more bytes are already present.
pub open spec fn visits_bare_csi(q: Seq<u8>) -> bool
    decreases q.len(),
{
    if q.len() == 0 {
        false
    } else if q.len() == 2 && q[0] == 0x1b && q[1] == 0x5b {
        true
    } else {
        match decode_step(q) {
            Step::Wait => false,
            Step::Skip(n) => if 1 <= n <= q.len() {
                visits_bare_csi(q.skip(n))
            } else {
                false
            },
            Step::Emit(e, n) => if 1 <= n <= q.len() {
                visits_bare_csi(q.skip(n))
            } else {
                false
            },
        }
    }
}

/// A head decision other than waiting is unchanged by bytes arriving behind
/// it, except at the bare escape-`[` queue.
proof fn lemma_step_stable(a: Seq<u8>, b: Seq<u8>)
    requires
        a.len() > 0,
        !(a.len() == 2 && a[0] == 0x1b && a[1] == 0x5b),
        !(decode_step(a) is Wait),
    ensures
        decode_step(a + b) == decode_step(a),
{
    let c = a + b;
    assert(c[0] == a[0]);
    if a[0] == 0x0d {
    } else if a[0] == 0x1b {
        assert(a.len() >= 2);
        assert(c[1] == a[1]);
        if a.len() >= 3 && a[1] == 0x5b {
            assert(c[2] == a[2]);
        } else if a[1] == 0x5b {
            assert(a.len() == 2);
            assert(false);
        }
    } else {
        let w = utf8_width_spec(a[0]);
        if w != 0 {
            assert(a.len() >= w);
            assert(c.take(w) =~= a.take(w));
        }
    }
}

/// Feeding `a` and then `b` to the decoder gives the same events as feeding
/// `a + b` at once, provided the run on `a` never sees the bare escape-`[`
/// queue. This is the two-chunk heart of chunk-boundary invariance.
pub proof fn lemma_parse_chunked(a: Seq<u8>, b: Seq<u8>)
    requires
        !visits_bare_csi(a),
    ensures
        parse_spec(a + b).0 == parse_spec(a).0 + parse_spec(parse_spec(a).1 + b).0,
        parse_spec(a + b).1 == parse_spec(parse_spec(a).1 + b).1,
    decreases a.len(),
{
    if a.len() == 0 {
        assert(a + b =~= b);
        assert(parse_spec(a).1 + b =~= b);
        assert(parse_spec(a).0 + parse_spec(b).0 =~= parse_spec(b).0);
    } else {
        match decode_step(a) {
            Step::Wait => {
                assert(parse_spec(a).1 + b =~= a + b);
                assert(parse_spec(a).0 + parse_spec(a + b).0 =~= parse_spec(a + b).0);
            },
            Step::Skip(n) => {
                assert(1 <= n <= a.len());
                lemma_step_stable(a, b);
                assert((a + b).skip(n) =~= a.skip(n) + b);
                lemma_parse_chunked(a.skip(n), b);
            },
            Step::Emit(e, n) => {
                assert(1 <= n <= a.len());
                lemma_step_stable(a, b);
                assert((a + b).skip(n) =~= a.skip(n) + b);
                lemma_parse_chunked(a.skip(n), b);
                assert(seq![e] + (parse_spec(a.skip(n)).0 + parse_spec(parse_spec(a.skip(n)).1
                    + b).0) =~= (seq![e] + parse_spec(a.skip(n)).0) + parse_spec(parse_spec(
                    a.skip(n)).1 + b).0);
            },
        }
    }
}

/// The concatenation of a sequence of byte chunks.
pub open spec fn concat_chunks(cs: Seq<Seq<u8>>) -> Seq<u8>
    decreases cs.len(),
{
    if cs.len() == 0 {
        Seq::<u8>::empty()
    } else {
        cs[0] + concat_chunks(cs.drop_first())
    }
}

/// The accumulated events and final pending bytes after feeding the chunks
/// of `cs`, one `parse` call each, to a decoder whose pending bytes are
/// `pending`.
pub open spec fn feed_chunks(pending: Seq<u8>, cs: Seq<Seq<u8>>) -> (Seq<Event>, Seq<u8>)
    decreases cs.len(),
{
    if cs.len() == 0 {
        (Seq::<Event>::empty(), pending)
    } else {
        let first = parse_spec(pending + cs[0]);
        let rest = feed_chunks(first.1, cs.drop_first());
        (first.0 + rest.0, rest.1)
    }
}

proof fn lemma_concat_chunks_snoc(cs: Seq<Seq<u8>>, c: Seq<u8>)
    ensures
        concat_chunks(cs.push(c)) == concat_chunks(cs) + c,
    decreases cs.len(),
{
    if cs.len() == 0 {
        assert(cs.push(c)[0] == c);
        assert(cs.push(c).drop_first() =~= Seq::<Seq<u8>>::empty());
        assert(concat_chunks(Seq::<Seq<u8>>::empty()) == Seq::<u8>::empty());
        assert(concat_chunks(cs.push(c)) == c + Seq::<u8>::empty());
        assert(c + Seq::<u8>::empty() =~= c);
        assert(Seq::<u8>::empty() + c =~= c);
    } else {
        assert(cs.push(c)[0] == cs[0]);
        assert(cs.push(c).drop_first() =~= cs.drop_first().push(c));
        assert(concat_chunks(cs.push(c)) == cs[0] + concat_chunks(cs.drop_first().push(c)));
        lemma_concat_chunks_snoc(cs.drop_first(), c);
        assert(cs[0] + (concat_chunks(cs.drop_first()) + c) =~= (cs[0] + concat_chunks(
            cs.drop_first())) + c);
    }
}

proof fn lemma_feed_chunks_snoc(pending: Seq<u8>, cs: Seq<Seq<u8>>, c: Seq<u8>)
    ensures
        feed_chunks(pending, cs.push(c)).0 == feed_chunks(pending, cs).0 + parse_spec(
            feed_chunks(pending, cs).1 + c).0,
        feed_chunks(pending, cs.push(c)).1 == parse_spec(feed_chunks(pending, cs).1 + c).1,
    decreases cs.len(),
{
    if cs.len() == 0 {
        assert(cs.push(c)[0] == c);
        assert(cs.push(c).drop_first() =~= Seq::<Seq<u8>>::empty());
        let first = parse_spec(pending + c);
        assert(feed_chunks(first.1, Seq::<Seq<u8>>::empty()) == (Seq::<Event>::empty(),
            first.1));
        assert(feed_chunks(pending, cs.push(c)) == (first.0 + Seq::<Event>::empty(), first.1));
        assert(feed_chunks(pending, cs) == (Seq::<Event>::empty(), pending));
        assert(first.0 + Seq::<Event>::empty() =~= first.0);
        assert(Seq::<Event>::empty() + first.0 =~= first.0);
    } else {
        assert(cs.push(c)[0] == cs[0]);
        assert(cs.push(c).drop_first() =~= cs.drop_first().push(c));
        let first = parse_spec(pending + cs[0]);
        let mid = feed_chunks(first.1, cs.drop_first());
        assert(feed_chunks(pending, cs) == (first.0 + mid.0, mid.1));
        assert(feed_chunks(pending, cs.push(c)) == (first.0 + feed_chunks(first.1,
            cs.drop_first().push(c)).0, feed_chunks(first.1, cs.drop_first().push(c)).1));
        lemma_feed_chunks_snoc(first.1, cs.drop_first(), c);
        assert(first.0 + (mid.0 + parse_spec(mid.1 + c).0) =~= (first.0 + mid.0) + parse_spec(
            mid.1 + c).0);
    }
}

/// Chunk-boundary invariance: feeding a byte sequence to the decoder as any
/// succession of chunks, one `parse` call each, accumulating the events,
/// gives exactly the events and pending bytes of one run on the whole
/// sequence — provided no run on a chunk-boundary prefix ends by seeing the
/// bare escape-`[` queue.
pub proof fn lemma_chunking_invisible(cs: Seq<Seq<u8>>)
    requires
        forall|i: int| 1 <= i < cs.len() ==> !visits_bare_csi(concat_chunks(#[trigger] cs.take(
            i))),
    ensures
        feed_chunks(Seq::<u8>::empty(), cs) == parse_spec(concat_chunks(cs)),
    decreases cs.len(),
{
    if cs.len() == 0 {
        assert(Seq::<u8>::empty() + Seq::<u8>::empty() =~= Seq::<u8>::empty());
    } else {
        let init = cs.drop_last();
        let c = cs.last();
        assert(cs =~= init.push(c));
        assert forall|i: int| 1 <= i < init.len() implies !visits_bare_csi(concat_chunks(
            #[trigger] init.take(i))) by {
            assert(init.take(i) =~= cs.take(i));
        }
        lemma_chunking_invisible(init);
        lemma_feed_chunks_snoc(Seq::<u8>::empty(), init, c);
        lemma_concat_chunks_snoc(init, c);
        assert(init.take(cs.len() - 1) =~= init);
        assert(!visits_bare_csi(concat_chunks(init)));
        lemma_parse_chunked(concat_chunks(init), c);
        assert(feed_chunks(Seq::<u8>::empty(), cs) == feed_chunks(Seq::<u8>::empty(), init.push(
            c)));
    }
}

/// The input orchestrator: owns one decoder and, per invocation, performs
/// one bounded read against the terminal and decodes whatever arrived.
pub struct Input {
    parser: Parser,
}

impl Input {
    /// The bytes its decoder still holds pending, oldest first.
    pub closed spec fn pending(&self) -> Seq<u8> {
        self.parser.pending()
    }

    /// An orchestrator with a fresh decoder.
    pub fn new() -> (inp: Input)
        ensures
            inp.pending() == Seq::<u8>::empty(),
    {
        Input { parser: Parser::new() }
    }

    /// Performs exactly one read of up to 1024 bytes against the terminal
    /// and decodes what came back. A failed or empty read yields no events
    /// and leaves the decoder untouched; otherwise the events and the new
    /// pending bytes are exactly the decoder's run on the bytes read.
    pub fn read<S: System>(&mut self, term: &mut Terminal<S>) -> (events: Vec<Event>)
        requires
            old(term).is_raw(),
        ensures
            final(term).calls() == old(term).calls().push(Call::Read(old(term).fd_spec())),
            final(term).is_raw(),
            final(term).fd_spec() == old(term).fd_spec(),
            final(term).snapshot_spec() == old(term).snapshot_spec(),
            (events@ == Seq::<Event>::empty() && final(self).pending() == old(self).pending())
                || exists|bs: Seq<u8>|
                {
                    &&& 0 < bs.len() <= 1024
                    &&& events@ == parse_spec(#[trigger] (old(self).pending() + bs)).0
                    &&& final(self).pending() == parse_spec(old(self).pending() + bs).1
                },
    {
        match term.read(1024) {
            Ok(data) => {
                if data.len() > 0 {
                    let events = self.parser.parse(data.as_slice());
                    proof {
                        let bs = data@;
                        assert(0 < bs.len() <= 1024 && events@ == parse_spec(old(self).pending()
                            + bs).0 && final(self).pending() == parse_spec(old(self).pending()
                            + bs).1);
                    }
                    events
                } else {
                    Vec::new()
                }
            },
            Err(_) => Vec::new(),
        }
    }
}

impl Default for Input {
    /// An orchestrator with a fresh decoder.
    fn default() -> (inp: Self)
        ensures
            inp.pending() == Seq::<u8>::empty(),
    {
        Input::new()
    }
}

impl Default for Parser {
    /// A decoder with nothing pending.
    fn default() -> (p: Self)
        ensures
            p.pending() == Seq::<u8>::empty(),
    {
        Parser::new()
    }
}

/// Running one silently-consuming step of the decoder preserves the
/// relation between the whole input's parse and the events gathered so far.
proof fn lemma_skip_run(cur: Seq<u8>, total: Seq<u8>, evs0: Seq<Event>, n: int)
    requires
        cur.len() > 0,
        1 <= n <= cur.len(),
        decode_step(cur) matches Step::Skip(m) && m == n,
        parse_spec(total).0 == evs0 + parse_spec(cur).0,
        parse_spec(total).1 == parse_spec(cur).1,
    ensures
        parse_spec(total).0 == evs0 + parse_spec(cur.skip(n)).0,
        parse_spec(total).1 == parse_spec(cur.skip(n)).1,
{
}

} // verus!
