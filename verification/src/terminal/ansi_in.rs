//! The terminal input decoder: a parser over raw escape-sequence text
//! producing one event — a key with modifiers, an SGR mouse action, or a
//! bracketed-paste payload. Input that matches no rule of the grammar
//! decodes to nothing and is discarded by the caller; the decoder never
//! fails.
use vstd::prelude::*;

use crate::editor::split::first_match;
use crate::terminal::events::{Event, EventModel, KeyCode, Mouse, MouseButton, MouseEvent};
use crate::text::{chars_vec, string_from_range};

verus! {

pub open spec fn paste_start_seq() -> Seq<char> {
    seq!['\x1B', '[', '2', '0', '0', '~']
}

pub open spec fn paste_end_seq() -> Seq<char> {
    seq!['\x1B', '[', '2', '0', '1', '~']
}

pub open spec fn is_digit(c: char) -> bool {
    '0' <= c && c <= '9'
}

pub open spec fn dval(c: char) -> int {
    c as int - '0' as int
}

/// The length of the run of decimal digits that starts `t`.
pub open spec fn digit_run(t: Seq<char>) -> int
    decreases t.len(),
{
    if t.len() == 0 || !is_digit(t[0]) {
        0
    } else {
        1 + digit_run(t.drop_first())
    }
}

/// The decimal value of a digit sequence.
pub open spec fn digits_value(ds: Seq<char>) -> int
    decreases ds.len(),
{
    if ds.len() == 0 {
        0
    } else {
        digits_value(ds.drop_last()) * 10 + dval(ds.last())
    }
}

/// The modifier bitmask for parameter `n`: the wire field `n - 1` carries
/// shift, alt and ctrl in its low three bits, which map onto this crate's
/// CTRL/ALT/SHIFT constants; 0 outside the encodable range.
pub open spec fn mods_of(n: int) -> u8 {
    if 2 <= n <= 8 {
        let v = n - 1;
        ((v % 2) * 4 + ((v / 2) % 2) * 2 + v / 4) as u8
    } else {
        0
    }
}

/// The key a cursor-key final letter selects.
pub open spec fn arrow_code(c: char) -> Option<KeyCode> {
    if c == 'A' {
        Some(KeyCode::Up)
    } else if c == 'B' {
        Some(KeyCode::Down)
    } else if c == 'C' {
        Some(KeyCode::Right)
    } else if c == 'D' {
        Some(KeyCode::Left)
    } else if c == 'H' {
        Some(KeyCode::Home)
    } else if c == 'F' {
        Some(KeyCode::End)
    } else {
        None
    }
}

/// The key a `~`-terminated sequence's leading digit selects.
pub open spec fn tilde_code(c: char) -> Option<KeyCode> {
    if c == '2' {
        Some(KeyCode::Insert)
    } else if c == '3' {
        Some(KeyCode::Delete)
    } else if c == '5' {
        Some(KeyCode::PageUp)
    } else if c == '6' {
        Some(KeyCode::PageDown)
    } else {
        None
    }
}

/// An SGR mouse report decoded from its button value, coordinates and
/// trailing letter.
pub open spec fn mouse_decode(b: u8, x: u16, y: u16, ev: char) -> Option<EventModel> {
    if b == 64 {
        Some(EventModel::MouseM(Mouse::WheelUp(x, y)))
    } else if b == 65 {
        Some(EventModel::MouseM(Mouse::WheelDown(x, y)))
    } else if b & 3 == 3 {
        None
    } else {
        let btn = if b & 3 == 0 {
            MouseButton::Left
        } else if b & 3 == 1 {
            MouseButton::Middle
        } else {
            MouseButton::Right
        };
        let kind = if b & 32 == 32 {
            MouseEvent::Drag
        } else if ev == 'M' {
            MouseEvent::Press
        } else {
            MouseEvent::Release
        };
        Some(EventModel::MouseM(Mouse::Button(btn, kind, x, y)))
    }
}

/// The SGR mouse grammar after `ESC [ <`: `button ; x ; y` ended by `M` or
/// `m`; a parameter out of range decodes to nothing.
pub open spec fn mouse_spec(u: Seq<char>) -> Option<EventModel> {
    let k1 = digit_run(u);
    if k1 >= 1 && k1 < u.len() && u[k1] == ';' {
        let v1 = digits_value(u.take(k1));
        let u2 = u.skip(k1 + 1);
        let k2 = digit_run(u2);
        if k2 >= 1 && k2 < u2.len() && u2[k2] == ';' {
            let v2 = digits_value(u2.take(k2));
            let u3 = u2.skip(k2 + 1);
            let k3 = digit_run(u3);
            if k3 >= 1 && k3 < u3.len() && (u3[k3] == 'M' || u3[k3] == 'm') {
                let v3 = digits_value(u3.take(k3));
                if v1 <= 255 && v2 <= 65535 && v3 <= 65535 {
                    mouse_decode(v1 as u8, v2 as u16, v3 as u16, u3[k3])
                } else {
                    None
                }
            } else {
                None
            }
        } else {
            None
        }
    } else {
        None
    }
}

/// The grammar after `ESC [`: cursor keys with an optional `1;<n>` modifier
/// parameter, `~`-terminated special keys with an optional `;<n>`, and SGR
/// mouse reports.
pub open spec fn csi_spec(t: Seq<char>) -> Option<EventModel> {
    if t.len() >= 3 && t[0] == '1' && t[1] == ';' && digit_run(t.skip(2)) >= 1 && 2 + digit_run(
        t.skip(2),
    ) < t.len() && arrow_code(t[2 + digit_run(t.skip(2))]) is Some {
        let k = digit_run(t.skip(2));
        Some(
            EventModel::KeyM(
                arrow_code(t[2 + k]).unwrap(),
                mods_of(digits_value(t.skip(2).take(k))),
            ),
        )
    } else if t.len() >= 1 && arrow_code(t[0]) is Some {
        Some(EventModel::KeyM(arrow_code(t[0]).unwrap(), 0))
    } else if t.len() >= 2 && tilde_code(t[0]) is Some && t[1] == '~' {
        Some(EventModel::KeyM(tilde_code(t[0]).unwrap(), 0))
    } else if t.len() >= 3 && tilde_code(t[0]) is Some && t[1] == ';' && digit_run(t.skip(2)) >= 1
        && 2 + digit_run(t.skip(2)) < t.len() && t[2 + digit_run(t.skip(2))] == '~' {
        let k = digit_run(t.skip(2));
        Some(EventModel::KeyM(tilde_code(t[0]).unwrap(), mods_of(digits_value(t.skip(2).take(k)))))
    } else if t.len() >= 1 && t[0] == '<' {
        mouse_spec(t.skip(1))
    } else {
        None
    }
}

/// The whole input grammar: a lone escape, the single-character controls,
/// a completed bracketed paste, an `ESC [` sequence, or a literal printable
/// character. Anything else decodes to nothing.
pub open spec fn decode_spec(s: Seq<char>) -> Option<EventModel> {
    if s.len() == 0 {
        None
    } else if s == seq!['\x1B'] {
        Some(EventModel::KeyM(KeyCode::Esc, 0))
    } else if s[0] == '\u{7F}' {
        Some(EventModel::KeyM(KeyCode::Backspace, 0))
    } else if s[0] == '\t' {
        Some(EventModel::KeyM(KeyCode::Tab, 0))
    } else if s[0] == '\n' || s[0] == '\r' {
        Some(EventModel::KeyM(KeyCode::Enter, 0))
    } else if s.len() >= 6 && s.take(6) == paste_start_seq() && first_match(
        s.skip(6),
        paste_end_seq(),
    ) >= 0 {
        Some(EventModel::PasteM(s.skip(6).take(first_match(s.skip(6), paste_end_seq()))))
    } else if s.len() >= 2 && s[0] == '\x1B' && s[1] == '[' {
        csi_spec(s.skip(2))
    } else if s[0] >= ' ' {
        Some(EventModel::KeyM(KeyCode::Char(s[0]), 0))
    } else {
        None
    }
}

/// Decodes one input chunk into at most one event.
pub fn parse(input: &str) -> (r: Option<Event>)
    ensures
        r.deep_view() == decode_spec(input@),
{
    let v = chars_vec(input);
    decode_chars(&v)
}

/// The bracketed-paste payload of `input`, when `input` carries the start
/// marker and, later, the end marker.
pub fn bracketed_paste(input: &str) -> (r: Option<String>)
    ensures
        match r {
            Some(p) => input@.len() >= 6 && input@.take(6) == paste_start_seq() && first_match(
                input@.skip(6),
                paste_end_seq(),
            ) >= 0 && p@ == input@.skip(6).take(first_match(input@.skip(6), paste_end_seq())),
            None => !(input@.len() >= 6 && input@.take(6) == paste_start_seq() && first_match(
                input@.skip(6),
                paste_end_seq(),
            ) >= 0),
        },
{
    let v = chars_vec(input);
    paste_payload(&v)
}

fn paste_payload(v: &Vec<char>) -> (r: Option<String>)
    ensures
        match r {
            Some(p) => v@.len() >= 6 && v@.take(6) == paste_start_seq() && first_match(
                v@.skip(6),
                paste_end_seq(),
            ) >= 0 && p@ == v@.skip(6).take(first_match(v@.skip(6), paste_end_seq())),
            None => !(v@.len() >= 6 && v@.take(6) == paste_start_seq() && first_match(
                v@.skip(6),
                paste_end_seq(),
            ) >= 0),
        },
{
    if v.len() < 6 {
        return None;
    }
    if !(v[0] == '\x1B' && v[1] == '[' && v[2] == '2' && v[3] == '0' && v[4] == '0' && v[5] == '~')
    {
        proof {
            if v@.take(6) == paste_start_seq() {
                assert(v@.take(6)[0] == v@[0] && v@.take(6)[1] == v@[1] && v@.take(6)[2] == v@[2]
                    && v@.take(6)[3] == v@[3] && v@.take(6)[4] == v@[4] && v@.take(6)[5] == v@[5]);
                assert(paste_start_seq()[0] == '\x1B');
            }
        }
        return None;
    }
    proof {
        assert(v@.take(6) =~= paste_start_seq());
    }
    let end_marker: Vec<char> = vec!['\x1B', '[', '2', '0', '1', '~'];
    proof {
        assert(end_marker@ =~= paste_end_seq());
    }
    match crate::editor::split::find_from(v, &end_marker, 6) {
        Some(k) => {
            let payload = string_from_range(v, 6, k);
            proof {
                assert(v@.skip(6).take(k - 6) =~= v@.subrange(6, k as int));
            }
            Some(payload)
        },
        None => None,
    }
}

/// The length of the digit run in `v` starting at `from`.
fn digit_run_at(v: &Vec<char>, from: usize) -> (k: usize)
    requires
        from <= v@.len(),
    ensures
        k as int == digit_run(v@.skip(from as int)),
        from + k <= v@.len(),
        forall|j: int| from <= j < from + k ==> is_digit(#[trigger] v@[j]),
{
    let n = v.len();
    let mut i: usize = from;
    while i < n && v[i] >= '0' && v[i] <= '9'
        invariant
            n == v@.len(),
            from <= i <= n,
            forall|j: int| from <= j < i ==> is_digit(#[trigger] v@[j]),
        decreases n - i,
    {
        i = i + 1;
    }
    proof {
        lemma_digit_run_is(v@, from as int, i as int);
    }
    i - from
}

proof fn lemma_digit_run_is(t: Seq<char>, from: int, upto: int)
    requires
        0 <= from <= upto <= t.len(),
        forall|j: int| from <= j < upto ==> is_digit(#[trigger] t[j]),
        upto == t.len() || !is_digit(t[upto]),
    ensures
        digit_run(t.skip(from)) == upto - from,
    decreases upto - from,
{
    let u = t.skip(from);
    if upto == from {
        if u.len() > 0 {
            assert(u[0] == t[from]);
        }
    } else {
        assert(u[0] == t[from]);
        assert(is_digit(u[0]));
        lemma_digit_run_is(t, from + 1, upto);
        assert(u.drop_first() =~= t.skip(from + 1));
    }
}

/// The value of the digit run `[from, from + k)`, clamped just above the
/// largest coordinate: the pair is the exact value when it is at most
/// 65535, else the clamp with the overflow flag set.
fn digits_val_at(v: &Vec<char>, from: usize, k: usize) -> (r: (u32, bool))
    requires
        from + k <= v@.len(),
        forall|j: int| from <= j < from + k ==> is_digit(#[trigger] v@[j]),
    ensures
        r.1 == (digits_value(v@.subrange(from as int, from + k)) > 65535),
        !r.1 ==> r.0 == digits_value(v@.subrange(from as int, from + k)),
        r.1 ==> r.0 == 65536,
{
    let n = v.len();
    let mut val: u32 = 0;
    let mut i: usize = 0;
    proof {
        assert(v@.subrange(from as int, from as int) =~= Seq::<char>::empty());
    }
    while i < k
        invariant
            n == v@.len(),
            from + k <= v@.len(),
            i <= k,
            forall|j: int| from <= j < from + k ==> is_digit(#[trigger] v@[j]),
            digits_value(v@.subrange(from as int, from + i)) <= 65535 ==> val == digits_value(
                v@.subrange(from as int, from + i),
            ),
            digits_value(v@.subrange(from as int, from + i)) > 65535 ==> val == 65536,
            val <= 65536,
            digits_value(v@.subrange(from as int, from + i)) >= 0,
        decreases k - i,
    {
        let ghost prev = v@.subrange(from as int, from + i);
        let c = v[from + i];
        let d = (c as u32) - ('0' as u32);
        proof {
            assert(is_digit(v@[from + i]));
            assert(d == dval(v@[from + i]));
            assert(v@.subrange(from as int, from + i + 1).drop_last() =~= prev);
            assert(v@.subrange(from as int, from + i + 1).last() == v@[from + i]);
        }
        val = val * 10 + d;
        if val > 65535 {
            val = 65536;
        }
        i = i + 1;
    }
    (val, val > 65535)
}

fn modifier_bits(val: u32, over: bool) -> (r: u8)
    requires
        over ==> val == 65536,
        !over ==> val <= 65535,
    ensures
        r == mods_of(if over {
            65536int
        } else {
            val as int
        }),
{
    if !over && val >= 2 && val <= 8 {
        let v = val - 1;
        (((v % 2) * 4 + ((v / 2) % 2) * 2 + v / 4) as u8)
    } else {
        0
    }
}

fn arrow_code_at(c: char) -> (r: Option<KeyCode>)
    ensures
        r == arrow_code(c),
{
    if c == 'A' {
        Some(KeyCode::Up)
    } else if c == 'B' {
        Some(KeyCode::Down)
    } else if c == 'C' {
        Some(KeyCode::Right)
    } else if c == 'D' {
        Some(KeyCode::Left)
    } else if c == 'H' {
        Some(KeyCode::Home)
    } else if c == 'F' {
        Some(KeyCode::End)
    } else {
        None
    }
}

fn tilde_code_at(c: char) -> (r: Option<KeyCode>)
    ensures
        r == tilde_code(c),
{
    if c == '2' {
        Some(KeyCode::Insert)
    } else if c == '3' {
        Some(KeyCode::Delete)
    } else if c == '5' {
        Some(KeyCode::PageUp)
    } else if c == '6' {
        Some(KeyCode::PageDown)
    } else {
        None
    }
}

fn decode_chars(v: &Vec<char>) -> (r: Option<Event>)
    ensures
        r.deep_view() == decode_spec(v@),
{
    let n = v.len();
    if n == 0 {
        return None;
    }
    let c0 = v[0];
    if c0 == '\x1B' && n == 1 {
        proof {
            assert(v@ =~= seq!['\x1B']);
        }
        return Some(Event::Key(KeyCode::Esc, 0));
    }
    proof {
        if v@ == seq!['\x1B'] {
            assert(v@.len() == 1 && v@[0] == '\x1B');
        }
    }
    if c0 == '\u{7F}' {
        return Some(Event::Key(KeyCode::Backspace, 0));
    }
    if c0 == '\t' {
        return Some(Event::Key(KeyCode::Tab, 0));
    }
    if c0 == '\n' || c0 == '\r' {
        return Some(Event::Key(KeyCode::Enter, 0));
    }
    match paste_payload(v) {
        Some(payload) => {
            return Some(Event::Paste(payload));
        },
        None => {},
    }
    if n >= 2 && c0 == '\x1B' && v[1] == '[' {
        return decode_csi(v);
    }
    if c0 >= ' ' {
        return Some(Event::Key(KeyCode::Char(c0), 0));
    }
    None
}

fn decode_csi(v: &Vec<char>) -> (r: Option<Event>)
    requires
        v@.len() >= 2,
        v@[0] == '\x1B',
        v@[1] == '[',
        !(v@.len() >= 6 && v@.take(6) == paste_start_seq() && first_match(
            v@.skip(6),
            paste_end_seq(),
        ) >= 0),
    ensures
        r.deep_view() == csi_spec(v@.skip(2)),
{
    let ghost t = v@.skip(2);
    let n = v.len();
    proof {
        assert(t.len() == n - 2);
        assert(forall|j: int| 0 <= j < t.len() ==> t[j] == v@[j + 2]);
    }
    if n == 2 {
        return None;
    }
    // cursor key with a `1;<n>` modifier parameter
    if n >= 5 && v[2] == '1' && v[3] == ';' {
        let k = digit_run_at(v, 4);
        proof {
            assert(t.skip(2) =~= v@.skip(4));
        }
        if k >= 1 && 4 + k < n {
            match arrow_code_at(v[4 + k]) {
                Some(code) => {
                    let (val, over) = digits_val_at(v, 4, k);
                    proof {
                        assert(v@.subrange(4, 4 + k as int) =~= t.skip(2).take(k as int));
                    }
                    let mods = modifier_bits(val, over);
                    return Some(Event::Key(code, mods));
                },
                None => {},
            }
        }
    }
    proof {
        if t.len() >= 3 && t[0] == '1' && t[1] == ';' {
            assert(t.skip(2) =~= v@.skip(4));
        }
    }
    // cursor key without a modifier
    match arrow_code_at(v[2]) {
        Some(code) => {
            return Some(Event::Key(code, 0));
        },
        None => {},
    }
    // `~`-terminated special key
    match tilde_code_at(v[2]) {
        Some(code) => {
            if n >= 4 && v[3] == '~' {
                return Some(Event::Key(code, 0));
            }
            if n >= 5 && v[3] == ';' {
                let k = digit_run_at(v, 4);
                proof {
                    assert(t.skip(2) =~= v@.skip(4));
                }
                if k >= 1 && 4 + k < n && v[4 + k] == '~' {
                    let (val, over) = digits_val_at(v, 4, k);
                    proof {
                        assert(v@.subrange(4, 4 + k as int) =~= t.skip(2).take(k as int));
                    }
                    let mods = modifier_bits(val, over);
                    return Some(Event::Key(code, mods));
                }
            }
            return None;
        },
        None => {},
    }
    // SGR mouse report
    if v[2] == '<' {
        proof {
            assert(t.skip(1) =~= v@.skip(3));
        }
        return decode_mouse(v);
    }
    None
}

fn decode_mouse(v: &Vec<char>) -> (r: Option<Event>)
    requires
        v@.len() >= 3,
        v@[2] == '<',
    ensures
        r.deep_view() == mouse_spec(v@.skip(3)),
{
    let ghost u = v@.skip(3);
    let n = v.len();
    let k1 = digit_run_at(v, 3);
    proof {
        assert(u =~= v@.skip(3));
    }
    if !(k1 >= 1 && 3 + k1 < n) {
        return None;
    }
    if v[3 + k1] != ';' {
        return None;
    }
    let (v1, o1) = digits_val_at(v, 3, k1);
    proof {
        assert(v@.subrange(3, 3 + k1 as int) =~= u.take(k1 as int));
    }
    let p2 = 3 + k1 + 1;
    let ghost u2 = u.skip(k1 as int + 1);
    proof {
        assert(u2 =~= v@.skip(p2 as int));
    }
    let k2 = digit_run_at(v, p2);
    if !(k2 >= 1 && p2 + k2 < n) {
        return None;
    }
    if v[p2 + k2] != ';' {
        return None;
    }
    let (v2, o2) = digits_val_at(v, p2, k2);
    proof {
        assert(v@.subrange(p2 as int, p2 + k2 as int) =~= u2.take(k2 as int));
    }
    let p3 = p2 + k2 + 1;
    let ghost u3 = u2.skip(k2 as int + 1);
    proof {
        assert(u3 =~= v@.skip(p3 as int));
    }
    let k3 = digit_run_at(v, p3);
    if !(k3 >= 1 && p3 + k3 < n) {
        return None;
    }
    let ev = v[p3 + k3];
    if !(ev == 'M' || ev == 'm') {
        return None;
    }
    let (v3, o3) = digits_val_at(v, p3, k3);
    proof {
        assert(v@.subrange(p3 as int, p3 + k3 as int) =~= u3.take(k3 as int));
    }
    if o1 || v1 > 255 || o2 || o3 {
        return None;
    }
    let b = v1 as u8;
    let x = v2 as u16;
    let y = v3 as u16;
    if b == 64 {
        return Some(Event::Mouse(Mouse::WheelUp(x, y)));
    }
    if b == 65 {
        return Some(Event::Mouse(Mouse::WheelDown(x, y)));
    }
    let low = b & 3;
    if low == 3 {
        return None;
    }
    let btn = if low == 0 {
        MouseButton::Left
    } else if low == 1 {
        MouseButton::Middle
    } else {
        MouseButton::Right
    };
    let kind = if b & 32 == 32 {
        MouseEvent::Drag
    } else if ev == 'M' {
        MouseEvent::Press
    } else {
        MouseEvent::Release
    };
    Some(Event::Mouse(Mouse::Button(btn, kind, x, y)))
}

} // verus!
