//! The three mouse reports: X10, xterm and rxvt.

use crate::event::{Mouse, MouseButton};
use crate::number::{decimal_u16, fields, parse_decimal, split_fields};
use crate::text::decode_text;
use vstd::prelude::*;
use vstd::utf8::valid_utf8;

verus! {

/// The button byte of an X10 report less 32, wrapping within a byte.
pub open spec fn x10_offset(cb: u8) -> int {
    if cb >= 32 {
        cb - 32
    } else {
        cb + 224
    }
}

/// A coordinate byte of an X10 report less 32, and 0 where it is smaller.
pub open spec fn x10_coordinate(c: u8) -> u16 {
    if c >= 32 {
        (c - 32) as u16
    } else {
        0
    }
}

/// What an X10 report says. The two low bits of the offset pick the button,
/// and the bit of value 64 turns it into the wheel.
pub open spec fn x10_report(cb: u8, cx: u8, cy: u8) -> Mouse {
    let offset = x10_offset(cb);
    let wheel = (offset / 64) % 2 == 1;
    let x = x10_coordinate(cx);
    let y = x10_coordinate(cy);
    if offset % 4 == 0 {
        Mouse::Press(if wheel { MouseButton::WheelUp } else { MouseButton::Left }, x, y)
    } else if offset % 4 == 1 {
        Mouse::Press(if wheel { MouseButton::WheelDown } else { MouseButton::Middle }, x, y)
    } else if offset % 4 == 2 {
        Mouse::Press(if wheel { MouseButton::WheelLeft } else { MouseButton::Right }, x, y)
    } else if wheel {
        Mouse::Press(MouseButton::WheelRight, x, y)
    } else {
        Mouse::Release(x, y)
    }
}

/// Decodes the three bytes of an X10 report.
pub fn decode_x10(cb: u8, cx: u8, cy: u8) -> (m: Mouse)
    ensures
        m == x10_report(cb, cx, cy),
{
    let offset: u8 = if cb >= 32 {
        cb - 32
    } else {
        cb + 224
    };
    let wheel: bool = (offset / 64) % 2 == 1;
    let x: u16 = if cx >= 32 {
        (cx - 32) as u16
    } else {
        0
    };
    let y: u16 = if cy >= 32 {
        (cy - 32) as u16
    } else {
        0
    };
    let low: u8 = offset % 4;
    if low == 0 {
        if wheel {
            Mouse::Press(MouseButton::WheelUp, x, y)
        } else {
            Mouse::Press(MouseButton::Left, x, y)
        }
    } else if low == 1 {
        if wheel {
            Mouse::Press(MouseButton::WheelDown, x, y)
        } else {
            Mouse::Press(MouseButton::Middle, x, y)
        }
    } else if low == 2 {
        if wheel {
            Mouse::Press(MouseButton::WheelLeft, x, y)
        } else {
            Mouse::Press(MouseButton::Right, x, y)
        }
    } else if wheel {
        Mouse::Press(MouseButton::WheelRight, x, y)
    } else {
        Mouse::Release(x, y)
    }
}

/// The byte `M`, which ends a press in an xterm report and ends an rxvt
/// report.
pub const UPPER_M: u8 = 0x4d;

/// The byte `m`, which ends a release in an xterm report.
pub const LOWER_M: u8 = 0x6d;

/// The button that an xterm report's first number names.
pub open spec fn xterm_button(cb: u16) -> Option<MouseButton> {
    if cb == 0 {
        Some(MouseButton::Left)
    } else if cb == 1 {
        Some(MouseButton::Middle)
    } else if cb == 2 {
        Some(MouseButton::Right)
    } else if cb == 64 {
        Some(MouseButton::WheelUp)
    } else if cb == 65 {
        Some(MouseButton::WheelDown)
    } else if cb == 66 {
        Some(MouseButton::WheelLeft)
    } else if cb == 67 {
        Some(MouseButton::WheelRight)
    } else {
        None
    }
}

/// What an xterm report says: `list` holds the bytes between `<` and the
/// final byte. The list must be well-formed text whose first three fields are
/// numbers; further fields are not read.
pub open spec fn xterm_report(list: Seq<u8>, last: u8) -> Option<Mouse> {
    let f = fields(list);
    if valid_utf8(list) && f.len() >= 3 && decimal_u16(f[0]) is Some && decimal_u16(f[1]) is Some
        && decimal_u16(f[2]) is Some {
        let cb = decimal_u16(f[0])->0;
        let x = decimal_u16(f[1])->0;
        let y = decimal_u16(f[2])->0;
        match xterm_button(cb) {
            Some(button) => if last == UPPER_M {
                Some(Mouse::Press(button, x, y))
            } else if last == LOWER_M {
                Some(Mouse::Release(x, y))
            } else {
                None
            },
            None => if cb == 32 {
                Some(Mouse::Hold(x, y))
            } else if cb == 3 {
                Some(Mouse::Release(x, y))
            } else {
                None
            },
        }
    } else {
        None
    }
}

/// Decodes an xterm report from its parameter list and its final byte.
pub fn decode_xterm(list: &Vec<u8>, last: u8) -> (r: Option<Mouse>)
    ensures
        r == xterm_report(list@, last),
{
    if decode_text(list).is_none() {
        return None;
    }
    let parts = split_fields(list);
    if parts.len() < 3 {
        return None;
    }
    let cb: u16 = match parse_decimal(&parts[0]) {
        Some(n) => n,
        None => {
            return None;
        },
    };
    let x: u16 = match parse_decimal(&parts[1]) {
        Some(n) => n,
        None => {
            return None;
        },
    };
    let y: u16 = match parse_decimal(&parts[2]) {
        Some(n) => n,
        None => {
            return None;
        },
    };
    let button = if cb == 0 {
        MouseButton::Left
    } else if cb == 1 {
        MouseButton::Middle
    } else if cb == 2 {
        MouseButton::Right
    } else if cb == 64 {
        MouseButton::WheelUp
    } else if cb == 65 {
        MouseButton::WheelDown
    } else if cb == 66 {
        MouseButton::WheelLeft
    } else if cb == 67 {
        MouseButton::WheelRight
    } else if cb == 32 {
        return Some(Mouse::Hold(x, y));
    } else if cb == 3 {
        return Some(Mouse::Release(x, y));
    } else {
        return None;
    };
    if last == UPPER_M {
        Some(Mouse::Press(button, x, y))
    } else if last == LOWER_M {
        Some(Mouse::Release(x, y))
    } else {
        None
    }
}

/// True where every field of the list is a number.
pub open spec fn all_numbers(f: Seq<Seq<u8>>) -> bool {
    forall|i: int| 0 <= i < f.len() ==> decimal_u16(#[trigger] f[i]) is Some
}

/// What an rxvt report says: `list` holds the bytes between `ESC [` and the
/// final `M`. Every field must be a number, and there must be three at least.
pub open spec fn rxvt_report(list: Seq<u8>) -> Option<Mouse> {
    let f = fields(list);
    if valid_utf8(list) && all_numbers(f) && f.len() >= 3 {
        let cb = decimal_u16(f[0])->0;
        let x = decimal_u16(f[1])->0;
        let y = decimal_u16(f[2])->0;
        if cb == 32 {
            Some(Mouse::Press(MouseButton::Left, x, y))
        } else if cb == 33 {
            Some(Mouse::Press(MouseButton::Middle, x, y))
        } else if cb == 34 {
            Some(Mouse::Press(MouseButton::Right, x, y))
        } else if cb == 35 {
            Some(Mouse::Release(x, y))
        } else if cb == 64 {
            Some(Mouse::Hold(x, y))
        } else if cb == 96 || cb == 97 {
            Some(Mouse::Press(MouseButton::WheelUp, x, y))
        } else {
            None
        }
    } else {
        None
    }
}

/// Reads every field of a list as a number; nothing if one of them is none.
pub fn parse_numbers(list: &Vec<u8>) -> (r: Option<Vec<u16>>)
    ensures
        r is Some <==> all_numbers(fields(list@)),
        r is Some ==> r->0@.len() == fields(list@).len() && forall|i: int|
            0 <= i < r->0@.len() ==> Some(#[trigger] r->0@[i]) == decimal_u16(fields(list@)[i]),
{
    let parts = split_fields(list);
    let ghost f = fields(list@);
    let mut numbers: Vec<u16> = Vec::new();
    let mut i: usize = 0;
    while i < parts.len()
        invariant
            i <= parts.len(),
            f == fields(list@),
            f.len() == parts.len(),
            forall|j: int| 0 <= j < parts.len() ==> (#[trigger] f[j]) == parts[j]@,
            numbers@.len() == i,
            forall|j: int| 0 <= j < i ==> Some(#[trigger] numbers@[j]) == decimal_u16(f[j]),
        decreases parts.len() - i,
    {
        match parse_decimal(&parts[i]) {
            Some(n) => {
                numbers.push(n);
            },
            None => {
                assert(decimal_u16(f[i as int]) is None);
                return None;
            },
        }
        i += 1;
    }
    assert forall|j: int| 0 <= j < f.len() implies decimal_u16(#[trigger] f[j]) is Some by {
        assert(Some(numbers@[j]) == decimal_u16(f[j]));
    }
    Some(numbers)
}

/// Decodes an rxvt report from its parameter list.
pub fn decode_rxvt(list: &Vec<u8>) -> (r: Option<Mouse>)
    ensures
        r == rxvt_report(list@),
{
    if decode_text(list).is_none() {
        return None;
    }
    let numbers = match parse_numbers(list) {
        Some(n) => n,
        None => {
            return None;
        },
    };
    if numbers.len() < 3 {
        return None;
    }
    let cb: u16 = numbers[0];
    let x: u16 = numbers[1];
    let y: u16 = numbers[2];
    if cb == 32 {
        Some(Mouse::Press(MouseButton::Left, x, y))
    } else if cb == 33 {
        Some(Mouse::Press(MouseButton::Middle, x, y))
    } else if cb == 34 {
        Some(Mouse::Press(MouseButton::Right, x, y))
    } else if cb == 35 {
        Some(Mouse::Release(x, y))
    } else if cb == 64 {
        Some(Mouse::Hold(x, y))
    } else if cb == 96 || cb == 97 {
        Some(Mouse::Press(MouseButton::WheelUp, x, y))
    } else {
        None
    }
}

} // verus!
