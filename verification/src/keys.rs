//! Keys that control sequences name by a letter or a number.

use crate::event::{key_view, Key, KeyView};
use crate::number::{decimal_u16, fields, parse_decimal, split_fields};
use crate::text::decode_text;
use vstd::prelude::*;
use vstd::utf8::valid_utf8;

verus! {

/// The key that a bare letter after `ESC [` names.
pub open spec fn letter_key(letter: u8) -> Option<KeyView> {
    if letter == 0x41 {
        Some(KeyView::Up)
    } else if letter == 0x42 {
        Some(KeyView::Down)
    } else if letter == 0x43 {
        Some(KeyView::Right)
    } else if letter == 0x44 {
        Some(KeyView::Left)
    } else if letter == 0x46 {
        Some(KeyView::End)
    } else if letter == 0x48 {
        Some(KeyView::Home)
    } else if letter == 0x5a {
        Some(KeyView::BackTab)
    } else {
        None
    }
}

/// Decodes a bare letter after `ESC [`: `A B C D F H Z`.
pub fn decode_letter(letter: u8) -> (r: Option<Key>)
    ensures
        key_view(r) == letter_key(letter),
{
    if letter == 0x41 {
        Some(Key::Up)
    } else if letter == 0x42 {
        Some(Key::Down)
    } else if letter == 0x43 {
        Some(Key::Right)
    } else if letter == 0x44 {
        Some(Key::Left)
    } else if letter == 0x46 {
        Some(Key::End)
    } else if letter == 0x48 {
        Some(Key::Home)
    } else if letter == 0x5a {
        Some(Key::BackTab)
    } else {
        None
    }
}

/// True for the modifier groups `2` (Shift), `3` (Alt) and `5` (Ctrl).
pub open spec fn is_modifier(group: u8) -> bool {
    group == 0x32 || group == 0x33 || group == 0x35
}

/// The key that a modifier group and a letter name: an arrow for `A B C D`,
/// and with Ctrl also End for `F` and Home for `H`.
pub open spec fn modified_key(group: u8, letter: u8) -> Option<KeyView> {
    if group == 0x32 {
        if letter == 0x41 {
            Some(KeyView::ShiftUp)
        } else if letter == 0x42 {
            Some(KeyView::ShiftDown)
        } else if letter == 0x43 {
            Some(KeyView::ShiftRight)
        } else if letter == 0x44 {
            Some(KeyView::ShiftLeft)
        } else {
            None
        }
    } else if group == 0x33 {
        if letter == 0x41 {
            Some(KeyView::AltUp)
        } else if letter == 0x42 {
            Some(KeyView::AltDown)
        } else if letter == 0x43 {
            Some(KeyView::AltRight)
        } else if letter == 0x44 {
            Some(KeyView::AltLeft)
        } else {
            None
        }
    } else if group == 0x35 {
        if letter == 0x41 {
            Some(KeyView::CtrlUp)
        } else if letter == 0x42 {
            Some(KeyView::CtrlDown)
        } else if letter == 0x43 {
            Some(KeyView::CtrlRight)
        } else if letter == 0x44 {
            Some(KeyView::CtrlLeft)
        } else if letter == 0x46 {
            Some(KeyView::CtrlEnd)
        } else if letter == 0x48 {
            Some(KeyView::CtrlHome)
        } else {
            None
        }
    } else {
        None
    }
}

/// Decodes a modifier group and the letter after it.
pub fn decode_modified(group: u8, letter: u8) -> (r: Option<Key>)
    ensures
        key_view(r) == modified_key(group, letter),
{
    if group == 0x32 {
        if letter == 0x41 {
            Some(Key::ShiftUp)
        } else if letter == 0x42 {
            Some(Key::ShiftDown)
        } else if letter == 0x43 {
            Some(Key::ShiftRight)
        } else if letter == 0x44 {
            Some(Key::ShiftLeft)
        } else {
            None
        }
    } else if group == 0x33 {
        if letter == 0x41 {
            Some(Key::AltUp)
        } else if letter == 0x42 {
            Some(Key::AltDown)
        } else if letter == 0x43 {
            Some(Key::AltRight)
        } else if letter == 0x44 {
            Some(Key::AltLeft)
        } else {
            None
        }
    } else if group == 0x35 {
        if letter == 0x41 {
            Some(Key::CtrlUp)
        } else if letter == 0x42 {
            Some(Key::CtrlDown)
        } else if letter == 0x43 {
            Some(Key::CtrlRight)
        } else if letter == 0x44 {
            Some(Key::CtrlLeft)
        } else if letter == 0x46 {
            Some(Key::CtrlEnd)
        } else if letter == 0x48 {
            Some(Key::CtrlHome)
        } else {
            None
        }
    } else {
        None
    }
}

/// The key that the number of a `~` sequence names.
pub open spec fn numbered_key(n: u16) -> Option<KeyView> {
    if n == 1 || n == 7 {
        Some(KeyView::Home)
    } else if n == 2 {
        Some(KeyView::Insert)
    } else if n == 3 {
        Some(KeyView::Delete)
    } else if n == 4 || n == 8 {
        Some(KeyView::End)
    } else if n == 5 {
        Some(KeyView::PageUp)
    } else if n == 6 {
        Some(KeyView::PageDown)
    } else if 11 <= n <= 15 {
        Some(KeyView::F((n - 10) as u8))
    } else if 17 <= n <= 21 {
        Some(KeyView::F((n - 11) as u8))
    } else if 23 <= n <= 24 {
        Some(KeyView::F((n - 12) as u8))
    } else {
        None
    }
}

/// What a `~` sequence says: `list` holds the bytes between `ESC [` and the
/// `~`. It must be one number; a list of several is not decoded.
pub open spec fn special_key(list: Seq<u8>) -> Option<KeyView> {
    let f = fields(list);
    if valid_utf8(list) && f.len() == 1 && decimal_u16(f[0]) is Some {
        numbered_key(decimal_u16(f[0])->0)
    } else {
        None
    }
}

/// Decodes a `~` sequence from its parameter list.
pub fn decode_special(list: &Vec<u8>) -> (r: Option<Key>)
    ensures
        key_view(r) == special_key(list@),
{
    if decode_text(list).is_none() {
        return None;
    }
    let parts = split_fields(list);
    if parts.len() != 1 {
        return None;
    }
    let n: u16 = match parse_decimal(&parts[0]) {
        Some(n) => n,
        None => {
            return None;
        },
    };
    if n == 1 || n == 7 {
        Some(Key::Home)
    } else if n == 2 {
        Some(Key::Insert)
    } else if n == 3 {
        Some(Key::Delete)
    } else if n == 4 || n == 8 {
        Some(Key::End)
    } else if n == 5 {
        Some(Key::PageUp)
    } else if n == 6 {
        Some(Key::PageDown)
    } else if 11 <= n && n <= 15 {
        Some(Key::F((n - 10) as u8))
    } else if 17 <= n && n <= 21 {
        Some(Key::F((n - 11) as u8))
    } else if 23 <= n && n <= 24 {
        Some(Key::F((n - 12) as u8))
    } else {
        None
    }
}

} // verus!
