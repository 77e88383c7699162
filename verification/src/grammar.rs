//! The grammar of the terminal's input, stated over a sequence of read
//! results and a cursor into it.
//!
//! Each function says what one decoding step yields when it starts at `pos`,
//! and where the cursor stands when it is done.

use crate::event::{DecodeError, EventView, KeyView};
use crate::keys::{is_modifier, letter_key, modified_key, special_key};
use crate::mouse::{rxvt_report, x10_report, xterm_report, LOWER_M, UPPER_M};
use crate::source::{after_pull, byte_at, bytes_of, Pull};
use vstd::prelude::*;
use vstd::utf8::{decode_utf8, valid_utf8};

verus! {

/// The escape byte.
pub const ESC: u8 = 0x1b;

/// What a decoding step yields, the cursor after it, and whether it ran
/// dry: whether it asked for a byte at the end of the stream.
pub struct Scan<T> {
    pub outcome: Result<T, DecodeError>,
    pub end: int,
    pub dry: bool,
}

/// A step that yields `value`.
pub open spec fn found<T>(value: T, end: int) -> Scan<T> {
    Scan { outcome: Ok(value), end, dry: false }
}

/// A step that a byte it took shows to fit no known sequence.
pub open spec fn malformed<T>(end: int) -> Scan<T> {
    Scan { outcome: Err(DecodeError::MalformedSequence), end, dry: false }
}

/// A step whose bytes did not become text within four bytes.
pub open spec fn not_text<T>(end: int) -> Scan<T> {
    Scan { outcome: Err(DecodeError::InvalidUtf8), end, dry: false }
}

/// A step that a pull at `pos` ends because it gave no byte: a failed read,
/// which is taken, or the end of the stream, where the step runs dry.
pub open spec fn cut_short<T>(src: Seq<Pull>, pos: int, error: DecodeError) -> Scan<T> {
    Scan { outcome: Err(error), end: after_pull(src, pos), dry: pos >= src.len() }
}

/// Assembling text from `held` and the bytes at `pos`: one byte is taken at
/// a time, and the first moment at which the bytes held are well-formed
/// UTF-8 ends the step. Four bytes that are not, a failed read, or the end
/// of the stream end it without text.
pub open spec fn utf8_more(held: Seq<u8>, src: Seq<Pull>, pos: int) -> Scan<Seq<char>>
    decreases 4 - held.len(),
{
    match byte_at(src, pos) {
        None => cut_short(src, pos, DecodeError::InvalidUtf8),
        Some(b) => {
            let grown = held.push(b);
            if valid_utf8(grown) {
                found(decode_utf8(grown), pos + 1)
            } else if grown.len() >= 4 {
                not_text(pos + 1)
            } else {
                utf8_more(grown, src, pos + 1)
            }
        },
    }
}

/// The text that begins with the byte `first`, which was already taken: an
/// ASCII byte is its own character and takes nothing more.
pub open spec fn utf8_text(first: u8, src: Seq<Pull>, pos: int) -> Scan<Seq<char>> {
    if first < 0x80 {
        found(seq![first as char], pos)
    } else {
        utf8_more(seq![first], src, pos)
    }
}

/// True for the byte that ends a parameter list: `M` or `m` in an xterm
/// report, and any byte from 64 to 126 elsewhere.
pub open spec fn ends_list(b: u8, xterm: bool) -> bool {
    if xterm {
        b == UPPER_M || b == LOWER_M
    } else {
        64 <= b <= 126
    }
}

/// The place of the first item at or after `pos` that is not a byte of the
/// parameter list: its final byte, a failed read, or the end of the stream.
pub open spec fn list_end(src: Seq<Pull>, pos: int, xterm: bool) -> int
    decreases src.len() - pos,
{
    if 0 <= pos < src.len() {
        match src[pos] {
            Pull::Byte(b) => if ends_list(b, xterm) {
                pos
            } else {
                list_end(src, pos + 1, xterm)
            },
            Pull::Failure => pos,
        }
    } else {
        pos
    }
}

/// After `ESC [ [`: a letter from `A` to `E` is a function key.
pub open spec fn csi_function_key(src: Seq<Pull>, pos: int) -> Scan<EventView> {
    match byte_at(src, pos) {
        Some(b) => if 0x41 <= b <= 0x45 {
            found(EventView::Key(KeyView::F((b - 0x40) as u8)), pos + 1)
        } else {
            malformed(pos + 1)
        },
        None => cut_short(src, pos, DecodeError::MalformedSequence),
    }
}

/// After `ESC [ 1`: one separator byte, a modifier group and a letter.
pub open spec fn csi_modified(src: Seq<Pull>, pos: int) -> Scan<EventView> {
    if byte_at(src, pos) is None {
        cut_short(src, pos, DecodeError::MalformedSequence)
    } else {
        match byte_at(src, pos + 1) {
            None => cut_short(src, pos + 1, DecodeError::MalformedSequence),
            Some(group) => if !is_modifier(group) {
                malformed(pos + 2)
            } else {
                match byte_at(src, pos + 2) {
                    None => cut_short(src, pos + 2, DecodeError::MalformedSequence),
                    Some(letter) => match modified_key(group, letter) {
                        Some(key) => found(EventView::Key(key), pos + 3),
                        None => malformed(pos + 3),
                    },
                }
            },
        }
    }
}

/// After `ESC [ M`: the three bytes of an X10 mouse report.
pub open spec fn csi_x10(src: Seq<Pull>, pos: int) -> Scan<EventView> {
    match byte_at(src, pos) {
        None => cut_short(src, pos, DecodeError::MalformedSequence),
        Some(cb) => match byte_at(src, pos + 1) {
            None => cut_short(src, pos + 1, DecodeError::MalformedSequence),
            Some(cx) => match byte_at(src, pos + 2) {
                None => cut_short(src, pos + 2, DecodeError::MalformedSequence),
                Some(cy) => found(EventView::Mouse(x10_report(cb, cx, cy)), pos + 3),
            },
        },
    }
}

/// After `ESC [ <`: the parameter list of an xterm mouse report up to its
/// final `M` or `m`.
pub open spec fn csi_xterm(src: Seq<Pull>, pos: int) -> Scan<EventView> {
    let stop = list_end(src, pos, true);
    match byte_at(src, stop) {
        None => cut_short(src, stop, DecodeError::MalformedSequence),
        Some(last) => match xterm_report(bytes_of(src.subrange(pos, stop)), last) {
            Some(mouse) => found(EventView::Mouse(mouse), stop + 1),
            None => malformed(stop + 1),
        },
    }
}

/// After `ESC [` and the digit `first`: the rest of the parameter list up to
/// its final byte, which tells an rxvt mouse report (`M`) from a special key
/// (`~`).
pub open spec fn csi_numbered(first: u8, src: Seq<Pull>, pos: int) -> Scan<EventView> {
    let stop = list_end(src, pos, false);
    let list = seq![first] + bytes_of(src.subrange(pos, stop));
    match byte_at(src, stop) {
        None => cut_short(src, stop, DecodeError::MalformedSequence),
        Some(last) => if last == UPPER_M {
            match rxvt_report(list) {
                Some(mouse) => found(EventView::Mouse(mouse), stop + 1),
                None => malformed(stop + 1),
            }
        } else if last == 0x7e {
            match special_key(list) {
                Some(key) => found(EventView::Key(key), stop + 1),
                None => malformed(stop + 1),
            }
        } else {
            malformed(stop + 1)
        },
    }
}

/// After `ESC [`: the next byte alone decides which sequence follows.
pub open spec fn csi(src: Seq<Pull>, pos: int) -> Scan<EventView> {
    match byte_at(src, pos) {
        None => cut_short(src, pos, DecodeError::MalformedSequence),
        Some(b) => if b == 0x5b {
            csi_function_key(src, pos + 1)
        } else if b == 0x31 {
            csi_modified(src, pos + 1)
        } else if letter_key(b) is Some {
            found(EventView::Key(letter_key(b)->0), pos + 1)
        } else if b == UPPER_M {
            csi_x10(src, pos + 1)
        } else if b == 0x3c {
            csi_xterm(src, pos + 1)
        } else if 0x30 <= b <= 0x39 {
            csi_numbered(b, src, pos + 1)
        } else {
            malformed(pos + 1)
        },
    }
}

/// Assembled text as a key event: a character, alone or with Alt.
pub open spec fn keyed(text: Scan<Seq<char>>, alt: bool) -> Scan<EventView> {
    Scan {
        outcome: match text.outcome {
            Ok(t) => Ok(
                EventView::Key(
                    if alt {
                        KeyView::Alt(t)
                    } else {
                        KeyView::Character(t)
                    },
                ),
            ),
            Err(e) => Err(e),
        },
        end: text.end,
        dry: text.dry,
    }
}

/// The error of a pull at `pos` that gave no byte, where the source's own
/// error is handed on: that error for a failed read, and a malformed
/// sequence at the end of the stream.
pub open spec fn pull_error(src: Seq<Pull>, pos: int) -> DecodeError {
    if pos < src.len() {
        DecodeError::SourceIo
    } else {
        DecodeError::MalformedSequence
    }
}

/// After `ESC`: `O` and a letter from `P` to `S` is a function key, `[`
/// opens a control sequence, and any other byte is a character with Alt.
/// Where the read of that first byte fails, the failure is the source's.
pub open spec fn escape_sequence(src: Seq<Pull>, pos: int) -> Scan<EventView> {
    match byte_at(src, pos) {
        None => cut_short(src, pos, pull_error(src, pos)),
        Some(b) => if b == 0x4f {
            match byte_at(src, pos + 1) {
                Some(c) => if 0x50 <= c <= 0x53 {
                    found(EventView::Key(KeyView::F((c - 0x4f) as u8)), pos + 2)
                } else {
                    malformed(pos + 2)
                },
                None => cut_short(src, pos + 1, DecodeError::MalformedSequence),
            }
        } else if b == 0x5b {
            csi(src, pos + 1)
        } else {
            keyed(utf8_text(b, src, pos + 1), true)
        },
    }
}

/// The one-character text of an ASCII byte.
pub open spec fn ascii(b: u8) -> Seq<char> {
    seq![b as char]
}

/// What the byte `byte`, already taken, begins.
pub open spec fn classify(byte: u8, src: Seq<Pull>, pos: int) -> Scan<EventView> {
    if byte == 0x00 {
        found(EventView::Key(KeyView::Null), pos)
    } else if byte == 0x0a || byte == 0x0d {
        found(EventView::Key(KeyView::Character(ascii(0x0a))), pos)
    } else if byte == 0x09 {
        found(EventView::Key(KeyView::Character(ascii(0x09))), pos)
    } else if 0x01 <= byte <= 0x1a {
        found(EventView::Key(KeyView::Ctrl(ascii((byte + 0x60) as u8))), pos)
    } else if byte == ESC {
        escape_sequence(src, pos)
    } else if 0x1c <= byte <= 0x1f {
        found(EventView::Key(KeyView::Ctrl(ascii((byte + 0x18) as u8))), pos)
    } else if byte == 0x7f {
        found(EventView::Key(KeyView::Backspace), pos)
    } else {
        keyed(utf8_text(byte, src, pos), false)
    }
}

/// The event that begins with `byte`, and the cursor after it. An attempt
/// that fails becomes `Unknown` with every byte that it took: `byte` and the
/// bytes among the items from `pos` to where it stopped.
pub open spec fn decode(byte: u8, src: Seq<Pull>, pos: int) -> (EventView, int) {
    let scan = classify(byte, src, pos);
    match scan.outcome {
        Ok(event) => (event, scan.end),
        Err(_) => (
            EventView::Unknown(seq![byte] + bytes_of(src.subrange(pos, scan.end))),
            scan.end,
        ),
    }
}

/// Whether the call for the next event at `pos` runs dry. Finding the end of
/// the stream in place of a first byte, or behind a lone escape byte, is not
/// running dry.
pub open spec fn next_runs_dry(src: Seq<Pull>, pos: int) -> bool {
    0 <= pos < src.len() && match src[pos] {
        Pull::Failure => false,
        Pull::Byte(b) => !(b == ESC && byte_at(src, pos + 1) is None) && classify(
            b,
            src,
            pos + 1,
        ).dry,
    }
}

/// One call for the next event at `pos`. Nothing at the end of the stream;
/// the source's error where the first read fails; the Esc key where an
/// escape byte is all that the first read of two bytes could get; else the
/// event that the first byte begins.
pub open spec fn next_event(src: Seq<Pull>, pos: int) -> (
    Option<Result<EventView, DecodeError>>,
    int,
) {
    if !(0 <= pos < src.len()) {
        (None, pos)
    } else {
        match src[pos] {
            Pull::Failure => (Some(Err(DecodeError::SourceIo)), pos + 1),
            Pull::Byte(b) => if b == ESC && byte_at(src, pos + 1) is None {
                (Some(Ok(EventView::Key(KeyView::Esc))), pos + 1)
            } else {
                (Some(Ok(decode(b, src, pos + 1).0)), decode(b, src, pos + 1).1)
            },
        }
    }
}

} // verus!
