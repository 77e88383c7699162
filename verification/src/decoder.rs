//! The decoder: one call, one event, and exactly the bytes of that event
//! taken from the source.

use crate::event::{DecodeError, Event, EventView, Key};
use crate::grammar::{
    classify, csi, csi_function_key, csi_modified, csi_numbered, csi_x10, csi_xterm, decode,
    escape_sequence, list_end, next_event, next_runs_dry, utf8_more, utf8_text, ESC,
};
use crate::keys::{decode_letter, decode_modified, decode_special};
use crate::mouse::{decode_rxvt, decode_x10, decode_xterm, LOWER_M, UPPER_M};
use crate::source::{after_pull, byte_at, bytes_of, lemma_bytes_of_extend, ByteSource, Pull};
use crate::text::{ascii_text, decode_text};
use vstd::prelude::*;

verus! {

/// The view of an event or the error in its place.
pub open spec fn event_outcome(r: Result<Event, DecodeError>) -> Result<EventView, DecodeError> {
    match r {
        Ok(e) => Ok(e@),
        Err(e) => Err(e),
    }
}

/// The view of a text or the error in its place.
pub open spec fn text_outcome(r: Result<String, DecodeError>) -> Result<Seq<char>, DecodeError> {
    match r {
        Ok(t) => Ok(t@),
        Err(e) => Err(e),
    }
}

/// Takes the bytes of a parameter list from the source onto `list`, and the
/// item that ends it. Gives the final byte, or nothing where a failed read
/// or the end of the stream came first.
fn take_list(bytes: &mut ByteSource, list: &mut Vec<u8>, xterm: bool) -> (last: Option<u8>)
    ensures
        final(bytes).items() == old(bytes).items(),
        old(bytes).cursor() <= final(bytes).cursor(),
        final(bytes).cursor() == after_pull(
            old(bytes).items(),
            list_end(old(bytes).items(), old(bytes).cursor(), xterm),
        ),
        last == byte_at(
            old(bytes).items(),
            list_end(old(bytes).items(), old(bytes).cursor(), xterm),
        ),
        final(bytes).dry() == (old(bytes).dry() || list_end(
            old(bytes).items(),
            old(bytes).cursor(),
            xterm,
        ) >= old(bytes).items().len()),
        final(list)@ == old(list)@ + bytes_of(
            old(bytes).items().subrange(
                old(bytes).cursor(),
                list_end(old(bytes).items(), old(bytes).cursor(), xterm),
            ),
        ),
{
    let ghost src = bytes.items();
    let start: usize = bytes.position();
    assert(src.subrange(start as int, start as int) =~= Seq::<Pull>::empty());
    assert(list@ =~= old(list)@ + bytes_of(src.subrange(start as int, start as int)));
    loop
        invariant
            bytes.items() == src,
            src == old(bytes).items(),
            start == old(bytes).cursor(),
            bytes.dry() == old(bytes).dry(),
            start <= bytes.cursor() <= src.len(),
            list_end(src, bytes.cursor(), xterm) == list_end(src, start as int, xterm),
            list@ == old(list)@ + bytes_of(src.subrange(start as int, bytes.cursor())),
        decreases src.len() - bytes.cursor(),
    {
        let here: usize = bytes.position();
        match bytes.pull() {
            None => {
                return None;
            },
            Some(b) => {
                let stops: bool = if xterm {
                    b == UPPER_M || b == LOWER_M
                } else {
                    64 <= b && b <= 126
                };
                if stops {
                    return Some(b);
                }
                proof {
                    lemma_bytes_of_extend(src, start as int, here as int);
                }
                list.push(b);
                assert(list@ =~= old(list)@ + bytes_of(
                    src.subrange(start as int, bytes.cursor()),
                ));
            },
        }
    }
}

impl Event {
    /// Decodes what follows `ESC [`.
    pub fn parse_csi(bytes: &mut ByteSource) -> (r: Result<Event, DecodeError>)
        ensures
            final(bytes).items() == old(bytes).items(),
            old(bytes).cursor() <= final(bytes).cursor(),
            final(bytes).cursor() == csi(old(bytes).items(), old(bytes).cursor()).end,
            event_outcome(r) == csi(old(bytes).items(), old(bytes).cursor()).outcome,
            final(bytes).dry() == (old(bytes).dry() || csi(
                old(bytes).items(),
                old(bytes).cursor(),
            ).dry),
    {
        let first: u8 = match bytes.pull() {
            Some(b) => b,
            None => {
                return Err(DecodeError::MalformedSequence);
            },
        };
        if first == 0x5b {
            Self::parse_function_key(bytes)
        } else if first == 0x31 {
            Self::parse_modified(bytes)
        } else if first == UPPER_M {
            Self::parse_x10(bytes)
        } else if first == 0x3c {
            Self::parse_xterm(bytes)
        } else if 0x30 <= first && first <= 0x39 {
            Self::parse_numbered(first, bytes)
        } else {
            match decode_letter(first) {
                Some(key) => Ok(Event::Key(key)),
                None => Err(DecodeError::MalformedSequence),
            }
        }
    }

    /// Decodes what follows `ESC [ [`.
    fn parse_function_key(bytes: &mut ByteSource) -> (r: Result<Event, DecodeError>)
        ensures
            final(bytes).items() == old(bytes).items(),
            old(bytes).cursor() <= final(bytes).cursor(),
            final(bytes).cursor() == csi_function_key(
                old(bytes).items(),
                old(bytes).cursor(),
            ).end,
            event_outcome(r) == csi_function_key(old(bytes).items(), old(bytes).cursor()).outcome,
            final(bytes).dry() == (old(bytes).dry() || csi_function_key(
                old(bytes).items(),
                old(bytes).cursor(),
            ).dry),
    {
        match bytes.pull() {
            Some(b) => if 0x41 <= b && b <= 0x45 {
                Ok(Event::Key(Key::F(b - 0x40)))
            } else {
                Err(DecodeError::MalformedSequence)
            },
            None => Err(DecodeError::MalformedSequence),
        }
    }

    /// Decodes what follows `ESC [ 1`.
    fn parse_modified(bytes: &mut ByteSource) -> (r: Result<Event, DecodeError>)
        ensures
            final(bytes).items() == old(bytes).items(),
            old(bytes).cursor() <= final(bytes).cursor(),
            final(bytes).cursor() == csi_modified(old(bytes).items(), old(bytes).cursor()).end,
            event_outcome(r) == csi_modified(old(bytes).items(), old(bytes).cursor()).outcome,
            final(bytes).dry() == (old(bytes).dry() || csi_modified(
                old(bytes).items(),
                old(bytes).cursor(),
            ).dry),
    {
        if bytes.pull().is_none() {
            return Err(DecodeError::MalformedSequence);
        }
        let group: u8 = match bytes.pull() {
            Some(b) => b,
            None => {
                return Err(DecodeError::MalformedSequence);
            },
        };
        if !(group == 0x32 || group == 0x33 || group == 0x35) {
            return Err(DecodeError::MalformedSequence);
        }
        let letter: u8 = match bytes.pull() {
            Some(b) => b,
            None => {
                return Err(DecodeError::MalformedSequence);
            },
        };
        match decode_modified(group, letter) {
            Some(key) => Ok(Event::Key(key)),
            None => Err(DecodeError::MalformedSequence),
        }
    }

    /// Decodes what follows `ESC [ M`.
    fn parse_x10(bytes: &mut ByteSource) -> (r: Result<Event, DecodeError>)
        ensures
            final(bytes).items() == old(bytes).items(),
            old(bytes).cursor() <= final(bytes).cursor(),
            final(bytes).cursor() == csi_x10(old(bytes).items(), old(bytes).cursor()).end,
            event_outcome(r) == csi_x10(old(bytes).items(), old(bytes).cursor()).outcome,
            final(bytes).dry() == (old(bytes).dry() || csi_x10(
                old(bytes).items(),
                old(bytes).cursor(),
            ).dry),
    {
        let cb: u8 = match bytes.pull() {
            Some(b) => b,
            None => {
                return Err(DecodeError::MalformedSequence);
            },
        };
        let cx: u8 = match bytes.pull() {
            Some(b) => b,
            None => {
                return Err(DecodeError::MalformedSequence);
            },
        };
        let cy: u8 = match bytes.pull() {
            Some(b) => b,
            None => {
                return Err(DecodeError::MalformedSequence);
            },
        };
        Ok(Event::Mouse(decode_x10(cb, cx, cy)))
    }

    /// Decodes what follows `ESC [ <`.
    fn parse_xterm(bytes: &mut ByteSource) -> (r: Result<Event, DecodeError>)
        ensures
            final(bytes).items() == old(bytes).items(),
            old(bytes).cursor() <= final(bytes).cursor(),
            final(bytes).cursor() == csi_xterm(old(bytes).items(), old(bytes).cursor()).end,
            event_outcome(r) == csi_xterm(old(bytes).items(), old(bytes).cursor()).outcome,
            final(bytes).dry() == (old(bytes).dry() || csi_xterm(
                old(bytes).items(),
                old(bytes).cursor(),
            ).dry),
    {
        let mut list: Vec<u8> = Vec::new();
        let last: u8 = match take_list(bytes, &mut list, true) {
            Some(b) => b,
            None => {
                return Err(DecodeError::MalformedSequence);
            },
        };
        assert(list@ =~= bytes_of(
            old(bytes).items().subrange(
                old(bytes).cursor(),
                list_end(old(bytes).items(), old(bytes).cursor(), true),
            ),
        ));
        match decode_xterm(&list, last) {
            Some(mouse) => Ok(Event::Mouse(mouse)),
            None => Err(DecodeError::MalformedSequence),
        }
    }

    /// Decodes what follows `ESC [` and the digit `first`.
    fn parse_numbered(first: u8, bytes: &mut ByteSource) -> (r: Result<Event, DecodeError>)
        ensures
            final(bytes).items() == old(bytes).items(),
            old(bytes).cursor() <= final(bytes).cursor(),
            final(bytes).cursor() == csi_numbered(
                first,
                old(bytes).items(),
                old(bytes).cursor(),
            ).end,
            event_outcome(r) == csi_numbered(
                first,
                old(bytes).items(),
                old(bytes).cursor(),
            ).outcome,
            final(bytes).dry() == (old(bytes).dry() || csi_numbered(
                first,
                old(bytes).items(),
                old(bytes).cursor(),
            ).dry),
    {
        let mut list: Vec<u8> = Vec::new();
        list.push(first);
        assert(list@ =~= seq![first]);
        let last: u8 = match take_list(bytes, &mut list, false) {
            Some(b) => b,
            None => {
                return Err(DecodeError::MalformedSequence);
            },
        };
        if last == UPPER_M {
            match decode_rxvt(&list) {
                Some(mouse) => Ok(Event::Mouse(mouse)),
                None => Err(DecodeError::MalformedSequence),
            }
        } else if last == 0x7e {
            match decode_special(&list) {
                Some(key) => Ok(Event::Key(key)),
                None => Err(DecodeError::MalformedSequence),
            }
        } else {
            Err(DecodeError::MalformedSequence)
        }
    }

    /// Assembles the text that begins with `byte`, taking further bytes from
    /// `rest_bytes` only until the bytes held are well-formed UTF-8.
    pub fn parse_utf8(byte: u8, rest_bytes: &mut ByteSource) -> (r: Result<String, DecodeError>)
        ensures
            final(rest_bytes).items() == old(rest_bytes).items(),
            old(rest_bytes).cursor() <= final(rest_bytes).cursor(),
            final(rest_bytes).cursor() == utf8_text(
                byte,
                old(rest_bytes).items(),
                old(rest_bytes).cursor(),
            ).end,
            text_outcome(r) == utf8_text(
                byte,
                old(rest_bytes).items(),
                old(rest_bytes).cursor(),
            ).outcome,
            final(rest_bytes).dry() == (old(rest_bytes).dry() || utf8_text(
                byte,
                old(rest_bytes).items(),
                old(rest_bytes).cursor(),
            ).dry),
    {
        if byte < 0x80 {
            return Ok(ascii_text(byte));
        }
        let ghost src = rest_bytes.items();
        let ghost start = rest_bytes.cursor();
        let mut held: Vec<u8> = Vec::new();
        held.push(byte);
        assert(held@ =~= seq![byte]);
        loop
            invariant
                rest_bytes.items() == src,
                src == old(rest_bytes).items(),
                start == old(rest_bytes).cursor(),
                rest_bytes.dry() == old(rest_bytes).dry(),
                start <= rest_bytes.cursor(),
                byte >= 0x80,
                1 <= held@.len() < 4,
                utf8_more(held@, src, rest_bytes.cursor()) == utf8_more(seq![byte], src, start),
            decreases 4 - held@.len(),
        {
            match rest_bytes.pull() {
                None => {
                    return Err(DecodeError::InvalidUtf8);
                },
                Some(next) => {
                    held.push(next);
                    match decode_text(&held) {
                        Some(text) => {
                            return Ok(text);
                        },
                        None => {},
                    }
                    if held.len() >= 4 {
                        return Err(DecodeError::InvalidUtf8);
                    }
                },
            }
        }
    }

    /// Decodes what follows `ESC`. A failed read of the byte that follows is
    /// the source's error; the end of the stream there is a malformed
    /// sequence.
    pub fn parse_escape_sequence(bytes: &mut ByteSource) -> (r: Result<Event, DecodeError>)
        ensures
            final(bytes).items() == old(bytes).items(),
            old(bytes).cursor() <= final(bytes).cursor(),
            final(bytes).cursor() == escape_sequence(old(bytes).items(), old(bytes).cursor()).end,
            event_outcome(r) == escape_sequence(old(bytes).items(), old(bytes).cursor()).outcome,
            final(bytes).dry() == (old(bytes).dry() || escape_sequence(
                old(bytes).items(),
                old(bytes).cursor(),
            ).dry),
    {
        let failed: bool = match bytes.peek() {
            Some(Pull::Failure) => true,
            _ => false,
        };
        let first: u8 = match bytes.pull() {
            Some(b) => b,
            None => {
                return Err(
                    if failed {
                        DecodeError::SourceIo
                    } else {
                        DecodeError::MalformedSequence
                    },
                );
            },
        };
        if first == 0x4f {
            match bytes.pull() {
                Some(c) => if 0x50 <= c && c <= 0x53 {
                    Ok(Event::Key(Key::F(c - 0x4f)))
                } else {
                    Err(DecodeError::MalformedSequence)
                },
                None => Err(DecodeError::MalformedSequence),
            }
        } else if first == 0x5b {
            Self::parse_csi(bytes)
        } else {
            match Self::parse_utf8(first, bytes) {
                Ok(text) => Ok(Event::Key(Key::Alt(text))),
                Err(e) => Err(e),
            }
        }
    }

    /// Decodes the event that begins with `byte`, taking what more it needs
    /// from `rest_bytes`. It never fails: bytes that fit no known sequence
    /// come back as `Unknown`, every one that was taken.
    pub fn parse(byte: u8, rest_bytes: &mut ByteSource) -> (r: Result<Event, DecodeError>)
        ensures
            final(rest_bytes).items() == old(rest_bytes).items(),
            old(rest_bytes).cursor() <= final(rest_bytes).cursor(),
            final(rest_bytes).cursor() == decode(
                byte,
                old(rest_bytes).items(),
                old(rest_bytes).cursor(),
            ).1,
            final(rest_bytes).dry() == (old(rest_bytes).dry() || classify(
                byte,
                old(rest_bytes).items(),
                old(rest_bytes).cursor(),
            ).dry),
            r is Ok,
            r->Ok_0@ == decode(byte, old(rest_bytes).items(), old(rest_bytes).cursor()).0,
    {
        let start: usize = rest_bytes.position();
        let result: Result<Event, DecodeError> = if byte == 0x00 {
            Ok(Event::Key(Key::Null))
        } else if byte == 0x0a || byte == 0x0d {
            Ok(Event::Key(Key::Character(ascii_text(0x0a))))
        } else if byte == 0x09 {
            Ok(Event::Key(Key::Character(ascii_text(0x09))))
        } else if 0x01 <= byte && byte <= 0x1a {
            Ok(Event::Key(Key::Ctrl(ascii_text(byte + 0x60))))
        } else if byte == ESC {
            Self::parse_escape_sequence(rest_bytes)
        } else if 0x1c <= byte && byte <= 0x1f {
            Ok(Event::Key(Key::Ctrl(ascii_text(byte + 0x18))))
        } else if byte == 0x7f {
            Ok(Event::Key(Key::Backspace))
        } else {
            match Self::parse_utf8(byte, rest_bytes) {
                Ok(text) => Ok(Event::Key(Key::Character(text))),
                Err(e) => Err(e),
            }
        };
        match result {
            Ok(event) => Ok(event),
            Err(_) => {
                let mut taken: Vec<u8> = Vec::new();
                taken.push(byte);
                let mut tail: Vec<u8> = rest_bytes.pulled_since(start);
                taken.append(&mut tail);
                assert(taken@ =~= seq![byte] + bytes_of(
                    old(rest_bytes).items().subrange(start as int, rest_bytes.cursor()),
                ));
                Ok(Event::Unknown(taken))
            },
        }
    }
}

/// The events of a byte source, one for each call of `next`.
pub struct EventsIter {
    pub source: ByteSource,
}

impl EventsIter {
    /// Decodes the next event. A lone escape byte, with nothing readable
    /// behind it, is the Esc key.
    pub fn next(&mut self) -> (r: Option<Result<Event, DecodeError>>)
        ensures
            final(self).source.items() == old(self).source.items(),
            old(self).source.cursor() <= final(self).source.cursor(),
            final(self).source.cursor() == next_event(
                old(self).source.items(),
                old(self).source.cursor(),
            ).1,
            final(self).source.dry() == (old(self).source.dry() || next_runs_dry(
                old(self).source.items(),
                old(self).source.cursor(),
            )),
            match r {
                None => next_event(old(self).source.items(), old(self).source.cursor()).0 is None,
                Some(res) => next_event(old(self).source.items(), old(self).source.cursor()).0
                    == Some(event_outcome(res)),
            },
    {
        match self.source.peek() {
            None => None,
            Some(Pull::Failure) => {
                let _ = self.source.pull();
                Some(Err(DecodeError::SourceIo))
            },
            Some(Pull::Byte(first)) => {
                let _ = self.source.pull();
                let alone: bool = match self.source.peek() {
                    Some(Pull::Byte(_)) => false,
                    _ => true,
                };
                if first == ESC && alone {
                    Some(Ok(Event::Key(Key::Esc)))
                } else {
                    Some(Event::parse(first, &mut self.source))
                }
            },
        }
    }
}

/// A thing whose bytes can be decoded as events.
pub trait Events {
    /// The events that the bytes hold.
    fn events(self) -> EventsIter;
}

impl Events for ByteSource {
    fn events(self) -> (it: EventsIter)
        ensures
            it.source == self,
    {
        EventsIter { source: self }
    }
}

} // verus!
