//! What holds of the decoder on every input.

use crate::event::{EventView, KeyView};
use crate::grammar::{
    classify, csi, decode, list_end, next_event, utf8_more, Scan, ESC,
};
use crate::source::{after_pull, byte_at, bytes_of, Pull};
use vstd::prelude::*;

verus! {

/// A source that never fails, from its bytes.
pub open spec fn unfailing(raw: Seq<u8>) -> Seq<Pull> {
    raw.map_values(|b: u8| Pull::Byte(b))
}

/// A parameter list ends at or after where it starts and within the stream,
/// and every item before its end is a byte.
pub proof fn lemma_list_end_bounds(src: Seq<Pull>, pos: int, xterm: bool)
    requires
        0 <= pos <= src.len(),
    ensures
        pos <= list_end(src, pos, xterm) <= src.len(),
        forall|i: int| pos <= i < list_end(src, pos, xterm) ==> (#[trigger] src[i]) is Byte,
    decreases src.len() - pos,
{
    if pos < src.len() {
        lemma_list_end_bounds(src, pos + 1, xterm);
    }
}

/// Assembling text stops within the stream.
pub proof fn lemma_utf8_more_bounds(held: Seq<u8>, src: Seq<Pull>, pos: int)
    requires
        0 <= pos <= src.len(),
    ensures
        pos <= utf8_more(held, src, pos).end <= src.len(),
    decreases 4 - held.len(),
{
    if byte_at(src, pos) is Some && held.len() + 1 < 4 {
        lemma_utf8_more_bounds(held.push(byte_at(src, pos)->0), src, pos + 1);
    }
}

/// A decoding step stops at or after where it starts and within the stream.
pub proof fn lemma_classify_bounds(byte: u8, src: Seq<Pull>, pos: int)
    requires
        0 <= pos <= src.len(),
    ensures
        pos <= classify(byte, src, pos).end <= src.len(),
{
    if pos < src.len() {
        lemma_utf8_more_bounds(seq![byte], src, pos);
        if byte_at(src, pos) is Some {
            lemma_utf8_more_bounds(seq![byte_at(src, pos)->0], src, pos + 1);
        }
        if pos + 1 < src.len() {
            lemma_list_end_bounds(src, pos + 2, true);
            lemma_list_end_bounds(src, pos + 2, false);
        }
    } else {
        lemma_utf8_more_bounds(seq![byte], src, pos);
    }
}

/// The bytes of a range of a source that never fails are the range of its
/// bytes.
pub proof fn lemma_bytes_of_unfailing(raw: Seq<u8>, from: int, to: int)
    requires
        0 <= from <= to <= raw.len(),
    ensures
        bytes_of(unfailing(raw).subrange(from, to)) == raw.subrange(from, to),
    decreases to - from,
{
    let items = unfailing(raw).subrange(from, to);
    if from < to {
        lemma_bytes_of_unfailing(raw, from, to - 1);
        assert(items.drop_last() =~= unfailing(raw).subrange(from, to - 1));
        assert(raw.subrange(from, to - 1).push(raw[to - 1]) =~= raw.subrange(from, to));
    } else {
        assert(raw.subrange(from, to) =~= Seq::<u8>::empty());
    }
}

/// A printable ASCII byte is the character of the same number, whatever
/// follows it, and nothing after it is taken.
pub proof fn law_printable_ascii(b: u8, src: Seq<Pull>, pos: int)
    requires
        0x20 <= b < 0x7f,
    ensures
        decode(b, src, pos) == (EventView::Key(KeyView::Character(seq![b as char])), pos),
        next_event(seq![Pull::Byte(b)], 0) == (
            Some(Ok::<EventView, crate::event::DecodeError>(EventView::Key(KeyView::Character(seq![b as char])))),
            1int,
        ),
{
}

/// No byte is dropped. A decoding attempt stops within the stream; where it
/// fails, the event is `Unknown` and holds the first byte and then every byte
/// among the items that the attempt took, in order; and where it does not
/// fail, the event is not `Unknown`. Over a source that never fails those are
/// all the items taken.
pub proof fn law_unknown_keeps_every_byte(byte: u8, src: Seq<Pull>, pos: int)
    requires
        0 <= pos <= src.len(),
    ensures
        pos <= decode(byte, src, pos).1 <= src.len(),
        classify(byte, src, pos).outcome is Err <==> decode(byte, src, pos).0 is Unknown,
        decode(byte, src, pos).0 is Unknown ==> decode(byte, src, pos).0->Unknown_0 == seq![byte]
            + bytes_of(src.subrange(pos, decode(byte, src, pos).1)),
        forall|raw: Seq<u8>|
            src == unfailing(raw) && decode(byte, src, pos).0 is Unknown ==> decode(
                byte,
                src,
                pos,
            ).0->Unknown_0 == seq![byte] + #[trigger] raw.subrange(pos, decode(byte, src, pos).1),
{
    lemma_classify_bounds(byte, src, pos);
    let end = decode(byte, src, pos).1;
    assert forall|raw: Seq<u8>|
        src == unfailing(raw) && decode(byte, src, pos).0 is Unknown implies decode(
            byte,
            src,
            pos,
        ).0->Unknown_0 == seq![byte] + #[trigger] raw.subrange(pos, end) by {
        lemma_bytes_of_unfailing(raw, pos, end);
    }
}

/// A step with its cursor moved on by `by`.
pub open spec fn shifted<T>(scan: Scan<T>, by: int) -> Scan<T> {
    Scan { outcome: scan.outcome, end: scan.end + by, dry: scan.dry }
}

/// What stands behind a stream does not change the bytes in it.
pub proof fn lemma_byte_at_prefix(a: Seq<Pull>, b: Seq<Pull>)
    ensures
        forall|p: int| 0 <= p < a.len() ==> #[trigger] byte_at(a + b, p) == byte_at(a, p),
        forall|p: int| 0 <= p < a.len() ==> #[trigger] after_pull(a + b, p) == after_pull(a, p),
        forall|p: int| 0 <= p ==> #[trigger] byte_at(a + b, a.len() + p) == byte_at(b, p),
        forall|p: int|
            0 <= p ==> #[trigger] after_pull(a + b, a.len() + p) == a.len() + after_pull(b, p),
{
}

/// A parameter list that ends within a stream ends at the same place when
/// more follows the stream.
pub proof fn lemma_list_end_prefix(a: Seq<Pull>, b: Seq<Pull>, pos: int, xterm: bool)
    requires
        0 <= pos <= a.len(),
        list_end(a, pos, xterm) < a.len(),
    ensures
        list_end(a + b, pos, xterm) == list_end(a, pos, xterm),
        (a + b).subrange(pos, list_end(a, pos, xterm)) == a.subrange(
            pos,
            list_end(a, pos, xterm),
        ),
    decreases a.len() - pos,
{
    lemma_list_end_bounds(a, pos, xterm);
    if pos < a.len() {
        lemma_list_end_bounds(a, pos + 1, xterm);
        assert((a + b)[pos] == a[pos]);
        if list_end(a, pos, xterm) != pos {
            lemma_list_end_prefix(a, b, pos + 1, xterm);
        }
    }
    assert((a + b).subrange(pos, list_end(a, pos, xterm)) =~= a.subrange(
        pos,
        list_end(a, pos, xterm),
    ));
}

/// A parameter list ends at the same distance from its start wherever in a
/// stream it stands.
pub proof fn lemma_list_end_shift(a: Seq<Pull>, b: Seq<Pull>, pos: int, xterm: bool)
    requires
        0 <= pos <= b.len(),
    ensures
        list_end(a + b, a.len() + pos, xterm) == a.len() + list_end(b, pos, xterm),
        (a + b).subrange(a.len() + pos, a.len() + list_end(b, pos, xterm)) == b.subrange(
            pos,
            list_end(b, pos, xterm),
        ),
    decreases b.len() - pos,
{
    lemma_list_end_bounds(b, pos, xterm);
    if pos < b.len() {
        lemma_list_end_bounds(b, pos + 1, xterm);
        assert((a + b)[a.len() + pos] == b[pos]);
        if list_end(b, pos, xterm) != pos {
            lemma_list_end_shift(a, b, pos + 1, xterm);
        }
    }
    assert((a + b).subrange(a.len() + pos, a.len() + list_end(b, pos, xterm)) =~= b.subrange(
        pos,
        list_end(b, pos, xterm),
    ));
}

/// Assembling text that did not run dry goes the same way when more follows
/// the stream.
pub proof fn lemma_utf8_more_prefix(held: Seq<u8>, a: Seq<Pull>, b: Seq<Pull>, pos: int)
    requires
        0 <= pos,
        !utf8_more(held, a, pos).dry,
    ensures
        utf8_more(held, a + b, pos) == utf8_more(held, a, pos),
    decreases 4 - held.len(),
{
    lemma_byte_at_prefix(a, b);
    if byte_at(a, pos) is Some {
        let grown = held.push(byte_at(a, pos)->0);
        if !vstd::utf8::valid_utf8(grown) && grown.len() < 4 {
            lemma_utf8_more_prefix(grown, a, b, pos + 1);
        }
    }
}

/// Text is assembled in the same way wherever in a stream it stands.
pub proof fn lemma_utf8_more_shift(held: Seq<u8>, a: Seq<Pull>, b: Seq<Pull>, pos: int)
    requires
        0 <= pos,
    ensures
        utf8_more(held, a + b, a.len() + pos) == shifted(utf8_more(held, b, pos), a.len() as int),
    decreases 4 - held.len(),
{
    lemma_byte_at_prefix(a, b);
    if byte_at(b, pos) is Some {
        let grown = held.push(byte_at(b, pos)->0);
        if !vstd::utf8::valid_utf8(grown) && grown.len() < 4 {
            lemma_utf8_more_shift(grown, a, b, pos + 1);
        }
    }
}

/// Decoding a control sequence that did not run dry goes the same way when
/// more follows the stream.
pub proof fn lemma_csi_prefix(a: Seq<Pull>, b: Seq<Pull>, pos: int)
    requires
        0 <= pos,
        !csi(a, pos).dry,
    ensures
        csi(a + b, pos) == csi(a, pos),
{
    lemma_byte_at_prefix(a, b);
    if byte_at(a, pos) is Some {
        let first = byte_at(a, pos)->0;
        if first == 0x3c {
            lemma_list_end_bounds(a, pos + 1, true);
            lemma_list_end_prefix(a, b, pos + 1, true);
        } else if 0x30 <= first <= 0x39 && first != 0x31 {
            lemma_list_end_bounds(a, pos + 1, false);
            lemma_list_end_prefix(a, b, pos + 1, false);
        }
    }
}

/// A control sequence is decoded in the same way wherever in a stream it
/// stands.
pub proof fn lemma_csi_shift(a: Seq<Pull>, b: Seq<Pull>, pos: int)
    requires
        0 <= pos <= b.len(),
    ensures
        csi(a + b, a.len() + pos) == shifted(csi(b, pos), a.len() as int),
{
    lemma_byte_at_prefix(a, b);
    if byte_at(b, pos) is Some {
        let first = byte_at(b, pos)->0;
        if first == 0x3c {
            lemma_list_end_bounds(b, pos + 1, true);
            lemma_list_end_shift(a, b, pos + 1, true);
        } else if 0x30 <= first <= 0x39 && first != 0x31 {
            lemma_list_end_bounds(b, pos + 1, false);
            lemma_list_end_shift(a, b, pos + 1, false);
        }
    }
}

/// An attempt that did not run dry is settled: it takes the same items and
/// gives the same event, `Unknown` or not, when more follows the stream.
pub proof fn law_settled(byte: u8, a: Seq<Pull>, b: Seq<Pull>, pos: int)
    requires
        0 <= pos <= a.len(),
        !classify(byte, a, pos).dry,
    ensures
        classify(byte, a + b, pos) == classify(byte, a, pos),
        decode(byte, a + b, pos) == decode(byte, a, pos),
{
    lemma_byte_at_prefix(a, b);
    if byte == ESC {
        if byte_at(a, pos) is Some {
            let first = byte_at(a, pos)->0;
            if first == 0x5b {
                lemma_csi_prefix(a, b, pos + 1);
            } else if first != 0x4f && first >= 0x80 {
                lemma_utf8_more_prefix(seq![first], a, b, pos + 1);
            }
        }
    } else if byte >= 0x80 {
        lemma_utf8_more_prefix(seq![byte], a, b, pos);
    }
    lemma_classify_bounds(byte, a, pos);
    let end = classify(byte, a, pos).end;
    assert((a + b).subrange(pos, end) =~= a.subrange(pos, end));
}

/// An attempt that succeeds did not run dry.
pub proof fn law_success_is_not_dry(byte: u8, src: Seq<Pull>, pos: int)
    requires
        0 <= pos <= src.len(),
        classify(byte, src, pos).outcome is Ok,
    ensures
        !classify(byte, src, pos).dry,
{
    if pos < src.len() {
        lemma_utf8_more_ok_not_dry(seq![byte], src, pos);
        if byte_at(src, pos) is Some {
            lemma_utf8_more_ok_not_dry(seq![byte_at(src, pos)->0], src, pos + 1);
        }
    } else {
        lemma_utf8_more_ok_not_dry(seq![byte], src, pos);
    }
}

/// Text that was assembled did not run dry.
pub proof fn lemma_utf8_more_ok_not_dry(held: Seq<u8>, src: Seq<Pull>, pos: int)
    ensures
        utf8_more(held, src, pos).outcome is Ok ==> !utf8_more(held, src, pos).dry,
    decreases 4 - held.len(),
{
    if byte_at(src, pos) is Some {
        let grown = held.push(byte_at(src, pos)->0);
        if !vstd::utf8::valid_utf8(grown) && grown.len() < 4 {
            lemma_utf8_more_ok_not_dry(grown, src, pos + 1);
        }
    }
}

/// An event is decoded in the same way wherever in a stream it stands.
pub proof fn lemma_decode_shift(byte: u8, a: Seq<Pull>, b: Seq<Pull>, pos: int)
    requires
        0 <= pos <= b.len(),
    ensures
        classify(byte, a + b, a.len() + pos) == shifted(classify(byte, b, pos), a.len() as int),
        decode(byte, a + b, a.len() + pos).0 == decode(byte, b, pos).0,
        decode(byte, a + b, a.len() + pos).1 == a.len() + decode(byte, b, pos).1,
{
    lemma_byte_at_prefix(a, b);
    if byte == ESC {
        if byte_at(b, pos) is Some {
            let first = byte_at(b, pos)->0;
            if first == 0x5b {
                lemma_csi_shift(a, b, pos + 1);
            } else if first != 0x4f && first >= 0x80 {
                lemma_utf8_more_shift(seq![first], a, b, pos + 1);
            }
        }
    } else if byte >= 0x80 {
        lemma_utf8_more_shift(seq![byte], a, b, pos);
    }
    lemma_classify_bounds(byte, b, pos);
    let end = classify(byte, b, pos).end;
    assert((a + b).subrange(a.len() + pos, a.len() + end) =~= b.subrange(pos, end));
}

/// Two sequences back to back give two events, each from its own bytes.
/// Where a stream `a` decodes whole into one event that is not `Unknown`,
/// the stream `a` followed by `b` gives that event first, taking `a` and no
/// more, and then what `b` alone gives first, taking as much as there. One
/// stream is left out: a lone escape byte is the Esc key only where no byte
/// can be read behind it.
pub proof fn law_back_to_back(a: Seq<Pull>, b: Seq<Pull>)
    requires
        next_event(a, 0).0 matches Some(Ok(e)) && !(e is Unknown),
        next_event(a, 0).1 == a.len(),
        next_event(a, 0).0 == Some(
            Ok::<EventView, crate::event::DecodeError>(EventView::Key(KeyView::Esc)),
        ) ==> byte_at(b, 0) is None,
    ensures
        next_event(a + b, 0) == next_event(a, 0),
        next_event(a + b, a.len() as int).0 == next_event(b, 0).0,
        next_event(a + b, a.len() as int).1 == a.len() + next_event(b, 0).1,
{
    lemma_byte_at_prefix(a, b);
    assert((a + b)[0] == a[0]);
    let first = byte_at(a, 0)->0;
    if !(first == ESC && byte_at(a, 1) is None) {
        law_success_is_not_dry(first, a, 1);
        law_settled(first, a, b, 1);
    } else {
        assert(byte_at(a + b, 1) == byte_at(b, 0));
    }
    law_shift(a, b, 0);
}

/// Decoding does not depend on what was decoded before: the next event at a
/// place in `b` is the next event at that place when `b` follows any `a`.
pub proof fn law_shift(a: Seq<Pull>, b: Seq<Pull>, pos: int)
    requires
        0 <= pos <= b.len(),
    ensures
        next_event(a + b, a.len() + pos).0 == next_event(b, pos).0,
        next_event(a + b, a.len() + pos).1 == a.len() + next_event(b, pos).1,
{
    lemma_byte_at_prefix(a, b);
    if pos < b.len() {
        assert((a + b)[a.len() + pos] == b[pos]);
        if b[pos] is Byte {
            lemma_decode_shift(b[pos]->Byte_0, a, b, pos + 1);
        }
    }
}

} // verus!
