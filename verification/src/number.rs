//! Decimal numbers and semicolon-separated lists of them, as terminals send
//! them within control sequences.

use vstd::prelude::*;

verus! {

/// The semicolon that separates the fields of a parameter list.
pub const SEPARATOR: u8 = 0x3b;

/// The plus sign that may stand before a number.
pub const PLUS: u8 = 0x2b;

/// True for the ASCII digits.
pub open spec fn is_digit(b: u8) -> bool {
    0x30 <= b <= 0x39
}

/// What a digit counts for; zero for any other byte.
pub open spec fn digit_value(b: u8) -> nat {
    if is_digit(b) {
        (b - 0x30) as nat
    } else {
        0
    }
}

/// The number that a run of digits writes in base ten.
pub open spec fn digits_value(s: Seq<u8>) -> nat
    decreases s.len(),
{
    if s.len() == 0 {
        0
    } else {
        digits_value(s.drop_last()) * 10 + digit_value(s.last())
    }
}

/// True where every byte is a digit.
pub open spec fn all_digits(s: Seq<u8>) -> bool {
    forall|i: int| 0 <= i < s.len() ==> is_digit(#[trigger] s[i])
}

/// The field without the plus sign that may lead it.
pub open spec fn unsigned_part(s: Seq<u8>) -> Seq<u8> {
    if s.len() > 0 && s[0] == PLUS {
        s.skip(1)
    } else {
        s
    }
}

/// The number that a field writes: an optional plus sign, then one or more
/// digits; nothing for any other field.
pub open spec fn decimal(s: Seq<u8>) -> Option<nat> {
    let d = unsigned_part(s);
    if d.len() > 0 && all_digits(d) {
        Some(digits_value(d))
    } else {
        None
    }
}

/// The number that a field writes, if it is `limit` at most.
pub open spec fn bounded_decimal(s: Seq<u8>, limit: nat) -> Option<nat> {
    match decimal(s) {
        Some(v) => if v <= limit {
            Some(v)
        } else {
            None
        },
        None => None,
    }
}

/// The 16-bit number that a field writes; nothing where the field is no
/// number or its value does not fit.
pub open spec fn decimal_u16(s: Seq<u8>) -> Option<u16> {
    match bounded_decimal(s, 0xffff) {
        Some(v) => Some(v as u16),
        None => None,
    }
}

/// The fields of a parameter list: the runs between semicolons, so one more
/// than there are semicolons, and an empty list has one empty field.
pub open spec fn fields(s: Seq<u8>) -> Seq<Seq<u8>>
    decreases s.len(),
{
    if s.len() == 0 {
        seq![Seq::<u8>::empty()]
    } else {
        let before = fields(s.drop_last());
        if s.last() == SEPARATOR {
            before.push(Seq::<u8>::empty())
        } else {
            before.update(before.len() - 1, before.last().push(s.last()))
        }
    }
}

/// The views of a vector of byte vectors.
pub open spec fn rows(v: Seq<Vec<u8>>) -> Seq<Seq<u8>> {
    Seq::new(v.len(), |i: int| v[i]@)
}

/// A prefix of a run of digits writes no greater a number than the run.
pub proof fn lemma_prefix_value(s: Seq<u8>, k: int)
    requires
        0 <= k <= s.len(),
    ensures
        digits_value(s.take(k)) <= digits_value(s),
    decreases s.len(),
{
    if k < s.len() {
        lemma_prefix_value(s.drop_last(), k);
        assert(s.drop_last().take(k) =~= s.take(k));
    } else {
        assert(s.take(k) =~= s);
    }
}

/// Reads a field as a decimal number that is `limit` at most.
pub fn parse_bounded(field: &Vec<u8>, limit: u64) -> (r: Option<u64>)
    ensures
        match r {
            Some(v) => bounded_decimal(field@, limit as nat) == Some(v as nat),
            None => bounded_decimal(field@, limit as nat) is None,
        },
{
    let start: usize = if field.len() > 0 && field[0] == PLUS {
        1
    } else {
        0
    };
    let ghost d = unsigned_part(field@);
    assert(d =~= field@.skip(start as int));
    if start == field.len() {
        return None;
    }
    let mut acc: u64 = 0;
    let mut i: usize = start;
    assert(d.take(0) =~= Seq::<u8>::empty());
    while i < field.len()
        invariant
            start <= i <= field.len(),
            d == unsigned_part(field@),
            d == field@.skip(start as int),
            d.len() == field.len() - start,
            all_digits(d.take(i - start)),
            acc == digits_value(d.take(i - start)),
            acc <= limit,
        decreases field.len() - i,
    {
        let b: u8 = field[i];
        let ghost k = i - start;
        assert(d[k] == b);
        assert(d.take(k + 1).drop_last() =~= d.take(k));
        assert(d.take(k + 1).last() == b);
        if b < 0x30 || b > 0x39 {
            return None;
        }
        let next: u128 = (acc as u128) * 10 + (b - 0x30) as u128;
        if next > limit as u128 {
            proof {
                lemma_prefix_value(d, k + 1);
            }
            return None;
        }
        acc = next as u64;
        i += 1;
    }
    assert(d.take(i - start) =~= d);
    Some(acc)
}

/// Reads a field as a 16-bit decimal number.
pub fn parse_decimal(field: &Vec<u8>) -> (r: Option<u16>)
    ensures
        r == decimal_u16(field@),
{
    match parse_bounded(field, 0xffff) {
        Some(v) => Some(v as u16),
        None => None,
    }
}

/// Cuts a parameter list at its semicolons.
pub fn split_fields(list: &Vec<u8>) -> (r: Vec<Vec<u8>>)
    ensures
        rows(r@) == fields(list@),
        r@.len() == fields(list@).len(),
        forall|i: int|
            #![trigger r@[i]]
            #![trigger fields(list@)[i]]
            0 <= i < r@.len() ==> r@[i]@ == fields(list@)[i],
{
    let mut done: Vec<Vec<u8>> = Vec::new();
    let mut current: Vec<u8> = Vec::new();
    let mut i: usize = 0;
    assert(list@.take(0) =~= Seq::<u8>::empty());
    assert(rows(done@).push(current@) =~= fields(list@.take(0)));
    while i < list.len()
        invariant
            i <= list.len(),
            rows(done@).push(current@) == fields(list@.take(i as int)),
        decreases list.len() - i,
    {
        let b: u8 = list[i];
        let ghost before = rows(done@).push(current@);
        assert(list@.take(i + 1).drop_last() =~= list@.take(i as int));
        assert(list@.take(i + 1).last() == b);
        if b == SEPARATOR {
            done.push(current);
            current = Vec::new();
            assert(rows(done@) =~= before);
        } else {
            current.push(b);
            assert(rows(done@).push(current@) =~= before.update(
                before.len() - 1,
                before.last().push(b),
            ));
        }
        i += 1;
    }
    assert(list@.take(i as int) =~= list@);
    done.push(current);
    assert(rows(done@) =~= fields(list@));
    assert forall|i: int| 0 <= i < done@.len() implies done@[i]@ == fields(list@)[i] by {
        assert(rows(done@)[i] == done@[i]@);
    }
    done
}

} // verus!
