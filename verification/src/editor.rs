//! The state of the line being edited, and the cursor column that the
//! terminal reports.

use crate::number::{bounded_decimal, parse_bounded};
use vstd::prelude::*;
use vstd::string::StringExecFns;

verus! {

/// The place of the first `b` in `s` at or after `from`, or the length of
/// `s` where there is none.
pub open spec fn first_index(s: Seq<u8>, b: u8, from: int) -> int
    decreases s.len() - from,
{
    if 0 <= from < s.len() {
        if s[from] == b {
            from
        } else {
            first_index(s, b, from + 1)
        }
    } else {
        s.len() as int
    }
}

/// The column field of a cursor position report `ESC [ row ; column R`: the
/// bytes after the first `;` up to the next `R`, or to the end.
pub open spec fn column_field(reply: Seq<u8>) -> Seq<u8> {
    let semicolon = first_index(reply, 0x3b, 0);
    if semicolon < reply.len() {
        reply.subrange(semicolon + 1, first_index(reply, 0x52, semicolon + 1))
    } else {
        Seq::empty()
    }
}

/// The column that a cursor position report names, if its column field is a
/// number.
pub open spec fn reported_column(reply: Seq<u8>) -> Option<usize> {
    match bounded_decimal(column_field(reply), usize::MAX as nat) {
        Some(v) => Some(v as usize),
        None => None,
    }
}

/// Finds the first `b` at or after `from`.
fn find_from(s: &Vec<u8>, b: u8, from: usize) -> (i: usize)
    requires
        from <= s.len(),
    ensures
        from <= i <= s.len(),
        i == first_index(s@, b, from as int),
{
    let mut i: usize = from;
    while i < s.len() && s[i] != b
        invariant
            from <= i <= s.len(),
            first_index(s@, b, i as int) == first_index(s@, b, from as int),
        decreases s.len() - i,
    {
        i += 1;
    }
    i
}

/// Reads the column from the terminal's reply to a cursor position query.
pub fn get_column(reply: &Vec<u8>) -> (r: Option<usize>)
    ensures
        r == reported_column(reply@),
{
    let semicolon: usize = find_from(reply, 0x3b, 0);
    let mut field: Vec<u8> = Vec::new();
    if semicolon < reply.len() {
        let stop: usize = find_from(reply, 0x52, semicolon + 1);
        let mut i: usize = semicolon + 1;
        while i < stop
            invariant
                semicolon + 1 <= i <= stop <= reply.len(),
                field@ == reply@.subrange(semicolon + 1, i as int),
            decreases stop - i,
        {
            field.push(reply[i]);
            i += 1;
            assert(field@ =~= reply@.subrange(semicolon + 1, i as int));
        }
    }
    assert(field@ =~= column_field(reply@));
    match parse_bounded(&field, usize::MAX as u64) {
        Some(v) => Some(v as usize),
        None => None,
    }
}

/// `String::pop`: takes the last character off a text and gives it; an empty
/// text stays as it is and gives nothing.
#[verifier::external_body]
fn pop_char(text: &mut String) -> (c: Option<char>)
    ensures
        old(text)@.len() == 0 ==> c is None && final(text)@ == old(text)@,
        old(text)@.len() > 0 ==> c == Some(old(text)@.last()) && final(text)@ == old(
            text,
        )@.drop_last(),
{
    text.pop()
}

/// The line being edited.
#[derive(Debug)]
pub struct Input {
    /// The column at which the line starts.
    pub start_width: usize,
    /// The text typed so far.
    pub value: String,
    /// For each insertion, by how many columns it moved the cursor.
    pub widths: Vec<usize>,
    /// How many insertions stand.
    pub position: usize,
    /// The column of the cursor.
    pub column: usize,
}

impl Input {
    /// The position counts the widths.
    pub open spec fn wf(&self) -> bool {
        self.position == self.widths@.len()
    }

    /// An empty line that starts at the column `start_width`.
    pub fn new(start_width: usize) -> (s: Self)
        ensures
            s.wf(),
            s.start_width == start_width,
            s.column == start_width,
            s.position == 0,
            s.value@ == Seq::<char>::empty(),
            s.widths@ == Seq::<usize>::empty(),
    {
        Input {
            start_width,
            value: String::new(),
            widths: Vec::new(),
            position: 0,
            column: start_width,
        }
    }

    /// Records that `str` was typed and that the cursor then stood at
    /// `new_column`. The insertion's width is the distance the cursor moved
    /// to the right, and 0 where it did not.
    pub fn push(&mut self, str: &str, new_column: usize)
        requires
            old(self).wf(),
        ensures
            final(self).wf(),
            final(self).start_width == old(self).start_width,
            final(self).value@ == old(self).value@ + str@,
            final(self).widths@ == old(self).widths@.push(
                if new_column >= old(self).column {
                    (new_column - old(self).column) as usize
                } else {
                    0
                },
            ),
            final(self).position == old(self).position + 1,
            final(self).column == new_column,
    {
        let width: usize = if new_column >= self.column {
            new_column - self.column
        } else {
            0
        };
        self.column = new_column;
        self.widths.push(width);
        self.position = self.widths.len();
        self.value.append(str);
    }

    /// Takes the last character off the line, with the last width. Gives the
    /// number of columns to erase, or nothing where the line is empty, which
    /// then stays as it is. The cursor moves left by that width, and no
    /// further than column 0.
    pub fn backspace(&mut self) -> (erased: Option<usize>)
        requires
            old(self).wf(),
        ensures
            final(self).wf(),
            final(self).start_width == old(self).start_width,
            old(self).value@.len() == 0 ==> {
                &&& erased is None
                &&& final(self).value@ == old(self).value@
                &&& final(self).widths@ == old(self).widths@
                &&& final(self).position == old(self).position
                &&& final(self).column == old(self).column
            },
            old(self).value@.len() > 0 ==> {
                let width: usize = if old(self).widths@.len() > 0 {
                    old(self).widths@.last()
                } else {
                    0
                };
                &&& erased == Some(width)
                &&& final(self).value@ == old(self).value@.drop_last()
                &&& final(self).widths@ == if old(self).widths@.len() > 0 {
                    old(self).widths@.drop_last()
                } else {
                    old(self).widths@
                }
                &&& final(self).position == final(self).widths@.len()
                &&& final(self).column == if old(self).column >= width {
                    (old(self).column - width) as usize
                } else {
                    0
                }
            },
    {
        match pop_char(&mut self.value) {
            None => None,
            Some(_) => {
                let width: usize = match self.widths.pop() {
                    Some(w) => w,
                    None => 0,
                };
                self.position = self.widths.len();
                self.column = if self.column >= width {
                    self.column - width
                } else {
                    0
                };
                Some(width)
            },
        }
    }
}

} // verus!
