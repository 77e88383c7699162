//! The byte source: a forward-only sequence of read results.

use vstd::prelude::*;

verus! {

/// What one read of a single byte from the terminal gave.
#[derive(Clone, Copy, Debug, PartialEq, Eq)]
pub enum Pull {
    /// The read gave this byte.
    Byte(u8),
    /// The read failed.
    Failure,
}

/// The byte at `pos`, if there is an item at `pos` and it is a byte.
pub open spec fn byte_at(src: Seq<Pull>, pos: int) -> Option<u8> {
    if 0 <= pos < src.len() {
        match src[pos] {
            Pull::Byte(b) => Some(b),
            Pull::Failure => None,
        }
    } else {
        None
    }
}

/// Where the cursor stands after one pull at `pos`: a pull takes the item
/// there, be it a byte or a failure, and takes nothing at the end.
pub open spec fn after_pull(src: Seq<Pull>, pos: int) -> int {
    if pos < src.len() {
        pos + 1
    } else {
        pos
    }
}

/// The bytes among `items`, in order; failed reads hold none.
pub open spec fn bytes_of(items: Seq<Pull>) -> Seq<u8>
    decreases items.len(),
{
    if items.len() == 0 {
        Seq::empty()
    } else {
        match items.last() {
            Pull::Byte(b) => bytes_of(items.drop_last()).push(b),
            Pull::Failure => bytes_of(items.drop_last()),
        }
    }
}

/// `bytes_of` of a range grows by the item that the range is extended by.
pub proof fn lemma_bytes_of_extend(src: Seq<Pull>, from: int, to: int)
    requires
        0 <= from <= to < src.len(),
    ensures
        bytes_of(src.subrange(from, to + 1)) == match src[to] {
            Pull::Byte(b) => bytes_of(src.subrange(from, to)).push(b),
            Pull::Failure => bytes_of(src.subrange(from, to)),
        },
{
    assert(src.subrange(from, to + 1).drop_last() =~= src.subrange(from, to));
}

/// A forward-only source of read results with a cursor. Nothing is pushed
/// back: an item that was pulled is gone.
pub struct ByteSource {
    items: Vec<Pull>,
    pos: usize,
    dry: bool,
}

impl ByteSource {
    #[verifier::type_invariant]
    spec fn inv(&self) -> bool {
        self.pos <= self.items.len()
    }

    /// All the read results, those already pulled included.
    pub closed spec fn items(&self) -> Seq<Pull> {
        self.items@
    }

    /// How many items were pulled.
    pub closed spec fn cursor(&self) -> int {
        self.pos as int
    }

    /// True once a pull was made at the end of the stream: what was decoded
    /// since might have come out otherwise had more bytes been there.
    pub closed spec fn dry(&self) -> bool {
        self.dry
    }

    /// A source that gives `items` in order.
    pub fn new(items: Vec<Pull>) -> (s: Self)
        ensures
            s.items() == items@,
            s.cursor() == 0,
            !s.dry(),
    {
        ByteSource { items, pos: 0, dry: false }
    }

    /// A source that gives `bytes` in order and never fails.
    pub fn from_bytes(bytes: Vec<u8>) -> (s: Self)
        ensures
            s.cursor() == 0,
            !s.dry(),
            s.items() == bytes@.map_values(|b: u8| Pull::Byte(b)),
    {
        let mut items: Vec<Pull> = Vec::new();
        let mut i: usize = 0;
        while i < bytes.len()
            invariant
                i <= bytes.len(),
                items@ == bytes@.take(i as int).map_values(|b: u8| Pull::Byte(b)),
            decreases bytes.len() - i,
        {
            items.push(Pull::Byte(bytes[i]));
            i += 1;
            assert(items@ =~= bytes@.take(i as int).map_values(|b: u8| Pull::Byte(b)));
        }
        assert(bytes@.take(i as int) =~= bytes@);
        ByteSource { items, pos: 0, dry: false }
    }

    /// How many items are left.
    pub fn remaining(&self) -> (n: usize)
        ensures
            n == self.items().len() - self.cursor(),
    {
        proof {
            use_type_invariant(self);
        }
        self.items.len() - self.pos
    }

    /// Looks at the next item without taking it.
    pub fn peek(&self) -> (r: Option<Pull>)
        ensures
            0 <= self.cursor() <= self.items().len(),
            r == if self.cursor() < self.items().len() {
                Some(self.items()[self.cursor()])
            } else {
                None
            },
    {
        proof {
            use_type_invariant(self);
        }
        if self.pos < self.items.len() {
            Some(self.items[self.pos])
        } else {
            None
        }
    }

    /// Takes the next item: its byte, or nothing for a failed read or at the
    /// end of the stream.
    pub fn pull(&mut self) -> (r: Option<u8>)
        ensures
            final(self).items() == old(self).items(),
            final(self).cursor() == after_pull(old(self).items(), old(self).cursor()),
            final(self).dry() == (old(self).dry() || old(self).cursor() >= old(self).items().len()),
            r == byte_at(old(self).items(), old(self).cursor()),
    {
        proof {
            use_type_invariant(&*self);
        }
        if self.pos < self.items.len() {
            let item = self.items[self.pos];
            self.pos = self.pos + 1;
            match item {
                Pull::Byte(b) => Some(b),
                Pull::Failure => None,
            }
        } else {
            self.dry = true;
            None
        }
    }

    /// Whether a pull was made at the end of the stream.
    pub fn ran_dry(&self) -> (d: bool)
        ensures
            d == self.dry(),
    {
        self.dry
    }

    /// The bytes among the items from `from` up to the cursor.
    pub fn pulled_since(&self, from: usize) -> (r: Vec<u8>)
        requires
            from <= self.cursor(),
        ensures
            r@ == bytes_of(self.items().subrange(from as int, self.cursor())),
    {
        proof {
            use_type_invariant(self);
        }
        let mut out: Vec<u8> = Vec::new();
        let mut i: usize = from;
        assert(self.items@.subrange(from as int, from as int) =~= Seq::<Pull>::empty());
        while i < self.pos
            invariant
                from <= i <= self.pos <= self.items.len(),
                out@ == bytes_of(self.items@.subrange(from as int, i as int)),
            decreases self.pos - i,
        {
            proof {
                lemma_bytes_of_extend(self.items@, from as int, i as int);
            }
            match self.items[i] {
                Pull::Byte(b) => {
                    out.push(b);
                },
                Pull::Failure => {},
            }
            i += 1;
        }
        out
    }

    /// The cursor's place, for a later `pulled_since`.
    pub fn position(&self) -> (p: usize)
        ensures
            p == self.cursor(),
            p <= self.items().len(),
    {
        proof {
            use_type_invariant(self);
        }
        self.pos
    }
}

} // verus!
