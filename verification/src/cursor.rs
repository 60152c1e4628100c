//! A reading position in a text. The decoders whose parts have no fixed
//! place move a cursor from left to right: each step looks at some bytes,
//! may fail, and otherwise consumes what it read.
use vstd::prelude::*;
use vstd::string::*;
use vstd::utf8::*;
use crate::text::{
    cut, cut_from, lemma_ascii_boundaries, lemma_end_boundaries, skip, skip_class, slice,
    sliceable, ByteClass,
};

verus! {

/// A text and the byte offset up to which it has been read.
#[derive(Debug, Clone, Copy)]
pub struct Cursor<'a> {
    pub source: &'a str,
    pub position: usize,
}

impl<'a> Cursor<'a> {
    /// The bytes of the text.
    pub open spec fn bytes(self) -> Seq<u8> {
        self.source.spec_bytes()
    }

    /// The position lies in the text, between two characters.
    pub open spec fn wf(self) -> bool {
        self.position <= self.bytes().len() && is_char_boundary(self.bytes(), self.position as int)
    }

    /// Whether the next `n` bytes can be read as a text.
    pub open spec fn can_take(self, n: int) -> bool {
        sliceable(self.bytes(), self.position as int, self.position + n)
    }

    /// The next `n` bytes.
    pub open spec fn next(self, n: int) -> Seq<u8> {
        self.bytes().subrange(self.position as int, self.position + n)
    }

    /// All bytes from the position on.
    pub open spec fn remainder(self) -> Seq<u8> {
        self.bytes().subrange(self.position as int, self.bytes().len() as int)
    }

    /// Whether `after` is this cursor moved to the offset `position`.
    pub open spec fn moved_to(self, after: Cursor<'a>, position: int) -> bool {
        after.source == self.source && after.position as int == position
    }

    /// A cursor at the start of `source`.
    pub fn new(source: &'a str) -> (c: Self)
        ensures
            c.wf(),
            c.source == source,
            c.position == 0,
    {
        proof {
            lemma_end_boundaries(source);
        }
        Cursor { source, position: 0 }
    }

    /// The number of bytes from the position to the end.
    pub fn remaining(&self) -> (n: usize)
        requires
            self.wf(),
        ensures
            n == self.bytes().len() - self.position,
    {
        self.source.as_bytes().len() - self.position
    }

    /// Looks at the next `n` bytes without consuming them. `None` where
    /// fewer are left or they end inside a character.
    pub fn peek(&self, n: usize) -> (r: Option<&'a str>)
        requires
            self.wf(),
        ensures
            r is Some <==> self.can_take(n as int),
            r matches Some(t) ==> t.spec_bytes() == self.next(n as int),
    {
        if n > self.source.as_bytes().len() - self.position {
            return None;
        }
        slice(self.source, self.position, self.position + n)
    }

    /// Consumes the next `n` bytes and returns them. `None`, with the cursor
    /// unmoved, where fewer are left or they end inside a character.
    pub fn take(&mut self, n: usize) -> (r: Option<&'a str>)
        requires
            old(self).wf(),
        ensures
            r is Some <==> old(self).can_take(n as int),
            r matches Some(t) ==> t.spec_bytes() == old(self).next(n as int),
            final(self).wf(),
            old(self).moved_to(
                *final(self),
                if r is Some {
                    old(self).position + n
                } else {
                    old(self).position as int
                },
            ),
    {
        let r = self.peek(n);
        if r.is_some() {
            let length: usize = self.source.as_bytes().len();
            assert(self.position + n <= length);
            self.position = self.position + n;
        }
        r
    }

    /// Consumes the bytes of `class` that stand at the position and returns
    /// them.
    pub fn take_class(&mut self, class: ByteClass) -> (r: &'a str)
        requires
            old(self).wf(),
        ensures
            r.spec_bytes() == old(self).bytes().subrange(
                old(self).position as int,
                skip_class(old(self).bytes(), old(self).position as int, class),
            ),
            final(self).wf(),
            old(self).moved_to(
                *final(self),
                skip_class(old(self).bytes(), old(self).position as int, class),
            ),
            final(self).position >= old(self).position,
    {
        let b = self.source.as_bytes();
        let end = skip(b, self.position, class);
        proof {
            lemma_end_boundaries(self.source);
            if end > self.position {
                lemma_ascii_boundaries(b@, end - 1);
            }
        }
        let r = cut(self.source, self.position, end);
        self.position = end;
        r
    }

    /// All that is left to read.
    pub fn rest(&self) -> (r: &'a str)
        requires
            self.wf(),
        ensures
            r.spec_bytes() == self.remainder(),
    {
        cut_from(self.source, self.position)
    }
}

} // verus!
