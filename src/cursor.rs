//! The source buffer with a forward-only read position.
use vstd::prelude::*;

use crate::grammar::{column_at, line_at, run_end, ByteClass, NEWLINE};

verus! {

/// Owns the bytes being lexed and tracks the current offset, line and column.
/// The offset only ever moves forward.
#[derive(Debug)]
pub struct SourceCursor {
    buffer: Vec<u8>,
    offset: usize,
    line: usize,
    column: usize,
    /// The column of the byte just consumed (0 before the first byte).
    last_column: usize,
}

pub proof fn lemma_position_bounds(src: Seq<u8>, pos: int)
    requires
        0 <= pos,
    ensures
        1 <= line_at(src, pos) <= pos + 1,
        0 <= column_at(src, pos) <= pos,
    decreases pos,
{
    if pos > 0 {
        lemma_position_bounds(src, pos - 1);
    }
}

impl SourceCursor {
    /// The whole source.
    pub closed spec fn source(&self) -> Seq<u8> {
        self.buffer@
    }

    /// The offset of the next byte to be read.
    pub closed spec fn position(&self) -> int {
        self.offset as int
    }

    /// The offset stays within the source, the line and column agree with
    /// it, and every line number the source can reach fits in a `usize`.
    pub closed spec fn wf(&self) -> bool {
        &&& self.buffer@.len() < usize::MAX
        &&& self.offset <= self.buffer@.len()
        &&& self.line == line_at(self.buffer@, self.offset as int)
        &&& self.column == column_at(self.buffer@, self.offset as int)
        &&& self.offset > 0 ==> self.last_column == column_at(self.buffer@, self.offset - 1)
    }

    pub fn new(buffer: Vec<u8>) -> (r: SourceCursor)
        requires
            buffer@.len() < usize::MAX,
        ensures
            r.wf(),
            r.source() == buffer@,
            r.position() == 0,
    {
        SourceCursor { buffer, offset: 0, line: 1, column: 0, last_column: 0 }
    }

    pub fn offset(&self) -> (r: usize)
        requires
            self.wf(),
        ensures
            r == self.position(),
            r <= self.source().len(),
            self.source().len() < usize::MAX,
    {
        self.offset
    }

    pub fn line(&self) -> (r: usize)
        requires
            self.wf(),
        ensures
            r == line_at(self.source(), self.position()),
    {
        self.line
    }

    pub fn column(&self) -> (r: usize)
        requires
            self.wf(),
        ensures
            r == column_at(self.source(), self.position()),
    {
        self.column
    }

    /// The column of the byte just consumed.
    pub fn last_column(&self) -> (r: usize)
        requires
            self.wf(),
            self.position() > 0,
        ensures
            r == column_at(self.source(), self.position() - 1),
            r < self.source().len(),
    {
        proof {
            lemma_position_bounds(self.buffer@, self.offset - 1);
        }
        self.last_column
    }

    pub fn len(&self) -> (r: usize)
        requires
            self.wf(),
        ensures
            r == self.source().len(),
            r < usize::MAX,
    {
        self.buffer.len()
    }

    pub fn is_at_end(&self) -> (r: bool)
        requires
            self.wf(),
        ensures
            r == (self.position() >= self.source().len()),
    {
        self.offset >= self.buffer.len()
    }

    /// The byte at the current offset, without consuming it.
    pub fn peek(&self) -> (r: Option<u8>)
        requires
            self.wf(),
        ensures
            0 <= self.position() <= self.source().len(),
            self.position() < self.source().len() ==> r == Some(self.source()[self.position()]),
            self.position() >= self.source().len() ==> r is None,
    {
        if self.offset < self.buffer.len() {
            Some(self.buffer[self.offset])
        } else {
            None
        }
    }

    /// The byte `n` places after the current offset, without consuming anything.
    pub fn peek_nth(&self, n: usize) -> (r: Option<u8>)
        requires
            self.wf(),
        ensures
            0 <= self.position() <= self.source().len(),
            self.position() + n < self.source().len() ==> r == Some(
                self.source()[self.position() + n],
            ),
            self.position() + n >= self.source().len() ==> r is None,
    {
        if n < self.buffer.len() - self.offset {
            Some(self.buffer[self.offset + n])
        } else {
            None
        }
    }

    /// Consumes the byte at the current offset and returns it; a newline
    /// moves to the start of the next line.
    pub fn advance(&mut self) -> (r: Option<u8>)
        requires
            old(self).wf(),
        ensures
            final(self).wf(),
            final(self).source() == old(self).source(),
            old(self).position() < old(self).source().len() ==> r == Some(
                old(self).source()[old(self).position()],
            ) && final(self).position() == old(self).position() + 1,
            old(self).position() >= old(self).source().len() ==> r is None && final(self).position()
                == old(self).position(),
    {
        if self.offset >= self.buffer.len() {
            return None;
        }
        let b = self.buffer[self.offset];
        proof {
            lemma_position_bounds(self.buffer@, self.offset as int);
        }
        self.offset = self.offset + 1;
        self.last_column = self.column;
        if b == NEWLINE {
            self.line = self.line + 1;
            self.column = 0;
        } else {
            self.column = self.column + 1;
        }
        Some(b)
    }

    /// Consumes `n` bytes, which must all be there.
    pub fn advance_by(&mut self, n: usize)
        requires
            old(self).wf(),
            old(self).position() + n <= old(self).source().len(),
        ensures
            final(self).wf(),
            final(self).source() == old(self).source(),
            final(self).position() == old(self).position() + n,
    {
        let mut i: usize = 0;
        while i < n
            invariant
                self.wf(),
                self.source() == old(self).source(),
                i <= n,
                self.position() == old(self).position() + i,
                old(self).position() + n <= old(self).source().len(),
            decreases n - i,
        {
            self.advance();
            i = i + 1;
        }
    }

    /// Consumes the maximal run of bytes of class `class` at the current offset.
    pub fn take_while(&mut self, class: ByteClass)
        requires
            old(self).wf(),
        ensures
            final(self).wf(),
            final(self).source() == old(self).source(),
            final(self).position() == run_end(old(self).source(), old(self).position(), class),
    {
        let ghost start = self.position();
        loop
            invariant
                self.wf(),
                self.source() == old(self).source(),
                start == old(self).position(),
                run_end(self.source(), self.position(), class) == run_end(
                    self.source(),
                    start,
                    class,
                ),
            ensures
                self.wf(),
                self.source() == old(self).source(),
                self.position() == run_end(self.source(), start, class),
            decreases self.source().len() - self.position(),
        {
            match self.peek() {
                Some(b) if class.contains(b) => {
                    self.advance();
                },
                _ => break,
            }
        }
    }

    /// A copy of the source bytes in `[start, end)`.
    pub fn text(&self, start: usize, end: usize) -> (r: Vec<u8>)
        requires
            self.wf(),
            start <= end <= self.source().len(),
        ensures
            r@ == self.source().subrange(start as int, end as int),
    {
        let mut out: Vec<u8> = Vec::new();
        let mut i: usize = start;
        while i < end
            invariant
                start <= i <= end <= self.buffer@.len(),
                out@ == self.buffer@.subrange(start as int, i as int),
            decreases end - i,
        {
            out.push(self.buffer[i]);
            i = i + 1;
            assert(out@ =~= self.buffer@.subrange(start as int, i as int));
        }
        out
    }
}

} // verus!
