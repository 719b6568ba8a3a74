//! Reading source text byte by byte, with the place of each byte.

use vstd::prelude::*;
use crate::bytecode::FilePosition;

verus! {

impl FilePosition {
    /// The place of the byte after `c`, where `c` stands at this place: the
    /// start of the next line after a newline, else the next column.
    pub open spec fn spec_advance(self, c: u8) -> FilePosition {
        if c == '\n' as u8 {
            FilePosition { line: (self.line + 1) as usize, col: 1 }
        } else {
            FilePosition { line: self.line, col: (self.col + 1) as usize }
        }
    }

    /// Moves from the place of the byte `c` to the place of the byte after it.
    pub fn advance(&mut self, c: u8)
        requires
            old(self).line < usize::MAX,
            old(self).col < usize::MAX,
        ensures
            *final(self) == old(self).spec_advance(c),
    {
        if c == '\n' as u8 {
            self.line += 1;
            self.col = 1;
        } else {
            self.col += 1;
        }
    }
}

/// The place of the byte at offset `at` of a source text. The first byte
/// stands at line 1, column 1.
pub open spec fn position_at(src: Seq<u8>, at: nat) -> FilePosition
    decreases at,
{
    if at == 0 {
        FilePosition { line: 1, col: 1 }
    } else {
        position_at(src, (at - 1) as nat).spec_advance(src[at - 1])
    }
}

/// Neither the line nor the column of a byte is more than one above its
/// offset.
pub proof fn lemma_position_bound(src: Seq<u8>, at: nat)
    requires
        at < usize::MAX,
    ensures
        1 <= position_at(src, at).line <= at + 1,
        1 <= position_at(src, at).col <= at + 1,
    decreases at,
{
    if at > 0 {
        lemma_position_bound(src, (at - 1) as nat);
    }
}

/// A source text and how far it has been read.
pub struct CodeReader<'a> {
    pub code: &'a Vec<u8>,
    /// The offset of the next byte.
    pub at: usize,
    /// The place of the next byte, while there is one.
    pub pos: FilePosition,
}

impl<'a> CodeReader<'a> {
    /// The reader has not run past the end, and knows the place of the
    /// next byte.
    pub open spec fn wf(&self) -> bool {
        &&& self.at <= self.code.len()
        &&& self.at < self.code.len() ==> self.pos == position_at(self.code@, self.at as nat)
    }

    /// A reader at the begin of a text.
    pub fn new(code: &'a Vec<u8>) -> (reader: CodeReader<'a>)
        ensures
            reader.wf(),
            reader.code == code,
            reader.at == 0,
    {
        CodeReader { code, at: 0, pos: FilePosition { line: 1, col: 1 } }
    }

    /// The next byte, which stays unread.
    pub fn peek(&self) -> (next: Option<u8>)
        requires
            self.wf(),
        ensures
            next == (if self.at < self.code.len() {
                Some(self.code[self.at as int])
            } else {
                None
            }),
    {
        if self.at < self.code.len() {
            Some(self.code[self.at])
        } else {
            None
        }
    }

    /// Reads the next byte, and tells its place.
    pub fn next(&mut self) -> (next: Option<(u8, FilePosition)>)
        requires
            old(self).wf(),
        ensures
            final(self).wf(),
            final(self).code == old(self).code,
            old(self).at < old(self).code.len() ==> final(self).at == old(self).at + 1 && next == Some(
                (old(self).code[old(self).at as int], position_at(old(self).code@, old(self).at as nat)),
            ),
            old(self).at >= old(self).code.len() ==> final(self).at == old(self).at && next.is_none(),
    {
        if self.at < self.code.len() {
            let c: u8 = self.code[self.at];
            let pos: FilePosition = self.pos;
            self.at += 1;
            if self.at < self.code.len() {
                proof {
                    lemma_position_bound(self.code@, (self.at - 1) as nat);
                }
                self.pos.advance(c);
            }
            Some((c, pos))
        } else {
            None
        }
    }
}

} // verus!
