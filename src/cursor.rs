//! A position-tracked reader over an owned byte buffer.
use vstd::prelude::*;

verus! {

/// The ways in which decoding a MIDI byte stream can fail.
#[derive(Clone, Copy, Debug, PartialEq, Eq, Structural)]
pub enum DecodeError {
    /// A chunk does not start with the expected magic tag, or its header is malformed.
    MalformedChunk,
    /// A read went past the end of the buffer.
    OutOfData,
    /// The file ends before all declared tracks were read.
    UnexpectedEof,
    /// An event would read past the declared length of its track chunk.
    TruncatedTrack,
    /// A data byte appeared where a status byte was needed and no status was in effect.
    MissingRunningStatus,
    /// A variable-length quantity is longer than four bytes.
    MalformedVlq,
}

/// Big-endian value of the two bytes at `p`.
pub open spec fn be16(b: Seq<u8>, p: int) -> u16 {
    (b[p] as int * 0x100 + b[p + 1] as int) as u16
}

/// Big-endian value of the four bytes at `p`.
pub open spec fn be32(b: Seq<u8>, p: int) -> u32 {
    (b[p] as int * 0x1000000 + b[p + 1] as int * 0x10000 + b[p + 2] as int * 0x100
        + b[p + 3] as int) as u32
}

/// An owned byte buffer together with a read position.
pub struct ByteCursor {
    buf: Vec<u8>,
    at: usize,
}

impl ByteCursor {
    /// The whole buffer.
    pub closed spec fn bytes(&self) -> Seq<u8> {
        self.buf@
    }

    /// The read position.
    pub closed spec fn pos(&self) -> int {
        self.at as int
    }

    /// The position never passes the end of the buffer.
    pub open spec fn wf(&self) -> bool {
        0 <= self.pos() <= self.bytes().len()
    }

    /// A cursor at the start of `buf`.
    pub fn new(buf: Vec<u8>) -> (r: ByteCursor)
        ensures
            r.wf(),
            r.bytes() == buf@,
            r.pos() == 0,
    {
        ByteCursor { buf, at: 0 }
    }

    /// The current read position.
    pub fn position(&self) -> (r: usize)
        requires
            self.wf(),
        ensures
            r == self.pos(),
    {
        self.at
    }

    /// Whether any byte is left to read.
    pub fn has_remaining(&self) -> (r: bool)
        requires
            self.wf(),
        ensures
            r == (self.pos() < self.bytes().len()),
    {
        self.at < self.buf.len()
    }

    /// The next byte, without consuming it.
    pub fn peek_u8(&self) -> (r: Result<u8, DecodeError>)
        requires
            self.wf(),
        ensures
            self.pos() < self.bytes().len() ==> r == Ok::<u8, DecodeError>(
                self.bytes()[self.pos()],
            ),
            self.pos() >= self.bytes().len() ==> r == Err::<u8, DecodeError>(
                DecodeError::OutOfData,
            ),
    {
        if self.at < self.buf.len() {
            Ok(self.buf[self.at])
        } else {
            Err(DecodeError::OutOfData)
        }
    }

    /// Reads one byte.
    pub fn read_u8(&mut self) -> (r: Result<u8, DecodeError>)
        requires
            old(self).wf(),
        ensures
            final(self).wf(),
            final(self).bytes() == old(self).bytes(),
            old(self).pos() < old(self).bytes().len() ==> r == Ok::<u8, DecodeError>(
                old(self).bytes()[old(self).pos()],
            ) && final(self).pos() == old(self).pos() + 1,
            old(self).pos() >= old(self).bytes().len() ==> r == Err::<u8, DecodeError>(
                DecodeError::OutOfData,
            ) && final(self).pos() == old(self).pos(),
    {
        if self.at < self.buf.len() {
            let b = self.buf[self.at];
            self.at = self.at + 1;
            Ok(b)
        } else {
            Err(DecodeError::OutOfData)
        }
    }

    /// Reads a big-endian 16-bit integer.
    pub fn read_u16_be(&mut self) -> (r: Result<u16, DecodeError>)
        requires
            old(self).wf(),
        ensures
            final(self).wf(),
            final(self).bytes() == old(self).bytes(),
            old(self).pos() + 2 <= old(self).bytes().len() ==> r == Ok::<u16, DecodeError>(
                be16(old(self).bytes(), old(self).pos()),
            ) && final(self).pos() == old(self).pos() + 2,
            old(self).pos() + 2 > old(self).bytes().len() ==> r == Err::<u16, DecodeError>(
                DecodeError::OutOfData,
            ) && final(self).pos() == old(self).pos(),
    {
        if self.buf.len() - self.at >= 2 {
            let hi = self.buf[self.at] as u16;
            let lo = self.buf[self.at + 1] as u16;
            self.at = self.at + 2;
            Ok(hi * 0x100 + lo)
        } else {
            Err(DecodeError::OutOfData)
        }
    }

    /// Reads a big-endian 32-bit integer.
    pub fn read_u32_be(&mut self) -> (r: Result<u32, DecodeError>)
        requires
            old(self).wf(),
        ensures
            final(self).wf(),
            final(self).bytes() == old(self).bytes(),
            old(self).pos() + 4 <= old(self).bytes().len() ==> r == Ok::<u32, DecodeError>(
                be32(old(self).bytes(), old(self).pos()),
            ) && final(self).pos() == old(self).pos() + 4,
            old(self).pos() + 4 > old(self).bytes().len() ==> r == Err::<u32, DecodeError>(
                DecodeError::OutOfData,
            ) && final(self).pos() == old(self).pos(),
    {
        if self.buf.len() - self.at >= 4 {
            let b0 = self.buf[self.at] as u32;
            let b1 = self.buf[self.at + 1] as u32;
            let b2 = self.buf[self.at + 2] as u32;
            let b3 = self.buf[self.at + 3] as u32;
            self.at = self.at + 4;
            Ok(b0 * 0x1000000 + b1 * 0x10000 + b2 * 0x100 + b3)
        } else {
            Err(DecodeError::OutOfData)
        }
    }

    /// Reads the next `n` bytes.
    pub fn read_bytes(&mut self, n: usize) -> (r: Result<Vec<u8>, DecodeError>)
        requires
            old(self).wf(),
        ensures
            final(self).wf(),
            final(self).bytes() == old(self).bytes(),
            old(self).pos() + n <= old(self).bytes().len() ==> r is Ok && r->Ok_0@
                == old(self).bytes().subrange(old(self).pos(), old(self).pos() + n)
                && final(self).pos() == old(self).pos() + n,
            old(self).pos() + n > old(self).bytes().len() ==> r == Err::<Vec<u8>, DecodeError>(
                DecodeError::OutOfData,
            ) && final(self).pos() == old(self).pos(),
    {
        if self.buf.len() - self.at >= n {
            let mut out: Vec<u8> = Vec::with_capacity(n);
            let start = self.at;
            let mut i: usize = 0;
            while i < n
                invariant
                    self.wf(),
                    self.at == start,
                    start + n <= self.buf.len(),
                    i <= n,
                    out@ == self.buf@.subrange(start as int, start + i),
                decreases n - i,
            {
                out.push(self.buf[start + i]);
                i = i + 1;
                assert(out@ =~= self.buf@.subrange(start as int, start + i));
            }
            self.at = start + n;
            Ok(out)
        } else {
            Err(DecodeError::OutOfData)
        }
    }
}

} // verus!
