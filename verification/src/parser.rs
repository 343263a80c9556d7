//! Bounds-checked big-endian reader over an immutable byte buffer.
//!
//! Every multi-byte integer in an sfnt file is stored big-endian. The spec
//! functions in this module give each encoding a name (`be_u16_at`,
//! `be_u32_at`, `be_i16_at`), and every read operation of [`ByteParser`]
//! promises to return exactly the value those functions denote, or to fail
//! with an `OutOfRange` error without moving the read position.

use crate::error::{CapyError, ErrorCode};
use vstd::prelude::*;

verus! {

/// The unsigned 16-bit value stored big-endian at byte position `p`.
pub open spec fn be_u16_at(b: Seq<u8>, p: int) -> int {
    b[p] * 0x100 + b[p + 1]
}

/// The unsigned 32-bit value stored big-endian at byte position `p`.
pub open spec fn be_u32_at(b: Seq<u8>, p: int) -> int {
    ((b[p] * 0x100 + b[p + 1]) * 0x100 + b[p + 2]) * 0x100 + b[p + 3]
}

/// Reinterprets an unsigned 16-bit value as two's-complement signed.
pub open spec fn i16_of_u16(v: int) -> int {
    if v >= 0x8000 {
        v - 0x1_0000
    } else {
        v
    }
}

/// The signed 16-bit value stored big-endian at byte position `p`.
pub open spec fn be_i16_at(b: Seq<u8>, p: int) -> int {
    i16_of_u16(be_u16_at(b, p))
}

/// Assembles the signed 16-bit value whose big-endian bytes are `hi`, `lo`.
pub fn i16_from_be_pair(hi: u8, lo: u8) -> (r: i16)
    ensures
        r == i16_of_u16(hi * 0x100 + lo),
{
    let v: u16 = (hi as u16) * 0x100 + (lo as u16);
    if v < 0x8000 {
        v as i16
    } else {
        // v - 0x1_0000 == -(0xFFFF - v) - 1, computed without overflow
        let neg: u16 = 0xFFFF - v;
        -(neg as i16) - 1
    }
}

/// A read position inside an immutable byte buffer. All read operations
/// check bounds first; a failed read or seek leaves the position unchanged.
pub struct ByteParser<'a> {
    pub buffer: &'a [u8],
    pub offset: usize,
}

impl<'a> ByteParser<'a> {
    /// The bytes being decoded.
    pub open spec fn bytes(&self) -> Seq<u8> {
        self.buffer@
    }

    /// The current read position.
    pub open spec fn pos(&self) -> int {
        self.offset as int
    }

    /// The position never moves past the end of the buffer.
    pub open spec fn wf(&self) -> bool {
        self.offset <= self.buffer@.len()
    }

    /// Starts reading at the beginning of `buffer`.
    pub fn new(buffer: &'a [u8]) -> (p: ByteParser<'a>)
        ensures
            p.bytes() == buffer@,
            p.pos() == 0,
            p.wf(),
    {
        ByteParser { buffer, offset: 0 }
    }

    /// Moves the read position to an absolute offset. Seeking exactly to the
    /// end of the buffer is legal; seeking past it fails with `OutOfRange`.
    pub fn set_offset(&mut self, offset: usize) -> (r: Result<(), CapyError>)
        requires
            old(self).wf(),
        ensures
            final(self).bytes() == old(self).bytes(),
            final(self).wf(),
            match r {
                Ok(()) => offset <= old(self).bytes().len() && final(self).pos() == offset,
                Err(e) => {
                    &&& offset > old(self).bytes().len()
                    &&& *final(self) == *old(self)
                    &&& e.code == ErrorCode::OutOfRange
                },
            },
    {
        if offset > self.buffer.len() {
            Err(CapyError::new(ErrorCode::OutOfRange, "seek target exceeds buffer length"))
        } else {
            self.offset = offset;
            Ok(())
        }
    }

    /// Reads one byte and advances by one.
    pub fn read_be_u8(&mut self) -> (r: Result<u8, CapyError>)
        requires
            old(self).wf(),
        ensures
            final(self).bytes() == old(self).bytes(),
            final(self).wf(),
            match r {
                Ok(v) => {
                    &&& old(self).pos() + 1 <= old(self).bytes().len()
                    &&& v == old(self).bytes()[old(self).pos()]
                    &&& final(self).pos() == old(self).pos() + 1
                },
                Err(e) => {
                    &&& old(self).pos() + 1 > old(self).bytes().len()
                    &&& *final(self) == *old(self)
                    &&& e.code == ErrorCode::OutOfRange
                },
            },
    {
        if self.buffer.len() - self.offset >= 1 {
            let byte = self.buffer[self.offset];
            self.offset = self.offset + 1;
            Ok(byte)
        } else {
            Err(CapyError::new(ErrorCode::OutOfRange, "buffer too small for u8"))
        }
    }

    /// Reads a big-endian u16 and advances by two.
    pub fn read_be_u16(&mut self) -> (r: Result<u16, CapyError>)
        requires
            old(self).wf(),
        ensures
            final(self).bytes() == old(self).bytes(),
            final(self).wf(),
            match r {
                Ok(v) => {
                    &&& old(self).pos() + 2 <= old(self).bytes().len()
                    &&& v == be_u16_at(old(self).bytes(), old(self).pos())
                    &&& final(self).pos() == old(self).pos() + 2
                },
                Err(e) => {
                    &&& old(self).pos() + 2 > old(self).bytes().len()
                    &&& *final(self) == *old(self)
                    &&& e.code == ErrorCode::OutOfRange
                },
            },
    {
        if self.buffer.len() - self.offset >= 2 {
            let hi = self.buffer[self.offset];
            let lo = self.buffer[self.offset + 1];
            self.offset = self.offset + 2;
            Ok((hi as u16) * 0x100 + (lo as u16))
        } else {
            Err(CapyError::new(ErrorCode::OutOfRange, "buffer too small for u16"))
        }
    }

    /// Reads a big-endian u32 and advances by four.
    pub fn read_be_u32(&mut self) -> (r: Result<u32, CapyError>)
        requires
            old(self).wf(),
        ensures
            final(self).bytes() == old(self).bytes(),
            final(self).wf(),
            match r {
                Ok(v) => {
                    &&& old(self).pos() + 4 <= old(self).bytes().len()
                    &&& v == be_u32_at(old(self).bytes(), old(self).pos())
                    &&& final(self).pos() == old(self).pos() + 4
                },
                Err(e) => {
                    &&& old(self).pos() + 4 > old(self).bytes().len()
                    &&& *final(self) == *old(self)
                    &&& e.code == ErrorCode::OutOfRange
                },
            },
    {
        if self.buffer.len() - self.offset >= 4 {
            let b0 = self.buffer[self.offset];
            let b1 = self.buffer[self.offset + 1];
            let b2 = self.buffer[self.offset + 2];
            let b3 = self.buffer[self.offset + 3];
            self.offset = self.offset + 4;
            Ok((((b0 as u32) * 0x100 + (b1 as u32)) * 0x100 + (b2 as u32)) * 0x100 + (b3 as u32))
        } else {
            Err(CapyError::new(ErrorCode::OutOfRange, "buffer too small for u32"))
        }
    }

    /// Reads a big-endian i16 and advances by two.
    pub fn read_be_i16(&mut self) -> (r: Result<i16, CapyError>)
        requires
            old(self).wf(),
        ensures
            final(self).bytes() == old(self).bytes(),
            final(self).wf(),
            match r {
                Ok(v) => {
                    &&& old(self).pos() + 2 <= old(self).bytes().len()
                    &&& v == be_i16_at(old(self).bytes(), old(self).pos())
                    &&& final(self).pos() == old(self).pos() + 2
                },
                Err(e) => {
                    &&& old(self).pos() + 2 > old(self).bytes().len()
                    &&& *final(self) == *old(self)
                    &&& e.code == ErrorCode::OutOfRange
                },
            },
    {
        if self.buffer.len() - self.offset >= 2 {
            let hi = self.buffer[self.offset];
            let lo = self.buffer[self.offset + 1];
            self.offset = self.offset + 2;
            Ok(i16_from_be_pair(hi, lo))
        } else {
            Err(CapyError::new(ErrorCode::OutOfRange, "buffer too small for i16"))
        }
    }

    /// Reads 256 raw bytes (the glyph index array of a format-0 cmap
    /// subtable) and advances by 256.
    pub fn read_u8_array_256(&mut self) -> (r: Result<Vec<u8>, CapyError>)
        requires
            old(self).wf(),
        ensures
            final(self).bytes() == old(self).bytes(),
            final(self).wf(),
            match r {
                Ok(v) => {
                    &&& old(self).pos() + 256 <= old(self).bytes().len()
                    &&& v@ == old(self).bytes().subrange(old(self).pos(), old(self).pos() + 256)
                    &&& final(self).pos() == old(self).pos() + 256
                },
                Err(e) => {
                    &&& old(self).pos() + 256 > old(self).bytes().len()
                    &&& *final(self) == *old(self)
                    &&& e.code == ErrorCode::OutOfRange
                },
            },
    {
        if self.buffer.len() - self.offset >= 256 {
            let len: usize = self.buffer.len();
            let mut out: Vec<u8> = Vec::new();
            let mut i: usize = 0;
            while i < 256
                invariant
                    i <= 256,
                    self.buffer@.len() == len,
                    self.offset + 256 <= len,
                    out@ =~= self.buffer@.subrange(self.offset as int, self.offset + i),
                decreases 256 - i,
            {
                out.push(self.buffer[self.offset + i]);
                i = i + 1;
                proof {
                    assert(out@ =~= self.buffer@.subrange(self.offset as int, self.offset + i));
                }
            }
            self.offset = self.offset + 256;
            Ok(out)
        } else {
            Err(CapyError::new(ErrorCode::OutOfRange, "buffer too small for u8 array"))
        }
    }

    /// Reads a run of `n` raw bytes at the current position.
    pub fn read_u8_run(&mut self, n: usize) -> (r: Result<Vec<u8>, CapyError>)
        requires
            old(self).wf(),
        ensures
            final(self).bytes() == old(self).bytes(),
            final(self).wf(),
            match r {
                Ok(v) => {
                    &&& old(self).pos() + n <= old(self).bytes().len()
                    &&& v@ == old(self).bytes().subrange(old(self).pos(), old(self).pos() + n)
                    &&& final(self).pos() == old(self).pos() + n
                },
                Err(e) => {
                    &&& old(self).pos() + n > old(self).bytes().len()
                    &&& e.code == ErrorCode::OutOfRange
                },
            },
    {
        let ghost start = self.pos();
        let mut out: Vec<u8> = Vec::new();
        let mut i: usize = 0;
        while i < n
            invariant
                i <= n,
                self.wf(),
                self.bytes() == old(self).bytes(),
                self.pos() == start + i,
                start == old(self).pos(),
                out@ =~= self.bytes().subrange(start, start + i),
            decreases n - i,
        {
            let byte = match self.read_be_u8() {
                Ok(v) => v,
                Err(e) => return Err(e),
            };
            out.push(byte);
            i = i + 1;
            proof {
                assert(out@ =~= self.bytes().subrange(start, start + i));
            }
        }
        Ok(out)
    }

    /// Reads a run of `n` big-endian u16 values at the current position.
    pub fn read_u16_run(&mut self, n: usize) -> (r: Result<Vec<u16>, CapyError>)
        requires
            old(self).wf(),
        ensures
            final(self).bytes() == old(self).bytes(),
            final(self).wf(),
            match r {
                Ok(v) => {
                    &&& old(self).pos() + 2 * n <= old(self).bytes().len()
                    &&& v@.len() == n
                    &&& forall|i: int|
                        0 <= i < n ==> v@[i] == be_u16_at(old(self).bytes(), old(self).pos() + 2 * i)
                    &&& final(self).pos() == old(self).pos() + 2 * n
                },
                Err(e) => {
                    &&& old(self).pos() + 2 * n > old(self).bytes().len()
                    &&& e.code == ErrorCode::OutOfRange
                },
            },
    {
        let ghost start = self.pos();
        let mut values: Vec<u16> = Vec::new();
        let mut idx: usize = 0;
        while idx < n
            invariant
                idx <= n,
                self.wf(),
                self.bytes() == old(self).bytes(),
                self.pos() == start + 2 * idx,
                start == old(self).pos(),
                values@.len() == idx,
                forall|i: int| 0 <= i < idx ==> values@[i] == be_u16_at(self.bytes(), start + 2 * i),
            decreases n - idx,
        {
            let v = match self.read_be_u16() {
                Ok(v) => v,
                Err(e) => return Err(e),
            };
            values.push(v);
            idx = idx + 1;
        }
        Ok(values)
    }

    /// Reads four big-endian i16 values and advances by eight. The whole
    /// array is bounds-checked up front, so a truncated buffer leaves the
    /// position untouched.
    pub fn read_be_i16_array_4(&mut self) -> (r: Result<[i16; 4], CapyError>)
        requires
            old(self).wf(),
        ensures
            final(self).bytes() == old(self).bytes(),
            final(self).wf(),
            match r {
                Ok(v) => {
                    &&& old(self).pos() + 8 <= old(self).bytes().len()
                    &&& forall|i: int|
                        0 <= i < 4 ==> v[i] == be_i16_at(old(self).bytes(), old(self).pos() + 2 * i)
                    &&& final(self).pos() == old(self).pos() + 8
                },
                Err(e) => {
                    &&& old(self).pos() + 8 > old(self).bytes().len()
                    &&& *final(self) == *old(self)
                    &&& e.code == ErrorCode::OutOfRange
                },
            },
    {
        if self.buffer.len() - self.offset >= 8 {
            let v0 = i16_from_be_pair(self.buffer[self.offset], self.buffer[self.offset + 1]);
            let v1 = i16_from_be_pair(self.buffer[self.offset + 2], self.buffer[self.offset + 3]);
            let v2 = i16_from_be_pair(self.buffer[self.offset + 4], self.buffer[self.offset + 5]);
            let v3 = i16_from_be_pair(self.buffer[self.offset + 6], self.buffer[self.offset + 7]);
            self.offset = self.offset + 8;
            Ok([v0, v1, v2, v3])
        } else {
            Err(CapyError::new(ErrorCode::OutOfRange, "buffer too small for i16 array"))
        }
    }
}

} // verus!
