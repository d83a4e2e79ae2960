//! Sequential byte readers and writers used by the wire codec.

use vstd::prelude::*;
use crate::error::Error;

verus! {

/// The 64-bit value held by the eight bytes starting at `i` in `s`,
/// little-endian.
pub open spec fn spec_u64_le_at(s: Seq<u8>, i: int) -> u64 {
    (s[i] as u64)
        | (s[i + 1] as u64) << 8u64
        | (s[i + 2] as u64) << 16u64
        | (s[i + 3] as u64) << 24u64
        | (s[i + 4] as u64) << 32u64
        | (s[i + 5] as u64) << 40u64
        | (s[i + 6] as u64) << 48u64
        | (s[i + 7] as u64) << 56u64
}

/// The eight little-endian bytes of `v`, low byte first.
pub open spec fn spec_u64_le_bytes(v: u64) -> Seq<u8> {
    seq![
        v as u8,
        (v >> 8u64) as u8,
        (v >> 16u64) as u8,
        (v >> 24u64) as u8,
        (v >> 32u64) as u8,
        (v >> 40u64) as u8,
        (v >> 48u64) as u8,
        (v >> 56u64) as u8,
    ]
}

/// Law: reading eight little-endian bytes recovers the value they were
/// written from.
pub proof fn lemma_u64_le_round_trip(s: Seq<u8>, i: int, v: u64)
    requires
        0 <= i,
        i + 8 <= s.len(),
        s.subrange(i, i + 8) == spec_u64_le_bytes(v),
    ensures
        spec_u64_le_at(s, i) == v,
{
    assert(s[i] == spec_u64_le_bytes(v)[0]);
    assert(s[i + 1] == spec_u64_le_bytes(v)[1]);
    assert(s[i + 2] == spec_u64_le_bytes(v)[2]);
    assert(s[i + 3] == spec_u64_le_bytes(v)[3]);
    assert(s[i + 4] == spec_u64_le_bytes(v)[4]);
    assert(s[i + 5] == spec_u64_le_bytes(v)[5]);
    assert(s[i + 6] == spec_u64_le_bytes(v)[6]);
    assert(s[i + 7] == spec_u64_le_bytes(v)[7]);
    assert(((v as u8) as u64)
        | (((v >> 8u64) as u8) as u64) << 8u64
        | (((v >> 16u64) as u8) as u64) << 16u64
        | (((v >> 24u64) as u8) as u64) << 24u64
        | (((v >> 32u64) as u8) as u64) << 32u64
        | (((v >> 40u64) as u8) as u64) << 40u64
        | (((v >> 48u64) as u8) as u64) << 48u64
        | (((v >> 56u64) as u8) as u64) << 56u64 == v) by (bit_vector);
}

/// A sequential reader over a borrowed byte buffer.
pub struct Input<'a> {
    vec: &'a Vec<u8>,
    pos: usize,
    end: usize,
}

impl<'a> Input<'a> {
    /// All bytes of the underlying buffer.
    pub closed spec fn bytes(&self) -> Seq<u8> {
        self.vec@
    }

    /// Number of bytes already consumed.
    pub closed spec fn pos(&self) -> int {
        self.pos as int
    }

    pub closed spec fn inv(&self) -> bool {
        self.pos <= self.end && self.end == self.vec@.len()
    }

    pub open spec fn wf(&self) -> bool {
        self.inv() && 0 <= self.pos() <= self.bytes().len()
    }

    pub fn wrap(vec: &'a Vec<u8>) -> (r: Input<'a>)
        ensures
            r.wf(),
            r.bytes() == vec@,
            r.pos() == 0,
    {
        Input { pos: 0, end: vec.len(), vec }
    }

    pub fn has_remaining(&self) -> (r: bool)
        requires
            self.wf(),
        ensures
            r == (self.pos() < self.bytes().len()),
    {
        self.pos < self.end
    }

    pub fn read_byte(&mut self) -> (r: Result<u8, Error>)
        requires
            old(self).wf(),
        ensures
            final(self).wf(),
            final(self).bytes() == old(self).bytes(),
            match r {
                Ok(b) => {
                    &&& old(self).pos() < old(self).bytes().len()
                    &&& b == old(self).bytes()[old(self).pos()]
                    &&& final(self).pos() == old(self).pos() + 1
                },
                Err(e) => {
                    &&& old(self).pos() == old(self).bytes().len()
                    &&& final(self).pos() == old(self).pos()
                    &&& e is IoError
                },
            },
    {
        if self.pos >= self.end {
            return Err(Error::IoError("unexpected end of input"));
        }
        let value = self.vec[self.pos];
        self.pos = self.pos + 1;
        Ok(value)
    }

    /// Reads eight bytes as a little-endian 64-bit integer.
    pub fn read_long_le(&mut self) -> (r: Result<u64, Error>)
        requires
            old(self).wf(),
        ensures
            final(self).wf(),
            final(self).bytes() == old(self).bytes(),
            match r {
                Ok(v) => {
                    &&& old(self).pos() + 8 <= old(self).bytes().len()
                    &&& final(self).pos() == old(self).pos() + 8
                    &&& v == spec_u64_le_at(old(self).bytes(), old(self).pos())
                },
                Err(e) => {
                    &&& old(self).pos() + 8 > old(self).bytes().len()
                    &&& final(self).pos() == old(self).pos()
                    &&& e is IoError
                },
            },
    {
        if self.end - self.pos < 8 {
            return Err(Error::IoError("unexpected end of input"));
        }
        let p = self.pos;
        let value = (self.vec[p] as u64)
            | (self.vec[p + 1] as u64) << 8u64
            | (self.vec[p + 2] as u64) << 16u64
            | (self.vec[p + 3] as u64) << 24u64
            | (self.vec[p + 4] as u64) << 32u64
            | (self.vec[p + 5] as u64) << 40u64
            | (self.vec[p + 6] as u64) << 48u64
            | (self.vec[p + 7] as u64) << 56u64;
        self.pos = p + 8;
        Ok(value)
    }
}

/// A sequential reader that owns its byte buffer.
pub struct DefaultInput {
    vec: Vec<u8>,
    pos: usize,
    end: usize,
}

impl DefaultInput {
    /// All bytes of the underlying buffer.
    pub closed spec fn bytes(&self) -> Seq<u8> {
        self.vec@
    }

    /// Number of bytes already consumed.
    pub closed spec fn pos(&self) -> int {
        self.pos as int
    }

    pub closed spec fn inv(&self) -> bool {
        self.pos <= self.end && self.end == self.vec@.len()
    }

    pub open spec fn wf(&self) -> bool {
        self.inv() && 0 <= self.pos() <= self.bytes().len()
    }

    pub fn wrap(vec: Vec<u8>) -> (r: DefaultInput)
        ensures
            r.wf(),
            r.bytes() == vec@,
            r.pos() == 0,
    {
        let end = vec.len();
        DefaultInput { pos: 0, end, vec }
    }

    pub fn has_remaining(&self) -> (r: bool)
        requires
            self.wf(),
        ensures
            r == (self.pos() < self.bytes().len()),
    {
        self.pos < self.end
    }

    pub fn read_byte(&mut self) -> (r: Result<u8, Error>)
        requires
            old(self).wf(),
        ensures
            final(self).wf(),
            final(self).bytes() == old(self).bytes(),
            match r {
                Ok(b) => {
                    &&& old(self).pos() < old(self).bytes().len()
                    &&& b == old(self).bytes()[old(self).pos()]
                    &&& final(self).pos() == old(self).pos() + 1
                },
                Err(e) => {
                    &&& old(self).pos() == old(self).bytes().len()
                    &&& final(self).pos() == old(self).pos()
                    &&& e is IoError
                },
            },
    {
        if self.pos >= self.end {
            return Err(Error::IoError("unexpected end of input"));
        }
        let value = self.vec[self.pos];
        self.pos = self.pos + 1;
        Ok(value)
    }

    /// Reads eight bytes as a little-endian 64-bit integer.
    pub fn read_long_le(&mut self) -> (r: Result<u64, Error>)
        requires
            old(self).wf(),
        ensures
            final(self).wf(),
            final(self).bytes() == old(self).bytes(),
            match r {
                Ok(v) => {
                    &&& old(self).pos() + 8 <= old(self).bytes().len()
                    &&& final(self).pos() == old(self).pos() + 8
                    &&& v == spec_u64_le_at(old(self).bytes(), old(self).pos())
                },
                Err(e) => {
                    &&& old(self).pos() + 8 > old(self).bytes().len()
                    &&& final(self).pos() == old(self).pos()
                    &&& e is IoError
                },
            },
    {
        if self.end - self.pos < 8 {
            return Err(Error::IoError("unexpected end of input"));
        }
        let p = self.pos;
        let value = (self.vec[p] as u64)
            | (self.vec[p + 1] as u64) << 8u64
            | (self.vec[p + 2] as u64) << 16u64
            | (self.vec[p + 3] as u64) << 24u64
            | (self.vec[p + 4] as u64) << 32u64
            | (self.vec[p + 5] as u64) << 40u64
            | (self.vec[p + 6] as u64) << 48u64
            | (self.vec[p + 7] as u64) << 56u64;
        self.pos = p + 8;
        Ok(value)
    }
}

/// A growable byte buffer that the encoders append to.
pub struct Output {
    vec: Vec<u8>,
}

impl Output {
    /// The bytes written so far.
    pub closed spec fn bytes(&self) -> Seq<u8> {
        self.vec@
    }

    pub fn with_capacity(capacity: usize) -> (r: Output)
        ensures
            r.bytes() == Seq::<u8>::empty(),
    {
        Output { vec: Vec::with_capacity(capacity) }
    }

    /// Hands back the accumulated byte sequence.
    pub fn trim(self) -> (r: Vec<u8>)
        ensures
            r@ == self.bytes(),
    {
        self.vec
    }

    pub fn write_byte(&mut self, value: u8) -> (r: Result<(), Error>)
        ensures
            r is Ok,
            final(self).bytes() == old(self).bytes().push(value),
    {
        self.vec.push(value);
        Ok(())
    }

    /// Writes `value` as eight little-endian bytes.
    pub fn write_long_le(&mut self, value: u64) -> (r: Result<(), Error>)
        ensures
            r is Ok,
            final(self).bytes() == old(self).bytes() + spec_u64_le_bytes(value),
    {
        self.vec.push(value as u8);
        self.vec.push((value >> 8u64) as u8);
        self.vec.push((value >> 16u64) as u8);
        self.vec.push((value >> 24u64) as u8);
        self.vec.push((value >> 32u64) as u8);
        self.vec.push((value >> 40u64) as u8);
        self.vec.push((value >> 48u64) as u8);
        self.vec.push((value >> 56u64) as u8);
        proof {
            assert(self.bytes() =~= old(self).bytes() + spec_u64_le_bytes(value));
        }
        Ok(())
    }
}

/// A growable byte buffer that owns its backing vector.
pub struct DefaultOutput {
    vec: Vec<u8>,
}

impl DefaultOutput {
    /// The bytes written so far.
    pub closed spec fn bytes(&self) -> Seq<u8> {
        self.vec@
    }

    pub fn new(size: usize) -> (r: DefaultOutput)
        ensures
            r.bytes() == Seq::<u8>::empty(),
    {
        DefaultOutput { vec: Vec::with_capacity(size) }
    }

    /// Hands back the accumulated byte sequence.
    pub fn trim(self) -> (r: Vec<u8>)
        ensures
            r@ == self.bytes(),
    {
        self.vec
    }

    pub fn write_byte(&mut self, value: u8) -> (r: Result<(), Error>)
        ensures
            r is Ok,
            final(self).bytes() == old(self).bytes().push(value),
    {
        self.vec.push(value);
        Ok(())
    }

    /// Writes `value` as eight little-endian bytes.
    pub fn write_long_le(&mut self, value: u64) -> (r: Result<(), Error>)
        ensures
            r is Ok,
            final(self).bytes() == old(self).bytes() + spec_u64_le_bytes(value),
    {
        self.vec.push(value as u8);
        self.vec.push((value >> 8u64) as u8);
        self.vec.push((value >> 16u64) as u8);
        self.vec.push((value >> 24u64) as u8);
        self.vec.push((value >> 32u64) as u8);
        self.vec.push((value >> 40u64) as u8);
        self.vec.push((value >> 48u64) as u8);
        self.vec.push((value >> 56u64) as u8);
        proof {
            assert(self.bytes() =~= old(self).bytes() + spec_u64_le_bytes(value));
        }
        Ok(())
    }
}

} // verus!
