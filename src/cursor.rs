//! A read position over an immutable byte buffer.

use vstd::prelude::*;
use byteorder::{BigEndian, ByteOrder};
use crate::format::{be16, be32, parse_u16, parse_u32, parse_u8, take};

verus! {

/// The one way decoding fails: a read needs more bytes than remain.
#[derive(Debug, Clone, Copy, PartialEq, Eq, Structural)]
pub enum DecodeError {
    UnexpectedEndOfInput,
}

/// A buffer and a position in it that only moves forward.
pub struct ByteCursor {
    data: Vec<u8>,
    pos: usize,
}

impl ByteCursor {
    /// The bytes being read.
    pub closed spec fn data(&self) -> Seq<u8> {
        self.data@
    }

    /// The position of the next byte to read.
    pub closed spec fn pos(&self) -> int {
        self.pos as int
    }

    pub fn new(data: Vec<u8>) -> (r: ByteCursor)
        ensures
            r.data() == data@,
            r.pos() == 0,
    {
        ByteCursor { data, pos: 0 }
    }

    pub fn position(&self) -> (r: usize)
        ensures
            r as int == self.pos(),
    {
        self.pos
    }

    pub fn len(&self) -> (r: usize)
        ensures
            r as int == self.data().len(),
    {
        self.data.len()
    }

    /// Whether `n` more bytes can be read.
    fn has(&self, n: usize) -> (r: bool)
        ensures
            r == (self.pos() + n <= self.data().len()),
            self.data().len() <= usize::MAX,
    {
        self.pos <= self.data.len() && n <= self.data.len() - self.pos
    }
}

/// Relies on byteorder's `BigEndian::read_u16`: the first two bytes of the
/// slice it is given, most significant first (it panics on fewer than two).
#[verifier::external_body]
fn be_u16_at(b: &[u8], at: usize) -> (r: u16)
    requires
        at + 2 <= b@.len(),
    ensures
        r == be16(b@.subrange(at as int, at + 2)),
{
    BigEndian::read_u16(&b[at..])
}

/// Relies on byteorder's `BigEndian::read_u32`: the first four bytes of the
/// slice it is given, most significant first (it panics on fewer than four).
#[verifier::external_body]
fn be_u32_at(b: &[u8], at: usize) -> (r: u32)
    requires
        at + 4 <= b@.len(),
    ensures
        r == be32(b@.subrange(at as int, at + 4)),
{
    BigEndian::read_u32(&b[at..])
}

/// Reads one byte.
pub fn read8(c: &mut ByteCursor) -> (r: Result<u8, DecodeError>)
    ensures
        final(c).data() == old(c).data(),
        match r {
            Ok(v) => parse_u8(old(c).data(), old(c).pos()) == Some((v, final(c).pos())),
            Err(_) => parse_u8(old(c).data(), old(c).pos()) is None && *final(c) == *old(c),
        },
{
    if !c.has(1) {
        return Err(DecodeError::UnexpectedEndOfInput);
    }
    let v = c.data[c.pos];
    c.pos = c.pos + 1;
    Ok(v)
}

/// Reads a big-endian 16-bit value.
pub fn read16(c: &mut ByteCursor) -> (r: Result<u16, DecodeError>)
    ensures
        final(c).data() == old(c).data(),
        match r {
            Ok(v) => parse_u16(old(c).data(), old(c).pos()) == Some((v, final(c).pos())),
            Err(_) => parse_u16(old(c).data(), old(c).pos()) is None && *final(c) == *old(c),
        },
{
    if !c.has(2) {
        return Err(DecodeError::UnexpectedEndOfInput);
    }
    let v = be_u16_at(c.data.as_slice(), c.pos);
    c.pos = c.pos + 2;
    Ok(v)
}

/// Reads a big-endian 32-bit value.
pub fn read32(c: &mut ByteCursor) -> (r: Result<u32, DecodeError>)
    ensures
        final(c).data() == old(c).data(),
        match r {
            Ok(v) => parse_u32(old(c).data(), old(c).pos()) == Some((v, final(c).pos())),
            Err(_) => parse_u32(old(c).data(), old(c).pos()) is None && *final(c) == *old(c),
        },
{
    if !c.has(4) {
        return Err(DecodeError::UnexpectedEndOfInput);
    }
    let v = be_u32_at(c.data.as_slice(), c.pos);
    c.pos = c.pos + 4;
    Ok(v)
}

/// Takes the next `n` bytes, copied out in order.
pub fn take_bytes(c: &mut ByteCursor, n: usize) -> (r: Result<Vec<u8>, DecodeError>)
    ensures
        final(c).data() == old(c).data(),
        match r {
            Ok(v) => take(old(c).data(), old(c).pos(), n as int) == Some((v@, final(c).pos())),
            Err(_) => take(old(c).data(), old(c).pos(), n as int) is None && *final(c) == *old(c),
        },
{
    if !c.has(n) {
        return Err(DecodeError::UnexpectedEndOfInput);
    }
    let start = c.pos;
    let mut out: Vec<u8> = Vec::with_capacity(n);
    let mut i: usize = 0;
    while i < n
        invariant
            start + n <= c.data@.len() <= usize::MAX,
            i <= n,
            out@ == c.data@.subrange(start as int, start + i),
        decreases n - i,
    {
        out.push(c.data[start + i]);
        i = i + 1;
        assert(out@ =~= c.data@.subrange(start as int, start + i));
    }
    c.pos = start + n;
    Ok(out)
}

} // verus!
