//! Big-endian integers on the wire, a forward-only reader over a byte slice,
//! and the matching writers into a byte vector.

use vstd::prelude::*;
use vstd::slice::slice_subrange;
use vstd::slice::slice_to_vec;
use crate::error::Error;

verus! {

/// The two bytes of `v`, most significant first.
pub open spec fn u16_bytes(v: u16) -> Seq<u8> {
    seq![(v / 256) as u8, (v % 256) as u8]
}

/// The four bytes of `v`, most significant first.
pub open spec fn u32_bytes(v: u32) -> Seq<u8> {
    seq![
        (v / 16777216) as u8,
        ((v / 65536) % 256) as u8,
        ((v / 256) % 256) as u8,
        (v % 256) as u8,
    ]
}

/// The number that the two bytes at `at` spell, most significant first.
pub open spec fn u16_at(data: Seq<u8>, at: int) -> u16
    recommends
        0 <= at,
        at + 2 <= data.len(),
{
    (data[at] * 256 + data[at + 1]) as u16
}

/// The number that the four bytes at `at` spell, most significant first.
pub open spec fn u32_at(data: Seq<u8>, at: int) -> u32
    recommends
        0 <= at,
        at + 4 <= data.len(),
{
    (data[at] * 16777216 + data[at + 1] * 65536 + data[at + 2] * 256 + data[at + 3]) as u32
}

/// Wherever the two bytes of `v` stand in a stream, `u16_at` reads `v` there.
pub proof fn lemma_u16_round_trip(v: u16, data: Seq<u8>, at: int)
    requires
        0 <= at,
        at + 2 <= data.len(),
        data.subrange(at, at + 2) == u16_bytes(v),
    ensures
        u16_at(data, at) == v,
{
    let b = u16_bytes(v);
    assert(data[at] == b[0]) by {
        assert(data.subrange(at, at + 2)[0] == data[at]);
    }
    assert(data[at + 1] == b[1]) by {
        assert(data.subrange(at, at + 2)[1] == data[at + 1]);
    }
}

/// Wherever the four bytes of `v` stand in a stream, `u32_at` reads `v` there.
pub proof fn lemma_u32_round_trip(v: u32, data: Seq<u8>, at: int)
    requires
        0 <= at,
        at + 4 <= data.len(),
        data.subrange(at, at + 4) == u32_bytes(v),
    ensures
        u32_at(data, at) == v,
{
    let b = u32_bytes(v);
    let window = data.subrange(at, at + 4);
    assert(data[at] == b[0]) by {
        assert(window[0] == data[at]);
    }
    assert(data[at + 1] == b[1]) by {
        assert(window[1] == data[at + 1]);
    }
    assert(data[at + 2] == b[2]) by {
        assert(window[2] == data[at + 2]);
    }
    assert(data[at + 3] == b[3]) by {
        assert(window[3] == data[at + 3]);
    }
}

/// A forward-only cursor over a byte slice.
pub struct ByteReader<'a> {
    data: &'a [u8],
    pos: usize,
}

impl<'a> ByteReader<'a> {
    #[verifier::type_invariant]
    spec fn in_bounds(self) -> bool {
        self.pos <= self.data@.len()
    }

    /// The whole stream, consumed part included.
    pub closed spec fn bytes(&self) -> Seq<u8> {
        self.data@
    }

    /// How many bytes have been consumed.
    pub closed spec fn position(&self) -> nat {
        self.pos as nat
    }

    /// A reader at the start of `data`.
    pub fn new(data: &'a [u8]) -> (reader: Self)
        ensures
            reader.bytes() == data@,
            reader.position() == 0,
    {
        ByteReader { data, pos: 0 }
    }

    /// The offset of the next unread byte.
    pub fn stream_position(&self) -> (p: u64)
        ensures
            p == self.position(),
            self.position() <= self.bytes().len() <= u64::MAX,
    {
        proof {
            use_type_invariant(self);
            assert(self.data@.len() == self.data.len());
        }
        self.pos as u64
    }

    /// The number of bytes not yet consumed.
    pub fn remaining(&self) -> (n: u64)
        ensures
            n == self.bytes().len() - self.position(),
    {
        proof {
            use_type_invariant(self);
        }
        (self.data.len() - self.pos) as u64
    }

    /// Reads a big-endian `u16`, or consumes nothing where fewer than two
    /// bytes are left.
    pub fn read_u16(&mut self) -> (r: Result<u16, Error>)
        ensures
            final(self).bytes() == old(self).bytes(),
            match r {
                Ok(v) => {
                    &&& old(self).position() + 2 <= old(self).bytes().len()
                    &&& v == u16_at(old(self).bytes(), old(self).position() as int)
                    &&& final(self).position() == old(self).position() + 2
                },
                Err(e) => {
                    &&& old(self).position() + 2 > old(self).bytes().len()
                    &&& e == Error::Truncated
                    &&& final(self).position() == old(self).position()
                },
            },
    {
        proof {
            use_type_invariant(&*self);
        }
        if self.data.len() - self.pos < 2 {
            return Err(Error::Truncated);
        }
        let hi: u16 = self.data[self.pos] as u16;
        let lo: u16 = self.data[self.pos + 1] as u16;
        self.pos = self.pos + 2;
        Ok(hi * 256 + lo)
    }

    /// Reads a big-endian `u32`, or consumes nothing where fewer than four
    /// bytes are left.
    pub fn read_u32(&mut self) -> (r: Result<u32, Error>)
        ensures
            final(self).bytes() == old(self).bytes(),
            match r {
                Ok(v) => {
                    &&& old(self).position() + 4 <= old(self).bytes().len()
                    &&& v == u32_at(old(self).bytes(), old(self).position() as int)
                    &&& final(self).position() == old(self).position() + 4
                },
                Err(e) => {
                    &&& old(self).position() + 4 > old(self).bytes().len()
                    &&& e == Error::Truncated
                    &&& final(self).position() == old(self).position()
                },
            },
    {
        proof {
            use_type_invariant(&*self);
        }
        if self.data.len() - self.pos < 4 {
            return Err(Error::Truncated);
        }
        let b0: u32 = self.data[self.pos] as u32;
        let b1: u32 = self.data[self.pos + 1] as u32;
        let b2: u32 = self.data[self.pos + 2] as u32;
        let b3: u32 = self.data[self.pos + 3] as u32;
        self.pos = self.pos + 4;
        Ok(b0 * 16777216 + b1 * 65536 + b2 * 256 + b3)
    }

    /// Copies the next `n` bytes out, or consumes nothing where fewer than
    /// `n` are left.
    pub fn read_bytes(&mut self, n: u64) -> (r: Result<Vec<u8>, Error>)
        ensures
            final(self).bytes() == old(self).bytes(),
            match r {
                Ok(out) => {
                    &&& old(self).position() + n <= old(self).bytes().len()
                    &&& out@ == old(self).bytes().subrange(
                        old(self).position() as int,
                        old(self).position() + n,
                    )
                    &&& final(self).position() == old(self).position() + n
                },
                Err(e) => {
                    &&& old(self).position() + n > old(self).bytes().len()
                    &&& e == Error::Truncated
                    &&& final(self).position() == old(self).position()
                },
            },
    {
        proof {
            use_type_invariant(&*self);
        }
        if n > (self.data.len() - self.pos) as u64 {
            return Err(Error::Truncated);
        }
        let end: usize = self.pos + n as usize;
        let out = slice_to_vec(slice_subrange(self.data, self.pos, end));
        self.pos = end;
        Ok(out)
    }

    /// Passes over the next `n` bytes, or consumes nothing where fewer than
    /// `n` are left.
    pub fn skip_bytes(&mut self, n: u64) -> (r: Result<(), Error>)
        ensures
            final(self).bytes() == old(self).bytes(),
            match r {
                Ok(_) => {
                    &&& old(self).position() + n <= old(self).bytes().len()
                    &&& final(self).position() == old(self).position() + n
                },
                Err(e) => {
                    &&& old(self).position() + n > old(self).bytes().len()
                    &&& e == Error::Truncated
                    &&& final(self).position() == old(self).position()
                },
            },
    {
        proof {
            use_type_invariant(&*self);
        }
        if n > (self.data.len() - self.pos) as u64 {
            return Err(Error::Truncated);
        }
        self.pos = self.pos + n as usize;
        Ok(())
    }

    /// Moves forward to the absolute offset `target`. A target behind the
    /// cursor means that something read too far: that is `Defect`. A target
    /// past the end of the stream is `Truncated`. Either way nothing moves.
    pub fn skip_to(&mut self, target: u64) -> (r: Result<(), Error>)
        ensures
            final(self).bytes() == old(self).bytes(),
            match r {
                Ok(_) => {
                    &&& old(self).position() <= target <= old(self).bytes().len()
                    &&& final(self).position() == target
                },
                Err(e) => {
                    &&& final(self).position() == old(self).position()
                    &&& e == if target < old(self).position() {
                        Error::Defect
                    } else {
                        Error::Truncated
                    }
                    &&& target < old(self).position() || target > old(self).bytes().len()
                },
            },
    {
        proof {
            use_type_invariant(&*self);
        }
        if target < self.pos as u64 {
            return Err(Error::Defect);
        }
        if target > self.data.len() as u64 {
            return Err(Error::Truncated);
        }
        self.pos = target as usize;
        Ok(())
    }
}

/// Appends `v` as two bytes, most significant first.
pub fn write_u16(out: &mut Vec<u8>, v: u16)
    ensures
        final(out)@ == old(out)@ + u16_bytes(v),
{
    out.push((v / 256) as u8);
    out.push((v % 256) as u8);
    assert(out@ =~= old(out)@ + u16_bytes(v));
}

/// Appends `v` as four bytes, most significant first.
pub fn write_u32(out: &mut Vec<u8>, v: u32)
    ensures
        final(out)@ == old(out)@ + u32_bytes(v),
{
    out.push((v / 16777216) as u8);
    out.push(((v / 65536) % 256) as u8);
    out.push(((v / 256) % 256) as u8);
    out.push((v % 256) as u8);
    assert(out@ =~= old(out)@ + u32_bytes(v));
}

/// Appends `bytes` as they are.
pub fn write_bytes(out: &mut Vec<u8>, bytes: &[u8])
    ensures
        final(out)@ == old(out)@ + bytes@,
{
    out.extend_from_slice(bytes);
    assert(out@ =~= old(out)@ + bytes@);
}

} // verus!
