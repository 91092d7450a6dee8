//! The eight bytes in front of every box: its size, header included, and
//! its four-character type.

use vstd::prelude::*;
use crate::error::Error;
use crate::wire::{lemma_u32_round_trip, u32_at, u32_bytes, write_u32, ByteReader};

verus! {

/// The number of bytes that a box header takes.
pub const HEADER_SIZE: u64 = 8;

/// The four-character code of the metadata box, `meta`.
pub const META_CODE: u32 = 0x6d65_7461;

/// The four-character code of the location box, `©xyz`.
pub const CXYZ_CODE: u32 = 0xa978_797a;

/// The four-character code of the opaque metadata box, `GPMF`.
pub const GPMF_CODE: u32 = 0x4750_4d46;

/// The four-character code of the user-data box, `udta`.
pub const UDTA_CODE: u32 = 0x7564_7461;

/// What kind of box a header announces.
#[derive(Debug, Clone, Copy, PartialEq, Eq, Structural)]
pub enum BoxType {
    MetaBox,
    CxyzBox,
    GpmfBox,
    UdtaBox,
    /// Any other four-character code.
    UnknownBox(u32),
}

impl BoxType {
    /// The four-character code that stands for this type on the wire.
    pub open spec fn code(self) -> u32 {
        match self {
            BoxType::MetaBox => META_CODE,
            BoxType::CxyzBox => CXYZ_CODE,
            BoxType::GpmfBox => GPMF_CODE,
            BoxType::UdtaBox => UDTA_CODE,
            BoxType::UnknownBox(code) => code,
        }
    }

    /// The type that a four-character code stands for.
    pub open spec fn of_code(code: u32) -> BoxType {
        if code == META_CODE {
            BoxType::MetaBox
        } else if code == CXYZ_CODE {
            BoxType::CxyzBox
        } else if code == GPMF_CODE {
            BoxType::GpmfBox
        } else if code == UDTA_CODE {
            BoxType::UdtaBox
        } else {
            BoxType::UnknownBox(code)
        }
    }

    /// Whether this is how `of_code` would spell the type: an `UnknownBox`
    /// never carries the code of a known one.
    pub open spec fn canonical(self) -> bool {
        BoxType::of_code(self.code()) == self
    }

    /// The type that `code` stands for.
    pub fn from_u32(code: u32) -> (t: BoxType)
        ensures
            t == BoxType::of_code(code),
    {
        if code == META_CODE {
            BoxType::MetaBox
        } else if code == CXYZ_CODE {
            BoxType::CxyzBox
        } else if code == GPMF_CODE {
            BoxType::GpmfBox
        } else if code == UDTA_CODE {
            BoxType::UdtaBox
        } else {
            BoxType::UnknownBox(code)
        }
    }

    /// The code that stands for this type.
    pub fn to_u32(self) -> (code: u32)
        ensures
            code == self.code(),
    {
        match self {
            BoxType::MetaBox => META_CODE,
            BoxType::CxyzBox => CXYZ_CODE,
            BoxType::GpmfBox => GPMF_CODE,
            BoxType::UdtaBox => UDTA_CODE,
            BoxType::UnknownBox(code) => code,
        }
    }
}

/// A code survives the way through `BoxType` and back, and every type that
/// comes out of a code is canonical.
pub proof fn lemma_code_round_trip(code: u32)
    ensures
        BoxType::of_code(code).code() == code,
        BoxType::of_code(code).canonical(),
{
}

/// What the header of a box says.
#[derive(Debug, Clone, Copy, PartialEq, Eq, Structural)]
pub struct BoxHeader {
    pub name: BoxType,
    /// The size of the whole box in bytes, these eight included.
    pub size: u64,
}

/// The eight header bytes of a box of type `name` and total size `size`.
pub open spec fn header_bytes(name: BoxType, size: u32) -> Seq<u8> {
    u32_bytes(size) + u32_bytes(name.code())
}

/// The header that the eight bytes at `at` spell.
pub open spec fn header_at(data: Seq<u8>, at: int) -> BoxHeader
    recommends
        0 <= at,
        at + HEADER_SIZE <= data.len(),
{
    BoxHeader { name: BoxType::of_code(u32_at(data, at + 4)), size: u32_at(data, at) as u64 }
}

/// Wherever `header_bytes` stands in a stream, `header_at` reads it back.
pub proof fn lemma_header_round_trip(name: BoxType, size: u32, data: Seq<u8>, at: int)
    requires
        name.canonical(),
        0 <= at,
        at + HEADER_SIZE <= data.len(),
        data.subrange(at, at + HEADER_SIZE) == header_bytes(name, size),
    ensures
        header_at(data, at) == (BoxHeader { name, size: size as u64 }),
{
    let h = header_bytes(name, size);
    assert(data.subrange(at, at + 4) =~= data.subrange(at, at + 8).subrange(0, 4));
    assert(h.subrange(0, 4) =~= u32_bytes(size));
    assert(data.subrange(at + 4, at + 8) =~= data.subrange(at, at + 8).subrange(4, 8));
    assert(h.subrange(4, 8) =~= u32_bytes(name.code()));
    lemma_u32_round_trip(size, data, at);
    lemma_u32_round_trip(name.code(), data, at + 4);
}

impl BoxHeader {
    pub fn new(name: BoxType, size: u64) -> (header: BoxHeader)
        ensures
            header == (BoxHeader { name, size }),
    {
        BoxHeader { name, size }
    }

    /// Reads the next eight bytes as a header, or consumes nothing where
    /// fewer than eight are left.
    pub fn read(reader: &mut ByteReader) -> (r: Result<BoxHeader, Error>)
        ensures
            final(reader).bytes() == old(reader).bytes(),
            match r {
                Ok(header) => {
                    &&& old(reader).position() + HEADER_SIZE <= old(reader).bytes().len()
                    &&& header == header_at(old(reader).bytes(), old(reader).position() as int)
                    &&& final(reader).position() == old(reader).position() + HEADER_SIZE
                },
                Err(e) => {
                    &&& old(reader).position() + HEADER_SIZE > old(reader).bytes().len()
                    &&& e == Error::Truncated
                    &&& final(reader).position() == old(reader).position()
                },
            },
    {
        if reader.remaining() < HEADER_SIZE {
            return Err(Error::Truncated);
        }
        let size = match reader.read_u32() {
            Ok(v) => v,
            Err(e) => {
                return Err(e);
            },
        };
        let code = match reader.read_u32() {
            Ok(v) => v,
            Err(e) => {
                return Err(e);
            },
        };
        Ok(BoxHeader { name: BoxType::from_u32(code), size: size as u64 })
    }

    /// Appends the eight header bytes and returns their number. A size
    /// that does not fit the four-byte field is refused, and nothing is
    /// written.
    pub fn write(&self, writer: &mut Vec<u8>) -> (r: Result<u64, Error>)
        ensures
            match r {
                Ok(n) => {
                    &&& self.size <= u32::MAX
                    &&& n == HEADER_SIZE
                    &&& final(writer)@ == old(writer)@ + header_bytes(self.name, self.size as u32)
                },
                Err(e) => {
                    &&& self.size > u32::MAX
                    &&& e == Error::PayloadTooLarge
                    &&& final(writer)@ == old(writer)@
                },
            },
    {
        if self.size > u32::MAX as u64 {
            return Err(Error::PayloadTooLarge);
        }
        write_u32(writer, self.size as u32);
        write_u32(writer, self.name.to_u32());
        assert(writer@ =~= old(writer)@ + header_bytes(self.name, self.size as u32));
        Ok(HEADER_SIZE)
    }
}

} // verus!
