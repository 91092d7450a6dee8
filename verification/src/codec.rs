//! What every box offers: its type and exact size, a bounded read, a
//! write, and a short description. Also the codec of a box whose body is
//! nothing but payload, which several box types share.

use vstd::prelude::*;
use crate::error::Error;
use crate::header::{header_at, header_bytes, lemma_header_round_trip, BoxHeader, BoxType, HEADER_SIZE};
use crate::wire::{write_bytes, ByteReader};

verus! {

/// A box as a value: its type, its body, and what it says of itself.
pub trait Mp4Box: Sized {
    /// The type under which the box is framed.
    spec fn tag(&self) -> BoxType;

    /// The bytes that follow the header on the wire.
    spec fn body(&self) -> Seq<u8>;

    /// The text of `summary`.
    spec fn summary_text(&self) -> Seq<char>;

    fn box_type(&self) -> (t: BoxType)
        ensures
            t == self.tag(),
    ;

    /// The size of the whole box on the wire, header included.
    fn box_size(&self) -> (n: u64)
        requires
            HEADER_SIZE + self.body().len() <= u64::MAX,
        ensures
            n == HEADER_SIZE + self.body().len(),
    ;

    /// A short description for diagnostics.
    fn summary(&self) -> (r: Result<String, Error>)
        ensures
            r is Ok,
            r->Ok_0@ == self.summary_text(),
    ;
}

/// The whole box on the wire: its header, then its body.
pub open spec fn wire<B: Mp4Box>(b: &B) -> Seq<u8> {
    header_bytes(b.tag(), (HEADER_SIZE + b.body().len()) as u32) + b.body()
}

/// Reading a box from a stream whose header has been consumed.
pub trait ReadBox: Sized + View {
    /// What `read_box` makes of a body that starts at offset `at` of `data`,
    /// in a box of declared size `size`: the value read, or the kind of
    /// failure and the offset at which the reader is left.
    spec fn decoded(data: Seq<u8>, at: int, size: u64) -> Result<Self::V, (Error, int)>;

    /// Reads the body of a box of declared size `size`. On success exactly
    /// `size - HEADER_SIZE` bytes have been consumed.
    fn read_box(reader: &mut ByteReader, size: u64) -> (r: Result<Self, Error>)
        ensures
            final(reader).bytes() == old(reader).bytes(),
            match Self::decoded(old(reader).bytes(), old(reader).position() as int, size) {
                Ok(v) => {
                    &&& r is Ok
                    &&& r->Ok_0@ == v
                    &&& final(reader).position() == old(reader).position() + size - HEADER_SIZE
                },
                Err(failure) => {
                    &&& r is Err
                    &&& r->Err_0 == failure.0
                    &&& final(reader).position() == failure.1
                },
            },
    ;
}

/// Writing a box, header first.
pub trait WriteBox: Mp4Box {
    /// Whether every length in the box fits the field that has to carry it.
    spec fn encodable(&self) -> bool;

    /// The size of the box on the wire, where the box is encodable.
    fn checked_size(&self) -> (r: Option<u64>)
        ensures
            r is Some <==> self.encodable(),
            r is Some ==> r->Some_0 == HEADER_SIZE + self.body().len(),
    ;

    /// Appends the box to `writer` and returns the number of bytes written.
    /// A box that is not encodable is refused, and nothing is written.
    fn write_box(&self, writer: &mut Vec<u8>) -> (r: Result<u64, Error>)
        ensures
            match r {
                Ok(n) => {
                    &&& self.encodable()
                    &&& n == HEADER_SIZE + self.body().len()
                    &&& n == wire(self).len()
                    &&& final(writer)@ == old(writer)@ + wire(self)
                },
                Err(e) => {
                    &&& !self.encodable()
                    &&& e == Error::PayloadTooLarge
                    &&& final(writer)@ == old(writer)@
                },
            },
    ;
}

/// What is written can be read back.
pub trait RoundTrip: Mp4Box + ReadBox + WriteBox {
    /// Wherever the written form of an encodable box stands in a stream,
    /// its header reads back as the box's type and size, and the body
    /// behind it reads back as the box itself.
    proof fn round_trip(&self, data: Seq<u8>, at: int)
        requires
            self.encodable(),
            0 <= at,
            at + wire(self).len() <= data.len(),
            data.subrange(at, at + wire(self).len()) == wire(self),
        ensures
            wire(self).len() == HEADER_SIZE + self.body().len(),
            header_at(data, at) == (BoxHeader { name: self.tag(), size: wire(self).len() as u64 }),
            Self::decoded(data, at + HEADER_SIZE, wire(self).len() as u64) == Ok::<
                Self::V,
                (Error, int),
            >(self@),
    ;
}

/// Whether a box of declared size `size`, with its body at `at`, claims a
/// body that the stream does not hold in full.
pub open spec fn declares_too_much(data: Seq<u8>, at: int, size: u64) -> bool {
    size < HEADER_SIZE || at + size - HEADER_SIZE > data.len()
}

/// The payload of a box that is all payload: the `size - HEADER_SIZE` bytes
/// at `at`. A size below that of a header, or more bytes than the stream
/// has left, is `Truncated`, and the reader stays at `at`.
pub open spec fn payload_decoded(data: Seq<u8>, at: int, size: u64) -> Result<Seq<u8>, (Error, int)> {
    if declares_too_much(data, at, size) {
        Err((Error::Truncated, at))
    } else {
        Ok(data.subrange(at, at + size - HEADER_SIZE))
    }
}

/// Reads the body of a box that is all payload.
pub fn read_payload(reader: &mut ByteReader, size: u64) -> (r: Result<Vec<u8>, Error>)
    ensures
        final(reader).bytes() == old(reader).bytes(),
        match payload_decoded(old(reader).bytes(), old(reader).position() as int, size) {
            Ok(v) => {
                &&& r is Ok
                &&& r->Ok_0@ == v
                &&& final(reader).position() == old(reader).position() + size - HEADER_SIZE
            },
            Err(failure) => {
                &&& r is Err
                &&& r->Err_0 == failure.0
                &&& final(reader).position() == failure.1
            },
        },
        declares_too_much(old(reader).bytes(), old(reader).position() as int, size) ==> {
            &&& r is Err
            &&& r->Err_0 == Error::Truncated
            &&& final(reader).position() == old(reader).position()
        },
{
    if size < HEADER_SIZE {
        return Err(Error::Truncated);
    }
    reader.read_bytes(size - HEADER_SIZE)
}

/// Passes over the body of a box of declared size `size` without reading
/// it. It fails where reading it as payload would, and as that would.
pub fn skip_box(reader: &mut ByteReader, size: u64) -> (r: Result<(), Error>)
    ensures
        final(reader).bytes() == old(reader).bytes(),
        match payload_decoded(old(reader).bytes(), old(reader).position() as int, size) {
            Ok(_) => {
                &&& r is Ok
                &&& final(reader).position() == old(reader).position() + size - HEADER_SIZE
            },
            Err(failure) => {
                &&& r is Err
                &&& r->Err_0 == failure.0
                &&& final(reader).position() == failure.1
            },
        },
{
    if size < HEADER_SIZE {
        return Err(Error::Truncated);
    }
    reader.skip_bytes(size - HEADER_SIZE)
}

/// The size of a payload box, where it fits the header's size field.
pub fn payload_checked_size(payload: &[u8]) -> (r: Option<u64>)
    ensures
        r is Some <==> payload_fits(payload@.len()),
        r is Some ==> r->Some_0 == HEADER_SIZE + payload@.len(),
{
    let len = payload.len();
    if len as u64 > u32::MAX as u64 - HEADER_SIZE {
        None
    } else {
        Some(HEADER_SIZE + len as u64)
    }
}

/// Whether a payload of `len` bytes and its header fit the header's size field.
pub open spec fn payload_fits(len: nat) -> bool {
    HEADER_SIZE + len <= u32::MAX
}

/// A box of type `name` that is all payload, on the wire.
pub open spec fn payload_wire(name: BoxType, payload: Seq<u8>) -> Seq<u8> {
    header_bytes(name, (HEADER_SIZE + payload.len()) as u32) + payload
}

/// Writes a box of type `name` whose body is `payload` and nothing else.
pub fn write_payload(name: BoxType, payload: &[u8], writer: &mut Vec<u8>) -> (r: Result<u64, Error>)
    ensures
        match r {
            Ok(n) => {
                &&& payload_fits(payload@.len())
                &&& n == HEADER_SIZE + payload@.len()
                &&& final(writer)@ == old(writer)@ + payload_wire(name, payload@)
            },
            Err(e) => {
                &&& !payload_fits(payload@.len())
                &&& e == Error::PayloadTooLarge
                &&& final(writer)@ == old(writer)@
            },
        },
{
    let len = payload.len();
    if len as u64 > u32::MAX as u64 - HEADER_SIZE {
        return Err(Error::PayloadTooLarge);
    }
    let size: u64 = HEADER_SIZE + len as u64;
    match BoxHeader::new(name, size).write(writer) {
        Ok(_) => {},
        Err(e) => {
            return Err(e);
        },
    }
    write_bytes(writer, payload);
    assert(writer@ =~= old(writer)@ + payload_wire(name, payload@));
    Ok(size)
}

/// Wherever a payload box stands in a stream, its header and its payload
/// read back.
pub proof fn lemma_payload_round_trip(name: BoxType, payload: Seq<u8>, data: Seq<u8>, at: int)
    requires
        name.canonical(),
        payload_fits(payload.len()),
        0 <= at,
        at + payload_wire(name, payload).len() <= data.len(),
        data.subrange(at, at + payload_wire(name, payload).len()) == payload_wire(name, payload),
    ensures
        payload_wire(name, payload).len() == HEADER_SIZE + payload.len(),
        header_at(data, at) == (BoxHeader { name, size: (HEADER_SIZE + payload.len()) as u64 }),
        payload_decoded(data, at + HEADER_SIZE, (HEADER_SIZE + payload.len()) as u64) == Ok::<
            Seq<u8>,
            (Error, int),
        >(payload),
{
    let size = (HEADER_SIZE + payload.len()) as u32;
    let w = payload_wire(name, payload);
    let window = data.subrange(at, at + w.len());
    assert(data.subrange(at, at + HEADER_SIZE) =~= window.subrange(0, HEADER_SIZE as int));
    assert(w.subrange(0, HEADER_SIZE as int) =~= header_bytes(name, size));
    lemma_header_round_trip(name, size, data, at);
    assert(data.subrange(at + HEADER_SIZE, at + HEADER_SIZE + payload.len()) =~= window.subrange(
        HEADER_SIZE as int,
        w.len() as int,
    ));
    assert(w.subrange(HEADER_SIZE as int, w.len() as int) =~= payload);
}

} // verus!
