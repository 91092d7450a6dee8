//! The location box: a language code and a short text, such as a
//! position in ISO 6709 form.

use vstd::prelude::*;
use vstd::utf8::{encode_utf8, encode_utf8_decode_utf8, encode_utf8_valid_utf8};
use crate::codec::{
    declares_too_much, payload_decoded, wire, Mp4Box, ReadBox, RoundTrip, WriteBox,
};
use crate::error::Error;
use crate::header::{
    header_at, header_bytes, lemma_header_round_trip, BoxHeader, BoxType, HEADER_SIZE,
};
use crate::text::{string_from_utf8_lossy, text_of};
use crate::wire::{
    lemma_u16_round_trip, u16_at, u16_bytes, write_bytes, write_u16, ByteReader,
};

verus! {

/// The longest text, in bytes, that the two-byte length field can announce.
pub const MAX_TEXT_LEN: usize = 65535;

/// A location box.
#[derive(Debug, Clone, PartialEq, Eq)]
pub struct CxyzBox {
    pub language_code: u16,
    pub text: String,
}

/// A location box as a mathematical value.
pub struct CxyzView {
    pub language_code: u16,
    pub text: Seq<char>,
}

impl View for CxyzBox {
    type V = CxyzView;

    open spec fn view(&self) -> CxyzView {
        CxyzView { language_code: self.language_code, text: self.text@ }
    }
}

/// The body of a location box: the length of the text in bytes, the
/// language code, then the text as UTF-8.
pub open spec fn cxyz_body(v: CxyzView) -> Seq<u8> {
    u16_bytes(encode_utf8(v.text).len() as u16) + u16_bytes(v.language_code) + encode_utf8(v.text)
}

/// Whether the text is short enough for the two-byte length field.
pub open spec fn cxyz_encodable(v: CxyzView) -> bool {
    encode_utf8(v.text).len() <= MAX_TEXT_LEN
}

/// A location box on the wire: its header, then its body.
pub open spec fn cxyz_wire(v: CxyzView) -> Seq<u8> {
    header_bytes(BoxType::CxyzBox, (HEADER_SIZE + cxyz_body(v).len()) as u32) + cxyz_body(v)
}

/// The fields of a location box body, read in wire order: the language
/// code and the raw bytes of the text. Each failure is `Truncated`, at the
/// offset into the body of the field that does not fit.
pub open spec fn cxyz_fields(body: Seq<u8>) -> Result<(u16, Seq<u8>), (Error, int)> {
    if body.len() < 2 {
        Err((Error::Truncated, 0))
    } else if body.len() < 4 {
        Err((Error::Truncated, 2))
    } else if 4 + u16_at(body, 0) > body.len() {
        Err((Error::Truncated, 4))
    } else {
        Ok((u16_at(body, 2), body.subrange(4, 4 + u16_at(body, 0))))
    }
}

/// What reading the fields of a location box makes of a body that starts
/// at offset `at` of `data`, in a box of declared size `size`.
pub open spec fn cxyz_fields_decoded(data: Seq<u8>, at: int, size: u64) -> Result<
    (u16, Seq<u8>),
    (Error, int),
> {
    match payload_decoded(data, at, size) {
        Err(failure) => Err(failure),
        Ok(body) => match cxyz_fields(body) {
            Err(failure) => Err((failure.0, at + failure.1)),
            Ok(fields) => Ok(fields),
        },
    }
}

impl CxyzBox {
    pub fn get_type(&self) -> (t: BoxType)
        ensures
            t == BoxType::CxyzBox,
    {
        BoxType::CxyzBox
    }

    /// The size of the box on the wire: the header, the two fixed fields
    /// and the text in UTF-8.
    pub fn get_size(&self) -> (n: u64)
        requires
            HEADER_SIZE + 4 + encode_utf8(self@.text).len() <= u64::MAX,
        ensures
            n == HEADER_SIZE + 4 + encode_utf8(self@.text).len(),
    {
        HEADER_SIZE + 2 + 2 + self.text.as_str().as_bytes().len() as u64
    }

    /// Reads the body of a location box of declared size `size` as far as
    /// its framing goes: the language code and the raw bytes of the text.
    /// Bytes of the body beyond the text are passed over.
    pub fn read_fields(reader: &mut ByteReader, size: u64) -> (r: Result<(u16, Vec<u8>), Error>)
        ensures
            final(reader).bytes() == old(reader).bytes(),
            match cxyz_fields_decoded(old(reader).bytes(), old(reader).position() as int, size) {
                Ok(fields) => {
                    &&& r is Ok
                    &&& r->Ok_0.0 == fields.0
                    &&& r->Ok_0.1@ == fields.1
                    &&& final(reader).position() == old(reader).position() + size - HEADER_SIZE
                },
                Err(failure) => {
                    &&& r is Err
                    &&& r->Err_0 == failure.0
                    &&& final(reader).position() == failure.1
                },
            },
            declares_too_much(old(reader).bytes(), old(reader).position() as int, size) ==> {
                &&& r is Err
                &&& r->Err_0 == Error::Truncated
                &&& final(reader).position() == old(reader).position()
            },
    {
        if size < HEADER_SIZE {
            return Err(Error::Truncated);
        }
        let extent: u64 = size - HEADER_SIZE;
        if extent > reader.remaining() {
            return Err(Error::Truncated);
        }
        let ghost data = reader.bytes();
        let ghost at = reader.position() as int;
        let ghost body = data.subrange(at, at + extent);
        if extent < 2 {
            return Err(Error::Truncated);
        }
        let text_len = match reader.read_u16() {
            Ok(v) => v,
            Err(e) => {
                return Err(e);
            },
        };
        if extent < 4 {
            return Err(Error::Truncated);
        }
        let language_code = match reader.read_u16() {
            Ok(v) => v,
            Err(e) => {
                return Err(e);
            },
        };
        assert(text_len == u16_at(body, 0) && language_code == u16_at(body, 2));
        if text_len as u64 > extent - 4 {
            return Err(Error::Truncated);
        }
        let raw = match reader.read_bytes(text_len as u64) {
            Ok(v) => v,
            Err(e) => {
                return Err(e);
            },
        };
        assert(raw@ =~= body.subrange(4, 4 + text_len));
        match reader.skip_bytes(extent - 4 - text_len as u64) {
            Ok(_) => {},
            Err(e) => {
                return Err(e);
            },
        }
        Ok((language_code, raw))
    }
}

impl Mp4Box for CxyzBox {
    open spec fn tag(&self) -> BoxType {
        BoxType::CxyzBox
    }

    open spec fn body(&self) -> Seq<u8> {
        cxyz_body(self@)
    }

    open spec fn summary_text(&self) -> Seq<char> {
        self@.text
    }

    fn box_type(&self) -> (t: BoxType) {
        self.get_type()
    }

    fn box_size(&self) -> (n: u64) {
        self.get_size()
    }

    fn summary(&self) -> (r: Result<String, Error>) {
        Ok(self.text.clone())
    }
}

impl ReadBox for CxyzBox {
    open spec fn decoded(data: Seq<u8>, at: int, size: u64) -> Result<CxyzView, (Error, int)> {
        cxyz_decoded(data, at, size)
    }

    /// A box that declares more bytes than the stream has left is refused
    /// as a whole, never read short.
    fn read_box(reader: &mut ByteReader, size: u64) -> (r: Result<Self, Error>)
        ensures
            declares_too_much(old(reader).bytes(), old(reader).position() as int, size) ==> {
                &&& r is Err
                &&& r->Err_0 == Error::Truncated
                &&& final(reader).position() == old(reader).position()
            },
    {
        match CxyzBox::read_fields(reader, size) {
            Ok((language_code, raw)) => {
                let text = string_from_utf8_lossy(raw.as_slice());
                Ok(CxyzBox { language_code, text })
            },
            Err(e) => Err(e),
        }
    }
}

impl WriteBox for CxyzBox {
    open spec fn encodable(&self) -> bool {
        cxyz_encodable(self@)
    }

    fn checked_size(&self) -> (r: Option<u64>) {
        let len = self.text.as_str().as_bytes().len();
        if len > MAX_TEXT_LEN {
            None
        } else {
            Some(HEADER_SIZE + 2 + 2 + len as u64)
        }
    }

    fn write_box(&self, writer: &mut Vec<u8>) -> (r: Result<u64, Error>) {
        let text = self.text.as_str().as_bytes();
        if text.len() > MAX_TEXT_LEN {
            return Err(Error::PayloadTooLarge);
        }
        let size: u64 = HEADER_SIZE + 2 + 2 + text.len() as u64;
        match BoxHeader::new(BoxType::CxyzBox, size).write(writer) {
            Ok(_) => {},
            Err(e) => {
                return Err(e);
            },
        }
        write_u16(writer, text.len() as u16);
        write_u16(writer, self.language_code);
        write_bytes(writer, text);
        assert(writer@ =~= old(writer)@ + wire(self));
        Ok(size)
    }
}

/// What reading a location box makes of a body that starts at offset `at`
/// of `data`, in a box of declared size `size`.
pub open spec fn cxyz_decoded(data: Seq<u8>, at: int, size: u64) -> Result<CxyzView, (Error, int)> {
    match cxyz_fields_decoded(data, at, size) {
        Err(failure) => Err(failure),
        Ok(fields) => Ok(CxyzView { language_code: fields.0, text: text_of(fields.1) }),
    }
}

/// Wherever an encodable location box stands in a stream, its header and
/// its fields read back; the text comes back as it was, since what was
/// written is well-formed UTF-8.
pub proof fn lemma_cxyz_round_trip(v: CxyzView, data: Seq<u8>, at: int)
    requires
        cxyz_encodable(v),
        0 <= at,
        at + cxyz_wire(v).len() <= data.len(),
        data.subrange(at, at + cxyz_wire(v).len()) == cxyz_wire(v),
    ensures
        cxyz_wire(v).len() == HEADER_SIZE + 4 + encode_utf8(v.text).len(),
        header_at(data, at) == (BoxHeader {
            name: BoxType::CxyzBox,
            size: cxyz_wire(v).len() as u64,
        }),
        cxyz_decoded(data, at + HEADER_SIZE, cxyz_wire(v).len() as u64) == Ok::<
            CxyzView,
            (Error, int),
        >(v),
{
    let utf8 = encode_utf8(v.text);
    let body = cxyz_body(v);
    let size = (HEADER_SIZE + body.len()) as u32;
    let w = cxyz_wire(v);
    let window = data.subrange(at, at + w.len());
    assert(data.subrange(at, at + HEADER_SIZE) =~= window.subrange(0, HEADER_SIZE as int));
    assert(w.subrange(0, HEADER_SIZE as int) =~= header_bytes(BoxType::CxyzBox, size));
    lemma_header_round_trip(BoxType::CxyzBox, size, data, at);
    let read = data.subrange(at + HEADER_SIZE, at + HEADER_SIZE + body.len());
    assert(read =~= window.subrange(HEADER_SIZE as int, w.len() as int));
    assert(w.subrange(HEADER_SIZE as int, w.len() as int) =~= body);
    assert(body.subrange(0, 2) =~= u16_bytes(utf8.len() as u16));
    assert(body.subrange(2, 4) =~= u16_bytes(v.language_code));
    lemma_u16_round_trip(utf8.len() as u16, body, 0);
    lemma_u16_round_trip(v.language_code, body, 2);
    assert(body.subrange(4, 4 + utf8.len() as int) =~= utf8);
    encode_utf8_valid_utf8(v.text);
    encode_utf8_decode_utf8(v.text);
}

impl RoundTrip for CxyzBox {
    proof fn round_trip(&self, data: Seq<u8>, at: int) {
        lemma_cxyz_round_trip(self@, data, at);
    }
}

} // verus!
