//! The metadata box, carried as it stands: its body is kept as raw bytes
//! and handed on unchanged.

use vstd::prelude::*;
use crate::codec::{
    declares_too_much, lemma_payload_round_trip, payload_checked_size, payload_decoded,
    payload_fits, read_payload, write_payload, Mp4Box, ReadBox, RoundTrip, WriteBox,
};
use crate::error::Error;
use crate::header::{BoxType, HEADER_SIZE};
use crate::text::{payload_summary, payload_summary_text};
use crate::wire::ByteReader;

verus! {

/// A metadata box with its body uninterpreted.
#[derive(Debug, Clone, PartialEq, Eq)]
pub struct MetaBox {
    pub data: Vec<u8>,
}

impl View for MetaBox {
    type V = Seq<u8>;

    open spec fn view(&self) -> Seq<u8> {
        self.data@
    }
}

impl Default for MetaBox {
    /// A metadata box with an empty body.
    fn default() -> (b: MetaBox)
        ensures
            b@ == Seq::<u8>::empty(),
    {
        MetaBox { data: Vec::new() }
    }
}

impl MetaBox {
    pub fn get_type(&self) -> (t: BoxType)
        ensures
            t == BoxType::MetaBox,
    {
        BoxType::MetaBox
    }

    /// The size of the box on the wire: the header and the payload.
    pub fn get_size(&self) -> (n: u64)
        requires
            HEADER_SIZE + self@.len() <= u64::MAX,
        ensures
            n == HEADER_SIZE + self@.len(),
    {
        HEADER_SIZE + self.data.len() as u64
    }
}

impl Mp4Box for MetaBox {
    open spec fn tag(&self) -> BoxType {
        BoxType::MetaBox
    }

    open spec fn body(&self) -> Seq<u8> {
        self@
    }

    open spec fn summary_text(&self) -> Seq<char> {
        payload_summary(self@.len())
    }

    fn box_type(&self) -> (t: BoxType) {
        self.get_type()
    }

    fn box_size(&self) -> (n: u64) {
        self.get_size()
    }

    fn summary(&self) -> (r: Result<String, Error>) {
        Ok(payload_summary_text(self.data.len() as u64))
    }
}

impl ReadBox for MetaBox {
    open spec fn decoded(data: Seq<u8>, at: int, size: u64) -> Result<Seq<u8>, (Error, int)> {
        payload_decoded(data, at, size)
    }

    /// A box that declares more bytes than the stream has left is refused
    /// as a whole, never read short.
    fn read_box(reader: &mut ByteReader, size: u64) -> (r: Result<Self, Error>)
        ensures
            declares_too_much(old(reader).bytes(), old(reader).position() as int, size) ==> {
                &&& r is Err
                &&& r->Err_0 == Error::Truncated
                &&& final(reader).position() == old(reader).position()
            },
    {
        match read_payload(reader, size) {
            Ok(data) => Ok(MetaBox { data }),
            Err(e) => Err(e),
        }
    }
}

impl WriteBox for MetaBox {
    open spec fn encodable(&self) -> bool {
        payload_fits(self@.len())
    }

    fn checked_size(&self) -> (r: Option<u64>) {
        payload_checked_size(self.data.as_slice())
    }

    fn write_box(&self, writer: &mut Vec<u8>) -> (r: Result<u64, Error>) {
        write_payload(BoxType::MetaBox, self.data.as_slice(), writer)
    }
}

impl RoundTrip for MetaBox {
    proof fn round_trip(&self, data: Seq<u8>, at: int) {
        lemma_payload_round_trip(BoxType::MetaBox, self@, data, at);
    }
}

} // verus!
