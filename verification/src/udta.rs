//! The user-data box: a container with one slot for each kind of child it
//! knows. Children of any other kind are passed over when reading.

use vstd::prelude::*;
use crate::codec::{
    lemma_payload_round_trip, payload_decoded, payload_fits, payload_wire, skip_box, wire, Mp4Box,
    ReadBox, RoundTrip, WriteBox,
};
use crate::cxyz::{
    cxyz_body, cxyz_decoded, cxyz_encodable, cxyz_wire, lemma_cxyz_round_trip, CxyzBox, CxyzView,
};
use crate::error::Error;
use crate::gpmf::GpmfBox;
use crate::header::{
    header_at, header_bytes, lemma_header_round_trip, BoxHeader, BoxType, HEADER_SIZE,
};
use crate::meta::MetaBox;
use crate::wire::ByteReader;

verus! {

/// A user-data box.
#[derive(Debug, Clone, PartialEq, Eq)]
pub struct UdtaBox {
    pub meta: Option<MetaBox>,
    pub cxyz: Option<CxyzBox>,
    pub gpmf: Option<GpmfBox>,
}

/// A user-data box as a mathematical value.
pub struct UdtaView {
    pub meta: Option<Seq<u8>>,
    pub cxyz: Option<CxyzView>,
    pub gpmf: Option<Seq<u8>>,
}

impl View for UdtaBox {
    type V = UdtaView;

    open spec fn view(&self) -> UdtaView {
        UdtaView {
            meta: match self.meta {
                Some(b) => Some(b@),
                None => None,
            },
            cxyz: match self.cxyz {
                Some(b) => Some(b@),
                None => None,
            },
            gpmf: match self.gpmf {
                Some(b) => Some(b@),
                None => None,
            },
        }
    }
}

/// The container with every slot empty.
pub open spec fn empty_slots() -> UdtaView {
    UdtaView { meta: None, cxyz: None, gpmf: None }
}

/// What a metadata slot puts on the wire: the box, or nothing.
pub open spec fn meta_slot_wire(slot: Option<Seq<u8>>) -> Seq<u8> {
    match slot {
        Some(payload) => payload_wire(BoxType::MetaBox, payload),
        None => Seq::empty(),
    }
}

/// What a location slot puts on the wire: the box, or nothing.
pub open spec fn cxyz_slot_wire(slot: Option<CxyzView>) -> Seq<u8> {
    match slot {
        Some(v) => cxyz_wire(v),
        None => Seq::empty(),
    }
}

/// What an opaque metadata slot puts on the wire: the box, or nothing.
pub open spec fn gpmf_slot_wire(slot: Option<Seq<u8>>) -> Seq<u8> {
    match slot {
        Some(payload) => payload_wire(BoxType::GpmfBox, payload),
        None => Seq::empty(),
    }
}

/// The size on the wire of a slot that holds a payload box.
pub open spec fn payload_slot_size(slot: Option<Seq<u8>>) -> nat {
    match slot {
        Some(payload) => HEADER_SIZE as nat + payload.len(),
        None => 0,
    }
}

/// The size on the wire of a location slot.
pub open spec fn cxyz_slot_size(slot: Option<CxyzView>) -> nat {
    match slot {
        Some(v) => HEADER_SIZE as nat + cxyz_body(v).len(),
        None => 0,
    }
}

/// The size of a user-data box on the wire: its header and each child
/// that is present.
pub open spec fn udta_size(v: UdtaView) -> nat {
    HEADER_SIZE as nat + payload_slot_size(v.meta) + cxyz_slot_size(v.cxyz) + payload_slot_size(
        v.gpmf,
    )
}

/// The body of a user-data box: the children that are present, always in
/// the order metadata, location, opaque metadata.
pub open spec fn udta_body(v: UdtaView) -> Seq<u8> {
    meta_slot_wire(v.meta) + cxyz_slot_wire(v.cxyz) + gpmf_slot_wire(v.gpmf)
}

/// A user-data box on the wire: its header, then its body.
pub open spec fn udta_wire(v: UdtaView) -> Seq<u8> {
    header_bytes(BoxType::UdtaBox, udta_size(v) as u32) + udta_body(v)
}

/// Whether each child that is present can be written.
pub open spec fn children_encodable(v: UdtaView) -> bool {
    &&& v.meta matches Some(payload) ==> payload_fits(payload.len())
    &&& v.cxyz matches Some(c) ==> cxyz_encodable(c)
    &&& v.gpmf matches Some(payload) ==> payload_fits(payload.len())
}

/// Whether the box can be written: each child can, and the whole fits the
/// header's size field.
pub open spec fn udta_encodable(v: UdtaView) -> bool {
    children_encodable(v) && udta_size(v) <= u32::MAX
}

/// The body of a user-data box is as long as its children are large.
pub proof fn lemma_udta_body_len(v: UdtaView)
    ensures
        HEADER_SIZE + udta_body(v).len() == udta_size(v),
        udta_wire(v).len() == udta_size(v),
{
}

/// Whether a user-data box keeps children of this type.
pub open spec fn recognized(name: BoxType) -> bool {
    name == BoxType::MetaBox || name == BoxType::CxyzBox || name == BoxType::GpmfBox
}

/// What one child does to the slots: a child of a recognized type is read
/// and takes its slot, replacing what was there; any other child is passed
/// over. `at` is the offset of the child's body, `header` its header.
pub open spec fn child_decoded(data: Seq<u8>, at: int, header: BoxHeader, slots: UdtaView) -> Result<
    UdtaView,
    (Error, int),
> {
    match header.name {
        BoxType::MetaBox => match payload_decoded(data, at, header.size) {
            Ok(payload) => Ok(UdtaView { meta: Some(payload), ..slots }),
            Err(failure) => Err(failure),
        },
        BoxType::CxyzBox => match cxyz_decoded(data, at, header.size) {
            Ok(v) => Ok(UdtaView { cxyz: Some(v), ..slots }),
            Err(failure) => Err(failure),
        },
        BoxType::GpmfBox => match payload_decoded(data, at, header.size) {
            Ok(payload) => Ok(UdtaView { gpmf: Some(payload), ..slots }),
            Err(failure) => Err(failure),
        },
        _ => match payload_decoded(data, at, header.size) {
            Ok(_) => Ok(slots),
            Err(failure) => Err(failure),
        },
    }
}

/// What the run of children that starts at offset `at` of `data` makes of
/// the slots, with `left` bytes of the container still to read.
///
/// A header that does not fit what is left, of the container or of the
/// stream, is `Truncated` at the child's offset. A child that claims more
/// than the container has left is `MalformedChild`, one that claims less
/// than a header is `Truncated`, both at the offset of the child's body.
/// The first failure ends the run.
pub open spec fn children_decoded(data: Seq<u8>, at: int, left: int, slots: UdtaView) -> Result<
    UdtaView,
    (Error, int),
>
    decreases left,
{
    if left <= 0 {
        Ok(slots)
    } else if left < HEADER_SIZE || at + HEADER_SIZE > data.len() {
        Err((Error::Truncated, at))
    } else {
        let header = header_at(data, at);
        if header.size > left {
            Err((Error::MalformedChild, at + HEADER_SIZE))
        } else if header.size < HEADER_SIZE {
            Err((Error::Truncated, at + HEADER_SIZE))
        } else {
            match child_decoded(data, at + HEADER_SIZE, header, slots) {
                Err(failure) => Err(failure),
                Ok(next) => children_decoded(data, at + header.size, left - header.size, next),
            }
        }
    }
}

/// What reading a user-data box makes of a body that starts at offset `at`
/// of `data`, in a box of declared size `size`.
pub open spec fn udta_decoded(data: Seq<u8>, at: int, size: u64) -> Result<UdtaView, (Error, int)> {
    if size < HEADER_SIZE {
        Err((Error::Truncated, at))
    } else {
        children_decoded(data, at, size - HEADER_SIZE, empty_slots())
    }
}

impl Default for UdtaBox {
    /// The container with every slot empty.
    fn default() -> (b: UdtaBox)
        ensures
            b@ == empty_slots(),
    {
        UdtaBox { meta: None, cxyz: None, gpmf: None }
    }
}

impl UdtaBox {
    pub fn get_type(&self) -> (t: BoxType)
        ensures
            t == BoxType::UdtaBox,
    {
        BoxType::UdtaBox
    }

    /// The size of the box on the wire: the header and the sizes of the
    /// children that are present.
    pub fn get_size(&self) -> (n: u64)
        requires
            udta_size(self@) <= u64::MAX,
        ensures
            n == udta_size(self@),
    {
        let mut size: u64 = HEADER_SIZE;
        if let Some(meta) = &self.meta {
            size += meta.box_size();
        }
        if let Some(cxyz) = &self.cxyz {
            size += cxyz.box_size();
        }
        if let Some(gpmf) = &self.gpmf {
            size += gpmf.box_size();
        }
        size
    }
}

impl UdtaBox {
    /// Reads the body of one child whose header has been consumed: into
    /// its slot where the type is recognized, past it where not.
    fn read_child(reader: &mut ByteReader, header: BoxHeader, slots: &mut UdtaBox) -> (r: Result<
        (),
        Error,
    >)
        ensures
            final(reader).bytes() == old(reader).bytes(),
            match child_decoded(
                old(reader).bytes(),
                old(reader).position() as int,
                header,
                old(slots)@,
            ) {
                Ok(next) => {
                    &&& r is Ok
                    &&& final(slots)@ == next
                    &&& final(reader).position() == old(reader).position() + header.size
                        - HEADER_SIZE
                },
                Err(failure) => {
                    &&& r is Err
                    &&& r->Err_0 == failure.0
                    &&& final(reader).position() == failure.1
                },
            },
    {
        match header.name {
            BoxType::MetaBox => {
                match MetaBox::read_box(reader, header.size) {
                    Ok(meta) => {
                        slots.meta = Some(meta);
                    },
                    Err(e) => {
                        return Err(e);
                    },
                }
            },
            BoxType::CxyzBox => {
                match CxyzBox::read_box(reader, header.size) {
                    Ok(cxyz) => {
                        slots.cxyz = Some(cxyz);
                    },
                    Err(e) => {
                        return Err(e);
                    },
                }
            },
            BoxType::GpmfBox => {
                match GpmfBox::read_box(reader, header.size) {
                    Ok(gpmf) => {
                        slots.gpmf = Some(gpmf);
                    },
                    Err(e) => {
                        return Err(e);
                    },
                }
            },
            _ => {
                match skip_box(reader, header.size) {
                    Ok(_) => {},
                    Err(e) => {
                        return Err(e);
                    },
                }
            },
        }
        Ok(())
    }
}

impl Mp4Box for UdtaBox {
    open spec fn tag(&self) -> BoxType {
        BoxType::UdtaBox
    }

    open spec fn body(&self) -> Seq<u8> {
        udta_body(self@)
    }

    open spec fn summary_text(&self) -> Seq<char> {
        Seq::empty()
    }

    fn box_type(&self) -> (t: BoxType) {
        self.get_type()
    }

    fn box_size(&self) -> (n: u64) {
        proof {
            lemma_udta_body_len(self@);
        }
        self.get_size()
    }

    fn summary(&self) -> (r: Result<String, Error>) {
        Ok(String::new())
    }
}

impl ReadBox for UdtaBox {
    open spec fn decoded(data: Seq<u8>, at: int, size: u64) -> Result<UdtaView, (Error, int)> {
        udta_decoded(data, at, size)
    }

    fn read_box(reader: &mut ByteReader, size: u64) -> (r: Result<Self, Error>) {
        if size < HEADER_SIZE {
            return Err(Error::Truncated);
        }
        let start: u64 = reader.stream_position();
        let ghost data = reader.bytes();
        let mut slots = UdtaBox::default();
        let mut left: u64 = size - HEADER_SIZE;
        while left > 0
            invariant
                reader.bytes() == data,
                start == old(reader).position(),
                data == old(reader).bytes(),
                size >= HEADER_SIZE,
                reader.position() <= data.len() <= u64::MAX,
                reader.position() + left == start + size - HEADER_SIZE,
                children_decoded(data, reader.position() as int, left as int, slots@)
                    == udta_decoded(data, start as int, size),
            decreases left,
        {
            if left < HEADER_SIZE {
                return Err(Error::Truncated);
            }
            let header = match BoxHeader::read(reader) {
                Ok(header) => header,
                Err(e) => {
                    return Err(e);
                },
            };
            if header.size > left {
                return Err(Error::MalformedChild);
            }
            match UdtaBox::read_child(reader, header, &mut slots) {
                Ok(_) => {},
                Err(e) => {
                    return Err(e);
                },
            }
            left = left - header.size;
        }
        // The children end where the container does, so this moves nothing;
        // it would report a child that read beyond its own end.
        let end: u64 = start + (size - HEADER_SIZE);
        match reader.skip_to(end) {
            Ok(_) => {},
            Err(e) => {
                return Err(e);
            },
        }
        Ok(slots)
    }
}

impl WriteBox for UdtaBox {
    open spec fn encodable(&self) -> bool {
        udta_encodable(self@)
    }

    fn checked_size(&self) -> (r: Option<u64>) {
        proof {
            lemma_udta_body_len(self@);
        }
        let mut size: u64 = HEADER_SIZE;
        if let Some(meta) = &self.meta {
            match meta.checked_size() {
                Some(n) => {
                    size += n;
                },
                None => {
                    return None;
                },
            }
        }
        if let Some(cxyz) = &self.cxyz {
            match cxyz.checked_size() {
                Some(n) => {
                    size += n;
                },
                None => {
                    return None;
                },
            }
        }
        if let Some(gpmf) = &self.gpmf {
            match gpmf.checked_size() {
                Some(n) => {
                    size += n;
                },
                None => {
                    return None;
                },
            }
        }
        if size > u32::MAX as u64 {
            None
        } else {
            Some(size)
        }
    }

    fn write_box(&self, writer: &mut Vec<u8>) -> (r: Result<u64, Error>) {
        proof {
            lemma_udta_body_len(self@);
        }
        let size = match self.checked_size() {
            Some(size) => size,
            None => {
                return Err(Error::PayloadTooLarge);
            },
        };
        match BoxHeader::new(BoxType::UdtaBox, size).write(writer) {
            Ok(_) => {},
            Err(e) => {
                return Err(e);
            },
        }
        if let Some(meta) = &self.meta {
            match meta.write_box(writer) {
                Ok(_) => {},
                Err(e) => {
                    return Err(e);
                },
            }
        }
        if let Some(cxyz) = &self.cxyz {
            match cxyz.write_box(writer) {
                Ok(_) => {},
                Err(e) => {
                    return Err(e);
                },
            }
        }
        if let Some(gpmf) = &self.gpmf {
            match gpmf.write_box(writer) {
                Ok(_) => {},
                Err(e) => {
                    return Err(e);
                },
            }
        }
        assert(writer@ =~= old(writer)@ + wire(self));
        Ok(size)
    }
}

/// What a child that is all payload does to the slots: it takes the slot
/// of its type, if it has one.
pub open spec fn payload_child_slots(name: BoxType, payload: Seq<u8>, slots: UdtaView) -> UdtaView {
    match name {
        BoxType::MetaBox => UdtaView { meta: Some(payload), ..slots },
        BoxType::GpmfBox => UdtaView { gpmf: Some(payload), ..slots },
        _ => slots,
    }
}

/// One step of the run of children, over a child that is all payload and
/// of any type but the location box: the child is read into its slot, or
/// passed over if it has none, and the run goes on behind it.
pub proof fn lemma_payload_child(
    name: BoxType,
    payload: Seq<u8>,
    data: Seq<u8>,
    at: int,
    left: int,
    slots: UdtaView,
)
    requires
        name.canonical(),
        name != BoxType::CxyzBox,
        payload_fits(payload.len()),
        0 <= at,
        at + payload_wire(name, payload).len() <= data.len(),
        data.subrange(at, at + payload_wire(name, payload).len()) == payload_wire(name, payload),
        payload_wire(name, payload).len() <= left,
    ensures
        children_decoded(data, at, left, slots) == children_decoded(
            data,
            at + payload_wire(name, payload).len(),
            left - payload_wire(name, payload).len(),
            payload_child_slots(name, payload, slots),
        ),
{
    lemma_payload_round_trip(name, payload, data, at);
}

/// One step of the run of children, over a location box: it is read into
/// its slot, and the run goes on behind it.
pub proof fn lemma_cxyz_child(v: CxyzView, data: Seq<u8>, at: int, left: int, slots: UdtaView)
    requires
        cxyz_encodable(v),
        0 <= at,
        at + cxyz_wire(v).len() <= data.len(),
        data.subrange(at, at + cxyz_wire(v).len()) == cxyz_wire(v),
        cxyz_wire(v).len() <= left,
    ensures
        children_decoded(data, at, left, slots) == children_decoded(
            data,
            at + cxyz_wire(v).len(),
            left - cxyz_wire(v).len(),
            UdtaView { cxyz: Some(v), ..slots },
        ),
{
    lemma_cxyz_round_trip(v, data, at);
}

/// Three runs of bytes that stand in a stream one behind the other stand
/// there each in its place.
pub proof fn lemma_three_parts(
    data: Seq<u8>,
    at: int,
    first: Seq<u8>,
    second: Seq<u8>,
    third: Seq<u8>,
)
    requires
        0 <= at,
        at + first.len() + second.len() + third.len() <= data.len(),
        data.subrange(at, at + first.len() + second.len() + third.len()) == first + second
            + third,
    ensures
        data.subrange(at, at + first.len()) == first,
        data.subrange(at + first.len(), at + first.len() + second.len()) == second,
        data.subrange(
            at + first.len() + second.len(),
            at + first.len() + second.len() + third.len(),
        ) == third,
{
    let whole = first + second + third;
    let end1 = first.len() as int;
    let end2 = end1 + second.len();
    let end3 = end2 + third.len();
    let window = data.subrange(at, at + end3);
    assert(data.subrange(at, at + end1) =~= window.subrange(0, end1));
    assert(whole.subrange(0, end1) =~= first);
    assert(data.subrange(at + end1, at + end2) =~= window.subrange(end1, end2));
    assert(whole.subrange(end1, end2) =~= second);
    assert(data.subrange(at + end2, at + end3) =~= window.subrange(end2, end3));
    assert(whole.subrange(end2, end3) =~= third);
}

/// The run of children over what a metadata slot wrote: the slot is read
/// back, and the run goes on behind it.
pub proof fn lemma_meta_slot(
    slot: Option<Seq<u8>>,
    data: Seq<u8>,
    at: int,
    left: int,
    slots: UdtaView,
)
    requires
        slot matches Some(payload) ==> payload_fits(payload.len()),
        slots.meta is None,
        0 <= at,
        at + meta_slot_wire(slot).len() <= data.len(),
        data.subrange(at, at + meta_slot_wire(slot).len()) == meta_slot_wire(slot),
        meta_slot_wire(slot).len() <= left,
    ensures
        children_decoded(data, at, left, slots) == children_decoded(
            data,
            at + meta_slot_wire(slot).len(),
            left - meta_slot_wire(slot).len(),
            UdtaView { meta: slot, ..slots },
        ),
{
    if let Some(payload) = slot {
        lemma_payload_child(BoxType::MetaBox, payload, data, at, left, slots);
    } else {
        assert(UdtaView { meta: slot, ..slots } == slots);
    }
}

/// The run of children over what a location slot wrote: the slot is read
/// back, and the run goes on behind it.
pub proof fn lemma_cxyz_slot(
    slot: Option<CxyzView>,
    data: Seq<u8>,
    at: int,
    left: int,
    slots: UdtaView,
)
    requires
        slot matches Some(v) ==> cxyz_encodable(v),
        slots.cxyz is None,
        0 <= at,
        at + cxyz_slot_wire(slot).len() <= data.len(),
        data.subrange(at, at + cxyz_slot_wire(slot).len()) == cxyz_slot_wire(slot),
        cxyz_slot_wire(slot).len() <= left,
    ensures
        children_decoded(data, at, left, slots) == children_decoded(
            data,
            at + cxyz_slot_wire(slot).len(),
            left - cxyz_slot_wire(slot).len(),
            UdtaView { cxyz: slot, ..slots },
        ),
{
    if let Some(v) = slot {
        lemma_cxyz_child(v, data, at, left, slots);
    } else {
        assert(UdtaView { cxyz: slot, ..slots } == slots);
    }
}

/// The run of children over what an opaque metadata slot wrote: the slot
/// is read back, and the run goes on behind it.
pub proof fn lemma_gpmf_slot(
    slot: Option<Seq<u8>>,
    data: Seq<u8>,
    at: int,
    left: int,
    slots: UdtaView,
)
    requires
        slot matches Some(payload) ==> payload_fits(payload.len()),
        slots.gpmf is None,
        0 <= at,
        at + gpmf_slot_wire(slot).len() <= data.len(),
        data.subrange(at, at + gpmf_slot_wire(slot).len()) == gpmf_slot_wire(slot),
        gpmf_slot_wire(slot).len() <= left,
    ensures
        children_decoded(data, at, left, slots) == children_decoded(
            data,
            at + gpmf_slot_wire(slot).len(),
            left - gpmf_slot_wire(slot).len(),
            UdtaView { gpmf: slot, ..slots },
        ),
{
    if let Some(payload) = slot {
        lemma_payload_child(BoxType::GpmfBox, payload, data, at, left, slots);
    } else {
        assert(UdtaView { gpmf: slot, ..slots } == slots);
    }
}

/// Wherever the children of a user-data box stand in a stream, in the
/// order in which they are written, the run of children reads them back
/// into empty slots and goes on behind them.
pub proof fn lemma_children_round_trip(v: UdtaView, data: Seq<u8>, at: int, left: int)
    requires
        children_encodable(v),
        0 <= at,
        at + udta_body(v).len() <= data.len(),
        data.subrange(at, at + udta_body(v).len()) == udta_body(v),
        udta_body(v).len() <= left,
    ensures
        children_decoded(data, at, left, empty_slots()) == children_decoded(
            data,
            at + udta_body(v).len(),
            left - udta_body(v).len(),
            v,
        ),
{
    let m = meta_slot_wire(v.meta);
    let c = cxyz_slot_wire(v.cxyz);
    let g = gpmf_slot_wire(v.gpmf);
    let slots1 = UdtaView { meta: v.meta, ..empty_slots() };
    let slots2 = UdtaView { cxyz: v.cxyz, ..slots1 };
    lemma_three_parts(data, at, m, c, g);
    lemma_meta_slot(v.meta, data, at, left, empty_slots());
    lemma_cxyz_slot(v.cxyz, data, at + m.len(), left - m.len(), slots1);
    lemma_gpmf_slot(v.gpmf, data, at + m.len() + c.len(), left - m.len() - c.len(), slots2);
    assert(UdtaView { gpmf: v.gpmf, ..slots2 } == v);
}

/// Wherever an encodable user-data box stands in a stream, its header
/// reads back as its type and size, and the body behind it reads back as
/// the box itself, slot by slot.
pub proof fn lemma_udta_round_trip(v: UdtaView, data: Seq<u8>, at: int)
    requires
        udta_encodable(v),
        0 <= at,
        at + udta_wire(v).len() <= data.len(),
        data.subrange(at, at + udta_wire(v).len()) == udta_wire(v),
    ensures
        udta_wire(v).len() == udta_size(v),
        header_at(data, at) == (BoxHeader { name: BoxType::UdtaBox, size: udta_size(v) as u64 }),
        udta_decoded(data, at + HEADER_SIZE, udta_size(v) as u64) == Ok::<UdtaView, (Error, int)>(
            v,
        ),
{
    lemma_udta_body_len(v);
    let w = udta_wire(v);
    let body = udta_body(v);
    let size = udta_size(v) as u32;
    let window = data.subrange(at, at + w.len());
    assert(data.subrange(at, at + HEADER_SIZE) =~= window.subrange(0, HEADER_SIZE as int));
    assert(w.subrange(0, HEADER_SIZE as int) =~= header_bytes(BoxType::UdtaBox, size));
    lemma_header_round_trip(BoxType::UdtaBox, size, data, at);
    assert(data.subrange(at + HEADER_SIZE, at + HEADER_SIZE + body.len()) =~= window.subrange(
        HEADER_SIZE as int,
        w.len() as int,
    ));
    assert(w.subrange(HEADER_SIZE as int, w.len() as int) =~= body);
    lemma_children_round_trip(v, data, at + HEADER_SIZE, body.len() as int);
}

/// A child of a type that the container does not keep, behind the
/// children that it does keep, leaves no trace: the stream reads as the
/// box without it, and what that box writes is the stream's container
/// with the extra child cut off and the size in the header lowered by the
/// child's size.
pub proof fn lemma_unknown_child_skipped(
    v: UdtaView,
    name: BoxType,
    payload: Seq<u8>,
    data: Seq<u8>,
    at: int,
)
    requires
        children_encodable(v),
        !recognized(name),
        name.canonical(),
        udta_size(v) + HEADER_SIZE + payload.len() <= u32::MAX,
        0 <= at,
        at + udta_size(v) + HEADER_SIZE + payload.len() <= data.len(),
        data.subrange(at, at + udta_size(v) + HEADER_SIZE + payload.len()) == header_bytes(
            BoxType::UdtaBox,
            (udta_size(v) + HEADER_SIZE + payload.len()) as u32,
        ) + udta_body(v) + payload_wire(name, payload),
    ensures
        header_at(data, at) == (BoxHeader {
            name: BoxType::UdtaBox,
            size: (udta_size(v) + HEADER_SIZE + payload.len()) as u64,
        }),
        udta_decoded(
            data,
            at + HEADER_SIZE,
            (udta_size(v) + HEADER_SIZE + payload.len()) as u64,
        ) == Ok::<UdtaView, (Error, int)>(v),
        udta_encodable(v),
        udta_wire(v) == header_bytes(BoxType::UdtaBox, udta_size(v) as u32) + data.subrange(
            at + HEADER_SIZE,
            at + udta_size(v),
        ),
{
    lemma_udta_body_len(v);
    let body = udta_body(v);
    let extra = payload_wire(name, payload);
    let total = udta_size(v) + extra.len();
    let head = header_bytes(BoxType::UdtaBox, total as u32);
    let w = head + body + extra;
    let window = data.subrange(at, at + total);
    assert(data.subrange(at, at + HEADER_SIZE) =~= window.subrange(0, HEADER_SIZE as int));
    assert(w.subrange(0, HEADER_SIZE as int) =~= head);
    lemma_header_round_trip(BoxType::UdtaBox, total as u32, data, at);
    let at1 = at + HEADER_SIZE;
    let at2 = at1 + body.len();
    assert(data.subrange(at1, at2) =~= window.subrange(HEADER_SIZE as int, udta_size(v) as int));
    assert(w.subrange(HEADER_SIZE as int, udta_size(v) as int) =~= body);
    assert(data.subrange(at2, at2 + extra.len()) =~= window.subrange(
        udta_size(v) as int,
        total as int,
    ));
    assert(w.subrange(udta_size(v) as int, total as int) =~= extra);
    lemma_children_round_trip(v, data, at1, total - HEADER_SIZE);
    lemma_payload_child(name, payload, data, at2, extra.len() as int, v);
}

impl RoundTrip for UdtaBox {
    proof fn round_trip(&self, data: Seq<u8>, at: int) {
        lemma_udta_round_trip(self@, data, at);
    }
}

} // verus!
