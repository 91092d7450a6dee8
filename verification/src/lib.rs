//! Box framing for ISO base media files: the eight-byte header, two leaf
//! boxes, a pass-through metadata box and the user-data container that holds
//! them, each with a byte-exact model of what it reads and writes.

pub mod codec;
pub mod cxyz;
pub mod error;
pub mod gpmf;
pub mod header;
pub mod meta;
pub mod text;
pub mod udta;
pub mod wire;

pub use crate::codec::{Mp4Box, ReadBox, RoundTrip, WriteBox};
pub use crate::cxyz::CxyzBox;
pub use crate::error::Error;
pub use crate::gpmf::GpmfBox;
pub use crate::header::{BoxHeader, BoxType, HEADER_SIZE};
pub use crate::meta::MetaBox;
pub use crate::udta::UdtaBox;
pub use crate::wire::ByteReader;
