use mp4box::codec::{payload_checked_size, read_payload, skip_box, write_payload};
use mp4box::header::{CXYZ_CODE, GPMF_CODE, META_CODE, UDTA_CODE};
use mp4box::text::{decimal_text, payload_summary_text};
use mp4box::wire::{write_bytes, write_u16, write_u32};
use mp4box::{BoxHeader, BoxType, ByteReader, Error, HEADER_SIZE};

#[test]
fn box_types_and_codes() {
    assert_eq!(HEADER_SIZE, 8);
    assert_eq!(BoxType::from_u32(u32::from_be_bytes(*b"meta")), BoxType::MetaBox);
    assert_eq!(BoxType::from_u32(u32::from_be_bytes([0xa9, b'x', b'y', b'z'])), BoxType::CxyzBox);
    assert_eq!(BoxType::from_u32(u32::from_be_bytes(*b"GPMF")), BoxType::GpmfBox);
    assert_eq!(BoxType::from_u32(u32::from_be_bytes(*b"udta")), BoxType::UdtaBox);
    assert_eq!(BoxType::from_u32(0x66726565), BoxType::UnknownBox(0x66726565));
    assert_eq!(BoxType::MetaBox.to_u32(), META_CODE);
    assert_eq!(BoxType::CxyzBox.to_u32(), CXYZ_CODE);
    assert_eq!(BoxType::GpmfBox.to_u32(), GPMF_CODE);
    assert_eq!(BoxType::UdtaBox.to_u32(), UDTA_CODE);
    assert_eq!(BoxType::UnknownBox(17).to_u32(), 17);
    for code in [0u32, 1, META_CODE, CXYZ_CODE, GPMF_CODE, UDTA_CODE, u32::MAX] {
        assert_eq!(BoxType::from_u32(code).to_u32(), code);
    }
}

#[test]
fn header_round_trip() {
    let header = BoxHeader::new(BoxType::UdtaBox, 0x01020304);
    assert_eq!(header.name, BoxType::UdtaBox);
    assert_eq!(header.size, 0x01020304);
    let mut buf = vec![7];
    assert_eq!(header.write(&mut buf), Ok(8));
    assert_eq!(buf, vec![7, 1, 2, 3, 4, b'u', b'd', b't', b'a']);
    let mut reader = ByteReader::new(&buf[1..]);
    assert_eq!(BoxHeader::read(&mut reader), Ok(header));
    assert_eq!(reader.stream_position(), 8);
    assert_eq!(reader.remaining(), 0);
}

#[test]
fn header_needs_eight_bytes() {
    let stream = [0u8, 0, 0, 8, b'u', b'd', b't'];
    let mut reader = ByteReader::new(&stream);
    assert_eq!(BoxHeader::read(&mut reader), Err(Error::Truncated));
    assert_eq!(reader.stream_position(), 0);
}

#[test]
fn header_size_must_fit_four_bytes() {
    let mut buf = vec![1];
    let largest = BoxHeader::new(BoxType::GpmfBox, u32::MAX as u64);
    assert_eq!(largest.write(&mut buf), Ok(8));
    assert_eq!(buf, vec![1, 0xff, 0xff, 0xff, 0xff, b'G', b'P', b'M', b'F']);
    let mut buf = vec![1];
    let too_large = BoxHeader::new(BoxType::GpmfBox, u32::MAX as u64 + 1);
    assert_eq!(too_large.write(&mut buf), Err(Error::PayloadTooLarge));
    assert_eq!(buf, vec![1]);
}

#[test]
fn reader_reads_big_endian() {
    let stream = [0x12u8, 0x34, 0xde, 0xad, 0xbe, 0xef, 9, 8, 7];
    let mut reader = ByteReader::new(&stream);
    assert_eq!(reader.stream_position(), 0);
    assert_eq!(reader.remaining(), 9);
    assert_eq!(reader.read_u16(), Ok(0x1234));
    assert_eq!(reader.read_u32(), Ok(0xdeadbeef));
    assert_eq!(reader.stream_position(), 6);
    assert_eq!(reader.read_u32(), Err(Error::Truncated));
    assert_eq!(reader.stream_position(), 6);
    assert_eq!(reader.read_bytes(4), Err(Error::Truncated));
    assert_eq!(reader.read_bytes(2), Ok(vec![9, 8]));
    assert_eq!(reader.read_u16(), Err(Error::Truncated));
    assert_eq!(reader.stream_position(), 8);
    assert_eq!(reader.read_bytes(0), Ok(vec![]));
    assert_eq!(reader.remaining(), 1);
}

#[test]
fn reader_skips_forward_only() {
    let stream = [0u8; 10];
    let mut reader = ByteReader::new(&stream);
    assert_eq!(reader.skip_bytes(4), Ok(()));
    assert_eq!(reader.stream_position(), 4);
    assert_eq!(reader.skip_bytes(7), Err(Error::Truncated));
    assert_eq!(reader.stream_position(), 4);
    assert_eq!(reader.skip_to(4), Ok(()));
    assert_eq!(reader.skip_to(9), Ok(()));
    assert_eq!(reader.stream_position(), 9);
    assert_eq!(reader.skip_to(8), Err(Error::Defect));
    assert_eq!(reader.stream_position(), 9);
    assert_eq!(reader.skip_to(11), Err(Error::Truncated));
    assert_eq!(reader.stream_position(), 9);
    assert_eq!(reader.skip_to(10), Ok(()));
    assert_eq!(reader.remaining(), 0);
    assert_eq!(reader.skip_bytes(u64::MAX), Err(Error::Truncated));
}

#[test]
fn writers_append_big_endian() {
    let mut buf = vec![0xaa];
    write_u16(&mut buf, 0x0102);
    write_u32(&mut buf, 0xfffe_0100);
    write_bytes(&mut buf, &[5, 6]);
    write_u16(&mut buf, u16::MAX);
    write_u32(&mut buf, 0);
    assert_eq!(buf, vec![0xaa, 1, 2, 0xff, 0xfe, 1, 0, 5, 6, 0xff, 0xff, 0, 0, 0, 0]);
}

#[test]
fn payload_boxes() {
    let mut buf = Vec::new();
    assert_eq!(write_payload(BoxType::UnknownBox(0x66726565), &[1, 2, 3], &mut buf), Ok(11));
    assert_eq!(buf, vec![0, 0, 0, 11, b'f', b'r', b'e', b'e', 1, 2, 3]);
    assert_eq!(payload_checked_size(&[1, 2, 3]), Some(11));
    assert_eq!(payload_checked_size(&[]), Some(8));

    let mut reader = ByteReader::new(&buf);
    let header = BoxHeader::read(&mut reader).unwrap();
    assert_eq!(header, BoxHeader::new(BoxType::UnknownBox(0x66726565), 11));
    assert_eq!(read_payload(&mut reader, header.size), Ok(vec![1, 2, 3]));
    assert_eq!(reader.remaining(), 0);

    let mut reader = ByteReader::new(&buf);
    BoxHeader::read(&mut reader).unwrap();
    assert_eq!(skip_box(&mut reader, 11), Ok(()));
    assert_eq!(reader.stream_position(), 11);

    let mut reader = ByteReader::new(&buf);
    BoxHeader::read(&mut reader).unwrap();
    assert_eq!(skip_box(&mut reader, 12), Err(Error::Truncated));
    assert_eq!(skip_box(&mut reader, 7), Err(Error::Truncated));
    assert_eq!(read_payload(&mut reader, 12), Err(Error::Truncated));
    assert_eq!(reader.stream_position(), 8);
}

#[test]
fn numbers_in_decimal() {
    assert_eq!(decimal_text(0), "0");
    assert_eq!(decimal_text(9), "9");
    assert_eq!(decimal_text(10), "10");
    assert_eq!(decimal_text(1234567890), "1234567890");
    assert_eq!(decimal_text(u64::MAX), "18446744073709551615");
    assert_eq!(payload_summary_text(0), "Data: 0 bytes");
    assert_eq!(payload_summary_text(4096), "Data: 4096 bytes");
}
