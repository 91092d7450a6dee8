use mp4box::{
    BoxHeader, BoxType, ByteReader, CxyzBox, Error, GpmfBox, MetaBox, Mp4Box, ReadBox, UdtaBox,
    WriteBox, HEADER_SIZE,
};

fn location() -> CxyzBox {
    CxyzBox { language_code: 0x15c7, text: "+41.3758+002.1492/".to_owned() }
}

fn child(name: &[u8; 4], body: &[u8]) -> Vec<u8> {
    let mut out = ((HEADER_SIZE as usize + body.len()) as u32).to_be_bytes().to_vec();
    out.extend_from_slice(name);
    out.extend_from_slice(body);
    out
}

fn read_whole(stream: &[u8]) -> (Result<UdtaBox, Error>, u64) {
    let mut reader = ByteReader::new(stream);
    let header = BoxHeader::read(&mut reader).unwrap();
    assert_eq!(header.name, BoxType::UdtaBox);
    let read = UdtaBox::read_box(&mut reader, header.size);
    (read, reader.stream_position())
}

#[test]
fn test_udta_empty() {
    let src_box = UdtaBox {
        meta: None,
        cxyz: None,
        gpmf: None,
    };

    let mut buf = Vec::new();
    src_box.write_box(&mut buf).unwrap();
    assert_eq!(buf.len(), src_box.box_size() as usize);

    let mut reader = ByteReader::new(&buf);
    let header = BoxHeader::read(&mut reader).unwrap();
    assert_eq!(header.name, BoxType::UdtaBox);
    assert_eq!(header.size, src_box.box_size());

    let dst_box = UdtaBox::read_box(&mut reader, header.size).unwrap();
    assert_eq!(dst_box, src_box);
}

#[test]
fn test_udta() {
    let src_box = UdtaBox {
        meta: Some(MetaBox::default()),
        cxyz: Some(CxyzBox {
            language_code: 0x15c7,
            text: "+41.3758+002.1492/".to_owned(),
        }),
        gpmf: Some(GpmfBox {
            data: vec![0x01, 0x02, 0x03, 0x04],
        }),
    };

    let mut buf = Vec::new();
    src_box.write_box(&mut buf).unwrap();
    assert_eq!(buf.len(), src_box.box_size() as usize);

    let mut reader = ByteReader::new(&buf);
    let header = BoxHeader::read(&mut reader).unwrap();
    assert_eq!(header.name, BoxType::UdtaBox);
    assert_eq!(header.size, src_box.box_size());

    let dst_box = UdtaBox::read_box(&mut reader, header.size).unwrap();
    assert_eq!(dst_box, src_box);
}

#[test]
fn udta_empty_is_a_bare_header() {
    let empty = UdtaBox::default();
    assert_eq!(empty, UdtaBox { meta: None, cxyz: None, gpmf: None });
    assert_eq!(empty.get_type(), BoxType::UdtaBox);
    assert_eq!(empty.box_type(), BoxType::UdtaBox);
    assert_eq!(empty.get_size(), HEADER_SIZE);
    assert_eq!(empty.summary(), Ok(String::new()));
    let mut buf = Vec::new();
    assert_eq!(empty.write_box(&mut buf), Ok(8));
    assert_eq!(buf, vec![0, 0, 0, 8, b'u', b'd', b't', b'a']);
    assert_eq!(read_whole(&buf), (Ok(empty), 8));
}

#[test]
fn udta_size_is_header_plus_children() {
    let meta = MetaBox { data: vec![0; 5] };
    let cxyz = location();
    let gpmf = GpmfBox { data: vec![1, 2, 3, 4] };
    assert_eq!((meta.get_size(), cxyz.get_size(), gpmf.get_size()), (13, 30, 12));
    let slots = [false, true];
    for with_meta in slots {
        for with_cxyz in slots {
            for with_gpmf in slots {
                let b = UdtaBox {
                    meta: if with_meta { Some(meta.clone()) } else { None },
                    cxyz: if with_cxyz { Some(cxyz.clone()) } else { None },
                    gpmf: if with_gpmf { Some(gpmf.clone()) } else { None },
                };
                let mut expected = HEADER_SIZE;
                if with_meta {
                    expected += 13;
                }
                if with_cxyz {
                    expected += 30;
                }
                if with_gpmf {
                    expected += 12;
                }
                assert_eq!(b.get_size(), expected);
                assert_eq!(b.box_size(), expected);
                assert_eq!(b.checked_size(), Some(expected));
                let mut buf = Vec::new();
                assert_eq!(b.write_box(&mut buf), Ok(expected));
                assert_eq!(buf.len() as u64, expected);
                assert_eq!(read_whole(&buf), (Ok(b), expected));
            }
        }
    }
}

#[test]
fn udta_writes_children_in_fixed_order() {
    let b = UdtaBox {
        meta: Some(MetaBox { data: vec![9] }),
        cxyz: Some(CxyzBox { language_code: 2, text: "x".to_owned() }),
        gpmf: Some(GpmfBox { data: vec![1, 2] }),
    };
    let mut buf = Vec::new();
    assert_eq!(b.write_box(&mut buf), Ok(40));
    let mut expected = vec![0, 0, 0, 40, b'u', b'd', b't', b'a'];
    expected.extend_from_slice(&child(b"meta", &[9]));
    expected.extend_from_slice(&child(&[0xa9, b'x', b'y', b'z'], &[0, 1, 0, 2, b'x']));
    expected.extend_from_slice(&child(b"GPMF", &[1, 2]));
    assert_eq!(buf, expected);

    // The same children in another order read as the same box.
    let mut body = child(b"GPMF", &[1, 2]);
    body.extend_from_slice(&child(&[0xa9, b'x', b'y', b'z'], &[0, 1, 0, 2, b'x']));
    body.extend_from_slice(&child(b"meta", &[9]));
    let shuffled = child(b"udta", &body);
    assert_eq!(read_whole(&shuffled), (Ok(b.clone()), 40));
    let mut again = Vec::new();
    assert_eq!(read_whole(&shuffled).0.unwrap().write_box(&mut again), Ok(40));
    assert_eq!(again, expected);
}

#[test]
fn udta_passes_over_unknown_children() {
    let mut recognized = Vec::new();
    location().write_box(&mut recognized).unwrap();
    let mut body = recognized.clone();
    body.extend_from_slice(&child(b"free", &[1, 2, 3, 4, 5]));
    let stream = child(b"udta", &body);
    assert_eq!(stream.len(), 8 + 30 + 13);

    let (read, position) = read_whole(&stream);
    let read = read.unwrap();
    assert_eq!(read, UdtaBox { meta: None, cxyz: Some(location()), gpmf: None });
    assert_eq!(position, 51);

    let mut again = Vec::new();
    assert_eq!(read.write_box(&mut again), Ok(38));
    assert_eq!(again, child(b"udta", &recognized));
}

#[test]
fn udta_passes_over_unknown_children_anywhere() {
    let mut body = child(b"free", &[]);
    body.extend_from_slice(&child(b"GPMF", &[7]));
    body.extend_from_slice(&child(b"udta", &[0, 0, 0, 8, b'm', b'e', b't', b'a']));
    body.extend_from_slice(&child(b"skip", &[0xff; 20]));
    let stream = child(b"udta", &body);
    let (read, position) = read_whole(&stream);
    assert_eq!(read, Ok(UdtaBox { meta: None, cxyz: None, gpmf: Some(GpmfBox { data: vec![7] }) }));
    assert_eq!(position, stream.len() as u64);
}

#[test]
fn udta_last_child_of_a_type_wins() {
    let mut body = child(b"GPMF", &[1]);
    body.extend_from_slice(&child(b"meta", &[5, 5]));
    body.extend_from_slice(&child(b"GPMF", &[2, 3]));
    body.extend_from_slice(&child(&[0xa9, b'x', b'y', b'z'], &[0, 1, 0, 1, b'a']));
    body.extend_from_slice(&child(&[0xa9, b'x', b'y', b'z'], &[0, 1, 0, 2, b'b']));
    body.extend_from_slice(&child(b"meta", &[]));
    let stream = child(b"udta", &body);
    let (read, position) = read_whole(&stream);
    assert_eq!(
        read,
        Ok(UdtaBox {
            meta: Some(MetaBox { data: vec![] }),
            cxyz: Some(CxyzBox { language_code: 2, text: "b".to_owned() }),
            gpmf: Some(GpmfBox { data: vec![2, 3] }),
        })
    );
    assert_eq!(position, stream.len() as u64);
}

#[test]
fn udta_stops_at_its_declared_end() {
    let mut stream = child(b"udta", &child(b"GPMF", &[1, 2, 3]));
    stream.extend_from_slice(&child(b"GPMF", &[4, 5, 6]));
    let (read, position) = read_whole(&stream);
    assert_eq!(read, Ok(UdtaBox { meta: None, cxyz: None, gpmf: Some(GpmfBox { data: vec![1, 2, 3] }) }));
    assert_eq!(position, 19);
}

#[test]
fn udta_child_larger_than_what_is_left() {
    // The second child fits the container's size but not what the first left of it.
    let mut body = child(b"GPMF", &[1, 2, 3, 4]);
    body.extend_from_slice(&[0, 0, 0, 13, b'G', b'P', b'M', b'F', 1, 2, 3, 4]);
    let mut stream = child(b"udta", &body);
    stream.extend_from_slice(&[0; 16]);
    assert_eq!(read_whole(&stream), (Err(Error::MalformedChild), 28));

    let stream = [0u8, 0, 0, 16, b'u', b'd', b't', b'a', 0, 0, 0, 9, b'f', b'r', b'e', b'e', 0];
    assert_eq!(read_whole(&stream), (Err(Error::MalformedChild), 16));
}

#[test]
fn udta_truncated() {
    // The container ends inside a child's header.
    let mut stream = child(b"udta", &[0, 0, 0, 8]);
    stream.extend_from_slice(b"free");
    assert_eq!(read_whole(&stream), (Err(Error::Truncated), 8));

    // The stream ends inside a child's header.
    let stream = [0u8, 0, 0, 16, b'u', b'd', b't', b'a', 0, 0, 0, 8];
    assert_eq!(read_whole(&stream), (Err(Error::Truncated), 8));

    // The stream ends inside a child's body.
    let stream = [0u8, 0, 0, 20, b'u', b'd', b't', b'a', 0, 0, 0, 12, b'G', b'P', b'M', b'F', 1];
    assert_eq!(read_whole(&stream), (Err(Error::Truncated), 16));
    let stream = [0u8, 0, 0, 20, b'u', b'd', b't', b'a', 0, 0, 0, 12, b'f', b'r', b'e', b'e', 1];
    assert_eq!(read_whole(&stream), (Err(Error::Truncated), 16));

    // A child declares less than its own header.
    let stream = [0u8, 0, 0, 16, b'u', b'd', b't', b'a', 0, 0, 0, 7, b'f', b'r', b'e', b'e'];
    assert_eq!(read_whole(&stream), (Err(Error::Truncated), 16));
    let stream = [0u8, 0, 0, 16, b'u', b'd', b't', b'a', 0, 0, 0, 0, b'm', b'e', b't', b'a'];
    assert_eq!(read_whole(&stream), (Err(Error::Truncated), 16));

    // The container declares less than its own header.
    let stream = [0u8, 0, 0, 7, b'u', b'd', b't', b'a'];
    assert_eq!(read_whole(&stream), (Err(Error::Truncated), 8));
}

#[test]
fn udta_child_failure_ends_the_read() {
    // A location box whose text is announced longer than its body, before a sound child.
    let mut body = child(&[0xa9, b'x', b'y', b'z'], &[0, 9, 0, 1, b'a']);
    body.extend_from_slice(&child(b"GPMF", &[1]));
    let stream = child(b"udta", &body);
    assert_eq!(read_whole(&stream), (Err(Error::Truncated), 20));
}

#[test]
fn udta_refuses_a_child_that_cannot_be_written() {
    let b = UdtaBox {
        meta: Some(MetaBox::default()),
        cxyz: Some(CxyzBox { language_code: 0, text: "a".repeat(65536) }),
        gpmf: None,
    };
    assert_eq!(b.checked_size(), None);
    let mut buf = vec![4, 2];
    assert_eq!(b.write_box(&mut buf), Err(Error::PayloadTooLarge));
    assert_eq!(buf, vec![4, 2]);
}
