use zenavif_parse::boxes::BoxType;
use zenavif_parse::config::ParseOptions;
use zenavif_parse::reader::{
    check_parser_state, read_box_header, read_fullbox_extra, read_fullbox_version_no_flags,
    BMFFBox, BoxHeader,
};
use zenavif_parse::Error;

fn plain_box(size: u64, end: usize, limit: u64) -> BMFFBox {
    BMFFBox {
        head: BoxHeader { name: BoxType::FileTypeBox, size, offset: 0, uuid: None },
        pos: 0,
        end,
        limit,
    }
}

#[test]
fn box_read_to_end() {
    let tmp = b"1234567890".as_slice();
    let mut src = plain_box(5, 5, 5);
    let buf = src.read_into_try_vec(tmp).unwrap();
    assert_eq!(buf.len(), 5);
    assert_eq!(buf, b"12345".as_ref());
}

#[test]
fn box_read_to_end_oom() {
    let tmp = b"1234567890".as_slice();
    // A very large claim, but not the claim of a box that runs to the end.
    let mut src = plain_box(5, 10, u64::MAX / 2);
    assert!(src.read_into_try_vec(tmp).is_err());
}

#[test]
fn box_that_runs_to_the_end_is_read_without_reserving() {
    let tmp = b"1234567890".as_slice();
    let mut src = plain_box(u64::MAX, 10, u64::MAX - 8);
    let buf = src.read_into_try_vec(tmp).unwrap();
    assert_eq!(buf, b"1234567890".as_ref());
    assert_eq!(src.pos, 10);
}

#[test]
fn header_of_a_plain_box() {
    let data = [0u8, 0, 0, 16, b'f', b't', b'y', b'p', 1, 2, 3, 4, 5, 6, 7, 8];
    let h = read_box_header(&data, 0, data.len()).unwrap().unwrap();
    assert_eq!(h.name, BoxType::FileTypeBox);
    assert_eq!(h.size, 16);
    assert_eq!(h.offset, 8);
    assert_eq!(h.uuid, None);
}

#[test]
fn header_with_wide_size() {
    let data = [0u8, 0, 0, 1, b'm', b'd', b'a', b't', 0, 0, 0, 1, 0, 0, 0, 20, 9, 9, 9, 9];
    let h = read_box_header(&data, 0, data.len()).unwrap().unwrap();
    assert_eq!(h.name, BoxType::MediaDataBox);
    assert_eq!(h.size, 0x1_0000_0014);
    assert_eq!(h.offset, 16);
}

#[test]
fn header_with_size_zero_runs_to_the_end() {
    let data = [0u8, 0, 0, 0, b'm', b'd', b'a', b't', 7, 7];
    let h = read_box_header(&data, 0, data.len()).unwrap().unwrap();
    assert_eq!(h.size, u64::MAX);
    assert_eq!(h.offset, 8);
}

#[test]
fn header_sizes_below_the_minimum_are_malformed() {
    let small = [0u8, 0, 0, 7, b'f', b'r', b'e', b'e'];
    match read_box_header(&small, 0, small.len()) {
        Err(Error::InvalidData(msg)) => assert_eq!(msg, "malformed size"),
        other => panic!("unexpected: {:?}", other),
    }
    let wide = [0u8, 0, 0, 1, b'f', b'r', b'e', b'e', 0, 0, 0, 0, 0, 0, 0, 15];
    match read_box_header(&wide, 0, wide.len()) {
        Err(Error::InvalidData(msg)) => assert_eq!(msg, "malformed size"),
        other => panic!("unexpected: {:?}", other),
    }
}

#[test]
fn header_that_is_cut_short_ends_the_stream() {
    let data = [0u8, 0, 0, 16, b'f', b't', b'y'];
    assert!(read_box_header(&data, 0, data.len()).unwrap().is_none());
    assert!(read_box_header(&data, 0, 0).unwrap().is_none());
    let wide = [0u8, 0, 0, 1, b'm', b'd', b'a', b't', 0, 0, 0];
    assert!(read_box_header(&wide, 0, wide.len()).unwrap().is_none());
}

#[test]
fn header_of_a_uuid_box_holds_the_extended_type() {
    let mut data = vec![0u8, 0, 0, 28, b'u', b'u', b'i', b'd'];
    data.extend_from_slice(&[0, 1, 2, 3, 4, 5, 6, 7, 8, 9, 10, 11, 12, 13, 14, 15]);
    data.extend_from_slice(&[0xaa, 0xbb, 0xcc, 0xdd]);
    let h = read_box_header(&data, 0, data.len()).unwrap().unwrap();
    assert_eq!(h.name, BoxType::UuidBox);
    assert_eq!(h.offset, 24);
    assert_eq!(h.uuid, Some(0x0001_0203_0405_0607_0809_0a0b_0c0d_0e0f));
    assert!(h.offset <= h.size);
}

#[test]
fn children_are_walked_in_order_and_clamped_to_the_parent() {
    let mut data = Vec::new();
    data.extend_from_slice(&[0, 0, 0, 10, b'a', b'b', b'c', b'd', 1, 2]);
    data.extend_from_slice(&[0, 0, 0, 100, b'e', b'f', b'g', b'h', 3, 4, 5]);
    let mut root = BMFFBox::root(&data);
    let first = root.next_box(&data).unwrap().unwrap();
    assert_eq!(first.head.name, BoxType::UnknownBox(0x61626364));
    assert_eq!((first.pos, first.end, first.limit), (8, 10, 2));
    assert_eq!(root.pos, 10);
    let second = root.next_box(&data).unwrap().unwrap();
    assert_eq!((second.pos, second.end, second.limit), (18, 21, 92));
    assert_eq!(root.pos, 21);
    assert!(root.next_box(&data).unwrap().is_none());
    // The first box was not read at all, the second cannot be read to its end.
    assert!(check_parser_state(&first).is_err());
    let mut second = second;
    second.skip_box_content();
    assert_eq!(second.bytes_left(), 89);
    match check_parser_state(&second) {
        Err(Error::InvalidData(msg)) => assert_eq!(msg, "unread box content or bad parser sync"),
        other => panic!("unexpected: {:?}", other),
    }
}

#[test]
fn primitive_reads_are_big_endian() {
    let data = [0x12u8, 0x34, 0x56, 0x78, 0x9a, 0xbc, 0xde, 0xf0, 0x01, 0x02, 0x03, 0x04, 0x05, 0x06, 0x07];
    let mut b = plain_box(15, 15, 15);
    assert_eq!(b.read_u8(&data).unwrap(), 0x12);
    assert_eq!(b.be_u16(&data).unwrap(), 0x3456);
    assert_eq!(b.be_u32(&data).unwrap(), 0x789a_bcde);
    assert_eq!(b.be_u64(&data).unwrap(), 0xf001_0203_0405_0607);
    assert_eq!(b.bytes_left(), 0);
    assert!(matches!(b.read_u8(&data), Err(Error::UnexpectedEOF)));
    assert!(check_parser_state(&b).is_ok());
}

#[test]
fn short_reads_report_the_end_of_the_data() {
    let data = [1u8, 2, 3];
    let mut b = plain_box(3, 3, 3);
    assert!(matches!(b.be_u32(&data), Err(Error::UnexpectedEOF)));
    let mut b = plain_box(3, 3, 3);
    assert!(matches!(b.be_u64(&data), Err(Error::UnexpectedEOF)));
    let mut b = plain_box(1, 1, 1);
    assert!(matches!(b.be_u16(&data), Err(Error::UnexpectedEOF)));
}

#[test]
fn fullbox_version_and_flags() {
    let data = [3u8, 0x01, 0x02, 0x03, 9];
    let mut b = plain_box(5, 5, 5);
    assert_eq!(read_fullbox_extra(&data, &mut b).unwrap(), (3, 0x010203));
    assert_eq!(b.pos, 4);

    let strict = ParseOptions { lenient: false };
    let lenient = ParseOptions { lenient: true };
    let mut b = plain_box(5, 5, 5);
    match read_fullbox_version_no_flags(&data, &mut b, &strict) {
        Err(Error::Unsupported(msg)) => assert_eq!(msg, "expected flags to be 0"),
        other => panic!("unexpected: {:?}", other),
    }
    let mut b = plain_box(5, 5, 5);
    assert_eq!(read_fullbox_version_no_flags(&data, &mut b, &lenient).unwrap(), 3);
}

#[test]
fn skip_stops_at_the_end_of_the_box() {
    let mut b = plain_box(10, 6, 10);
    b.skip(4);
    assert_eq!((b.pos, b.bytes_left()), (4, 6));
    b.skip(100);
    assert_eq!((b.pos, b.bytes_left()), (6, 4));
}

#[test]
fn box_type_codes_round_trip() {
    for code in [0x66747970u32, 0x6d657461, 0x6d6f6f76, 0x6d646174, 0x75756964, 0x12345678, 0] {
        assert_eq!(BoxType::from(code).code(), code);
    }
    assert_eq!(BoxType::from(0x6970636f), BoxType::ItemPropertyContainerBox);
    assert_eq!(BoxType::from(0x636f3634), BoxType::ChunkLargeOffsetBox);
}
