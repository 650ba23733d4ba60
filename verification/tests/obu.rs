use zenavif_parse::obu::{parse_obu, parse_sequence_header};
use zenavif_parse::{AV1Metadata, AvifParser, Error};

/// Writes bits, most significant first.
struct Bits {
    bytes: Vec<u8>,
    used: usize,
}

impl Bits {
    fn new() -> Self {
        Bits { bytes: Vec::new(), used: 0 }
    }

    fn put(&mut self, value: u64, count: usize) -> &mut Self {
        for i in (0..count).rev() {
            if self.used % 8 == 0 {
                self.bytes.push(0);
            }
            let bit = ((value >> i) & 1) as u8;
            let last = self.bytes.len() - 1;
            self.bytes[last] |= bit << (7 - self.used % 8);
            self.used += 1;
        }
        self
    }

    fn done(&self) -> Vec<u8> {
        self.bytes.clone()
    }
}

/// A reduced still picture header of the given profile and size, up to the
/// colour format.
fn reduced_header(profile: u64, width: u64, height: u64) -> Bits {
    let mut b = Bits::new();
    b.put(profile, 3).put(1, 1).put(1, 1).put(8, 5);
    b.put(15, 4).put(15, 4).put(width - 1, 16).put(height - 1, 16);
    // 128x128 superblocks, filter intra, intra edge; superres, cdef, restoration.
    b.put(0, 3).put(0, 3);
    b
}

fn unit(kind: u8, payload: &[u8]) -> Vec<u8> {
    let mut out = vec![(kind << 3) | 0x02, payload.len() as u8];
    out.extend_from_slice(payload);
    out
}

#[test]
fn monochrome_still_picture() {
    let mut b = reduced_header(0, 640, 480);
    // 8 bit, monochrome, no colour description, colour range, film grain.
    b.put(0, 1).put(1, 1).put(0, 1).put(1, 1).put(0, 1);
    let stream = [unit(2, &[]), unit(1, &b.done())].concat();
    assert_eq!(stream[0..3], [0x12, 0x00, 0x0a]);
    let m = AV1Metadata::parse_av1_bitstream(&stream).unwrap();
    assert!(m.still_picture);
    assert!(m.monochrome);
    assert_eq!(m.bit_depth, 8);
    assert_eq!(m.seq_profile, 0);
    assert_eq!((m.max_frame_width, m.max_frame_height), (640, 480));
    assert_eq!(m.chroma_subsampling, (true, true));
}

#[test]
fn ten_bit_colour_with_half_resolution_chroma() {
    let mut b = reduced_header(0, 1, 65536);
    // 10 bit, colour, no description, range, separate_uv_delta_q, film grain.
    b.put(1, 1).put(0, 1).put(0, 1).put(0, 1).put(0, 2).put(0, 1).put(0, 1);
    let h = parse_sequence_header(&b.done()).unwrap();
    assert_eq!(h.color.bit_depth, 10);
    assert!(!h.color.monochrome);
    assert_eq!(h.color.chroma_subsampling, (true, true));
    assert_eq!((h.max_frame_width, h.max_frame_height), (1, 65536));
    assert!(h.reduced_still_picture_header);
}

#[test]
fn profile_one_has_full_resolution_chroma() {
    let mut b = reduced_header(1, 16, 16);
    // 8 bit; profile 1 has no monochrome flag; no description; range;
    // separate_uv_delta_q; film grain.
    b.put(0, 1).put(0, 1).put(0, 1).put(0, 1).put(0, 1);
    let h = parse_sequence_header(&b.done()).unwrap();
    assert_eq!(h.seq_profile, 1);
    assert_eq!(h.color.chroma_subsampling, (false, false));
    assert_eq!(h.color.bit_depth, 8);
}

#[test]
fn profile_two_with_twelve_bits_declares_its_subsampling() {
    let mut b = reduced_header(2, 16, 16);
    // high bit depth, twelve bit, colour, no description, range,
    // subsampling x = 1, y = 0, separate_uv_delta_q, film grain.
    b.put(1, 1).put(1, 1).put(0, 1).put(0, 1).put(0, 1).put(1, 1).put(0, 1).put(0, 1).put(0, 1);
    let h = parse_sequence_header(&b.done()).unwrap();
    assert_eq!(h.color.bit_depth, 12);
    assert_eq!(h.color.chroma_subsampling, (true, false));
    let mut b = reduced_header(2, 16, 16);
    // ten bit in profile 2 is 4:2:2.
    b.put(1, 1).put(0, 1).put(0, 1).put(0, 1).put(0, 1).put(0, 1).put(0, 1);
    let h = parse_sequence_header(&b.done()).unwrap();
    assert_eq!(h.color.bit_depth, 10);
    assert_eq!(h.color.chroma_subsampling, (true, false));
}

#[test]
fn srgb_description_means_full_resolution_chroma() {
    let mut b = reduced_header(0, 16, 16);
    // 8 bit, colour, description: primaries 1, transfer 13, matrix 0.
    b.put(0, 1).put(0, 1).put(1, 1).put(1, 8).put(13, 8).put(0, 8).put(0, 1).put(0, 1);
    let h = parse_sequence_header(&b.done()).unwrap();
    assert_eq!(h.color.chroma_subsampling, (false, false));
}

#[test]
fn full_header_with_operating_points() {
    let mut b = Bits::new();
    // profile 0, not still, not reduced.
    b.put(0, 3).put(0, 1).put(0, 1);
    // Timing info with equal picture interval (code "010" for 1), decoder
    // model with delays of 4 bits.
    b.put(1, 1).put(1, 32).put(25, 32).put(1, 1).put(0b010, 3);
    b.put(1, 1).put(3, 5).put(1, 32).put(0, 5).put(0, 5);
    // Initial display delay present; two operating points.
    b.put(1, 1).put(1, 5);
    // Point 0: idc, level 9 with tier, decoder model with two delays and
    // low delay flag, display delay of 4 bits.
    b.put(0, 12).put(9, 5).put(0, 1).put(1, 1).put(5, 4).put(6, 4).put(0, 1).put(1, 1).put(2, 4);
    // Point 1: idc, level 1, no decoder model, no display delay.
    b.put(0, 12).put(1, 5).put(0, 1).put(0, 1);
    // Frame size: 10 and 9 bits.
    b.put(9, 4).put(8, 4).put(799, 10).put(299, 9);
    // Frame ids present.
    b.put(1, 1).put(0, 4).put(0, 3);
    b.put(0, 3);
    // Tools: four flags, order hint with two flags, choose screen content
    // tools, choose integer mv, order hint bits.
    b.put(0, 4).put(1, 1).put(0, 2).put(1, 1).put(1, 1).put(0, 3);
    b.put(0, 3);
    // 8 bit colour.
    b.put(0, 1).put(0, 1).put(0, 1).put(0, 1).put(0, 2).put(0, 1).put(0, 1);
    let data = b.done();
    let h = parse_sequence_header(&data).unwrap();
    assert!(!h.still_picture);
    assert!(!h.reduced_still_picture_header);
    assert_eq!((h.max_frame_width, h.max_frame_height), (800, 300));
    assert_eq!(h.color.bit_depth, 8);
    // Any shorter payload is truncated.
    for len in 0..data.len() - 1 {
        assert!(
            matches!(parse_sequence_header(&data[..len]), Err(Error::InvalidData("truncated bits"))),
            "length {}",
            len
        );
    }
}

#[test]
fn truncated_header() {
    let mut b = reduced_header(0, 640, 480);
    b.put(0, 1).put(1, 1).put(0, 1).put(1, 1).put(0, 1);
    let data = b.done();
    assert!(parse_sequence_header(&data).is_ok());
    for len in 0..data.len() {
        let r = parse_sequence_header(&data[..len]);
        assert!(matches!(r, Err(Error::InvalidData("truncated bits"))), "length {}", len);
    }
}

#[test]
fn reserved_profile_is_rejected() {
    let b = reduced_header(3, 16, 16);
    assert!(matches!(
        parse_sequence_header(&b.done()),
        Err(Error::InvalidData("invalid seq_profile"))
    ));
}

#[test]
fn units_before_the_sequence_header_are_passed_over() {
    let mut b = reduced_header(0, 8, 8);
    b.put(0, 1).put(1, 1).put(0, 1).put(1, 1).put(0, 1);
    let header = b.done();
    // A unit with an extension byte and a padding unit come first.
    let mut stream = vec![(2 << 3) | 0x06, 0x00, 0x00];
    stream.extend_from_slice(&unit(15, &[1, 2, 3, 4]));
    stream.extend_from_slice(&unit(1, &header));
    stream.extend_from_slice(&[0xff; 4]);
    let h = parse_obu(&stream).unwrap();
    assert_eq!((h.max_frame_width, h.max_frame_height), (8, 8));
}

#[test]
fn unit_without_size_field_runs_to_the_end() {
    let mut b = reduced_header(0, 8, 8);
    b.put(0, 1).put(1, 1).put(0, 1).put(1, 1).put(0, 1);
    let mut stream = vec![1 << 3];
    stream.extend_from_slice(&b.done());
    assert!(parse_obu(&stream).unwrap().color.monochrome);
}

#[test]
fn size_fields_of_several_bytes() {
    let mut b = reduced_header(0, 8, 8);
    b.put(0, 1).put(1, 1).put(0, 1).put(1, 1).put(0, 1);
    let header = b.done();
    // 200 bytes of padding: size 0xc8 0x01.
    let mut stream = vec![(15 << 3) | 0x02, 0xc8, 0x01];
    stream.extend_from_slice(&[0; 200]);
    // The size of the header in two bytes, the second being zero.
    stream.extend_from_slice(&[(1 << 3) | 0x02, 0x80 | header.len() as u8, 0x00]);
    stream.extend_from_slice(&header);
    assert!(parse_obu(&stream).is_ok());
}

#[test]
fn broken_streams() {
    assert!(matches!(parse_obu(&[]), Err(Error::UnexpectedEOF)));
    assert!(matches!(
        parse_obu(&[0x80, 0x00]),
        Err(Error::InvalidData("forbidden bit set in OBU header"))
    ));
    // A size that reaches past the end.
    assert!(matches!(parse_obu(&[0x0a, 0x05, 0x00]), Err(Error::UnexpectedEOF)));
    // A size field that does not end.
    assert!(matches!(
        parse_obu(&[0x0a, 0x80, 0x80, 0x80, 0x80, 0x80, 0x80, 0x80, 0x80, 0x00]),
        Err(Error::InvalidData("invalid leb128"))
    ));
    assert!(matches!(parse_obu(&[0x0a, 0x80]), Err(Error::UnexpectedEOF)));
    // Too large for a unit.
    assert!(matches!(
        parse_obu(&[0x0a, 0x80, 0x80, 0x80, 0x80, 0x10]),
        Err(Error::InvalidData("OBU too large"))
    ));
    // Only units of other types.
    assert!(matches!(parse_obu(&[0x12, 0x00, 0x12, 0x00]), Err(Error::UnexpectedEOF)));
    // The extension byte is missing.
    assert!(matches!(parse_obu(&[0x16]), Err(Error::UnexpectedEOF)));
}

// ---------------------------------------------------------------------------
// Metadata of the items of a file
// ---------------------------------------------------------------------------

fn bx(kind: &[u8; 4], payload: &[u8]) -> Vec<u8> {
    let mut out = Vec::new();
    out.extend_from_slice(&((payload.len() as u32 + 8).to_be_bytes()));
    out.extend_from_slice(kind);
    out.extend_from_slice(payload);
    out
}

fn full(kind: &[u8; 4], version: u8, payload: &[u8]) -> Vec<u8> {
    let mut body = vec![version, 0, 0, 0];
    body.extend_from_slice(payload);
    bx(kind, &body)
}

fn infe(id: u16) -> Vec<u8> {
    let mut body = id.to_be_bytes().to_vec();
    body.extend_from_slice(&[0, 0]);
    body.extend_from_slice(b"av01");
    body.push(0);
    full(b"infe", 2, &body)
}

/// A file with a colour item and an alpha item, both in an `idat` box.
fn file_with_items(colour: &[u8], alpha: &[u8]) -> Vec<u8> {
    let mut iloc = vec![0x44, 0x00, 0, 2];
    for (id, offset, length) in [(1u16, 0u32, colour.len() as u32), (2, colour.len() as u32, alpha.len() as u32)] {
        iloc.extend_from_slice(&id.to_be_bytes());
        iloc.extend_from_slice(&[0, 1, 0, 0, 0, 1]);
        iloc.extend_from_slice(&offset.to_be_bytes());
        iloc.extend_from_slice(&length.to_be_bytes());
    }
    let mut urn = b"urn:mpeg:mpegB:cicp:systems:auxiliary:alpha".to_vec();
    urn.push(0);
    let mut ipma = 1u32.to_be_bytes().to_vec();
    ipma.extend_from_slice(&[0, 2, 1, 1]);
    let iprp = bx(b"iprp", &[bx(b"ipco", &full(b"auxC", 0, &urn)), full(b"ipma", 0, &ipma)].concat());
    let iref = full(b"iref", 0, &bx(b"auxl", &[0, 2, 0, 1, 0, 1]));
    let mut iinf = vec![0, 2];
    iinf.extend_from_slice(&infe(1));
    iinf.extend_from_slice(&infe(2));
    let meta = full(
        b"meta",
        0,
        &[
            full(b"pitm", 0, &[0, 1]),
            full(b"iinf", 0, &iinf),
            full(b"iloc", 1, &iloc),
            iref,
            iprp,
            bx(b"idat", &[colour, alpha].concat()),
        ]
        .concat(),
    );
    [bx(b"ftyp", b"avif\0\0\0\0avif"), meta].concat()
}

#[test]
fn metadata_of_primary_and_alpha_item() {
    let mut colour = reduced_header(0, 32, 16);
    colour.put(1, 1).put(0, 1).put(0, 1).put(0, 1).put(0, 2).put(0, 1).put(0, 1);
    let mut alpha = reduced_header(0, 32, 16);
    alpha.put(0, 1).put(1, 1).put(0, 1).put(1, 1).put(0, 1);
    let colour = [unit(2, &[]), unit(1, &colour.done())].concat();
    let alpha = unit(1, &alpha.done());
    let file = file_with_items(&colour, &alpha);

    let parser = AvifParser::from_bytes(&file).unwrap();
    let m = parser.primary_metadata().unwrap();
    assert_eq!((m.bit_depth, m.monochrome, m.still_picture), (10, false, true));
    assert_eq!((m.max_frame_width, m.max_frame_height), (32, 16));
    let a = parser.alpha_metadata().expect("alpha item").unwrap();
    assert_eq!((a.bit_depth, a.monochrome), (8, true));

    let data = zenavif_parse::read_avif(&file).unwrap();
    assert_eq!(data.primary_item.as_slice(), &colour[..]);
    assert_eq!(data.alpha_item.as_ref().unwrap().as_slice(), &alpha[..]);
    let m = data.primary_item_metadata().unwrap();
    assert_eq!((m.bit_depth, m.monochrome, m.seq_profile), (10, false, 0));
    let a = data.alpha_item_metadata().unwrap().expect("alpha item");
    assert_eq!((a.bit_depth, a.monochrome), (8, true));
    assert_eq!(a.chroma_subsampling, (true, true));
}

#[test]
fn metadata_of_an_item_that_is_no_bitstream() {
    let file = file_with_items(&[0x80, 1, 2], &[]);
    let parser = AvifParser::from_bytes(&file).unwrap();
    assert!(matches!(
        parser.primary_metadata(),
        Err(Error::InvalidData("forbidden bit set in OBU header"))
    ));
    assert!(matches!(parser.alpha_metadata(), Some(Err(Error::UnexpectedEOF))));
    let data = zenavif_parse::read_avif(&file).unwrap();
    assert!(data.primary_item_metadata().is_err());
    assert!(matches!(data.alpha_item_metadata(), Err(Error::UnexpectedEOF)));
}
