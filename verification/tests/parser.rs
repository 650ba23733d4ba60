use std::borrow::Cow;
use zenavif_parse::{
    AvifParser, DecodeConfig, Error, Stop, StopReason, Unstoppable,
};

// ---------------------------------------------------------------------------
// Building files
// ---------------------------------------------------------------------------

fn bx(kind: &[u8; 4], payload: &[u8]) -> Vec<u8> {
    let mut out = Vec::new();
    out.extend_from_slice(&((payload.len() as u32 + 8).to_be_bytes()));
    out.extend_from_slice(kind);
    out.extend_from_slice(payload);
    out
}

fn full(kind: &[u8; 4], version: u8, flags: u32, payload: &[u8]) -> Vec<u8> {
    let mut body = vec![version, (flags >> 16) as u8, (flags >> 8) as u8, flags as u8];
    body.extend_from_slice(payload);
    bx(kind, &body)
}

fn cat(parts: &[Vec<u8>]) -> Vec<u8> {
    parts.iter().flat_map(|p| p.iter().copied()).collect()
}

fn ftyp(major: &[u8; 4]) -> Vec<u8> {
    let mut body = Vec::new();
    body.extend_from_slice(major);
    body.extend_from_slice(&0u32.to_be_bytes());
    body.extend_from_slice(b"mif1");
    body.extend_from_slice(b"miaf");
    bx(b"ftyp", &body)
}

fn pitm(id: u16) -> Vec<u8> {
    full(b"pitm", 0, 0, &id.to_be_bytes())
}

fn infe(id: u16, kind: &[u8; 4]) -> Vec<u8> {
    let mut body = Vec::new();
    body.extend_from_slice(&id.to_be_bytes());
    body.extend_from_slice(&0u16.to_be_bytes());
    body.extend_from_slice(kind);
    body.push(0);
    full(b"infe", 2, 0, &body)
}

fn iinf(entries: &[Vec<u8>]) -> Vec<u8> {
    let mut body = Vec::new();
    body.extend_from_slice(&(entries.len() as u16).to_be_bytes());
    body.extend_from_slice(&cat(entries));
    full(b"iinf", 0, 0, &body)
}

struct Loc {
    id: u16,
    method: u16,
    extents: Vec<(u32, u32)>,
}

fn loc(id: u16, extents: &[(u32, u32)]) -> Loc {
    Loc { id, method: 0, extents: extents.to_vec() }
}

fn iloc(items: &[Loc]) -> Vec<u8> {
    let mut body = vec![0x44, 0x00];
    body.extend_from_slice(&(items.len() as u16).to_be_bytes());
    for item in items {
        body.extend_from_slice(&item.id.to_be_bytes());
        body.extend_from_slice(&item.method.to_be_bytes());
        body.extend_from_slice(&0u16.to_be_bytes());
        body.extend_from_slice(&(item.extents.len() as u16).to_be_bytes());
        for (offset, length) in &item.extents {
            body.extend_from_slice(&offset.to_be_bytes());
            body.extend_from_slice(&length.to_be_bytes());
        }
    }
    full(b"iloc", 1, 0, &body)
}

fn reference(kind: &[u8; 4], from: u16, to: &[u16]) -> Vec<u8> {
    let mut body = Vec::new();
    body.extend_from_slice(&from.to_be_bytes());
    body.extend_from_slice(&(to.len() as u16).to_be_bytes());
    for id in to {
        body.extend_from_slice(&id.to_be_bytes());
    }
    bx(kind, &body)
}

fn iref(references: &[Vec<u8>]) -> Vec<u8> {
    full(b"iref", 0, 0, &cat(references))
}

fn ispe(width: u32, height: u32) -> Vec<u8> {
    let mut body = Vec::new();
    body.extend_from_slice(&width.to_be_bytes());
    body.extend_from_slice(&height.to_be_bytes());
    full(b"ispe", 0, 0, &body)
}

fn pixi(depths: &[u8]) -> Vec<u8> {
    let mut body = vec![depths.len() as u8];
    body.extend_from_slice(depths);
    full(b"pixi", 0, 0, &body)
}

const ALPHA_URN: &[u8] = b"urn:mpeg:mpegB:cicp:systems:auxiliary:alpha";

fn auxc(urn: &[u8]) -> Vec<u8> {
    let mut body = urn.to_vec();
    body.push(0);
    full(b"auxC", 0, 0, &body)
}

fn grid_box(rows: u8, columns: u8, width: u16, height: u16) -> Vec<u8> {
    let mut body = vec![0, rows, columns];
    body.extend_from_slice(&width.to_be_bytes());
    body.extend_from_slice(&height.to_be_bytes());
    full(b"grid", 0, 0, &body)
}

fn ipma(entries: &[(u16, &[u8])]) -> Vec<u8> {
    let mut body = Vec::new();
    body.extend_from_slice(&(entries.len() as u32).to_be_bytes());
    for (item, indices) in entries {
        body.extend_from_slice(&item.to_be_bytes());
        body.push(indices.len() as u8);
        body.extend_from_slice(indices);
    }
    full(b"ipma", 0, 0, &body)
}

fn iprp(properties: &[Vec<u8>], associations: Vec<u8>) -> Vec<u8> {
    bx(b"iprp", &cat(&[bx(b"ipco", &cat(properties)), associations]))
}

fn meta(children: &[Vec<u8>]) -> Vec<u8> {
    full(b"meta", 0, 0, &cat(children))
}

fn mdat(payload: &[u8]) -> Vec<u8> {
    bx(b"mdat", payload)
}

/// A file made of `ftyp`, the boxes that `head` makes, and one `mdat` box
/// with `payload`. `head` is given the file offset of the payload.
fn file_with(major: &[u8; 4], head: &dyn Fn(u32) -> Vec<u8>, payload: &[u8]) -> (Vec<u8>, u32) {
    let start = ftyp(major);
    let offset = (start.len() + head(0).len() + 8) as u32;
    let file = cat(&[start, head(offset), mdat(payload)]);
    assert_eq!(&file[offset as usize..], payload);
    (file, offset)
}

fn payload(len: usize) -> Vec<u8> {
    (0..len).map(|i| (i * 7 + 3) as u8).collect()
}

fn still_meta(extents: &[(u32, u32)]) -> Vec<u8> {
    meta(&[pitm(1), iinf(&[infe(1, b"av01")]), iloc(&[loc(1, extents)])])
}

fn message(e: &Error) -> &'static str {
    e.message()
}

fn never() -> Result<(), StopReason> {
    Unstoppable.check()
}

// ---------------------------------------------------------------------------
// Still images
// ---------------------------------------------------------------------------

#[test]
fn still_image_with_one_extent_is_borrowed() {
    let bytes = payload(100);
    let (file, offset) = file_with(b"avif", &|at| still_meta(&[(at + 10, 50)]), &bytes);
    let parser = AvifParser::from_bytes(&file).unwrap();
    let data = parser.primary_data().unwrap();
    assert!(matches!(data, Cow::Borrowed(_)));
    assert_eq!(&*data, &bytes[10..60]);
    // The slice points into the caller's buffer.
    let at = data.as_ptr() as usize - file.as_ptr() as usize;
    assert_eq!(at, offset as usize + 10);
    assert!(parser.alpha_data().is_none());
    assert!(parser.grid_config().is_none());
    assert_eq!(parser.grid_tile_count(), 0);
    assert!(parser.animation_info().is_none());
    assert!(!parser.premultiplied_alpha());
}

#[test]
fn still_image_with_two_extents_is_owned() {
    let bytes = payload(100);
    let (file, _) = file_with(b"avif", &|at| still_meta(&[(at + 40, 10), (at, 5)]), &bytes);
    let parser = AvifParser::from_bytes(&file).unwrap();
    let data = parser.primary_data().unwrap();
    assert!(matches!(data, Cow::Owned(_)));
    let mut expected = bytes[40..50].to_vec();
    expected.extend_from_slice(&bytes[0..5]);
    assert_eq!(&*data, &expected[..]);
}

#[test]
fn extent_without_length_runs_to_the_end_of_its_mdat() {
    let bytes = payload(30);
    let start = ftyp(b"avif");
    let head = |at: u32| still_meta(&[(at + 4, 0)]);
    let offset = (start.len() + head(0).len() + 8) as u32;
    // A second mdat follows; the extent must stop at the end of the first.
    let file = cat(&[start, head(offset), mdat(&bytes), mdat(&[0xee; 9])]);
    let parser = AvifParser::from_bytes(&file).unwrap();
    let data = parser.primary_data().unwrap();
    assert_eq!(&*data, &bytes[4..]);
    assert!(matches!(data, Cow::Borrowed(_)));
}

#[test]
fn extent_without_length_outside_any_mdat_runs_to_the_end_of_the_file() {
    let bytes = payload(30);
    let (file, _) = file_with(b"avif", &|_| still_meta(&[(4, 0)]), &bytes);
    let parser = AvifParser::from_bytes(&file).unwrap();
    let data = parser.primary_data().unwrap();
    assert_eq!(&*data, &file[4..]);
}

#[test]
fn extent_out_of_bounds_fails_at_data_access() {
    let bytes = payload(30);
    let (file, _) = file_with(b"avif", &|at| still_meta(&[(at + 100, 5)]), &bytes);
    let parser = AvifParser::from_bytes(&file).expect("the structure is sound");
    match parser.primary_data() {
        Err(Error::InvalidData(msg)) => assert_eq!(msg, "extent out of bounds in raw buffer"),
        other => panic!("unexpected: {:?}", other.map(|c| c.len())),
    }
}

#[test]
fn extent_that_leaves_its_mdat_is_rejected() {
    let bytes = payload(30);
    let start = ftyp(b"avif");
    let head = |at: u32| still_meta(&[(at + 20, 15)]);
    let offset = (start.len() + head(0).len() + 8) as u32;
    let file = cat(&[start, head(offset), mdat(&bytes), mdat(&[0xee; 20])]);
    let parser = AvifParser::from_bytes(&file).unwrap();
    match parser.primary_data() {
        Err(Error::InvalidData(msg)) => assert_eq!(msg, "extent crosses box boundary"),
        other => panic!("unexpected: {:?}", other.map(|c| c.len())),
    }
}

#[test]
fn item_in_idat_is_resolved_against_idat() {
    let idat = bx(b"idat", &[10, 11, 12, 13, 14, 15, 16, 17]);
    let head = meta(&[
        pitm(1),
        iinf(&[infe(1, b"av01")]),
        iloc(&[Loc { id: 1, method: 1, extents: vec![(2, 3)] }]),
        idat,
    ]);
    let file = cat(&[ftyp(b"avif"), head]);
    let parser = AvifParser::from_bytes(&file).unwrap();
    assert_eq!(&*parser.primary_data().unwrap(), &[12, 13, 14]);
}

#[test]
fn item_in_idat_without_idat_box_fails_at_data_access() {
    let head = meta(&[
        pitm(1),
        iinf(&[infe(1, b"av01")]),
        iloc(&[Loc { id: 1, method: 1, extents: vec![(0, 3)] }]),
    ]);
    let file = cat(&[ftyp(b"avif"), head]);
    let parser = AvifParser::from_bytes(&file).unwrap();
    match parser.primary_data() {
        Err(Error::InvalidData(msg)) => {
            assert_eq!(msg, "idat box missing but construction_method is Idat")
        }
        other => panic!("unexpected: {:?}", other.map(|c| c.len())),
    }
}

#[test]
fn idat_extent_out_of_bounds() {
    let head = meta(&[
        pitm(1),
        iinf(&[infe(1, b"av01")]),
        iloc(&[Loc { id: 1, method: 1, extents: vec![(6, 3)] }]),
        bx(b"idat", &[1, 2, 3, 4, 5, 6, 7, 8]),
    ]);
    let file = cat(&[ftyp(b"avif"), head]);
    let parser = AvifParser::from_bytes(&file).unwrap();
    match parser.primary_data() {
        Err(Error::InvalidData(msg)) => assert_eq!(msg, "idat extent out of bounds"),
        other => panic!("unexpected: {:?}", other.map(|c| c.len())),
    }
}

#[test]
fn from_owned_gives_the_same_data() {
    let bytes = payload(100);
    let (file, _) = file_with(b"avif", &|at| still_meta(&[(at + 10, 50)]), &bytes);
    let parser = AvifParser::from_owned(file.clone()).unwrap();
    let data = parser.primary_data().unwrap();
    assert!(matches!(data, Cow::Borrowed(_)));
    assert_eq!(&*data, &bytes[10..60]);
    let config = DecodeConfig::default();
    let parser = AvifParser::from_owned_with_config(file, &config, &never).unwrap();
    assert_eq!(parser.primary_data().unwrap().len(), 50);
}

#[test]
fn parsing_twice_gives_equal_parsers() {
    let bytes = payload(64);
    let (file, _) = file_with(b"avif", &|at| still_meta(&[(at, 20), (at + 30, 4)]), &bytes);
    let a = AvifParser::from_bytes(&file).unwrap();
    let b = AvifParser::from_bytes(&file).unwrap();
    assert_eq!(format!("{:?}", a), format!("{:?}", b));
    assert_eq!(a.primary_data().unwrap(), b.primary_data().unwrap());
}

// ---------------------------------------------------------------------------
// Alpha
// ---------------------------------------------------------------------------

fn alpha_meta(at: u32, premultiplied: bool, urn: &[u8]) -> Vec<u8> {
    let mut references = vec![reference(b"auxl", 2, &[1])];
    if premultiplied {
        references.push(reference(b"prem", 1, &[2]));
    }
    meta(&[
        pitm(1),
        iinf(&[infe(1, b"av01"), infe(2, b"av01")]),
        iloc(&[loc(1, &[(at, 10)]), loc(2, &[(at + 10, 6)])]),
        iref(&references),
        iprp(
            &[ispe(4, 4), pixi(&[8, 8, 8]), auxc(urn)],
            ipma(&[(1, &[1, 0x82]), (2, &[1, 3])]),
        ),
    ])
}

#[test]
fn alpha_item_is_found_through_its_auxiliary_type() {
    let bytes = payload(16);
    let (file, _) = file_with(b"avif", &|at| alpha_meta(at, false, ALPHA_URN), &bytes);
    let parser = AvifParser::from_bytes(&file).unwrap();
    assert_eq!(&*parser.primary_data().unwrap(), &bytes[..10]);
    let alpha = parser.alpha_data().expect("alpha item").unwrap();
    assert_eq!(&*alpha, &bytes[10..]);
    assert!(matches!(alpha, Cow::Borrowed(_)));
    assert!(!parser.premultiplied_alpha());
}

#[test]
fn premultiplied_alpha_needs_a_prem_reference() {
    let bytes = payload(16);
    let (file, _) = file_with(b"avif", &|at| alpha_meta(at, true, ALPHA_URN), &bytes);
    let parser = AvifParser::from_bytes(&file).unwrap();
    assert!(parser.alpha_data().is_some());
    assert!(parser.premultiplied_alpha());
}

#[test]
fn auxiliary_item_of_another_type_is_no_alpha() {
    let bytes = payload(16);
    let urn = b"urn:mpeg:mpegB:cicp:systems:auxiliary:depth";
    let (file, _) = file_with(b"avif", &|at| alpha_meta(at, true, urn), &bytes);
    let parser = AvifParser::from_bytes(&file).unwrap();
    assert!(parser.alpha_data().is_none());
    assert!(!parser.premultiplied_alpha());
    // A longer type that only starts like the alpha type is none either.
    let urn = b"urn:mpeg:mpegB:cicp:systems:auxiliary:alphabet";
    let (file, _) = file_with(b"avif", &|at| alpha_meta(at, false, urn), &bytes);
    assert!(AvifParser::from_bytes(&file).unwrap().alpha_data().is_none());
}

#[test]
fn alpha_item_without_location_fails_the_parse() {
    let head = |at: u32| {
        meta(&[
            pitm(1),
            iinf(&[infe(1, b"av01"), infe(2, b"av01")]),
            iloc(&[loc(1, &[(at, 10)])]),
            iref(&[reference(b"auxl", 2, &[1])]),
            iprp(&[auxc(ALPHA_URN)], ipma(&[(2, &[1])])),
        ])
    };
    let (file, _) = file_with(b"avif", &head, &payload(16));
    match AvifParser::from_bytes(&file) {
        Err(Error::InvalidData(msg)) => assert_eq!(msg, "item not found in iloc"),
        other => panic!("unexpected: {:?}", other.map(|_| ())),
    }
}

// ---------------------------------------------------------------------------
// Grids
// ---------------------------------------------------------------------------

fn grid_meta(at: u32, properties: &[Vec<u8>], associations: Vec<u8>, tiles: &[Vec<u8>]) -> Vec<u8> {
    meta(&[
        pitm(1),
        iinf(&[infe(1, b"grid"), infe(2, b"av01"), infe(3, b"av01"), infe(4, b"av01")]),
        iloc(&[
            loc(1, &[(at, 1)]),
            loc(2, &[(at + 1, 2)]),
            loc(3, &[(at + 3, 3)]),
            loc(4, &[(at + 6, 4)]),
        ]),
        iref(tiles),
        iprp(properties, associations),
    ])
}

#[test]
fn grid_with_explicit_layout() {
    let bytes = payload(10);
    let head = |at: u32| {
        grid_meta(
            at,
            &[grid_box(1, 3, 300, 100)],
            ipma(&[(1, &[1])]),
            &[reference(b"dimg", 1, &[2, 3, 4])],
        )
    };
    let (file, _) = file_with(b"avif", &head, &bytes);
    let parser = AvifParser::from_bytes(&file).unwrap();
    let grid = parser.grid_config().expect("grid");
    assert_eq!((grid.rows, grid.columns, grid.output_width, grid.output_height), (1, 3, 300, 100));
    assert_eq!(parser.grid_tile_count(), 3);
    assert_eq!(&*parser.tile_data(0).unwrap(), &bytes[1..3]);
    assert_eq!(&*parser.tile_data(1).unwrap(), &bytes[3..6]);
    assert_eq!(&*parser.tile_data(2).unwrap(), &bytes[6..10]);
    assert!(matches!(parser.tile_data(0).unwrap(), Cow::Borrowed(_)));
    assert!(parser.primary_data().unwrap().is_empty());
    match parser.tile_data(3) {
        Err(Error::InvalidData(msg)) => assert_eq!(msg, "tile index out of bounds"),
        other => panic!("unexpected: {:?}", other.map(|c| c.len())),
    }
}

#[test]
fn grid_layout_from_the_dimensions_of_grid_and_tile() {
    let head = |at: u32| {
        grid_meta(
            at,
            &[ispe(6400, 2880), ispe(1280, 720)],
            ipma(&[(1, &[1]), (2, &[2]), (3, &[2]), (4, &[2])]),
            &[reference(b"dimg", 1, &[2, 3, 4])],
        )
    };
    let (file, _) = file_with(b"avif", &head, &payload(10));
    let parser = AvifParser::from_bytes(&file).unwrap();
    let grid = parser.grid_config().expect("grid");
    assert_eq!((grid.rows, grid.columns), (4, 5));
    assert_eq!((grid.output_width, grid.output_height), (6400, 2880));
}

#[test]
fn grid_layout_of_last_resort() {
    // The tile does not divide the canvas evenly.
    let head = |at: u32| {
        grid_meta(
            at,
            &[ispe(100, 100), ispe(30, 30)],
            ipma(&[(1, &[1]), (2, &[2])]),
            &[reference(b"dimg", 1, &[2, 3, 4])],
        )
    };
    let (file, _) = file_with(b"avif", &head, &payload(10));
    let parser = AvifParser::from_bytes(&file).unwrap();
    let grid = parser.grid_config().expect("grid");
    assert_eq!((grid.rows, grid.columns, grid.output_width, grid.output_height), (3, 1, 0, 0));
    // No dimensions at all.
    let head = |at: u32| grid_meta(at, &[], ipma(&[]), &[reference(b"dimg", 1, &[2, 3])]);
    let (file, _) = file_with(b"avif", &head, &payload(10));
    let parser = AvifParser::from_bytes(&file).unwrap();
    let grid = parser.grid_config().expect("grid");
    assert_eq!((grid.rows, grid.columns, grid.output_width, grid.output_height), (2, 1, 0, 0));
}

#[test]
fn grid_tiles_are_ordered_by_reference_index() {
    let bytes = payload(10);
    // Two reference boxes: their indices are 0, 1 and 0. A stable sort
    // by index puts item 4 (index 0 of the second box) after item 2.
    let head = |at: u32| {
        grid_meta(
            at,
            &[],
            ipma(&[]),
            &[reference(b"dimg", 1, &[2, 3]), reference(b"dimg", 1, &[4])],
        )
    };
    let (file, _) = file_with(b"avif", &head, &bytes);
    let parser = AvifParser::from_bytes(&file).unwrap();
    assert_eq!(parser.grid_tile_count(), 3);
    assert_eq!(&*parser.tile_data(0).unwrap(), &bytes[1..3]);
    assert_eq!(&*parser.tile_data(1).unwrap(), &bytes[6..10]);
    assert_eq!(&*parser.tile_data(2).unwrap(), &bytes[3..6]);
}

#[test]
fn grid_tile_without_location_fails_the_parse() {
    let head = |at: u32| grid_meta(at, &[], ipma(&[]), &[reference(b"dimg", 1, &[2, 9])]);
    let (file, _) = file_with(b"avif", &head, &payload(10));
    match AvifParser::from_bytes(&file) {
        Err(Error::InvalidData(msg)) => assert_eq!(msg, "item not found in iloc"),
        other => panic!("unexpected: {:?}", other.map(|_| ())),
    }
}

#[test]
fn grid_tile_limit() {
    let head = |at: u32| grid_meta(at, &[], ipma(&[]), &[reference(b"dimg", 1, &[2, 3, 4])]);
    let (file, _) = file_with(b"avif", &head, &payload(10));
    let config = DecodeConfig::default().with_max_grid_tiles(2);
    match AvifParser::from_bytes_with_config(&file, &config, &never) {
        Err(Error::ResourceLimitExceeded(msg)) => assert_eq!(msg, "grid tile count limit exceeded"),
        other => panic!("unexpected: {:?}", other.map(|_| ())),
    }
    let config = DecodeConfig::default().with_max_grid_tiles(3);
    assert!(AvifParser::from_bytes_with_config(&file, &config, &never).is_ok());
}

#[test]
fn grid_megapixel_limit() {
    let head = |at: u32| {
        grid_meta(
            at,
            &[ispe(6400, 2880), ispe(1280, 720)],
            ipma(&[(1, &[1]), (2, &[2])]),
            &[reference(b"dimg", 1, &[2, 3, 4])],
        )
    };
    let (file, _) = file_with(b"avif", &head, &payload(10));
    // 6400 * 2880 = 18 432 000 pixels: 18 whole megapixels.
    let config = DecodeConfig::default().with_total_megapixels_limit(17);
    match AvifParser::from_bytes_with_config(&file, &config, &never) {
        Err(Error::ResourceLimitExceeded(msg)) => {
            assert_eq!(msg, "total megapixels limit exceeded")
        }
        other => panic!("unexpected: {:?}", other.map(|_| ())),
    }
    let config = DecodeConfig::default().with_total_megapixels_limit(18);
    assert!(AvifParser::from_bytes_with_config(&file, &config, &never).is_ok());
}

// ---------------------------------------------------------------------------
// Structure errors
// ---------------------------------------------------------------------------

fn parse_error(file: &[u8]) -> Error {
    match AvifParser::from_bytes(file) {
        Err(e) => e,
        Ok(_) => panic!("the file should be rejected"),
    }
}

#[test]
fn ftyp_must_come_first_with_an_accepted_brand() {
    let head = still_meta(&[(0, 1)]);
    let e = parse_error(&cat(&[head.clone(), ftyp(b"avif")]));
    assert!(matches!(e, Error::InvalidData("'ftyp' box must occur first")));
    let e = parse_error(&cat(&[ftyp(b"heic"), head.clone()]));
    assert!(matches!(e, Error::InvalidData("ftyp must be 'avif' or 'avis'")));
    assert!(AvifParser::from_bytes(&cat(&[ftyp(b"avis"), head])).is_ok());
}

#[test]
fn ftyp_with_a_ragged_brand_list() {
    let mut body = b"avif".to_vec();
    body.extend_from_slice(&[0, 0, 0, 0, b'm', b'i']);
    let e = parse_error(&cat(&[bx(b"ftyp", &body), still_meta(&[(0, 1)])]));
    assert!(matches!(e, Error::InvalidData("invalid ftyp size")));
}

#[test]
fn meta_is_required_and_unique() {
    assert!(matches!(parse_error(&ftyp(b"avif")), Error::InvalidData("missing meta")));
    assert!(matches!(parse_error(&[]), Error::InvalidData("missing meta")));
    let head = still_meta(&[(0, 1)]);
    let e = parse_error(&cat(&[ftyp(b"avif"), head.clone(), head]));
    assert_eq!(
        message(&e),
        "There should be zero or one meta boxes per ISO 14496-12:2015 \u{a7} 8.11.1.1"
    );
}

#[test]
fn meta_needs_pitm_iinf_and_iloc() {
    let file = |children: &[Vec<u8>]| cat(&[ftyp(b"avif"), meta(children)]);
    let e = parse_error(&file(&[iinf(&[infe(1, b"av01")]), iloc(&[loc(1, &[(0, 1)])])]));
    assert_eq!(message(&e), "Required pitm box not present in meta box");
    let e = parse_error(&file(&[pitm(1), iloc(&[loc(1, &[(0, 1)])])]));
    assert_eq!(message(&e), "iinf missing");
    let e = parse_error(&file(&[pitm(1), iinf(&[infe(1, b"av01")])]));
    assert_eq!(message(&e), "iloc missing");
    let e = parse_error(&file(&[pitm(2), iinf(&[infe(1, b"av01")]), iloc(&[loc(1, &[(0, 1)])])]));
    assert_eq!(message(&e), "primary_item_id not present in iinf box");
    let e = parse_error(&file(&[pitm(1), iinf(&[infe(1, b"hvc1")]), iloc(&[loc(1, &[(0, 1)])])]));
    assert_eq!(message(&e), "primary_item_id type is not av01 or grid");
    let e = parse_error(&file(&[pitm(1), iinf(&[infe(1, b"av01")]), iloc(&[loc(2, &[(0, 1)])])]));
    assert_eq!(message(&e), "item not found in iloc");
}

#[test]
fn unsupported_features_are_named() {
    let file = |children: &[Vec<u8>]| cat(&[ftyp(b"avif"), meta(children)]);
    let item = Loc { id: 1, method: 2, extents: vec![(0, 1)] };
    let e = parse_error(&file(&[pitm(1), iinf(&[infe(1, b"av01")]), iloc(&[item])]));
    assert!(matches!(e, Error::Unsupported("construction_method 'item_offset' is not supported")));
    let item = Loc { id: 1, method: 3, extents: vec![(0, 1)] };
    let e = parse_error(&file(&[pitm(1), iinf(&[infe(1, b"av01")]), iloc(&[item])]));
    assert!(matches!(e, Error::InvalidData(_)));

    let mut protected = Vec::new();
    protected.extend_from_slice(&1u16.to_be_bytes());
    protected.extend_from_slice(&1u16.to_be_bytes());
    protected.extend_from_slice(b"av01");
    let e = parse_error(&file(&[pitm(1), iinf(&[full(b"infe", 2, 0, &protected)])]));
    assert_eq!(
        message(&e),
        "protected items (infe.item_protection_index != 0) are not supported"
    );
    let e = parse_error(&file(&[full(b"pitm", 2, 0, &[0, 1])]));
    assert!(matches!(e, Error::Unsupported("unsupported pitm version")));
    let e = parse_error(&cat(&[ftyp(b"avif"), full(b"meta", 1, 0, &[])]));
    assert!(matches!(e, Error::Unsupported("unsupported meta version")));
}

#[test]
fn iloc_with_external_data_or_without_extents() {
    let file = |body: &[u8]| {
        cat(&[ftyp(b"avif"), meta(&[pitm(1), iinf(&[infe(1, b"av01")]), full(b"iloc", 0, 0, body)])])
    };
    // Version 0: sizes 4/4, base 0; one item with data_reference_index 1.
    let e = parse_error(&file(&[0x44, 0x00, 0, 1, 0, 1, 0, 1, 0, 1, 0, 0, 0, 0, 0, 0, 0, 1]));
    assert_eq!(
        message(&e),
        "external file references (iloc.data_reference_index != 0) are not supported"
    );
    let e = parse_error(&file(&[0x44, 0x00, 0, 1, 0, 1, 0, 0, 0, 0]));
    assert!(matches!(e, Error::InvalidData(_)));
    assert!(message(&e).starts_with("extent_count must have a value 1 or greater"));
    let e = parse_error(&file(&[0x34, 0x00, 0, 0]));
    assert!(matches!(e, Error::InvalidData("value must be in the set {0, 4, 8}")));
    let e = parse_error(&file(&[0x44, 0x00, 0, 1, 0, 1]));
    assert!(matches!(e, Error::InvalidData("truncated bits")));
    let e = parse_error(&file(&[0x44, 0x00, 0, 0, 0xff]));
    assert!(matches!(e, Error::InvalidData("invalid iloc size")));
    let bad_version = cat(&[
        ftyp(b"avif"),
        meta(&[pitm(1), iinf(&[infe(1, b"av01")]), full(b"iloc", 3, 0, &[0x44, 0, 0, 0])]),
    ]);
    assert!(matches!(
        parse_error(&bad_version),
        Error::Unsupported("unsupported version in 'iloc' box")
    ));
}

#[test]
fn iloc_offsets_that_overflow() {
    // Version 0, offset and length of 8 bytes, base offset of 8 bytes.
    let mut body = vec![0x88, 0x80, 0, 1, 0, 1, 0, 0];
    body.extend_from_slice(&u64::MAX.to_be_bytes());
    body.extend_from_slice(&[0, 1]);
    body.extend_from_slice(&1u64.to_be_bytes());
    body.extend_from_slice(&1u64.to_be_bytes());
    let file = cat(&[
        ftyp(b"avif"),
        meta(&[pitm(1), iinf(&[infe(1, b"av01")]), full(b"iloc", 0, 0, &body)]),
    ]);
    assert!(matches!(parse_error(&file), Error::InvalidData("offset calculation overflow")));
    let mut body = vec![0x88, 0x80, 0, 1, 0, 1, 0, 0];
    body.extend_from_slice(&(u64::MAX - 1).to_be_bytes());
    body.extend_from_slice(&[0, 1]);
    body.extend_from_slice(&1u64.to_be_bytes());
    body.extend_from_slice(&1u64.to_be_bytes());
    let file = cat(&[
        ftyp(b"avif"),
        meta(&[pitm(1), iinf(&[infe(1, b"av01")]), full(b"iloc", 0, 0, &body)]),
    ]);
    assert!(matches!(parse_error(&file), Error::InvalidData("end calculation overflow")));
}

#[test]
fn references_of_an_item_to_itself_are_rejected() {
    let file = cat(&[
        ftyp(b"avif"),
        meta(&[
            pitm(1),
            iinf(&[infe(1, b"av01")]),
            iloc(&[loc(1, &[(0, 1)])]),
            iref(&[reference(b"auxl", 1, &[1])]),
        ]),
    ]);
    assert!(matches!(
        parse_error(&file),
        Error::InvalidData("from_item_id and to_item_id must be different")
    ));
}

#[test]
fn boxes_with_unread_content_are_rejected() {
    let mut long_pitm = 1u16.to_be_bytes().to_vec();
    long_pitm.push(0);
    let file = cat(&[
        ftyp(b"avif"),
        meta(&[full(b"pitm", 0, 0, &long_pitm), iinf(&[infe(1, b"av01")]), iloc(&[loc(1, &[(0, 1)])])]),
    ]);
    assert!(matches!(
        parse_error(&file),
        Error::InvalidData("unread box content or bad parser sync")
    ));
}

#[test]
fn truncated_mdat_is_rejected_but_one_that_runs_to_the_end_is_fine() {
    let bytes = payload(20);
    let (mut file, offset) = file_with(b"avif", &|at| still_meta(&[(at, 0)]), &bytes);
    file.truncate(file.len() - 5);
    assert!(matches!(
        parse_error(&file),
        Error::InvalidData("unread box content or bad parser sync")
    ));
    // Declare the size as 0: the box runs to the end of the file.
    let start = offset as usize - 8;
    file[start..start + 4].copy_from_slice(&[0, 0, 0, 0]);
    let parser = AvifParser::from_bytes(&file).unwrap();
    assert_eq!(&*parser.primary_data().unwrap(), &bytes[..15]);
}

#[test]
fn malformed_box_sizes_are_rejected() {
    let file = cat(&[ftyp(b"avif"), vec![0, 0, 0, 4, b'f', b'r', b'e', b'e']]);
    assert!(matches!(parse_error(&file), Error::InvalidData("malformed size")));
}

#[test]
fn unknown_boxes_are_skipped() {
    let bytes = payload(20);
    let head = |at: u32| cat(&[bx(b"free", &[1, 2, 3]), still_meta(&[(at, 20)]), bx(b"skip", &[])]);
    let (file, _) = file_with(b"avif", &head, &bytes);
    let parser = AvifParser::from_bytes(&file).unwrap();
    assert_eq!(&*parser.primary_data().unwrap(), &bytes[..]);
}

#[test]
fn lenient_parsing_accepts_flags_and_long_pixi() {
    let bytes = payload(8);
    let flagged = |at: u32| {
        meta(&[
            full(b"pitm", 0, 1, &1u16.to_be_bytes()),
            iinf(&[infe(1, b"av01")]),
            iloc(&[loc(1, &[(at, 8)])]),
        ])
    };
    let (file, _) = file_with(b"avif", &flagged, &bytes);
    assert!(matches!(parse_error(&file), Error::Unsupported("expected flags to be 0")));
    let config = DecodeConfig::unlimited().lenient(true);
    let parser = AvifParser::from_bytes_with_config(&file, &config, &never).unwrap();
    assert_eq!(parser.primary_data().unwrap().len(), 8);

    let long_pixi = |at: u32| {
        meta(&[
            pitm(1),
            iinf(&[infe(1, b"av01")]),
            iloc(&[loc(1, &[(at, 8)])]),
            iprp(&[full(b"pixi", 0, 0, &[1, 8, 0xde, 0xad])], ipma(&[(1, &[1])])),
        ])
    };
    let (file, _) = file_with(b"avif", &long_pixi, &bytes);
    assert!(matches!(
        parse_error(&file),
        Error::InvalidData("unread box content or bad parser sync")
    ));
    assert!(AvifParser::from_bytes_with_config(&file, &config, &never).is_ok());
}

// ---------------------------------------------------------------------------
// Cancellation
// ---------------------------------------------------------------------------

struct ImmediatelyCancelled;

impl Stop for ImmediatelyCancelled {
    fn check(&self) -> Result<(), StopReason> {
        Err(StopReason::Cancelled)
    }
}

#[test]
fn cancelled_parse_reports_the_reason() {
    let bytes = payload(8);
    let (file, _) = file_with(b"avif", &|at| still_meta(&[(at, 8)]), &bytes);
    let config = DecodeConfig::default();
    let token = ImmediatelyCancelled;
    let result = AvifParser::from_bytes_with_config(&file, &config, &|| token.check());
    match result {
        Err(Error::Stopped(reason)) => assert_eq!(reason, StopReason::Cancelled),
        other => panic!("unexpected: {:?}", other.map(|_| ())),
    }
    let result = AvifParser::from_owned_with_config(file.clone(), &config, &|| {
        Err(StopReason::TimedOut)
    });
    match result {
        Err(Error::Stopped(reason)) => assert_eq!(reason, StopReason::TimedOut),
        other => panic!("unexpected: {:?}", other.map(|_| ())),
    }
    let result = zenavif_parse::read_avif_with_config(&file, &config, &|| token.check());
    assert!(matches!(result, Err(Error::Stopped(StopReason::Cancelled))));
}

#[test]
fn stop_is_not_asked_before_the_first_box_is_accepted() {
    let token = ImmediatelyCancelled;
    let config = DecodeConfig::default();
    let file = cat(&[ftyp(b"heic"), still_meta(&[(0, 1)])]);
    let result = AvifParser::from_bytes_with_config(&file, &config, &|| token.check());
    assert!(matches!(result, Err(Error::InvalidData("ftyp must be 'avif' or 'avis'"))));
    let only_ftyp = ftyp(b"avif");
    let result = AvifParser::from_bytes_with_config(&only_ftyp, &config, &|| token.check());
    assert!(matches!(result, Err(Error::InvalidData("missing meta"))));
}

#[test]
fn unstoppable_parse_completes() {
    let bytes = payload(8);
    let (file, _) = file_with(b"avif", &|at| still_meta(&[(at, 8)]), &bytes);
    let config = DecodeConfig::default();
    let result = AvifParser::from_bytes_with_config(&file, &config, &|| Unstoppable.check());
    assert!(result.is_ok());
}

// ---------------------------------------------------------------------------
// Larger files, and broken ones
// ---------------------------------------------------------------------------

/// A grid of five columns and four rows: twenty tiles of 1280 by 720 on a
/// canvas of 6400 by 2880, laid out by the dimensions alone.
fn grid_5x4(at: u32) -> Vec<u8> {
    let mut infos = vec![infe(1, b"grid")];
    let mut locations = vec![Loc { id: 1, method: 1, extents: vec![(0, 8)] }];
    let mut associations: Vec<(u16, Vec<u8>)> = vec![(1, vec![1])];
    let mut tile_ids = Vec::new();
    for i in 0..20u16 {
        let id = 2 + i;
        infos.push(infe(id, b"av01"));
        locations.push(loc(id, &[(at + 5 * i as u32, 5)]));
        associations.push((id, vec![0x82]));
        tile_ids.push(id);
    }
    let associations: Vec<(u16, &[u8])> =
        associations.iter().map(|(id, v)| (*id, v.as_slice())).collect();
    meta(&[
        pitm(1),
        iinf(&infos),
        iloc(&locations),
        iref(&[reference(b"dimg", 1, &tile_ids)]),
        iprp(&[ispe(6400, 2880), ispe(1280, 720)], ipma(&associations)),
        bx(b"idat", &[0, 3, 4, 0x19, 0, 0x0b, 0x40, 0]),
    ])
}

#[test]
fn grid_of_five_by_four_tiles() {
    let bytes = payload(100);
    let (file, offset) = file_with(b"avif", &grid_5x4, &bytes);
    let parser = AvifParser::from_bytes(&file).unwrap();
    let grid = parser.grid_config().expect("grid");
    assert_eq!(
        (grid.rows, grid.columns, grid.output_width, grid.output_height),
        (4, 5, 6400, 2880)
    );
    assert_eq!(parser.grid_tile_count(), 20);
    assert_eq!(parser.grid_tile_count(), grid.rows as usize * grid.columns as usize);
    for i in 0..20 {
        let tile = parser.tile_data(i).unwrap();
        assert!(!tile.is_empty());
        assert!(matches!(tile, Cow::Borrowed(_)));
        assert_eq!(&*tile, &bytes[5 * i..5 * i + 5]);
        let at = tile.as_ptr() as usize - file.as_ptr() as usize;
        assert_eq!(at, offset as usize + 5 * i);
    }
    assert!(parser.primary_data().unwrap().is_empty());
    let data = parser.to_avif_data().unwrap();
    assert!(data.primary_item.is_empty());
    assert_eq!(data.grid_tiles.len(), 20);
    assert_eq!(data.grid_tiles[19], &bytes[95..100]);
    assert_eq!(data.grid_config, Some(*grid));
}

/// Every way of reading `file`: none may panic, and what is handed out
/// must lie inside the buffers.
fn read_everything(file: &[u8]) {
    let parser = match AvifParser::from_bytes(file) {
        Ok(parser) => parser,
        Err(_) => return,
    };
    // A borrowed slice is part of the file or of its idat payload.
    if let Ok(Cow::Borrowed(data)) = parser.primary_data() {
        assert!(data.len() <= file.len());
    }
    if let Some(Ok(Cow::Borrowed(data))) = parser.alpha_data() {
        assert!(data.len() <= file.len());
    }
    let _ = parser.primary_metadata();
    let _ = parser.alpha_metadata();
    for i in 0..parser.grid_tile_count() + 1 {
        let _ = parser.tile_data(i);
    }
    let count = parser.animation_info().map(|info| info.frame_count).unwrap_or(0);
    for i in 0..count.min(64) + 1 {
        if let Ok(frame) = parser.frame(i) {
            let start = frame.data.as_ptr() as usize;
            let base = file.as_ptr() as usize;
            assert!(base <= start && start + frame.data.len() <= base + file.len());
        }
    }
    let _ = parser.to_avif_data();
    let _ = zenavif_parse::read_avif(file);
}

#[test]
fn corrupt_files_never_panic() {
    let bytes = payload(40);
    let samples = [
        file_with(b"avif", &|at| still_meta(&[(at, 8), (at + 8, 0)]), &bytes).0,
        file_with(b"avif", &|at| alpha_meta(at, true, ALPHA_URN), &bytes).0,
        file_with(b"avif", &grid_5x4, &payload(100)).0,
    ];
    for sample in &samples {
        read_everything(sample);
        for len in 0..sample.len() {
            read_everything(&sample[..len]);
        }
        let mut broken = sample.clone();
        for at in 0..sample.len() {
            for value in [0x00u8, 0x01, 0x7f, 0x80, 0xff] {
                broken[at] = value;
                read_everything(&broken);
                broken[at] = sample[at].wrapping_add(value);
                read_everything(&broken);
            }
            broken[at] = sample[at];
        }
    }
}

#[test]
fn eager_read_meets_the_memory_limit_before_anything_that_follows() {
    let file: [u8; 26] = [
        0, 0, 0, 16, b'f', b't', b'y', b'p', b'a', b'v', b'i', b'f', 0, 0, 0, 0, 0, 0, 0, 10,
        b'm', b'd', b'a', b't', 0xaa, 0xbb,
    ];
    let config = DecodeConfig::default().with_peak_memory_limit(1);
    match zenavif_parse::read_avif_with_config(&file, &config, &never) {
        Err(Error::ResourceLimitExceeded(msg)) => assert_eq!(msg, "peak memory limit exceeded"),
        other => panic!("unexpected: {:?}", other.map(|_| ())),
    }
    // A payload within the limit is passed, and the file found wanting.
    let config = DecodeConfig::default().with_peak_memory_limit(2);
    match zenavif_parse::read_avif_with_config(&file, &config, &never) {
        Err(Error::InvalidData(msg)) => assert_eq!(msg, "missing meta"),
        other => panic!("unexpected: {:?}", other.map(|_| ())),
    }
    // The quota error also comes before the error of a later box.
    let mut broken = file.to_vec();
    broken.extend_from_slice(&[0, 0, 0, 3, b'f', b'r', b'e', b'e']);
    let config = DecodeConfig::default().with_peak_memory_limit(1);
    assert!(matches!(
        zenavif_parse::read_avif_with_config(&broken, &config, &never),
        Err(Error::ResourceLimitExceeded("peak memory limit exceeded"))
    ));
    let config = DecodeConfig::unlimited();
    assert!(matches!(
        zenavif_parse::read_avif_with_config(&broken, &config, &never),
        Err(Error::InvalidData("malformed size"))
    ));
    // The parser copies no payload and does not hold it against the limit.
    let config = DecodeConfig::default().with_peak_memory_limit(1);
    assert!(matches!(
        AvifParser::from_bytes_with_config(&file, &config, &never),
        Err(Error::InvalidData("missing meta"))
    ));
}

#[test]
fn wide_sizes_below_the_minimum_are_malformed() {
    let mut file = ftyp(b"avif");
    file.extend_from_slice(&[0, 0, 0, 1, b'm', b'd', b'a', b't', 0, 0, 0, 0, 0, 0, 0, 15]);
    assert!(matches!(parse_error(&file), Error::InvalidData("malformed size")));
    let mut file = ftyp(b"avif");
    file.extend_from_slice(&[0, 0, 0, 1, b'm', b'd', b'a', b't', 0, 0, 0, 0, 0, 0, 0, 16]);
    assert!(matches!(parse_error(&file), Error::InvalidData("missing meta")));
}
