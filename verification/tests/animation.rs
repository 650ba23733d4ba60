#![allow(dead_code)]
use std::borrow::Cow;
use std::cell::Cell;
use zenavif_parse::{AvifParser, DecodeConfig, Error, StopReason, Unstoppable, Stop};

fn bx(kind: &[u8; 4], payload: &[u8]) -> Vec<u8> {
    let mut out = Vec::new();
    out.extend_from_slice(&((payload.len() as u32 + 8).to_be_bytes()));
    out.extend_from_slice(kind);
    out.extend_from_slice(payload);
    out
}

fn full(kind: &[u8; 4], version: u8, flags: u32, payload: &[u8]) -> Vec<u8> {
    let mut body = vec![version, (flags >> 16) as u8, (flags >> 8) as u8, flags as u8];
    body.extend_from_slice(payload);
    bx(kind, &body)
}

fn cat(parts: &[Vec<u8>]) -> Vec<u8> {
    parts.iter().flat_map(|p| p.iter().copied()).collect()
}

fn ftyp(major: &[u8; 4]) -> Vec<u8> {
    let mut body = Vec::new();
    body.extend_from_slice(major);
    body.extend_from_slice(&0u32.to_be_bytes());
    body.extend_from_slice(b"mif1");
    body.extend_from_slice(b"miaf");
    bx(b"ftyp", &body)
}

fn pitm(id: u16) -> Vec<u8> {
    full(b"pitm", 0, 0, &id.to_be_bytes())
}

fn infe(id: u16, kind: &[u8; 4]) -> Vec<u8> {
    let mut body = Vec::new();
    body.extend_from_slice(&id.to_be_bytes());
    body.extend_from_slice(&0u16.to_be_bytes());
    body.extend_from_slice(kind);
    body.push(0);
    full(b"infe", 2, 0, &body)
}

fn iinf(entries: &[Vec<u8>]) -> Vec<u8> {
    let mut body = Vec::new();
    body.extend_from_slice(&(entries.len() as u16).to_be_bytes());
    body.extend_from_slice(&cat(entries));
    full(b"iinf", 0, 0, &body)
}

struct Loc {
    id: u16,
    method: u16,
    extents: Vec<(u32, u32)>,
}

fn loc(id: u16, extents: &[(u32, u32)]) -> Loc {
    Loc { id, method: 0, extents: extents.to_vec() }
}

fn iloc(items: &[Loc]) -> Vec<u8> {
    let mut body = vec![0x44, 0x00];
    body.extend_from_slice(&(items.len() as u16).to_be_bytes());
    for item in items {
        body.extend_from_slice(&item.id.to_be_bytes());
        body.extend_from_slice(&item.method.to_be_bytes());
        body.extend_from_slice(&0u16.to_be_bytes());
        body.extend_from_slice(&(item.extents.len() as u16).to_be_bytes());
        for (offset, length) in &item.extents {
            body.extend_from_slice(&offset.to_be_bytes());
            body.extend_from_slice(&length.to_be_bytes());
        }
    }
    full(b"iloc", 1, 0, &body)
}

fn reference(kind: &[u8; 4], from: u16, to: &[u16]) -> Vec<u8> {
    let mut body = Vec::new();
    body.extend_from_slice(&from.to_be_bytes());
    body.extend_from_slice(&(to.len() as u16).to_be_bytes());
    for id in to {
        body.extend_from_slice(&id.to_be_bytes());
    }
    bx(kind, &body)
}

fn iref(references: &[Vec<u8>]) -> Vec<u8> {
    full(b"iref", 0, 0, &cat(references))
}

fn ispe(width: u32, height: u32) -> Vec<u8> {
    let mut body = Vec::new();
    body.extend_from_slice(&width.to_be_bytes());
    body.extend_from_slice(&height.to_be_bytes());
    full(b"ispe", 0, 0, &body)
}

fn pixi(depths: &[u8]) -> Vec<u8> {
    let mut body = vec![depths.len() as u8];
    body.extend_from_slice(depths);
    full(b"pixi", 0, 0, &body)
}

const ALPHA_URN: &[u8] = b"urn:mpeg:mpegB:cicp:systems:auxiliary:alpha";

fn auxc(urn: &[u8]) -> Vec<u8> {
    let mut body = urn.to_vec();
    body.push(0);
    full(b"auxC", 0, 0, &body)
}

fn grid_box(rows: u8, columns: u8, width: u16, height: u16) -> Vec<u8> {
    let mut body = vec![0, rows, columns];
    body.extend_from_slice(&width.to_be_bytes());
    body.extend_from_slice(&height.to_be_bytes());
    full(b"grid", 0, 0, &body)
}

fn ipma(entries: &[(u16, &[u8])]) -> Vec<u8> {
    let mut body = Vec::new();
    body.extend_from_slice(&(entries.len() as u32).to_be_bytes());
    for (item, indices) in entries {
        body.extend_from_slice(&item.to_be_bytes());
        body.push(indices.len() as u8);
        body.extend_from_slice(indices);
    }
    full(b"ipma", 0, 0, &body)
}

fn iprp(properties: &[Vec<u8>], associations: Vec<u8>) -> Vec<u8> {
    bx(b"iprp", &cat(&[bx(b"ipco", &cat(properties)), associations]))
}

fn meta(children: &[Vec<u8>]) -> Vec<u8> {
    full(b"meta", 0, 0, &cat(children))
}

fn mdat(payload: &[u8]) -> Vec<u8> {
    bx(b"mdat", payload)
}

/// A file made of `ftyp`, the boxes that `head` makes, and one `mdat` box
/// with `payload`. `head` is given the file offset of the payload.
fn file_with(major: &[u8; 4], head: &dyn Fn(u32) -> Vec<u8>, payload: &[u8]) -> (Vec<u8>, u32) {
    let start = ftyp(major);
    let offset = (start.len() + head(0).len() + 8) as u32;
    let file = cat(&[start, head(offset), mdat(payload)]);
    assert_eq!(&file[offset as usize..], payload);
    (file, offset)
}

fn payload(len: usize) -> Vec<u8> {
    (0..len).map(|i| (i * 7 + 3) as u8).collect()
}

fn still_meta(extents: &[(u32, u32)]) -> Vec<u8> {
    meta(&[pitm(1), iinf(&[infe(1, b"av01")]), iloc(&[loc(1, extents)])])
}

fn never() -> Result<(), StopReason> {
    Unstoppable.check()
}


// ---------------------------------------------------------------------------
// Building movies
// ---------------------------------------------------------------------------

fn u32s(values: &[u32]) -> Vec<u8> {
    values.iter().flat_map(|v| v.to_be_bytes()).collect()
}

fn mvhd() -> Vec<u8> {
    let mut body = u32s(&[0, 0, 1000, 500]);
    body.extend_from_slice(&[0; 80]);
    full(b"mvhd", 0, 0, &body)
}

fn tkhd(track_id: u32) -> Vec<u8> {
    let mut body = u32s(&[0, 0, track_id, 0, 500]);
    body.extend_from_slice(&[0; 60]);
    full(b"tkhd", 0, 0, &body)
}

fn mdhd(timescale: u32) -> Vec<u8> {
    let mut body = u32s(&[0, 0, timescale, 500]);
    body.extend_from_slice(&[0x55, 0xc4, 0, 0]);
    full(b"mdhd", 0, 0, &body)
}

fn mdhd_v1(timescale: u32) -> Vec<u8> {
    let mut body = Vec::new();
    body.extend_from_slice(&0u64.to_be_bytes());
    body.extend_from_slice(&0u64.to_be_bytes());
    body.extend_from_slice(&timescale.to_be_bytes());
    body.extend_from_slice(&500u64.to_be_bytes());
    body.extend_from_slice(&[0x55, 0xc4, 0, 0]);
    full(b"mdhd", 1, 0, &body)
}

fn hdlr(kind: &[u8; 4]) -> Vec<u8> {
    let mut body = u32s(&[0]);
    body.extend_from_slice(kind);
    body.extend_from_slice(&[0; 13]);
    full(b"hdlr", 0, 0, &body)
}

fn stts(entries: &[(u32, u32)]) -> Vec<u8> {
    let mut body = u32s(&[entries.len() as u32]);
    for (count, delta) in entries {
        body.extend_from_slice(&u32s(&[*count, *delta]));
    }
    full(b"stts", 0, 0, &body)
}

fn stsc(entries: &[(u32, u32)]) -> Vec<u8> {
    let mut body = u32s(&[entries.len() as u32]);
    for (first_chunk, samples_per_chunk) in entries {
        body.extend_from_slice(&u32s(&[*first_chunk, *samples_per_chunk, 1]));
    }
    full(b"stsc", 0, 0, &body)
}

fn stsz(sizes: &[u32]) -> Vec<u8> {
    let mut body = u32s(&[0, sizes.len() as u32]);
    body.extend_from_slice(&u32s(sizes));
    full(b"stsz", 0, 0, &body)
}

fn stsz_constant(size: u32, count: u32) -> Vec<u8> {
    full(b"stsz", 0, 0, &u32s(&[size, count]))
}

fn stco(offsets: &[u32]) -> Vec<u8> {
    let mut body = u32s(&[offsets.len() as u32]);
    body.extend_from_slice(&u32s(offsets));
    full(b"stco", 0, 0, &body)
}

fn co64(offsets: &[u64]) -> Vec<u8> {
    let mut body = u32s(&[offsets.len() as u32]);
    for offset in offsets {
        body.extend_from_slice(&offset.to_be_bytes());
    }
    full(b"co64", 0, 0, &body)
}

fn elst(flags: u32) -> Vec<u8> {
    bx(b"edts", &full(b"elst", 0, flags, &u32s(&[1, 500, 0, 0x0001_0000])))
}

fn tref_auxl(track_id: u32) -> Vec<u8> {
    bx(b"tref", &bx(b"auxl", &u32s(&[track_id])))
}

fn trak(header: &[Vec<u8>], handler: &[u8; 4], timescale: u32, tables: &[Vec<u8>]) -> Vec<u8> {
    let minf = bx(b"minf", &cat(&[bx(b"vmhd", &[0; 12]), bx(b"stbl", &cat(tables))]));
    let mdia = bx(b"mdia", &cat(&[mdhd(timescale), hdlr(handler), minf]));
    bx(b"trak", &cat(&[cat(header), mdia]))
}

fn moov(tracks: &[Vec<u8>]) -> Vec<u8> {
    bx(b"moov", &cat(&[mvhd(), cat(tracks)]))
}

/// Five frames of sizes 3, 4, 5, 6 and 7 in two chunks: three samples in
/// the first chunk, two in the second. The second chunk lies 40 bytes into
/// the payload.
fn colour_tables(at: u32) -> Vec<Vec<u8>> {
    vec![
        stts(&[(2, 100), (3, 50)]),
        stsc(&[(1, 3), (2, 2)]),
        stsz(&[3, 4, 5, 6, 7]),
        stco(&[at, at + 40]),
    ]
}

fn animated(at: u32, flags: Option<u32>) -> Vec<u8> {
    let mut header = vec![tkhd(1)];
    if let Some(flags) = flags {
        header.push(elst(flags));
    }
    cat(&[still_meta(&[(at, 3)]), moov(&[trak(&header, b"pict", 1000, &colour_tables(at))])])
}

// ---------------------------------------------------------------------------
// Animations
// ---------------------------------------------------------------------------

#[test]
fn frames_are_located_through_the_sample_table() {
    let bytes = payload(64);
    let (file, offset) = file_with(b"avis", &|at| animated(at, None), &bytes);
    let parser = AvifParser::from_bytes(&file).unwrap();
    let info = parser.animation_info().expect("animation");
    assert_eq!(info.frame_count, 5);
    assert_eq!(info.media_timescale, 1000);
    assert!(!info.has_alpha);
    let expected: [(usize, usize); 5] = [(0, 3), (3, 7), (7, 12), (40, 46), (46, 53)];
    for (i, (start, end)) in expected.iter().enumerate() {
        let frame = parser.frame(i).unwrap();
        assert!(matches!(frame.data, Cow::Borrowed(_)));
        assert_eq!(&*frame.data, &bytes[*start..*end], "frame {}", i);
        assert!(frame.alpha_data.is_none());
        // The bytes are those at the offset that the sample table gives.
        let at = frame.data.as_ptr() as usize - file.as_ptr() as usize;
        assert_eq!(at, offset as usize + start);
    }
}

#[test]
fn frame_durations_follow_the_time_to_sample_table() {
    let bytes = payload(64);
    let (file, _) = file_with(b"avis", &|at| animated(at, None), &bytes);
    let parser = AvifParser::from_bytes(&file).unwrap();
    let durations: Vec<u32> = (0..5).map(|i| parser.frame(i).unwrap().duration_ms).collect();
    assert_eq!(durations, [100, 100, 50, 50, 50]);
}

#[test]
fn frame_duration_is_scaled_by_the_media_timescale() {
    let bytes = payload(64);
    let head = |at: u32| {
        let tables = vec![stts(&[(1, 1001), (1, 7)]), stsc(&[(1, 2)]), stsz(&[3, 4]), stco(&[at])];
        let minf = bx(b"minf", &bx(b"stbl", &cat(&tables)));
        let mdia = bx(b"mdia", &cat(&[mdhd_v1(30000), hdlr(b"pict"), minf]));
        cat(&[still_meta(&[(at, 3)]), moov(&[bx(b"trak", &cat(&[tkhd(1), mdia]))])])
    };
    let (file, _) = file_with(b"avis", &head, &bytes);
    let parser = AvifParser::from_bytes(&file).unwrap();
    assert_eq!(parser.animation_info().unwrap().media_timescale, 30000);
    // 1001 * 1000 / 30000 = 33.36..., 7 * 1000 / 30000 = 0.23...
    assert_eq!(parser.frame(0).unwrap().duration_ms, 33);
    assert_eq!(parser.frame(1).unwrap().duration_ms, 0);
}

#[test]
fn frame_index_out_of_bounds() {
    let bytes = payload(64);
    let (file, _) = file_with(b"avis", &|at| animated(at, None), &bytes);
    let parser = AvifParser::from_bytes(&file).unwrap();
    match parser.frame(5) {
        Err(Error::InvalidData(msg)) => assert_eq!(msg, "frame index out of bounds"),
        other => panic!("unexpected: {:?}", other.map(|f| f.duration_ms)),
    }
}

#[test]
fn still_image_has_no_frames() {
    let bytes = payload(16);
    let (file, _) = file_with(b"avif", &|at| still_meta(&[(at, 16)]), &bytes);
    let parser = AvifParser::from_bytes(&file).unwrap();
    match parser.frame(0) {
        Err(Error::InvalidData(msg)) => assert_eq!(msg, "not an animated AVIF"),
        other => panic!("unexpected: {:?}", other.map(|f| f.duration_ms)),
    }
    let mut frames = parser.frames();
    assert_eq!(frames.len(), 0);
    assert!(frames.next().is_none());
}

#[test]
fn frames_can_be_walked_over_and_the_walk_restarted() {
    let bytes = payload(64);
    let (file, _) = file_with(b"avis", &|at| animated(at, None), &bytes);
    let parser = AvifParser::from_bytes(&file).unwrap();
    let mut frames = parser.frames();
    assert_eq!(frames.len(), 5);
    assert_eq!(frames.size_hint(), (5, Some(5)));
    let mut sizes = Vec::new();
    while let Some(frame) = frames.next() {
        sizes.push(frame.unwrap().data.len());
    }
    assert_eq!(sizes, [3, 4, 5, 6, 7]);
    assert_eq!(frames.len(), 0);
    assert!(frames.next().is_none());
    let mut again = parser.frames();
    assert_eq!(again.next().unwrap().unwrap().data.len(), 3);
    assert_eq!(again.len(), 4);
}

#[test]
fn loop_count_follows_the_edit_list_flags() {
    let bytes = payload(64);
    let (file, _) = file_with(b"avis", &|at| animated(at, Some(1)), &bytes);
    assert_eq!(AvifParser::from_bytes(&file).unwrap().animation_info().unwrap().loop_count, 0);
    let (file, _) = file_with(b"avis", &|at| animated(at, Some(0)), &bytes);
    assert_eq!(AvifParser::from_bytes(&file).unwrap().animation_info().unwrap().loop_count, 1);
    let (file, _) = file_with(b"avis", &|at| animated(at, None), &bytes);
    assert_eq!(AvifParser::from_bytes(&file).unwrap().animation_info().unwrap().loop_count, 0);
}

fn with_alpha(at: u32) -> Vec<u8> {
    let alpha_tables =
        vec![stts(&[(5, 100)]), stsc(&[(1, 5)]), stsz_constant(2, 5), co64(&[at as u64 + 20])];
    cat(&[
        still_meta(&[(at, 3)]),
        moov(&[
            trak(&[tkhd(1), elst(1)], b"pict", 1000, &colour_tables(at)),
            trak(&[tkhd(2), tref_auxl(1)], b"auxv", 1000, &alpha_tables),
        ]),
    ])
}

#[test]
fn alpha_track_gives_each_frame_an_alpha_slice() {
    let bytes = payload(64);
    let (file, _) = file_with(b"avis", &with_alpha, &bytes);
    let parser = AvifParser::from_bytes(&file).unwrap();
    let info = parser.animation_info().unwrap();
    assert!(info.has_alpha);
    assert_eq!(info.loop_count, 0);
    assert_eq!(info.frame_count, 5);
    for i in 0..5 {
        let frame = parser.frame(i).unwrap();
        let alpha = frame.alpha_data.expect("alpha slice");
        assert!(matches!(alpha, Cow::Borrowed(_)));
        assert_eq!(&*alpha, &bytes[20 + 2 * i..22 + 2 * i]);
    }
    assert_eq!(&*parser.frame(3).unwrap().data, &bytes[40..46]);
}

#[test]
fn alpha_track_that_is_too_short_fails_the_frame() {
    let bytes = payload(64);
    let head = |at: u32| {
        let alpha_tables =
            vec![stts(&[(2, 100)]), stsc(&[(1, 2)]), stsz_constant(2, 2), stco(&[at + 20])];
        cat(&[
            still_meta(&[(at, 3)]),
            moov(&[
                trak(&[tkhd(1)], b"pict", 1000, &colour_tables(at)),
                trak(&[tkhd(2), tref_auxl(1)], b"auxv", 1000, &alpha_tables),
            ]),
        ])
    };
    let (file, _) = file_with(b"avis", &head, &bytes);
    let parser = AvifParser::from_bytes(&file).unwrap();
    assert!(parser.frame(1).is_ok());
    match parser.frame(2) {
        Err(Error::InvalidData(msg)) => assert_eq!(msg, "sample index out of bounds"),
        other => panic!("unexpected: {:?}", other.map(|f| f.duration_ms)),
    }
}

#[test]
fn tracks_that_are_no_pictures_are_passed_over() {
    let bytes = payload(64);
    let head = |at: u32| {
        let sound = vec![stts(&[(9, 1)]), stsc(&[(1, 9)]), stsz_constant(1, 9), stco(&[at])];
        cat(&[
            still_meta(&[(at, 3)]),
            moov(&[
                trak(&[tkhd(7)], b"soun", 44100, &sound),
                trak(&[tkhd(1)], b"pict", 1000, &colour_tables(at)),
            ]),
        ])
    };
    let (file, _) = file_with(b"avis", &head, &bytes);
    let parser = AvifParser::from_bytes(&file).unwrap();
    let info = parser.animation_info().unwrap();
    assert_eq!(info.frame_count, 5);
    assert_eq!(info.media_timescale, 1000);
    assert!(!info.has_alpha);
    // A movie with a sound track only is no animation.
    let head = |at: u32| {
        let sound = vec![stts(&[(9, 1)]), stsc(&[(1, 9)]), stsz_constant(1, 9), stco(&[at])];
        cat(&[still_meta(&[(at, 3)]), moov(&[trak(&[tkhd(7)], b"soun", 44100, &sound)])])
    };
    let (file, _) = file_with(b"avis", &head, &bytes);
    assert!(AvifParser::from_bytes(&file).unwrap().animation_info().is_none());
}

#[test]
fn of_two_picture_tracks_the_first_counts() {
    let bytes = payload(64);
    let head = |at: u32| {
        let other = vec![stts(&[(1, 1)]), stsc(&[(1, 1)]), stsz(&[9]), stco(&[at])];
        cat(&[
            still_meta(&[(at, 3)]),
            moov(&[
                trak(&[tkhd(1)], b"pict", 1000, &colour_tables(at)),
                trak(&[tkhd(2)], b"vide", 90000, &other),
            ]),
        ])
    };
    let (file, _) = file_with(b"avis", &head, &bytes);
    let info = AvifParser::from_bytes(&file).unwrap().animation_info().unwrap();
    assert_eq!((info.frame_count, info.media_timescale), (5, 1000));
}

#[test]
fn frame_outside_the_file_fails_at_access() {
    let bytes = payload(64);
    let head = |at: u32| {
        let tables = vec![stts(&[(2, 10)]), stsc(&[(1, 2)]), stsz(&[60, 10]), stco(&[at])];
        cat(&[still_meta(&[(at, 3)]), moov(&[trak(&[tkhd(1)], b"pict", 1000, &tables)])])
    };
    let (file, _) = file_with(b"avis", &head, &bytes);
    let parser = AvifParser::from_bytes(&file).unwrap();
    assert_eq!(parser.frame(0).unwrap().data.len(), 60);
    match parser.frame(1) {
        Err(Error::InvalidData(msg)) => assert_eq!(msg, "frame not found in raw buffer"),
        other => panic!("unexpected: {:?}", other.map(|f| f.duration_ms)),
    }
}

#[test]
fn sample_without_a_chunk_is_not_found() {
    let bytes = payload(64);
    let head = |at: u32| {
        // Three samples, but one chunk of two samples only.
        let tables = vec![stts(&[(3, 10)]), stsc(&[(1, 2)]), stsz(&[1, 1, 1]), stco(&[at])];
        cat(&[still_meta(&[(at, 3)]), moov(&[trak(&[tkhd(1)], b"pict", 1000, &tables)])])
    };
    let (file, _) = file_with(b"avis", &head, &bytes);
    let parser = AvifParser::from_bytes(&file).unwrap();
    assert!(parser.frame(1).is_ok());
    match parser.frame(2) {
        Err(Error::InvalidData(msg)) => assert_eq!(msg, "sample not found in chunk table"),
        other => panic!("unexpected: {:?}", other.map(|f| f.duration_ms)),
    }
}

#[test]
fn animation_frame_limit() {
    let bytes = payload(64);
    let (file, _) = file_with(b"avis", &|at| animated(at, None), &bytes);
    let config = DecodeConfig::default().with_max_animation_frames(4);
    match AvifParser::from_bytes_with_config(&file, &config, &never) {
        Err(Error::ResourceLimitExceeded(msg)) => {
            assert_eq!(msg, "animation frame count limit exceeded")
        }
        other => panic!("unexpected: {:?}", other.map(|_| ())),
    }
    let config = DecodeConfig::default().with_max_animation_frames(5);
    assert!(AvifParser::from_bytes_with_config(&file, &config, &never).is_ok());
}

#[test]
fn truncated_sample_table_is_rejected() {
    let bytes = payload(64);
    let head = |at: u32| {
        let tables = vec![full(b"stts", 0, 0, &u32s(&[2, 1, 100])), stco(&[at])];
        cat(&[still_meta(&[(at, 3)]), moov(&[trak(&[tkhd(1)], b"pict", 1000, &tables)])])
    };
    let (file, _) = file_with(b"avis", &head, &bytes);
    assert!(matches!(AvifParser::from_bytes(&file), Err(Error::UnexpectedEOF)));
}

// ---------------------------------------------------------------------------
// The eager interface
// ---------------------------------------------------------------------------

#[test]
fn eager_read_copies_items_and_frames() {
    let bytes = payload(64);
    let (file, _) = file_with(b"avis", &with_alpha, &bytes);
    let data = zenavif_parse::read_avif(&file).unwrap();
    assert_eq!(data.primary_item, &bytes[..3]);
    assert!(data.alpha_item.is_none());
    assert!(data.grid_config.is_none());
    assert!(data.grid_tiles.is_empty());
    let animation = data.animation.expect("animation");
    assert_eq!(animation.loop_count, 0);
    let sizes: Vec<usize> = animation.frames.iter().map(|f| f.data.len()).collect();
    assert_eq!(sizes, [3, 4, 5, 6, 7]);
    assert_eq!(animation.frames[3].data, &bytes[40..46]);
    assert_eq!(animation.frames[2].duration_ms, 50);
    // The parser hands out the same.
    let parser = AvifParser::from_bytes(&file).unwrap();
    let again = parser.to_avif_data().unwrap();
    assert_eq!(format!("{:?}", again), format!("{:?}", zenavif_parse::read_avif(&file).unwrap()));
}

#[test]
fn eager_read_holds_each_mdat_against_the_memory_limit() {
    let bytes = payload(1001);
    let (file, _) = file_with(b"avif", &|at| still_meta(&[(at, 10)]), &bytes);
    let config = DecodeConfig::default().with_peak_memory_limit(1_000);
    match zenavif_parse::read_avif_with_config(&file, &config, &never) {
        Err(Error::ResourceLimitExceeded(msg)) => assert_eq!(msg, "peak memory limit exceeded"),
        other => panic!("unexpected: {:?}", other.map(|_| ())),
    }
    let config = DecodeConfig::default().with_peak_memory_limit(1_001);
    let data = zenavif_parse::read_avif_with_config(&file, &config, &never).unwrap();
    assert_eq!(data.primary_item, &bytes[..10]);
    // The parser itself copies no mdat and does not mind.
    let config = DecodeConfig::default().with_peak_memory_limit(1_000);
    assert!(AvifParser::from_bytes_with_config(&file, &config, &never).is_ok());
}

#[test]
fn eager_read_with_options() {
    let bytes = payload(8);
    let flagged = |at: u32| {
        meta(&[
            full(b"pitm", 0, 1, &1u16.to_be_bytes()),
            iinf(&[infe(1, b"av01")]),
            iloc(&[loc(1, &[(at, 8)])]),
        ])
    };
    let (file, _) = file_with(b"avif", &flagged, &bytes);
    let strict = zenavif_parse::ParseOptions { lenient: false };
    let lenient = zenavif_parse::ParseOptions { lenient: true };
    assert!(zenavif_parse::read_avif_with_options(&file, &strict).is_err());
    assert!(zenavif_parse::read_avif(&file).is_err());
    let data = zenavif_parse::read_avif_with_options(&file, &lenient).unwrap();
    assert_eq!(data.primary_item, bytes);
}

#[test]
fn eager_read_stops_between_frames() {
    let bytes = payload(64);
    let (file, _) = file_with(b"avis", &|at| animated(at, None), &bytes);
    // Three top-level boxes follow ftyp: the fourth question is asked
    // before the first frame is copied.
    let asked = Cell::new(0u32);
    let stop = || {
        asked.set(asked.get() + 1);
        if asked.get() > 3 {
            Err(StopReason::TimedOut)
        } else {
            Ok(())
        }
    };
    let config = DecodeConfig::unlimited();
    let result = zenavif_parse::read_avif_with_config(&file, &config, &stop);
    assert!(matches!(result, Err(Error::Stopped(StopReason::TimedOut))));
    assert_eq!(asked.get(), 4);
}

/// Five frames of 100 milliseconds each, one chunk per frame.
fn star(at: u32) -> Vec<u8> {
    let tables = vec![
        stts(&[(5, 10)]),
        stsc(&[(1, 1)]),
        stsz(&[9, 8, 7, 6, 5]),
        stco(&[at, at + 9, at + 17, at + 24, at + 30]),
    ];
    let minf = bx(b"minf", &bx(b"stbl", &cat(&tables)));
    let mdia = bx(b"mdia", &cat(&[mdhd(100), hdlr(b"pict"), minf]));
    cat(&[still_meta(&[(at, 9)]), moov(&[bx(b"trak", &cat(&[tkhd(1), mdia]))])])
}

#[test]
fn five_frames_of_a_tenth_of_a_second() {
    let bytes = payload(64);
    let (file, _) = file_with(b"avis", &star, &bytes);
    let parser = AvifParser::from_bytes(&file).unwrap();
    assert_eq!(parser.animation_info().unwrap().frame_count, 5);
    let base = file.as_ptr() as usize;
    let mut last_end = 0;
    let mut total_ms = 0;
    for i in 0..5 {
        let frame = parser.frame(i).unwrap();
        assert_eq!(frame.duration_ms, 100);
        total_ms += frame.duration_ms;
        assert!(matches!(frame.data, Cow::Borrowed(_)));
        let start = frame.data.as_ptr() as usize - base;
        assert!(start >= last_end, "frames do not overlap");
        last_end = start + frame.data.len();
        assert!(last_end <= file.len());
    }
    // Fifty units at a hundred units a second.
    assert_eq!(total_ms, 500);
    assert_eq!(&*parser.primary_data().unwrap(), &*parser.frame(0).unwrap().data);
}

#[test]
fn durations_add_up_but_for_rounding() {
    let bytes = payload(64);
    let head = |at: u32| {
        let tables = vec![
            stts(&[(3, 1), (2, 2)]),
            stsc(&[(1, 5)]),
            stsz_constant(1, 5),
            stco(&[at]),
        ];
        let minf = bx(b"minf", &bx(b"stbl", &cat(&tables)));
        let mdia = bx(b"mdia", &cat(&[mdhd(3), hdlr(b"pict"), minf]));
        cat(&[still_meta(&[(at, 1)]), moov(&[bx(b"trak", &cat(&[tkhd(1), mdia]))])])
    };
    let (file, _) = file_with(b"avis", &head, &bytes);
    let parser = AvifParser::from_bytes(&file).unwrap();
    let durations: Vec<u32> = (0..5).map(|i| parser.frame(i).unwrap().duration_ms).collect();
    // A third of a second is 333 ms, two thirds are 666 ms.
    assert_eq!(durations, [333, 333, 333, 666, 666]);
    let total_ms: u64 = durations.iter().map(|d| *d as u64).sum();
    // Seven units at three units a second are 2333.3 ms.
    let total_units = 7u64;
    assert!(total_ms * 3 <= total_units * 1000);
    assert!(total_units * 1000 < (total_ms + 5) * 3);
}

#[test]
fn corrupt_animations_never_panic() {
    let bytes = payload(64);
    let samples = [
        file_with(b"avis", &|at| animated(at, Some(1)), &bytes).0,
        file_with(b"avis", &with_alpha, &bytes).0,
    ];
    for sample in &samples {
        let mut broken = sample.clone();
        for at in 0..sample.len() {
            // Small values only: a sample count in the millions is read
            // faithfully, which takes its time.
            for value in [0x00u8, 0x01, 0x02] {
                broken[at] = value;
                if let Ok(parser) = AvifParser::from_bytes(&broken) {
                    let count = parser.animation_info().map(|i| i.frame_count).unwrap_or(0);
                    for i in 0..count.min(32) {
                        if let Ok(frame) = parser.frame(i) {
                            assert!(frame.data.len() <= broken.len());
                        }
                    }
                }
            }
            broken[at] = sample[at];
        }
        for len in 0..sample.len() {
            let _ = AvifParser::from_bytes(&sample[..len]).map(|p| p.animation_info());
        }
    }
}
