use zenavif_parse::boxes::FourCC;
use zenavif_parse::config::{ParseOptions, ResourceTracker};
use zenavif_parse::derived::{insert_tile, is_alpha_urn, sort_tiles, TileRef};
use zenavif_parse::fallible::{append, copy_bytes, extend, push, with_capacity};
use zenavif_parse::iloc::{IlocFieldSize, IlocVersion};
use zenavif_parse::items::ExtentRange;
use zenavif_parse::moov::{SampleTable, SampleToChunkEntry, TimeToSampleEntry};
use zenavif_parse::props::{
    read_pixi, AuxiliaryTypeProperty, ItemProperty,
};
use zenavif_parse::reader::{BMFFBox, BoxHeader};
use zenavif_parse::resolve::{
    calculate_frame_duration, calculate_sample_location, duration_ms, file_span, idat_span,
};
use zenavif_parse::toplevel::MdatBounds;
use zenavif_parse::{DecodeConfig, Error, StopReason};

#[test]
fn tracker_counts_current_and_peak() {
    let config = DecodeConfig::default().with_peak_memory_limit(100);
    let mut tracker = ResourceTracker::new(&config);
    assert!(tracker.reserve(60).is_ok());
    assert_eq!((tracker.current_memory, tracker.peak_memory), (60, 60));
    tracker.release(50);
    assert_eq!((tracker.current_memory, tracker.peak_memory), (10, 60));
    assert!(tracker.reserve(90).is_ok());
    assert_eq!((tracker.current_memory, tracker.peak_memory), (100, 100));
    match tracker.reserve(1) {
        Err(Error::ResourceLimitExceeded(msg)) => assert_eq!(msg, "peak memory limit exceeded"),
        other => panic!("unexpected: {:?}", other),
    }
    assert_eq!((tracker.current_memory, tracker.peak_memory), (101, 101));
    tracker.release(1000);
    assert_eq!(tracker.current_memory, 0);
    // The peak stays, and with it the failure.
    assert!(tracker.reserve(0).is_err());
}

#[test]
fn tracker_saturates() {
    let config = DecodeConfig::unlimited();
    let mut tracker = ResourceTracker::new(&config);
    assert!(tracker.reserve(u64::MAX - 1).is_ok());
    assert!(tracker.reserve(5).is_ok());
    assert_eq!(tracker.current_memory, u64::MAX);
    assert_eq!(tracker.peak_memory, u64::MAX);
}

#[test]
fn tracker_limits_are_inclusive() {
    let config = DecodeConfig::unlimited()
        .with_total_megapixels_limit(12)
        .with_max_animation_frames(10)
        .with_max_grid_tiles(4);
    let tracker = ResourceTracker::new(&config);
    // 4000 * 3249 = 12 996 000 pixels: 12 whole megapixels.
    assert!(tracker.validate_total_megapixels(4000, 3249).is_ok());
    // 4000 * 3250 = 13 000 000 pixels.
    match tracker.validate_total_megapixels(4000, 3250) {
        Err(Error::ResourceLimitExceeded(msg)) => {
            assert_eq!(msg, "total megapixels limit exceeded")
        }
        other => panic!("unexpected: {:?}", other),
    }
    assert!(tracker.validate_animation_frames(10).is_ok());
    match tracker.validate_animation_frames(11) {
        Err(Error::ResourceLimitExceeded(msg)) => {
            assert_eq!(msg, "animation frame count limit exceeded")
        }
        other => panic!("unexpected: {:?}", other),
    }
    assert!(tracker.validate_grid_tiles(4).is_ok());
    match tracker.validate_grid_tiles(5) {
        Err(Error::ResourceLimitExceeded(msg)) => assert_eq!(msg, "grid tile count limit exceeded"),
        other => panic!("unexpected: {:?}", other),
    }
    let unlimited = ResourceTracker::new(&DecodeConfig::unlimited());
    assert!(unlimited.validate_total_megapixels(u32::MAX, u32::MAX).is_ok());
    assert!(unlimited.validate_animation_frames(u32::MAX).is_ok());
    assert!(unlimited.validate_grid_tiles(u32::MAX).is_ok());
}

#[test]
fn parse_options_default_is_strict() {
    assert!(!ParseOptions::default().lenient);
    assert!(DecodeConfig::default().lenient(true).parse_options().lenient);
}

#[test]
fn error_messages() {
    assert_eq!(Error::InvalidData("a").message(), "a");
    assert_eq!(Error::Unsupported("b").message(), "b");
    assert_eq!(Error::ResourceLimitExceeded("c").message(), "c");
    assert_eq!(Error::UnexpectedEOF.message(), "EOF");
    assert_eq!(Error::NoMoov.message(), "Missing Moov box");
    assert_eq!(Error::OutOfMemory.message(), "OOM");
    assert_eq!(Error::Stopped(StopReason::Cancelled).message(), "Stopped");
}

#[test]
fn iloc_field_sizes_and_versions() {
    assert_eq!(IlocFieldSize::try_from(0).unwrap().to_bits(), 0);
    assert_eq!(IlocFieldSize::try_from(4).unwrap().to_bits(), 32);
    assert_eq!(IlocFieldSize::try_from(8).unwrap().to_bits(), 64);
    for bad in [1u8, 2, 3, 5, 6, 7, 9, 15, 255] {
        match IlocFieldSize::try_from(bad) {
            Err(Error::InvalidData(msg)) => assert_eq!(msg, "value must be in the set {0, 4, 8}"),
            other => panic!("unexpected: {:?}", other),
        }
    }
    assert_eq!(IlocVersion::try_from(0).unwrap(), IlocVersion::Zero);
    assert_eq!(IlocVersion::try_from(1).unwrap(), IlocVersion::One);
    assert_eq!(IlocVersion::try_from(2).unwrap(), IlocVersion::Two);
    match IlocVersion::try_from(3) {
        Err(Error::Unsupported(msg)) => assert_eq!(msg, "unsupported version in 'iloc' box"),
        other => panic!("unexpected: {:?}", other),
    }
}

#[test]
fn extent_range_start() {
    assert_eq!(ExtentRange::WithLength { start: 7, end: 9 }.start(), 7);
    assert_eq!(ExtentRange::ToEnd { start: 11 }.start(), 11);
}

#[test]
fn fallible_vectors_grow() {
    let mut v: Vec<u32> = with_capacity(2).unwrap();
    assert!(v.is_empty());
    push(&mut v, 5).unwrap();
    push(&mut v, 6).unwrap();
    push(&mut v, 7).unwrap();
    assert_eq!(v, [5, 6, 7]);
    let mut other = vec![8, 9];
    append(&mut v, &mut other).unwrap();
    assert_eq!(v, [5, 6, 7, 8, 9]);
    assert!(other.is_empty());
    let mut bytes = vec![1u8];
    extend(&mut bytes, &[2, 3]).unwrap();
    assert_eq!(bytes, [1, 2, 3]);
    assert_eq!(copy_bytes(&[4, 5, 6]).unwrap(), [4, 5, 6]);
    assert!(matches!(with_capacity::<u64>(usize::MAX), Err(Error::OutOfMemory)));
}

fn pixi_box(body: &[u8]) -> (Vec<u8>, BMFFBox) {
    let mut data = vec![0u8, 0, 0, 0];
    data.extend_from_slice(body);
    let len = data.len();
    let head = BoxHeader {
        name: zenavif_parse::boxes::BoxType::PixelInformationBox,
        size: len as u64 + 8,
        offset: 8,
        uuid: None,
    };
    (data, BMFFBox { head, pos: 0, end: len, limit: len as u64 })
}

#[test]
fn pixi_channels_are_kept_up_to_sixteen() {
    let strict = ParseOptions { lenient: false };
    let lenient = ParseOptions { lenient: true };
    let (data, mut b) = pixi_box(&[3, 8, 10, 12]);
    let channels = read_pixi(&data, &mut b, &strict).unwrap();
    assert_eq!(channels.as_slice(), &[8, 10, 12]);

    let mut body = vec![20u8];
    body.extend_from_slice(&[9; 20]);
    let (data, mut b) = pixi_box(&body);
    assert!(read_pixi(&data, &mut b, &strict).is_err());
    let (data, mut b) = pixi_box(&body);
    let channels = read_pixi(&data, &mut b, &lenient).unwrap();
    assert_eq!(channels.len(), 16);

    let (data, mut b) = pixi_box(&[3, 8, 10]);
    match read_pixi(&data, &mut b, &strict) {
        Err(Error::InvalidData(msg)) => assert_eq!(msg, "invalid num_channels"),
        other => panic!("unexpected: {:?}", other),
    }
    let property = ItemProperty::Channels(channels);
    match property.try_clone().unwrap() {
        ItemProperty::Channels(copy) => assert_eq!(copy.as_slice(), &[9; 16]),
        other => panic!("unexpected: {:?}", other),
    }
    assert!(!property.is_unsupported());
    assert!(ItemProperty::Unsupported.is_unsupported());
}

#[test]
fn auxiliary_type_and_subtype() {
    let both = AuxiliaryTypeProperty { aux_data: b"type\0sub".to_vec() };
    assert_eq!(both.type_subtype(), (&b"type"[..], &b"sub"[..]));
    let only_type = AuxiliaryTypeProperty { aux_data: b"type".to_vec() };
    assert_eq!(only_type.type_subtype(), (&b"type"[..], &b""[..]));
    let ends_with_zero = AuxiliaryTypeProperty { aux_data: b"type\0".to_vec() };
    assert_eq!(ends_with_zero.type_subtype(), (&b"type"[..], &b""[..]));
    let empty = AuxiliaryTypeProperty { aux_data: Vec::new() };
    assert_eq!(empty.type_subtype(), (&b""[..], &b""[..]));
    assert_eq!(both.try_clone().unwrap().aux_data, b"type\0sub");
    assert!(is_alpha_urn(b"urn:mpeg:mpegB:cicp:systems:auxiliary:alpha"));
    assert!(!is_alpha_urn(b"urn:mpeg:mpegB:cicp:systems:auxiliary:alphA"));
    assert!(!is_alpha_urn(b"urn:mpeg:mpegB:cicp:systems:auxiliary:alph"));
}

#[test]
fn four_character_codes() {
    let code = FourCC { value: 0x61763031 };
    assert!(code.is(zenavif_parse::boxes::FOURCC_AV01));
    assert!(!code.is(zenavif_parse::boxes::FOURCC_GRID));
    assert_eq!(zenavif_parse::boxes::FOURCC_AVIF.to_be_bytes(), *b"avif");
    assert_eq!(zenavif_parse::boxes::FOURCC_AVIS.to_be_bytes(), *b"avis");
    assert_eq!(zenavif_parse::boxes::FOURCC_DIMG.to_be_bytes(), *b"dimg");
    assert_eq!(zenavif_parse::boxes::FOURCC_AUXL.to_be_bytes(), *b"auxl");
    assert_eq!(zenavif_parse::boxes::FOURCC_PREM.to_be_bytes(), *b"prem");
    assert_eq!(zenavif_parse::boxes::FOURCC_PICT.to_be_bytes(), *b"pict");
    assert_eq!(zenavif_parse::boxes::FOURCC_VIDE.to_be_bytes(), *b"vide");
    assert_eq!(zenavif_parse::boxes::FOURCC_AUXV.to_be_bytes(), *b"auxv");
}

fn tile(item_id: u32, reference_index: u16) -> TileRef {
    TileRef { item_id, reference_index }
}

#[test]
fn tiles_are_sorted_stably() {
    let tiles = vec![tile(1, 2), tile(2, 0), tile(3, 2), tile(4, 1), tile(5, 0)];
    let sorted = sort_tiles(&tiles).unwrap();
    let ids: Vec<u32> = sorted.iter().map(|t| t.item_id).collect();
    assert_eq!(ids, [2, 5, 4, 1, 3]);
    let mut v = vec![tile(1, 1), tile(2, 3)];
    insert_tile(&mut v, tile(9, 1)).unwrap();
    insert_tile(&mut v, tile(8, 0)).unwrap();
    let ids: Vec<u32> = v.iter().map(|t| t.item_id).collect();
    assert_eq!(ids, [8, 1, 9, 2]);
    assert!(sort_tiles(&Vec::new()).unwrap().is_empty());
}

#[test]
fn file_spans() {
    let mdats = vec![MdatBounds { offset: 100, length: 50 }, MdatBounds { offset: 200, length: 10 }];
    let with = |start, end| ExtentRange::WithLength { start, end };
    assert_eq!(file_span(&with(100, 150), &mdats, 300).unwrap(), (100, 150));
    assert_eq!(file_span(&with(10, 20), &mdats, 300).unwrap(), (10, 20));
    assert_eq!(file_span(&with(149, 150), &mdats, 300).unwrap(), (149, 150));
    assert!(matches!(
        file_span(&with(149, 151), &mdats, 300),
        Err(Error::InvalidData("extent crosses box boundary"))
    ));
    assert!(matches!(
        file_span(&with(290, 301), &mdats, 300),
        Err(Error::InvalidData("extent out of bounds in raw buffer"))
    ));
    assert!(matches!(
        file_span(&with(20, 10), &mdats, 300),
        Err(Error::InvalidData("extent range start > end"))
    ));
    assert_eq!(file_span(&ExtentRange::ToEnd { start: 205 }, &mdats, 300).unwrap(), (205, 210));
    assert_eq!(file_span(&ExtentRange::ToEnd { start: 150 }, &mdats, 300).unwrap(), (150, 300));
    assert!(file_span(&ExtentRange::ToEnd { start: 301 }, &mdats, 300).is_err());
    let huge = vec![MdatBounds { offset: 10, length: u64::MAX }];
    assert!(file_span(&ExtentRange::ToEnd { start: 20 }, &huge, 300).is_err());
    assert_eq!(file_span(&with(20, 30), &huge, 300).unwrap(), (20, 30));
}

#[test]
fn idat_spans() {
    assert_eq!(idat_span(&ExtentRange::WithLength { start: 2, end: 5 }, 5).unwrap(), (2, 5));
    assert!(idat_span(&ExtentRange::WithLength { start: 2, end: 6 }, 5).is_err());
    assert_eq!(idat_span(&ExtentRange::ToEnd { start: 5 }, 5).unwrap(), (5, 5));
    assert!(matches!(
        idat_span(&ExtentRange::ToEnd { start: 6 }, 5),
        Err(Error::InvalidData("idat extent out of bounds"))
    ));
}

fn table(stsc: &[(u32, u32)], sizes: &[u32], chunks: &[u64]) -> SampleTable {
    SampleTable {
        time_to_sample: vec![TimeToSampleEntry { sample_count: sizes.len() as u32, sample_delta: 1 }],
        sample_to_chunk: stsc
            .iter()
            .map(|(first_chunk, samples_per_chunk)| SampleToChunkEntry {
                first_chunk: *first_chunk,
                samples_per_chunk: *samples_per_chunk,
                sample_description_index: 1,
            })
            .collect(),
        sample_sizes: sizes.to_vec(),
        chunk_offsets: chunks.to_vec(),
    }
}

#[test]
fn sample_locations() {
    // Chunks 1 and 2 hold two samples each, chunks 3 and 4 hold one.
    let st = table(&[(1, 2), (3, 1)], &[10, 20, 30, 40, 50, 60], &[1000, 2000, 3000, 4000]);
    let expected = [(1000, 10), (1010, 20), (2000, 30), (2030, 40), (3000, 50), (4000, 60)];
    for (i, e) in expected.iter().enumerate() {
        assert_eq!(calculate_sample_location(&st, i).unwrap(), *e, "sample {}", i);
    }
    assert!(matches!(
        calculate_sample_location(&st, 6),
        Err(Error::InvalidData("sample index out of bounds"))
    ));
    // An entry that starts at chunk 0 governs no chunk.
    let st = table(&[(0, 2)], &[1, 1], &[1000]);
    assert!(matches!(
        calculate_sample_location(&st, 0),
        Err(Error::InvalidData("sample not found in chunk table"))
    ));
    // Chunks past the chunk offset table hold nothing.
    let st = table(&[(1, 1)], &[1, 1, 1], &[1000, 2000]);
    assert_eq!(calculate_sample_location(&st, 1).unwrap(), (2000, 1));
    assert!(calculate_sample_location(&st, 2).is_err());
    // An offset that does not fit 64 bits.
    let st = table(&[(1, 2)], &[5, 5], &[u64::MAX - 2]);
    assert_eq!(calculate_sample_location(&st, 0).unwrap(), (u64::MAX - 2, 5));
    assert!(matches!(
        calculate_sample_location(&st, 1),
        Err(Error::InvalidData("sample offset overflow"))
    ));
}

#[test]
fn durations() {
    assert_eq!(duration_ms(100, 1000), 100);
    assert_eq!(duration_ms(1, 3), 333);
    assert_eq!(duration_ms(3003, 90000), 33);
    assert_eq!(duration_ms(5, 0), 0);
    // The quotient is cut to 32 bits.
    assert_eq!(duration_ms(u32::MAX, 1), ((u32::MAX as u64 * 1000) % (1 << 32)) as u32);
    let mut st = table(&[(1, 1)], &[1, 1, 1, 1], &[0, 0, 0, 0]);
    st.time_to_sample = vec![
        TimeToSampleEntry { sample_count: 1, sample_delta: 10 },
        TimeToSampleEntry { sample_count: 0, sample_delta: 99 },
        TimeToSampleEntry { sample_count: 2, sample_delta: 20 },
    ];
    assert_eq!(calculate_frame_duration(&st, 1000, 0), 10);
    assert_eq!(calculate_frame_duration(&st, 1000, 1), 20);
    assert_eq!(calculate_frame_duration(&st, 1000, 2), 20);
    // The table does not reach the fourth frame.
    assert_eq!(calculate_frame_duration(&st, 1000, 3), 0);
    assert_eq!(calculate_frame_duration(&st, 500, 0), 20);
}
