//! The `moov` box: the tracks of an animation and their sample tables.
use vstd::prelude::*;
use crate::boxes::{BoxType, FourCC, FOURCC_AUXL, FOURCC_AUXV, FOURCC_PICT, FOURCC_VIDE};
use crate::bytes::{spec_be_u32, spec_be_u64};
use crate::error::{agrees, Error};
use crate::fallible::push;
use crate::reader::{read_fullbox_extra, spec_fold_boxes, spec_fullbox_extra, BMFFBox};

verus! {

/// Timescale and duration from a movie header.
#[derive(Debug, Clone, Copy, PartialEq, Eq, Structural)]
pub struct MovieHeader {
    pub timescale: u32,
    pub duration: u64,
}

/// Timescale and duration from a media header.
#[derive(Debug, Clone, Copy, PartialEq, Eq, Structural)]
pub struct MediaHeader {
    pub timescale: u32,
    pub duration: u64,
}

/// A run of `sample_count` samples that each last `sample_delta` units.
#[derive(Debug, Clone, Copy, PartialEq, Eq, Structural)]
pub struct TimeToSampleEntry {
    pub sample_count: u32,
    pub sample_delta: u32,
}

/// From chunk `first_chunk` on, counted from one, each chunk holds
/// `samples_per_chunk` samples.
#[derive(Debug, Clone, Copy, PartialEq, Eq, Structural)]
pub struct SampleToChunkEntry {
    pub first_chunk: u32,
    pub samples_per_chunk: u32,
    pub sample_description_index: u32,
}

/// The tables that say how long each sample lasts and where it lies.
#[derive(Debug)]
pub struct SampleTable {
    pub time_to_sample: Vec<TimeToSampleEntry>,
    pub sample_to_chunk: Vec<SampleToChunkEntry>,
    /// Size of each sample; its length is the number of samples.
    pub sample_sizes: Vec<u32>,
    /// Offset in the file of each chunk.
    pub chunk_offsets: Vec<u64>,
}

/// The mathematical value of a [`SampleTable`].
pub struct SampleTableView {
    pub time_to_sample: Seq<TimeToSampleEntry>,
    pub sample_to_chunk: Seq<SampleToChunkEntry>,
    pub sample_sizes: Seq<u32>,
    pub chunk_offsets: Seq<u64>,
}

impl DeepView for SampleTable {
    type V = SampleTableView;

    open spec fn deep_view(&self) -> SampleTableView {
        SampleTableView {
            time_to_sample: self.time_to_sample@,
            sample_to_chunk: self.sample_to_chunk@,
            sample_sizes: self.sample_sizes@,
            chunk_offsets: self.chunk_offsets@,
        }
    }
}

/// A sample table without any entry.
pub open spec fn spec_empty_sample_table() -> SampleTableView {
    SampleTableView {
        time_to_sample: Seq::empty(),
        sample_to_chunk: Seq::empty(),
        sample_sizes: Seq::empty(),
        chunk_offsets: Seq::empty(),
    }
}

/// Timescale and duration in a movie or media header box `b`; the two have
/// the same layout.
pub open spec fn spec_read_time_header(data: Seq<u8>, b: BMFFBox) -> Result<(u32, u64), Error> {
    if b.avail() < 4 {
        Err(Error::UnexpectedEOF)
    } else if data[b.pos as int] == 1 {
        if b.avail() < 32 {
            Err(Error::UnexpectedEOF)
        } else {
            Ok((spec_be_u32(data, b.pos + 20), spec_be_u64(data, b.pos + 24)))
        }
    } else {
        if b.avail() < 20 {
            Err(Error::UnexpectedEOF)
        } else {
            Ok((spec_be_u32(data, b.pos + 12), spec_be_u32(data, b.pos + 16) as u64))
        }
    }
}

/// Reads timescale and duration and skips what follows them.
fn read_time_header(data: &[u8], src: &mut BMFFBox) -> (r: Result<(u32, u64), Error>)
    requires
        old(src).wf(data@.len()),
    ensures
        final(src).wf(data@.len()),
        r == spec_read_time_header(data@, *old(src)),
        r is Ok ==> *final(src) == old(src).drained(),
{
    let (version, _flags) = read_fullbox_extra(data, src)?;
    let (timescale, duration): (u32, u64) = if version == 1 {
        let _creation_time = src.be_u64(data)?;
        let _modification_time = src.be_u64(data)?;
        let timescale = src.be_u32(data)?;
        let duration = src.be_u64(data)?;
        (timescale, duration)
    } else {
        let _creation_time = src.be_u32(data)?;
        let _modification_time = src.be_u32(data)?;
        let timescale = src.be_u32(data)?;
        let duration = src.be_u32(data)?;
        (timescale, duration as u64)
    };
    src.skip_box_remain();
    Ok((timescale, duration))
}

/// The movie header in the `mvhd` box `b`.
pub open spec fn spec_read_mvhd(data: Seq<u8>, b: BMFFBox) -> Result<MovieHeader, Error> {
    match spec_read_time_header(data, b) {
        Err(e) => Err(e),
        Ok((timescale, duration)) => Ok(MovieHeader { timescale, duration }),
    }
}

/// Parses a movie header box.
pub fn read_mvhd(data: &[u8], src: &mut BMFFBox) -> (r: Result<MovieHeader, Error>)
    requires
        old(src).wf(data@.len()),
    ensures
        final(src).wf(data@.len()),
        r == spec_read_mvhd(data@, *old(src)),
        r is Ok ==> *final(src) == old(src).drained(),
{
    let (timescale, duration) = read_time_header(data, src)?;
    Ok(MovieHeader { timescale, duration })
}

/// The media header in the `mdhd` box `b`.
pub open spec fn spec_read_mdhd(data: Seq<u8>, b: BMFFBox) -> Result<MediaHeader, Error> {
    match spec_read_time_header(data, b) {
        Err(e) => Err(e),
        Ok((timescale, duration)) => Ok(MediaHeader { timescale, duration }),
    }
}

/// Parses a media header box.
pub fn read_mdhd(data: &[u8], src: &mut BMFFBox) -> (r: Result<MediaHeader, Error>)
    requires
        old(src).wf(data@.len()),
    ensures
        final(src).wf(data@.len()),
        r == spec_read_mdhd(data@, *old(src)),
        r is Ok ==> *final(src) == old(src).drained(),
{
    let (timescale, duration) = read_time_header(data, src)?;
    Ok(MediaHeader { timescale, duration })
}

/// The track id in the `tkhd` box `b`.
pub open spec fn spec_read_tkhd(data: Seq<u8>, b: BMFFBox) -> Result<u32, Error> {
    if b.avail() < 4 {
        Err(Error::UnexpectedEOF)
    } else if data[b.pos as int] == 1 {
        if b.avail() < 24 {
            Err(Error::UnexpectedEOF)
        } else {
            Ok(spec_be_u32(data, b.pos + 20))
        }
    } else {
        if b.avail() < 16 {
            Err(Error::UnexpectedEOF)
        } else {
            Ok(spec_be_u32(data, b.pos + 12))
        }
    }
}

/// Parses a track header box; the fields after the track id are skipped.
pub fn read_tkhd(data: &[u8], src: &mut BMFFBox) -> (r: Result<u32, Error>)
    requires
        old(src).wf(data@.len()),
    ensures
        final(src).wf(data@.len()),
        r == spec_read_tkhd(data@, *old(src)),
{
    let (version, _flags) = read_fullbox_extra(data, src)?;
    if version == 1 {
        let _creation_time = src.be_u64(data)?;
        let _modification_time = src.be_u64(data)?;
    } else {
        let _creation_time = src.be_u32(data)?;
        let _modification_time = src.be_u32(data)?;
    }
    let track_id = src.be_u32(data)?;
    src.skip_box_remain();
    Ok(track_id)
}

/// The handler type in the `hdlr` box `b`.
pub open spec fn spec_read_hdlr(data: Seq<u8>, b: BMFFBox) -> Result<FourCC, Error> {
    if b.avail() < 12 {
        Err(Error::UnexpectedEOF)
    } else {
        Ok(FourCC { value: spec_be_u32(data, b.pos + 8) })
    }
}

/// Parses a handler box; the fields after the handler type are skipped.
pub fn read_hdlr(data: &[u8], src: &mut BMFFBox) -> (r: Result<FourCC, Error>)
    requires
        old(src).wf(data@.len()),
    ensures
        final(src).wf(data@.len()),
        r == spec_read_hdlr(data@, *old(src)),
{
    let (_version, _flags) = read_fullbox_extra(data, src)?;
    let _pre_defined = src.be_u32(data)?;
    let handler_type = src.be_u32(data)?;
    src.skip_box_remain();
    Ok(FourCC { value: handler_type })
}

/// Whether the flags of the `elst` box `b` ask for endless repetition.
pub open spec fn spec_read_elst(data: Seq<u8>, b: BMFFBox) -> Result<bool, Error> {
    if b.avail() < 4 {
        Err(Error::UnexpectedEOF)
    } else {
        Ok(spec_fullbox_extra(data, b.pos as int).1 % 2 == 1)
    }
}

/// Parses an edit list box: bit 0 of its flags asks for endless
/// repetition. The entries are skipped.
pub fn read_elst(data: &[u8], src: &mut BMFFBox) -> (r: Result<bool, Error>)
    requires
        old(src).wf(data@.len()),
    ensures
        final(src).wf(data@.len()),
        r == spec_read_elst(data@, *old(src)),
{
    let (_version, flags) = read_fullbox_extra(data, src)?;
    src.skip_box_remain();
    Ok(flags % 2 == 1)
}

/// The time-to-sample entry number `i` of a table whose entries start at `at`.
pub open spec fn spec_stts_entry(data: Seq<u8>, at: int, i: int) -> TimeToSampleEntry {
    TimeToSampleEntry {
        sample_count: spec_be_u32(data, at + 8 * i),
        sample_delta: spec_be_u32(data, at + 8 * i + 4),
    }
}

/// The entries in the `stts` box `b`.
pub open spec fn spec_read_stts(data: Seq<u8>, b: BMFFBox) -> Result<Seq<TimeToSampleEntry>, Error> {
    if b.avail() < 8 || b.avail() - 8 < 8 * spec_be_u32(data, b.pos + 4) {
        Err(Error::UnexpectedEOF)
    } else {
        Ok(
            Seq::new(
                spec_be_u32(data, b.pos + 4) as nat,
                |i: int| spec_stts_entry(data, b.pos + 8, i),
            ),
        )
    }
}

/// Parses a time-to-sample box.
#[verifier::loop_isolation(false)]
pub fn read_stts(data: &[u8], src: &mut BMFFBox) -> (r: Result<Vec<TimeToSampleEntry>, Error>)
    requires
        old(src).wf(data@.len()),
    ensures
        final(src).wf(data@.len()),
        match r {
            Ok(v) => spec_read_stts(data@, *old(src)) == Ok::<Seq<TimeToSampleEntry>, Error>(v@),
            Err(e) => !(e is Stopped) && (e is OutOfMemory
                || spec_read_stts(data@, *old(src)) == Err::<
                Seq<TimeToSampleEntry>,
                Error,
            >(e)),
        },
        old(src).avail() < 8 ==> (r matches Err(x) && x == Error::UnexpectedEOF),
        old(src).avail() >= 8 && spec_be_u32(data@, old(src).pos + 4) == 0 ==> r is Ok,
{
    let (_version, _flags) = read_fullbox_extra(data, src)?;
    let entry_count = src.be_u32(data)?;
    let ghost at = old(src).pos + 8;
    let mut entries: Vec<TimeToSampleEntry> = Vec::new();
    let mut i: u32 = 0;
    while i < entry_count
        invariant
            src.wf(data@.len()),
            src.end == old(src).end,
            i <= entry_count,
            src.pos == at + 8 * i,
            entries@ == Seq::new(i as nat, |k: int| spec_stts_entry(data@, at, k)),
        decreases entry_count - i,
    {
        let sample_count = src.be_u32(data)?;
        let sample_delta = src.be_u32(data)?;
        match push(&mut entries, TimeToSampleEntry { sample_count, sample_delta }) {
            Err(e) => {
                return Err(e);
            },
            Ok(()) => {},
        }
        i = i + 1;
        assert(entries@ =~= Seq::new(i as nat, |k: int| spec_stts_entry(data@, at, k)));
    }
    Ok(entries)
}

/// The sample-to-chunk entry number `i` of a table whose entries start at `at`.
pub open spec fn spec_stsc_entry(data: Seq<u8>, at: int, i: int) -> SampleToChunkEntry {
    SampleToChunkEntry {
        first_chunk: spec_be_u32(data, at + 12 * i),
        samples_per_chunk: spec_be_u32(data, at + 12 * i + 4),
        sample_description_index: spec_be_u32(data, at + 12 * i + 8),
    }
}

/// The entries in the `stsc` box `b`.
pub open spec fn spec_read_stsc(data: Seq<u8>, b: BMFFBox) -> Result<Seq<SampleToChunkEntry>, Error> {
    if b.avail() < 8 || b.avail() - 8 < 12 * spec_be_u32(data, b.pos + 4) {
        Err(Error::UnexpectedEOF)
    } else {
        Ok(
            Seq::new(
                spec_be_u32(data, b.pos + 4) as nat,
                |i: int| spec_stsc_entry(data, b.pos + 8, i),
            ),
        )
    }
}

/// Parses a sample-to-chunk box.
#[verifier::loop_isolation(false)]
pub fn read_stsc(data: &[u8], src: &mut BMFFBox) -> (r: Result<Vec<SampleToChunkEntry>, Error>)
    requires
        old(src).wf(data@.len()),
    ensures
        final(src).wf(data@.len()),
        match r {
            Ok(v) => spec_read_stsc(data@, *old(src)) == Ok::<Seq<SampleToChunkEntry>, Error>(v@),
            Err(e) => !(e is Stopped) && (e is OutOfMemory
                || spec_read_stsc(data@, *old(src)) == Err::<
                Seq<SampleToChunkEntry>,
                Error,
            >(e)),
        },
        old(src).avail() < 8 ==> (r matches Err(x) && x == Error::UnexpectedEOF),
        old(src).avail() >= 8 && spec_be_u32(data@, old(src).pos + 4) == 0 ==> r is Ok,
{
    let (_version, _flags) = read_fullbox_extra(data, src)?;
    let entry_count = src.be_u32(data)?;
    let ghost at = old(src).pos + 8;
    let mut entries: Vec<SampleToChunkEntry> = Vec::new();
    let mut i: u32 = 0;
    while i < entry_count
        invariant
            src.wf(data@.len()),
            src.end == old(src).end,
            i <= entry_count,
            src.pos == at + 12 * i,
            entries@ == Seq::new(i as nat, |k: int| spec_stsc_entry(data@, at, k)),
        decreases entry_count - i,
    {
        let first_chunk = src.be_u32(data)?;
        let samples_per_chunk = src.be_u32(data)?;
        let sample_description_index = src.be_u32(data)?;
        match push(
            &mut entries,
            SampleToChunkEntry { first_chunk, samples_per_chunk, sample_description_index },
        ) {
            Err(e) => {
                return Err(e);
            },
            Ok(()) => {},
        }
        i = i + 1;
        assert(entries@ =~= Seq::new(i as nat, |k: int| spec_stsc_entry(data@, at, k)));
    }
    Ok(entries)
}

/// The sample sizes in the `stsz` box `b`: one size for all samples when
/// the box gives a non-zero default, else one size read for each sample.
pub open spec fn spec_read_stsz(data: Seq<u8>, b: BMFFBox) -> Result<Seq<u32>, Error> {
    if b.avail() < 12 {
        Err(Error::UnexpectedEOF)
    } else if spec_be_u32(data, b.pos + 4) != 0 {
        Ok(Seq::new(spec_be_u32(data, b.pos + 8) as nat, |i: int| spec_be_u32(data, b.pos + 4)))
    } else if b.avail() - 12 < 4 * spec_be_u32(data, b.pos + 8) {
        Err(Error::UnexpectedEOF)
    } else {
        Ok(
            Seq::new(
                spec_be_u32(data, b.pos + 8) as nat,
                |i: int| spec_be_u32(data, b.pos + 12 + 4 * i),
            ),
        )
    }
}

/// Parses a sample size box.
#[verifier::loop_isolation(false)]
pub fn read_stsz(data: &[u8], src: &mut BMFFBox) -> (r: Result<Vec<u32>, Error>)
    requires
        old(src).wf(data@.len()),
    ensures
        final(src).wf(data@.len()),
        match r {
            Ok(v) => spec_read_stsz(data@, *old(src)) == Ok::<Seq<u32>, Error>(v@),
            Err(e) => !(e is Stopped) && (e is OutOfMemory
                || spec_read_stsz(data@, *old(src)) == Err::<
                Seq<u32>,
                Error,
            >(e)),
        },
        old(src).avail() < 12 ==> (r matches Err(x) && x == Error::UnexpectedEOF),
        old(src).avail() >= 12 && spec_be_u32(data@, old(src).pos + 8) == 0 ==> r is Ok,
{
    let (_version, _flags) = read_fullbox_extra(data, src)?;
    let sample_size = src.be_u32(data)?;
    let sample_count = src.be_u32(data)?;
    let ghost at = old(src).pos + 12;
    let mut sizes: Vec<u32> = Vec::new();
    let mut i: u32 = 0;
    if sample_size == 0 {
        while i < sample_count
            invariant
                src.wf(data@.len()),
                src.end == old(src).end,
                i <= sample_count,
                src.pos == at + 4 * i,
                sizes@ == Seq::new(i as nat, |k: int| spec_be_u32(data@, at + 4 * k)),
            decreases sample_count - i,
        {
            let size = src.be_u32(data)?;
            match push(&mut sizes, size) {
                Err(e) => {
                    return Err(e);
                },
                Ok(()) => {},
            }
            i = i + 1;
            assert(sizes@ =~= Seq::new(i as nat, |k: int| spec_be_u32(data@, at + 4 * k)));
        }
    } else {
        while i < sample_count
            invariant
                src.wf(data@.len()),
                i <= sample_count,
                sizes@ == Seq::new(i as nat, |k: int| sample_size),
            decreases sample_count - i,
        {
            match push(&mut sizes, sample_size) {
                Err(e) => {
                    return Err(e);
                },
                Ok(()) => {},
            }
            i = i + 1;
            assert(sizes@ =~= Seq::new(i as nat, |k: int| sample_size));
        }
    }
    Ok(sizes)
}

/// Width in bytes of a chunk offset.
pub open spec fn spec_chunk_offset_width(is_64bit: bool) -> int {
    if is_64bit {
        8
    } else {
        4
    }
}

/// The chunk offset number `i` of a table whose entries start at `at`.
pub open spec fn spec_chunk_offset(data: Seq<u8>, at: int, is_64bit: bool, i: int) -> u64 {
    if is_64bit {
        spec_be_u64(data, at + 8 * i)
    } else {
        spec_be_u32(data, at + 4 * i) as u64
    }
}

/// The chunk offsets in the `stco` or `co64` box `b`.
pub open spec fn spec_read_chunk_offsets(data: Seq<u8>, b: BMFFBox, is_64bit: bool) -> Result<
    Seq<u64>,
    Error,
> {
    if b.avail() < 8 || b.avail() - 8 < spec_chunk_offset_width(is_64bit) * spec_be_u32(
        data,
        b.pos + 4,
    ) {
        Err(Error::UnexpectedEOF)
    } else {
        Ok(
            Seq::new(
                spec_be_u32(data, b.pos + 4) as nat,
                |i: int| spec_chunk_offset(data, b.pos + 8, is_64bit, i),
            ),
        )
    }
}

/// Parses a chunk offset box, with offsets of 32 or of 64 bits.
#[verifier::loop_isolation(false)]
pub fn read_chunk_offsets(data: &[u8], src: &mut BMFFBox, is_64bit: bool) -> (r: Result<
    Vec<u64>,
    Error,
>)
    requires
        old(src).wf(data@.len()),
    ensures
        final(src).wf(data@.len()),
        match r {
            Ok(v) => spec_read_chunk_offsets(data@, *old(src), is_64bit) == Ok::<Seq<u64>, Error>(
                v@,
            ),
            Err(e) => !(e is Stopped) && (e is OutOfMemory
                || spec_read_chunk_offsets(data@, *old(src), is_64bit)
                == Err::<Seq<u64>, Error>(e)),
        },
        old(src).avail() < 8 ==> (r matches Err(x) && x == Error::UnexpectedEOF),
        old(src).avail() >= 8 && spec_be_u32(data@, old(src).pos + 4) == 0 ==> r is Ok,
{
    let (_version, _flags) = read_fullbox_extra(data, src)?;
    let entry_count = src.be_u32(data)?;
    let ghost at = old(src).pos + 8;
    let ghost w = spec_chunk_offset_width(is_64bit);
    let mut offsets: Vec<u64> = Vec::new();
    let mut i: u32 = 0;
    while i < entry_count
        invariant
            src.wf(data@.len()),
            src.end == old(src).end,
            i <= entry_count,
            src.pos == at + w * i,
            offsets@ == Seq::new(i as nat, |k: int| spec_chunk_offset(data@, at, is_64bit, k)),
        decreases entry_count - i,
    {
        let offset: u64 = if is_64bit {
            src.be_u64(data)?
        } else {
            src.be_u32(data)? as u64
        };
        match push(&mut offsets, offset) {
            Err(e) => {
                return Err(e);
            },
            Ok(()) => {},
        }
        i = i + 1;
        assert(offsets@ =~= Seq::new(i as nat, |k: int| spec_chunk_offset(data@, at, is_64bit, k)));
    }
    Ok(offsets)
}

/// What the child box `child` of an `stbl` box changes in `acc`: each of the
/// four tables is replaced by the box that holds it.
pub open spec fn spec_stbl_child(data: Seq<u8>, child: BMFFBox, acc: SampleTableView) -> Result<
    SampleTableView,
    Error,
> {
    match child.head.name {
        BoxType::TimeToSampleBox => match spec_read_stts(data, child) {
            Err(e) => Err(e),
            Ok(v) => Ok(SampleTableView { time_to_sample: v, ..acc }),
        },
        BoxType::SampleToChunkBox => match spec_read_stsc(data, child) {
            Err(e) => Err(e),
            Ok(v) => Ok(SampleTableView { sample_to_chunk: v, ..acc }),
        },
        BoxType::SampleSizeBox => match spec_read_stsz(data, child) {
            Err(e) => Err(e),
            Ok(v) => Ok(SampleTableView { sample_sizes: v, ..acc }),
        },
        BoxType::ChunkOffsetBox => match spec_read_chunk_offsets(data, child, false) {
            Err(e) => Err(e),
            Ok(v) => Ok(SampleTableView { chunk_offsets: v, ..acc }),
        },
        BoxType::ChunkLargeOffsetBox => match spec_read_chunk_offsets(data, child, true) {
            Err(e) => Err(e),
            Ok(v) => Ok(SampleTableView { chunk_offsets: v, ..acc }),
        },
        _ => Ok(acc),
    }
}

/// One step of the walk over an `stbl` box.
pub open spec fn spec_stbl_step(data: Seq<u8>) -> spec_fn(BMFFBox, SampleTableView) -> Result<
    (SampleTableView, bool),
    Error,
> {
    |child: BMFFBox, acc: SampleTableView|
        match spec_stbl_child(data, child, acc) {
            Err(e) => Err(e),
            Ok(next) => Ok((next, false)),
        }
}

/// The sample table in the `stbl` box `b`.
pub open spec fn spec_read_stbl(data: Seq<u8>, b: BMFFBox) -> Result<SampleTableView, Error> {
    spec_fold_boxes(data, b, spec_empty_sample_table(), spec_stbl_step(data))
}

/// Parses one child box of an `stbl` box into `acc`.
pub fn read_stbl_child(data: &[u8], child: &mut BMFFBox, acc: SampleTable) -> (r: Result<
    SampleTable,
    Error,
>)
    requires
        old(child).wf(data@.len()),
    ensures
        final(child).wf(data@.len()),
        agrees(r, spec_stbl_child(data@, *old(child), acc.deep_view())),
        old(child).head.name != BoxType::TimeToSampleBox
            && old(child).head.name != BoxType::SampleToChunkBox
            && old(child).head.name != BoxType::SampleSizeBox
            && old(child).head.name != BoxType::ChunkOffsetBox
            && old(child).head.name != BoxType::ChunkLargeOffsetBox ==> r is Ok,
{
    let mut acc = acc;
    match child.head.name {
        BoxType::TimeToSampleBox => {
            acc.time_to_sample = read_stts(data, child)?;
        },
        BoxType::SampleToChunkBox => {
            acc.sample_to_chunk = read_stsc(data, child)?;
        },
        BoxType::SampleSizeBox => {
            acc.sample_sizes = read_stsz(data, child)?;
        },
        BoxType::ChunkOffsetBox => {
            acc.chunk_offsets = read_chunk_offsets(data, child, false)?;
        },
        BoxType::ChunkLargeOffsetBox => {
            acc.chunk_offsets = read_chunk_offsets(data, child, true)?;
        },
        _ => {
            child.skip_box_remain();
        },
    }
    Ok(acc)
}

/// Parses a sample table box.
#[verifier::loop_isolation(false)]
pub fn read_stbl(data: &[u8], src: &mut BMFFBox) -> (r: Result<SampleTable, Error>)
    requires
        old(src).wf(data@.len()),
    ensures
        final(src).wf(data@.len()),
        old(src).spec_next_box(data@) matches Err(e) ==> (r matches Err(x) && x == e),
        old(src).spec_next_box(data@) matches Ok(None) ==> r is Ok,
        agrees(r, spec_read_stbl(data@, *old(src))),
{
    let ghost step = spec_stbl_step(data@);
    let mut table = SampleTable {
        time_to_sample: Vec::new(),
        sample_to_chunk: Vec::new(),
        sample_sizes: Vec::new(),
        chunk_offsets: Vec::new(),
    };
    let ghost whole = spec_fold_boxes(data@, *src, table.deep_view(), step);
    let ghost start = *src;
    let ghost mut started = false;
    let mut done = false;
    while !done
        invariant
            src.wf(data@.len()),
            !started && !done ==> *src == start,
            started ==> (start.spec_next_box(data@) matches Ok(Some(_))),
            !started && done ==> (start.spec_next_box(data@) matches Ok(None)),
            src.drained() == old(src).drained(),
            !done ==> whole == spec_fold_boxes(data@, *src, table.deep_view(), step),
            done ==> whole == Ok::<SampleTableView, Error>(table.deep_view()) && *src == old(
                src,
            ).drained(),
        decreases
                (if done {
                    0
                } else {
                    src.avail() + 1
                }),
    {
        let mut b = match src.next_box(data) {
            Err(e) => {
                return Err(e);
            },
            Ok(None) => {
                done = true;
                continue ;
            },
            Ok(Some(b)) => b,
        };
        proof {
            started = true;
        }
        table = match read_stbl_child(data, &mut b, table) {
            Err(e) => {
                return Err(e);
            },
            Ok(next) => next,
        };
    }
    Ok(table)
}

/// The value of an optional sample table.
pub open spec fn spec_table_view(t: Option<SampleTable>) -> Option<SampleTableView> {
    match t {
        Some(t) => Some(t.deep_view()),
        None => None,
    }
}

/// One step of the walk over a `minf` box: the walk ends at the first
/// `stbl` box.
pub open spec fn spec_minf_step(data: Seq<u8>) -> spec_fn(
    BMFFBox,
    Option<SampleTableView>,
) -> Result<(Option<SampleTableView>, bool), Error> {
    |child: BMFFBox, acc: Option<SampleTableView>|
        if child.head.name == BoxType::SampleTableBox {
            match spec_read_stbl(data, child) {
                Err(e) => Err(e),
                Ok(t) => Ok((Some(t), true)),
            }
        } else {
            Ok((acc, false))
        }
}

/// The sample table of the first `stbl` box in the `minf` box `b`.
pub open spec fn spec_read_minf(data: Seq<u8>, b: BMFFBox) -> Result<Option<SampleTableView>, Error> {
    spec_fold_boxes(data, b, None, spec_minf_step(data))
}

/// Parses a media information box.
#[verifier::loop_isolation(false)]
pub fn read_minf(data: &[u8], src: &mut BMFFBox) -> (r: Result<Option<SampleTable>, Error>)
    requires
        old(src).wf(data@.len()),
    ensures
        final(src).wf(data@.len()),
        old(src).spec_next_box(data@) matches Err(e) ==> (r matches Err(x) && x == e),
        old(src).spec_next_box(data@) matches Ok(None) ==> r is Ok,
        match r {
            Ok(t) => spec_read_minf(data@, *old(src)) == Ok::<Option<SampleTableView>, Error>(
                spec_table_view(t),
            ),
            Err(e) => !(e is Stopped) && (e is OutOfMemory
                || spec_read_minf(data@, *old(src)) == Err::<
                Option<SampleTableView>,
                Error,
            >(e)),
        },
{
    let ghost step = spec_minf_step(data@);
    let ghost whole = spec_fold_boxes(data@, *src, None, step);
    let ghost start = *src;
    let ghost mut started = false;
    let mut done = false;
    while !done
        invariant
            src.wf(data@.len()),
            !started && !done ==> *src == start,
            started ==> (start.spec_next_box(data@) matches Ok(Some(_))),
            !started && done ==> (start.spec_next_box(data@) matches Ok(None)),
            !done ==> whole == spec_fold_boxes(data@, *src, None, step),
            done ==> whole == Ok::<Option<SampleTableView>, Error>(None),
        decreases
                (if done {
                    0
                } else {
                    src.avail() + 1
                }),
    {
        let mut b = match src.next_box(data) {
            Err(e) => {
                return Err(e);
            },
            Ok(None) => {
                done = true;
                continue ;
            },
            Ok(Some(b)) => b,
        };
        proof {
            started = true;
        }
        if b.head.name == BoxType::SampleTableBox {
            return match read_stbl(data, &mut b) {
                Err(e) => Err(e),
                Ok(t) => Ok(Some(t)),
            };
        } else {
            b.skip_box_remain();
        }
    }
    Ok(None)
}

/// What a `mdia` box says about a track.
#[derive(Debug)]
pub struct MediaParts {
    /// Units per second of the sample durations; 1000 when the box has no
    /// media header.
    pub timescale: u32,
    pub handler: Option<FourCC>,
    pub sample_table: Option<SampleTable>,
}

/// The mathematical value of [`MediaParts`].
pub struct MediaPartsView {
    pub timescale: u32,
    pub handler: Option<FourCC>,
    pub sample_table: Option<SampleTableView>,
}

impl DeepView for MediaParts {
    type V = MediaPartsView;

    open spec fn deep_view(&self) -> MediaPartsView {
        MediaPartsView {
            timescale: self.timescale,
            handler: self.handler,
            sample_table: spec_table_view(self.sample_table),
        }
    }
}

/// What the child box `child` of a `mdia` box changes in `acc`.
pub open spec fn spec_mdia_child(data: Seq<u8>, child: BMFFBox, acc: MediaPartsView) -> Result<
    MediaPartsView,
    Error,
> {
    match child.head.name {
        BoxType::MediaHeaderBox => match spec_read_mdhd(data, child) {
            Err(e) => Err(e),
            Ok(h) => Ok(MediaPartsView { timescale: h.timescale, ..acc }),
        },
        BoxType::HandlerBox => match spec_read_hdlr(data, child) {
            Err(e) => Err(e),
            Ok(h) => Ok(MediaPartsView { handler: Some(h), ..acc }),
        },
        BoxType::MediaInformationBox => match spec_read_minf(data, child) {
            Err(e) => Err(e),
            Ok(t) => Ok(MediaPartsView { sample_table: t, ..acc }),
        },
        _ => Ok(acc),
    }
}

/// One step of the walk over a `mdia` box.
pub open spec fn spec_mdia_step(data: Seq<u8>) -> spec_fn(BMFFBox, MediaPartsView) -> Result<
    (MediaPartsView, bool),
    Error,
> {
    |child: BMFFBox, acc: MediaPartsView|
        match spec_mdia_child(data, child, acc) {
            Err(e) => Err(e),
            Ok(next) => Ok((next, false)),
        }
}

/// What the `mdia` box `b` says about its track.
pub open spec fn spec_read_mdia(data: Seq<u8>, b: BMFFBox) -> Result<MediaPartsView, Error> {
    spec_fold_boxes(
        data,
        b,
        MediaPartsView { timescale: 1000, handler: None, sample_table: None },
        spec_mdia_step(data),
    )
}

/// Parses one child box of a `mdia` box into `acc`.
pub fn read_mdia_child(data: &[u8], child: &mut BMFFBox, acc: MediaParts) -> (r: Result<
    MediaParts,
    Error,
>)
    requires
        old(child).wf(data@.len()),
    ensures
        final(child).wf(data@.len()),
        agrees(r, spec_mdia_child(data@, *old(child), acc.deep_view())),
        old(child).head.name != BoxType::MediaInformationBox
            ==> !(r matches Err(Error::OutOfMemory)),
{
    let mut acc = acc;
    match child.head.name {
        BoxType::MediaHeaderBox => {
            let mdhd = read_mdhd(data, child)?;
            acc.timescale = mdhd.timescale;
        },
        BoxType::HandlerBox => {
            acc.handler = Some(read_hdlr(data, child)?);
        },
        BoxType::MediaInformationBox => {
            acc.sample_table = read_minf(data, child)?;
        },
        _ => {
            child.skip_box_remain();
        },
    }
    Ok(acc)
}

/// Parses a media box.
#[verifier::loop_isolation(false)]
pub fn read_mdia(data: &[u8], src: &mut BMFFBox) -> (r: Result<MediaParts, Error>)
    requires
        old(src).wf(data@.len()),
    ensures
        final(src).wf(data@.len()),
        old(src).spec_next_box(data@) matches Err(e) ==> (r matches Err(x) && x == e),
        old(src).spec_next_box(data@) matches Ok(None) ==> r is Ok,
        agrees(r, spec_read_mdia(data@, *old(src))),
{
    let ghost step = spec_mdia_step(data@);
    let mut media = MediaParts { timescale: 1000, handler: None, sample_table: None };
    let ghost whole = spec_fold_boxes(data@, *src, media.deep_view(), step);
    let ghost start = *src;
    let ghost mut started = false;
    let mut done = false;
    while !done
        invariant
            src.wf(data@.len()),
            !started && !done ==> *src == start,
            started ==> (start.spec_next_box(data@) matches Ok(Some(_))),
            !started && done ==> (start.spec_next_box(data@) matches Ok(None)),
            src.drained() == old(src).drained(),
            !done ==> whole == spec_fold_boxes(data@, *src, media.deep_view(), step),
            done ==> whole == Ok::<MediaPartsView, Error>(media.deep_view()) && *src == old(
                src,
            ).drained(),
        decreases
                (if done {
                    0
                } else {
                    src.avail() + 1
                }),
    {
        let mut b = match src.next_box(data) {
            Err(e) => {
                return Err(e);
            },
            Ok(None) => {
                done = true;
                continue ;
            },
            Ok(Some(b)) => b,
        };
        proof {
            started = true;
        }
        media = match read_mdia_child(data, &mut b, media) {
            Err(e) => {
                return Err(e);
            },
            Ok(next) => next,
        };
    }
    Ok(media)
}

/// The track ids in a reference box whose content starts at `at` and has
/// `avail` bytes; bytes after the last whole id are ignored.
pub open spec fn spec_track_ids(data: Seq<u8>, at: int, avail: int) -> Seq<u32> {
    Seq::new((avail / 4) as nat, |i: int| spec_be_u32(data, at + 4 * i))
}

/// One step of the walk over a `tref` box: the ids in an `auxl` box are
/// appended.
pub open spec fn spec_tref_step(data: Seq<u8>) -> spec_fn(BMFFBox, Seq<u32>) -> Result<
    (Seq<u32>, bool),
    Error,
> {
    |child: BMFFBox, acc: Seq<u32>|
        if child.head.name.spec_code() == FOURCC_AUXL {
            Ok((acc + spec_track_ids(data, child.pos as int, child.avail()), false))
        } else {
            Ok((acc, false))
        }
}

/// The ids of the tracks that the `tref` box `b` names as what its track
/// is auxiliary to.
pub open spec fn spec_read_tref(data: Seq<u8>, b: BMFFBox) -> Result<Seq<u32>, Error> {
    spec_fold_boxes(data, b, Seq::empty(), spec_tref_step(data))
}

/// Appends the track ids of one reference box to `ids`.
#[verifier::loop_isolation(false)]
fn read_track_ids(data: &[u8], child: &mut BMFFBox, ids: &mut Vec<u32>) -> (r: Result<(), Error>)
    requires
        old(child).wf(data@.len()),
    ensures
        final(child).wf(data@.len()),
        r is Ok ==> final(ids)@ == old(ids)@ + spec_track_ids(
            data@,
            old(child).pos as int,
            old(child).avail(),
        ),
        r matches Err(e) ==> e is OutOfMemory,
        old(child).avail() < 4 ==> r is Ok,
{
    let count = (child.end - child.pos) / 4;
    let ghost at = child.pos as int;
    let mut i: usize = 0;
    while i < count
        invariant
            child.wf(data@.len()),
            child.end == old(child).end,
            i <= count,
            child.pos == at + 4 * i,
            ids@ == old(ids)@ + Seq::new(i as nat, |k: int| spec_be_u32(data@, at + 4 * k)),
        decreases count - i,
    {
        let id = match child.be_u32(data) {
            Ok(id) => id,
            Err(e) => {
                return Err(e);
            },
        };
        match push(ids, id) {
            Err(e) => {
                return Err(e);
            },
            Ok(()) => {},
        }
        i = i + 1;
        assert(ids@ =~= old(ids)@ + Seq::new(i as nat, |k: int| spec_be_u32(data@, at + 4 * k)));
    }
    Ok(())
}

/// Parses a track reference box.
#[verifier::loop_isolation(false)]
pub fn read_tref(data: &[u8], src: &mut BMFFBox) -> (r: Result<Vec<u32>, Error>)
    requires
        old(src).wf(data@.len()),
    ensures
        final(src).wf(data@.len()),
        old(src).spec_next_box(data@) matches Err(e) ==> (r matches Err(x) && x == e),
        old(src).spec_next_box(data@) matches Ok(None) ==> r is Ok,
        match r {
            Ok(v) => spec_read_tref(data@, *old(src)) == Ok::<Seq<u32>, Error>(v@),
            Err(e) => !(e is Stopped) && (e is OutOfMemory
                || spec_read_tref(data@, *old(src)) == Err::<
                Seq<u32>,
                Error,
            >(e)),
        },
{
    let ghost step = spec_tref_step(data@);
    let mut ids: Vec<u32> = Vec::new();
    let ghost whole = spec_fold_boxes(data@, *src, ids@, step);
    let ghost start = *src;
    let ghost mut started = false;
    let mut done = false;
    while !done
        invariant
            src.wf(data@.len()),
            !started && !done ==> *src == start,
            started ==> (start.spec_next_box(data@) matches Ok(Some(_))),
            !started && done ==> (start.spec_next_box(data@) matches Ok(None)),
            !done ==> whole == spec_fold_boxes(data@, *src, ids@, step),
            done ==> whole == Ok::<Seq<u32>, Error>(ids@),
        decreases
                (if done {
                    0
                } else {
                    src.avail() + 1
                }),
    {
        let mut b = match src.next_box(data) {
            Err(e) => {
                return Err(e);
            },
            Ok(None) => {
                done = true;
                continue ;
            },
            Ok(Some(b)) => b,
        };
        proof {
            started = true;
        }
        if b.head.name.code() == FOURCC_AUXL {
            match read_track_ids(data, &mut b, &mut ids) {
                Err(e) => {
                    return Err(e);
                },
                Ok(()) => {},
            }
        } else {
            b.skip_box_remain();
        }
    }
    Ok(ids)
}

/// One step of the walk over an `edts` box: an `elst` box sets the flag.
pub open spec fn spec_edts_step(data: Seq<u8>) -> spec_fn(BMFFBox, Option<bool>) -> Result<
    (Option<bool>, bool),
    Error,
> {
    |child: BMFFBox, acc: Option<bool>|
        if child.head.name == BoxType::EditListBox {
            match spec_read_elst(data, child) {
                Err(e) => Err(e),
                Ok(looping) => Ok((Some(looping), false)),
            }
        } else {
            Ok((acc, false))
        }
}

/// Whether the edit list in the `edts` box `b` asks for endless
/// repetition; `None` when the box holds no edit list.
pub open spec fn spec_read_edts(data: Seq<u8>, b: BMFFBox) -> Result<Option<bool>, Error> {
    spec_fold_boxes(data, b, None, spec_edts_step(data))
}

/// Parses an edit box.
#[verifier::loop_isolation(false)]
pub fn read_edts(data: &[u8], src: &mut BMFFBox) -> (r: Result<Option<bool>, Error>)
    requires
        old(src).wf(data@.len()),
    ensures
        final(src).wf(data@.len()),
        old(src).spec_next_box(data@) matches Err(e) ==> (r matches Err(x) && x == e),
        old(src).spec_next_box(data@) matches Ok(None) ==> r is Ok,
        r == spec_read_edts(data@, *old(src)),
        r matches Err(e) ==> !(e is Stopped),
        r matches Err(e) ==> !(e is OutOfMemory),
{
    let ghost step = spec_edts_step(data@);
    let mut looping: Option<bool> = None;
    let ghost whole = spec_fold_boxes(data@, *src, looping, step);
    let ghost start = *src;
    let ghost mut started = false;
    let mut done = false;
    while !done
        invariant
            src.wf(data@.len()),
            !started && !done ==> *src == start,
            started ==> (start.spec_next_box(data@) matches Ok(Some(_))),
            !started && done ==> (start.spec_next_box(data@) matches Ok(None)),
            !done ==> whole == spec_fold_boxes(data@, *src, looping, step),
            done ==> whole == Ok::<Option<bool>, Error>(looping),
        decreases
                (if done {
                    0
                } else {
                    src.avail() + 1
                }),
    {
        let mut b = match src.next_box(data) {
            Err(e) => {
                return Err(e);
            },
            Ok(None) => {
                done = true;
                continue ;
            },
            Ok(Some(b)) => b,
        };
        proof {
            started = true;
        }
        if b.head.name == BoxType::EditListBox {
            looping = Some(read_elst(data, &mut b)?);
        } else {
            b.skip_box_remain();
        }
    }
    Ok(looping)
}

/// What a `trak` box says about a track.
#[derive(Debug)]
pub struct Track {
    pub track_id: Option<u32>,
    /// Ids of the tracks that this track is auxiliary to.
    pub auxl_refs: Vec<u32>,
    /// Whether the edit list asks for endless repetition, if there is one.
    pub looping: Option<bool>,
    /// What the first `mdia` box says, if there is one.
    pub media: Option<MediaParts>,
}

/// The mathematical value of a [`Track`].
pub struct TrackView {
    pub track_id: Option<u32>,
    pub auxl_refs: Seq<u32>,
    pub looping: Option<bool>,
    pub media: Option<MediaPartsView>,
}

impl DeepView for Track {
    type V = TrackView;

    open spec fn deep_view(&self) -> TrackView {
        TrackView {
            track_id: self.track_id,
            auxl_refs: self.auxl_refs@,
            looping: self.looping,
            media: match self.media {
                Some(m) => Some(m.deep_view()),
                None => None,
            },
        }
    }
}

/// What the child box `child` of a `trak` box changes in `acc`. Only the
/// first `mdia` box is read.
pub open spec fn spec_trak_child(data: Seq<u8>, child: BMFFBox, acc: TrackView) -> Result<
    TrackView,
    Error,
> {
    match child.head.name {
        BoxType::TrackHeaderBox => match spec_read_tkhd(data, child) {
            Err(e) => Err(e),
            Ok(id) => Ok(TrackView { track_id: Some(id), ..acc }),
        },
        BoxType::TrackReferenceBox => match spec_read_tref(data, child) {
            Err(e) => Err(e),
            Ok(ids) => Ok(TrackView { auxl_refs: ids, ..acc }),
        },
        BoxType::EditBox => match spec_read_edts(data, child) {
            Err(e) => Err(e),
            Ok(looping) => Ok(TrackView { looping, ..acc }),
        },
        BoxType::MediaBox => if acc.media is Some {
            Ok(acc)
        } else {
            match spec_read_mdia(data, child) {
                Err(e) => Err(e),
                Ok(m) => Ok(TrackView { media: Some(m), ..acc }),
            }
        },
        _ => Ok(acc),
    }
}

/// One step of the walk over a `trak` box.
pub open spec fn spec_trak_step(data: Seq<u8>) -> spec_fn(BMFFBox, TrackView) -> Result<
    (TrackView, bool),
    Error,
> {
    |child: BMFFBox, acc: TrackView|
        match spec_trak_child(data, child, acc) {
            Err(e) => Err(e),
            Ok(next) => Ok((next, false)),
        }
}

/// What the `trak` box `b` says about its track.
pub open spec fn spec_read_trak(data: Seq<u8>, b: BMFFBox) -> Result<TrackView, Error> {
    spec_fold_boxes(
        data,
        b,
        TrackView { track_id: None, auxl_refs: Seq::empty(), looping: None, media: None },
        spec_trak_step(data),
    )
}

/// Parses one child box of a `trak` box into `acc`.
pub fn read_trak_child(data: &[u8], child: &mut BMFFBox, acc: Track) -> (r: Result<Track, Error>)
    requires
        old(child).wf(data@.len()),
    ensures
        final(child).wf(data@.len()),
        agrees(r, spec_trak_child(data@, *old(child), acc.deep_view())),
        old(child).head.name != BoxType::TrackReferenceBox
            && old(child).head.name != BoxType::MediaBox ==> !(r matches Err(Error::OutOfMemory)),
{
    let mut acc = acc;
    match child.head.name {
        BoxType::TrackHeaderBox => {
            acc.track_id = Some(read_tkhd(data, child)?);
        },
        BoxType::TrackReferenceBox => {
            acc.auxl_refs = read_tref(data, child)?;
        },
        BoxType::EditBox => {
            acc.looping = read_edts(data, child)?;
        },
        BoxType::MediaBox => {
            if acc.media.is_some() {
                child.skip_box_remain();
            } else {
                acc.media = Some(read_mdia(data, child)?);
            }
        },
        _ => {
            child.skip_box_remain();
        },
    }
    Ok(acc)
}

/// Parses a track box.
#[verifier::loop_isolation(false)]
pub fn read_trak(data: &[u8], src: &mut BMFFBox) -> (r: Result<Track, Error>)
    requires
        old(src).wf(data@.len()),
    ensures
        final(src).wf(data@.len()),
        old(src).spec_next_box(data@) matches Err(e) ==> (r matches Err(x) && x == e),
        old(src).spec_next_box(data@) matches Ok(None) ==> r is Ok,
        agrees(r, spec_read_trak(data@, *old(src))),
{
    let ghost step = spec_trak_step(data@);
    let mut track = Track { track_id: None, auxl_refs: Vec::new(), looping: None, media: None };
    let ghost whole = spec_fold_boxes(data@, *src, track.deep_view(), step);
    let ghost start = *src;
    let ghost mut started = false;
    let mut done = false;
    while !done
        invariant
            src.wf(data@.len()),
            !started && !done ==> *src == start,
            started ==> (start.spec_next_box(data@) matches Ok(Some(_))),
            !started && done ==> (start.spec_next_box(data@) matches Ok(None)),
            src.drained() == old(src).drained(),
            !done ==> whole == spec_fold_boxes(data@, *src, track.deep_view(), step),
            done ==> whole == Ok::<TrackView, Error>(track.deep_view()) && *src == old(
                src,
            ).drained(),
        decreases
                (if done {
                    0
                } else {
                    src.avail() + 1
                }),
    {
        let mut b = match src.next_box(data) {
            Err(e) => {
                return Err(e);
            },
            Ok(None) => {
                done = true;
                continue ;
            },
            Ok(Some(b)) => b,
        };
        proof {
            started = true;
        }
        track = match read_trak_child(data, &mut b, track) {
            Err(e) => {
                return Err(e);
            },
            Ok(next) => next,
        };
    }
    Ok(track)
}

/// Whether `handler` is the handler type of a video, picture or auxiliary
/// video track.
pub open spec fn spec_is_video_handler(handler: Option<FourCC>) -> bool {
    handler matches Some(h) && (h.value == FOURCC_VIDE || h.value == FOURCC_PICT || h.value
        == FOURCC_AUXV)
}

/// Whether `t` can be shown: it has a video handler and a sample table.
pub open spec fn spec_track_usable(t: TrackView) -> bool {
    t.media matches Some(m) && m.sample_table is Some && spec_is_video_handler(m.handler)
}

/// The tracks chosen from a movie: the colour track, and the alpha track
/// that is auxiliary to it.
#[derive(Debug)]
pub struct MovieTracks {
    pub color: Option<Track>,
    pub alpha: Option<Track>,
}

/// The mathematical value of [`MovieTracks`].
pub struct MovieTracksView {
    pub color: Option<TrackView>,
    pub alpha: Option<TrackView>,
}

/// The value of an optional track.
pub open spec fn spec_track_view(t: Option<Track>) -> Option<TrackView> {
    match t {
        Some(t) => Some(t.deep_view()),
        None => None,
    }
}

impl DeepView for MovieTracks {
    type V = MovieTracksView;

    open spec fn deep_view(&self) -> MovieTracksView {
        MovieTracksView { color: spec_track_view(self.color), alpha: spec_track_view(self.alpha) }
    }
}

/// The choice after track `t` has been seen. The first usable track that
/// is auxiliary to nothing becomes the colour track; the first later usable
/// track that is auxiliary to the colour track becomes the alpha track.
pub open spec fn spec_select_track(acc: MovieTracksView, t: TrackView) -> MovieTracksView {
    if !spec_track_usable(t) {
        acc
    } else if acc.color is None {
        if t.auxl_refs.len() == 0 {
            MovieTracksView { color: Some(t), alpha: acc.alpha }
        } else {
            acc
        }
    } else if acc.alpha is None && acc.color->0.track_id is Some && t.auxl_refs.contains(
        acc.color->0.track_id->0,
    ) {
        MovieTracksView { color: acc.color, alpha: Some(t) }
    } else {
        acc
    }
}

/// Whether `ids` holds `id`.
#[verifier::loop_isolation(false)]
pub fn contains_id(ids: &Vec<u32>, id: u32) -> (r: bool)
    ensures
        r == ids@.contains(id),
{
    let mut i: usize = 0;
    while i < ids.len()
        invariant
            i <= ids@.len(),
            forall|k: int| 0 <= k < i ==> ids@[k] != id,
        decreases ids@.len() - i,
    {
        if ids[i] == id {
            return true;
        }
        i = i + 1;
    }
    false
}

/// Whether the handler type is that of a video, picture or auxiliary video
/// track.
pub fn is_video_handler(handler: &Option<FourCC>) -> (r: bool)
    ensures
        r == spec_is_video_handler(*handler),
{
    match handler {
        Some(h) => h.is(FOURCC_VIDE) || h.is(FOURCC_PICT) || h.is(FOURCC_AUXV),
        None => false,
    }
}

/// Whether the track has a video handler and a sample table.
pub fn track_usable(t: &Track) -> (r: bool)
    ensures
        r == spec_track_usable(t.deep_view()),
{
    match &t.media {
        Some(m) => m.sample_table.is_some() && is_video_handler(&m.handler),
        None => false,
    }
}

/// Takes track `t` into the choice `acc`, see [`spec_select_track`].
pub fn select_track(acc: MovieTracks, t: Track) -> (r: MovieTracks)
    ensures
        r.deep_view() == spec_select_track(acc.deep_view(), t.deep_view()),
{
    if !track_usable(&t) {
        return acc;
    }
    match acc.color {
        None => {
            if t.auxl_refs.len() == 0 {
                MovieTracks { color: Some(t), alpha: acc.alpha }
            } else {
                MovieTracks { color: None, alpha: acc.alpha }
            }
        },
        Some(color) => {
            let take = acc.alpha.is_none() && match color.track_id {
                Some(id) => contains_id(&t.auxl_refs, id),
                None => false,
            };
            if take {
                MovieTracks { color: Some(color), alpha: Some(t) }
            } else {
                MovieTracks { color: Some(color), alpha: acc.alpha }
            }
        },
    }
}

/// What the child box `child` of a `moov` box changes in `acc`.
pub open spec fn spec_moov_child(data: Seq<u8>, child: BMFFBox, acc: MovieTracksView) -> Result<
    MovieTracksView,
    Error,
> {
    match child.head.name {
        BoxType::MovieHeaderBox => match spec_read_mvhd(data, child) {
            Err(e) => Err(e),
            Ok(_) => Ok(acc),
        },
        BoxType::TrackBox => match spec_read_trak(data, child) {
            Err(e) => Err(e),
            Ok(t) => Ok(spec_select_track(acc, t)),
        },
        _ => Ok(acc),
    }
}

/// One step of the walk over a `moov` box.
pub open spec fn spec_moov_step(data: Seq<u8>) -> spec_fn(BMFFBox, MovieTracksView) -> Result<
    (MovieTracksView, bool),
    Error,
> {
    |child: BMFFBox, acc: MovieTracksView|
        match spec_moov_child(data, child, acc) {
            Err(e) => Err(e),
            Ok(next) => Ok((next, false)),
        }
}

/// The colour and alpha tracks of the `moov` box `b`.
pub open spec fn spec_read_moov_tracks(data: Seq<u8>, b: BMFFBox) -> Result<MovieTracksView, Error> {
    spec_fold_boxes(data, b, MovieTracksView { color: None, alpha: None }, spec_moov_step(data))
}

/// Parses one child box of a `moov` box into `acc`.
pub fn read_moov_child(data: &[u8], child: &mut BMFFBox, acc: MovieTracks) -> (r: Result<
    MovieTracks,
    Error,
>)
    requires
        old(child).wf(data@.len()),
    ensures
        final(child).wf(data@.len()),
        agrees(r, spec_moov_child(data@, *old(child), acc.deep_view())),
        old(child).head.name != BoxType::TrackBox ==> !(r matches Err(Error::OutOfMemory)),
{
    match child.head.name {
        BoxType::MovieHeaderBox => {
            let _mvhd = read_mvhd(data, child)?;
            Ok(acc)
        },
        BoxType::TrackBox => {
            let t = read_trak(data, child)?;
            Ok(select_track(acc, t))
        },
        _ => {
            child.skip_box_remain();
            Ok(acc)
        },
    }
}

/// Walks over the children of a `moov` box and chooses its tracks.
#[verifier::loop_isolation(false)]
pub fn read_moov_tracks(data: &[u8], src: &mut BMFFBox) -> (r: Result<MovieTracks, Error>)
    requires
        old(src).wf(data@.len()),
    ensures
        final(src).wf(data@.len()),
        old(src).spec_next_box(data@) matches Err(e) ==> (r matches Err(x) && x == e),
        old(src).spec_next_box(data@) matches Ok(None) ==> r is Ok,
        agrees(r, spec_read_moov_tracks(data@, *old(src))),
        r is Ok ==> *final(src) == old(src).drained(),
{
    let ghost step = spec_moov_step(data@);
    let mut tracks = MovieTracks { color: None, alpha: None };
    let ghost whole = spec_fold_boxes(data@, *src, tracks.deep_view(), step);
    let ghost start = *src;
    let ghost mut started = false;
    let mut done = false;
    while !done
        invariant
            src.wf(data@.len()),
            !started && !done ==> *src == start,
            started ==> (start.spec_next_box(data@) matches Ok(Some(_))),
            !started && done ==> (start.spec_next_box(data@) matches Ok(None)),
            src.drained() == old(src).drained(),
            !done ==> whole == spec_fold_boxes(data@, *src, tracks.deep_view(), step),
            done ==> whole == Ok::<MovieTracksView, Error>(tracks.deep_view()) && *src == old(
                src,
            ).drained(),
        decreases
                (if done {
                    0
                } else {
                    src.avail() + 1
                }),
    {
        let mut b = match src.next_box(data) {
            Err(e) => {
                return Err(e);
            },
            Ok(None) => {
                done = true;
                continue ;
            },
            Ok(Some(b)) => b,
        };
        proof {
            started = true;
        }
        tracks = match read_moov_child(data, &mut b, tracks) {
            Err(e) => {
                return Err(e);
            },
            Ok(next) => next,
        };
    }
    Ok(tracks)
}

/// The sample tables and timing of an animation.
#[derive(Debug)]
pub struct AnimationParserData {
    /// Units per second of the sample durations.
    pub media_timescale: u32,
    /// The sample table of the colour track.
    pub sample_table: SampleTable,
    /// How often to play: 0 for endlessly, 1 for once.
    pub loop_count: u32,
    /// The sample table of the alpha track, if there is one.
    pub alpha_sample_table: Option<SampleTable>,
}

/// The mathematical value of [`AnimationParserData`].
pub struct AnimationView {
    pub media_timescale: u32,
    pub sample_table: SampleTableView,
    pub loop_count: u32,
    pub alpha_sample_table: Option<SampleTableView>,
}

impl DeepView for AnimationParserData {
    type V = AnimationView;

    open spec fn deep_view(&self) -> AnimationView {
        AnimationView {
            media_timescale: self.media_timescale,
            sample_table: self.sample_table.deep_view(),
            loop_count: self.loop_count,
            alpha_sample_table: spec_table_view(self.alpha_sample_table),
        }
    }
}

/// The value of an optional animation.
pub open spec fn spec_animation_view(a: Option<AnimationParserData>) -> Option<AnimationView> {
    match a {
        Some(a) => Some(a.deep_view()),
        None => None,
    }
}

/// How often to play, by the edit list flag of the colour track: once when
/// the flag is clear, endlessly when it is set or there is no edit list.
pub open spec fn spec_loop_count(looping: Option<bool>) -> u32 {
    match looping {
        Some(false) => 1,
        _ => 0,
    }
}

/// The sample table of a track, if the track has one.
pub open spec fn spec_track_table(t: TrackView) -> Option<SampleTableView> {
    match t.media {
        Some(m) => m.sample_table,
        None => None,
    }
}

/// The animation that the chosen tracks describe; none without a colour
/// track.
pub open spec fn spec_animation(tracks: MovieTracksView) -> Option<AnimationView> {
    match tracks.color {
        Some(c) => match c.media {
            Some(m) => match m.sample_table {
                Some(table) => Some(
                    AnimationView {
                        media_timescale: m.timescale,
                        sample_table: table,
                        loop_count: spec_loop_count(c.looping),
                        alpha_sample_table: match tracks.alpha {
                            Some(a) => spec_track_table(a),
                            None => None,
                        },
                    },
                ),
                None => None,
            },
            None => None,
        },
        None => None,
    }
}

/// The animation in the `moov` box `b`, if it holds a colour track.
pub open spec fn spec_read_moov(data: Seq<u8>, b: BMFFBox) -> Result<Option<AnimationView>, Error> {
    match spec_read_moov_tracks(data, b) {
        Err(e) => Err(e),
        Ok(tracks) => Ok(spec_animation(tracks)),
    }
}

/// The sample table of a track, if the track has one.
pub fn track_table(t: Track) -> (r: Option<SampleTable>)
    ensures
        spec_table_view(r) == spec_track_table(t.deep_view()),
{
    match t.media {
        Some(m) => m.sample_table,
        None => None,
    }
}

/// Makes the animation from the chosen tracks.
pub fn animation_from_tracks(tracks: MovieTracks) -> (r: Option<AnimationParserData>)
    ensures
        spec_animation_view(r) == spec_animation(tracks.deep_view()),
{
    let color = match tracks.color {
        Some(c) => c,
        None => {
            return None;
        },
    };
    let looping = color.looping;
    let media = match color.media {
        Some(m) => m,
        None => {
            return None;
        },
    };
    let sample_table = match media.sample_table {
        Some(t) => t,
        None => {
            return None;
        },
    };
    let alpha_sample_table = match tracks.alpha {
        Some(a) => track_table(a),
        None => None,
    };
    let loop_count: u32 = match looping {
        Some(false) => 1,
        _ => 0,
    };
    Some(
        AnimationParserData {
            media_timescale: media.timescale,
            sample_table,
            loop_count,
            alpha_sample_table,
        },
    )
}

/// Parses a movie box.
pub fn read_moov(data: &[u8], src: &mut BMFFBox) -> (r: Result<Option<AnimationParserData>, Error>)
    requires
        old(src).wf(data@.len()),
    ensures
        final(src).wf(data@.len()),
        match r {
            Ok(a) => spec_read_moov(data@, *old(src)) == Ok::<Option<AnimationView>, Error>(
                spec_animation_view(a),
            ),
            Err(e) => !(e is Stopped) && (e is OutOfMemory
                || spec_read_moov(data@, *old(src)) == Err::<
                Option<AnimationView>,
                Error,
            >(e)),
        },
        r is Ok ==> *final(src) == old(src).drained(),
        old(src).spec_next_box(data@) matches Err(e) ==> (r matches Err(x) && x == e),
        old(src).spec_next_box(data@) matches Ok(None) ==> r is Ok,
{
    let tracks = read_moov_tracks(data, src)?;
    Ok(animation_from_tracks(tracks))
}

} // verus!
