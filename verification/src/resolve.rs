//! From ranges and sample tables to bytes: where in the file an extent or a
//! frame lies.
use vstd::prelude::*;
use vstd::slice::slice_subrange;
use std::borrow::Cow;
use crate::error::Error;
use crate::fallible::extend;
use crate::items::ExtentRange;
use crate::moov::{SampleTable, SampleTableView, SampleToChunkEntry, TimeToSampleEntry};
use crate::toplevel::MdatBounds;

verus! {

/// Whether the payload `m` holds the byte at `offset`.
pub open spec fn spec_mdat_holds(m: MdatBounds, offset: u64) -> bool {
    m.offset <= offset < m.offset + m.length
}

/// The first of the payloads `mdats` that holds the byte at `offset`.
pub open spec fn spec_find_mdat(mdats: Seq<MdatBounds>, offset: u64) -> Option<MdatBounds>
    decreases mdats.len(),
{
    if mdats.len() == 0 {
        None
    } else if spec_mdat_holds(mdats[0], offset) {
        Some(mdats[0])
    } else {
        spec_find_mdat(mdats.drop_first(), offset)
    }
}

/// The range `start..end`, if it lies inside a buffer of `len` bytes.
pub open spec fn spec_in_bounds(start: int, end: int, len: nat) -> Result<(int, int), Error> {
    if start > end || end > len {
        Err(Error::InvalidData("extent out of bounds in raw buffer"))
    } else {
        Ok((start, end))
    }
}

/// The bytes of the file that `extent` stands for, as a range of offsets.
/// A range with a length must not reach past the `mdat` payload that it
/// starts in; a range without one runs to the end of that payload, or to
/// the end of the file when it starts in none.
pub open spec fn spec_file_span(extent: ExtentRange, mdats: Seq<MdatBounds>, len: nat) -> Result<
    (int, int),
    Error,
> {
    match extent {
        ExtentRange::WithLength { start, end } => if start > end {
            Err(Error::InvalidData("extent range start > end"))
        } else {
            match spec_find_mdat(mdats, start) {
                Some(m) => if end > m.offset + m.length {
                    Err(Error::InvalidData("extent crosses box boundary"))
                } else {
                    spec_in_bounds(start as int, end as int, len)
                },
                None => spec_in_bounds(start as int, end as int, len),
            }
        },
        ExtentRange::ToEnd { start } => match spec_find_mdat(mdats, start) {
            Some(m) => spec_in_bounds(start as int, m.offset + m.length, len),
            None => spec_in_bounds(start as int, len as int, len),
        },
    }
}

/// Finds the first payload that holds the byte at `offset`.
#[verifier::loop_isolation(false)]
pub fn find_mdat(mdats: &Vec<MdatBounds>, offset: u64) -> (r: Option<MdatBounds>)
    ensures
        r == spec_find_mdat(mdats@, offset),
{
    let mut i: usize = 0;
    assert(mdats@.subrange(0, mdats@.len() as int) =~= mdats@);
    while i < mdats.len()
        invariant
            i <= mdats@.len(),
            spec_find_mdat(mdats@, offset) == spec_find_mdat(
                mdats@.subrange(i as int, mdats@.len() as int),
                offset,
            ),
        decreases mdats@.len() - i,
    {
        assert(mdats@.subrange(i as int, mdats@.len() as int).drop_first() =~= mdats@.subrange(
            i + 1,
            mdats@.len() as int,
        ));
        let m = mdats[i];
        if m.offset <= offset && offset - m.offset < m.length {
            return Some(m);
        }
        i = i + 1;
    }
    None
}

/// Checks that `start..end` lies inside a buffer of `len` bytes.
pub fn in_bounds(start: u64, end: u64, len: usize) -> (r: Result<(usize, usize), Error>)
    ensures
        match r {
            Ok((s, e)) => spec_in_bounds(start as int, end as int, len as nat) == Ok::<
                (int, int),
                Error,
            >((s as int, e as int)) && s <= e <= len,
            Err(x) => spec_in_bounds(start as int, end as int, len as nat) == Err::<
                (int, int),
                Error,
            >(x),
        },
{
    if start > end || end > len as u64 {
        Err(Error::InvalidData("extent out of bounds in raw buffer"))
    } else {
        Ok((start as usize, end as usize))
    }
}

/// The range of file offsets that `extent` stands for.
pub fn file_span(extent: &ExtentRange, mdats: &Vec<MdatBounds>, len: usize) -> (r: Result<
    (usize, usize),
    Error,
>)
    ensures
        match r {
            Ok((s, e)) => spec_file_span(*extent, mdats@, len as nat) == Ok::<(int, int), Error>(
                (s as int, e as int),
            ) && s <= e <= len,
            Err(x) => spec_file_span(*extent, mdats@, len as nat) == Err::<(int, int), Error>(x),
        },
{
    match extent {
        ExtentRange::WithLength { start, end } => {
            if *start > *end {
                return Err(Error::InvalidData("extent range start > end"));
            }
            match find_mdat(mdats, *start) {
                Some(m) => {
                    if m.length <= u64::MAX - m.offset && *end > m.offset + m.length {
                        return Err(Error::InvalidData("extent crosses box boundary"));
                    }
                    in_bounds(*start, *end, len)
                },
                None => in_bounds(*start, *end, len),
            }
        },
        ExtentRange::ToEnd { start } => {
            match find_mdat(mdats, *start) {
                Some(m) => {
                    if m.length > u64::MAX - m.offset {
                        return Err(Error::InvalidData("extent out of bounds in raw buffer"));
                    }
                    in_bounds(*start, m.offset + m.length, len)
                },
                None => in_bounds(*start, len as u64, len),
            }
        },
    }
}

/// The bytes of an `idat` payload of `len` bytes that `extent` stands for,
/// as a range of offsets into the payload.
pub open spec fn spec_idat_span(extent: ExtentRange, len: nat) -> Result<(int, int), Error> {
    match extent {
        ExtentRange::WithLength { start, end } => if start > end || end > len {
            Err(Error::InvalidData("idat extent out of bounds"))
        } else {
            Ok((start as int, end as int))
        },
        ExtentRange::ToEnd { start } => if start > len {
            Err(Error::InvalidData("idat extent out of bounds"))
        } else {
            Ok((start as int, len as int))
        },
    }
}

/// The range of offsets into an `idat` payload that `extent` stands for.
pub fn idat_span(extent: &ExtentRange, len: usize) -> (r: Result<(usize, usize), Error>)
    ensures
        match r {
            Ok((s, e)) => spec_idat_span(*extent, len as nat) == Ok::<(int, int), Error>(
                (s as int, e as int),
            ) && s <= e <= len,
            Err(x) => spec_idat_span(*extent, len as nat) == Err::<(int, int), Error>(x),
        },
{
    match extent {
        ExtentRange::WithLength { start, end } => {
            if *start > *end || *end > len as u64 {
                Err(Error::InvalidData("idat extent out of bounds"))
            } else {
                Ok((*start as usize, *end as usize))
            }
        },
        ExtentRange::ToEnd { start } => {
            if *start > len as u64 {
                Err(Error::InvalidData("idat extent out of bounds"))
            } else {
                Ok((*start as usize, len))
            }
        },
    }
}

/// The range of offsets into `source` that `extent` stands for: into the
/// file when `in_file` holds, into an `idat` payload otherwise.
pub open spec fn spec_span(extent: ExtentRange, mdats: Seq<MdatBounds>, len: nat, in_file: bool) -> Result<
    (int, int),
    Error,
> {
    if in_file {
        spec_file_span(extent, mdats, len)
    } else {
        spec_idat_span(extent, len)
    }
}

/// `acc` followed by the bytes of `source` that the ranges `extents` stand
/// for, in order.
pub open spec fn spec_concat_extents(
    source: Seq<u8>,
    mdats: Seq<MdatBounds>,
    in_file: bool,
    extents: Seq<ExtentRange>,
    acc: Seq<u8>,
) -> Result<Seq<u8>, Error>
    decreases extents.len(),
{
    if extents.len() == 0 {
        Ok(acc)
    } else {
        match spec_span(extents[0], mdats, source.len(), in_file) {
            Err(e) => Err(e),
            Ok((s, e)) => spec_concat_extents(
                source,
                mdats,
                in_file,
                extents.drop_first(),
                acc + source.subrange(s, e),
            ),
        }
    }
}

/// The data of an item whose ranges are `extents`: the bytes of `source`
/// that the ranges stand for, in order.
pub open spec fn spec_resolve_extents(
    source: Seq<u8>,
    mdats: Seq<MdatBounds>,
    in_file: bool,
    extents: Seq<ExtentRange>,
) -> Result<Seq<u8>, Error> {
    spec_concat_extents(source, mdats, in_file, extents, Seq::empty())
}

/// The range of offsets into the source that `extent` stands for.
pub fn span(extent: &ExtentRange, mdats: &Vec<MdatBounds>, len: usize, in_file: bool) -> (r: Result<
    (usize, usize),
    Error,
>)
    ensures
        match r {
            Ok((s, e)) => spec_span(*extent, mdats@, len as nat, in_file) == Ok::<
                (int, int),
                Error,
            >((s as int, e as int)) && s <= e <= len,
            Err(x) => !(x is Stopped) && !(x is OutOfMemory) && spec_span(
                *extent,
                mdats@,
                len as nat,
                in_file,
            ) == Err::<(int, int), Error>(x),
        },
{
    if in_file {
        file_span(extent, mdats, len)
    } else {
        idat_span(extent, len)
    }
}

/// Resolves the ranges `extents` against `source`. One range gives a
/// borrowed slice of `source`; any other number gives an owned buffer with
/// the ranges' bytes one after the other.
#[verifier::loop_isolation(false)]
pub fn resolve_extents<'a>(
    source: &'a [u8],
    mdats: &Vec<MdatBounds>,
    in_file: bool,
    extents: &Vec<ExtentRange>,
) -> (r: Result<Cow<'a, [u8]>, Error>)
    ensures
        match r {
            Ok(c) => spec_resolve_extents(source@, mdats@, in_file, extents@) == Ok::<
                Seq<u8>,
                Error,
            >(c@) && (c is Borrowed <==> extents@.len() == 1),
            Err(e) => !(e is Stopped) && (e is OutOfMemory || spec_resolve_extents(
                source@,
                mdats@,
                in_file,
                extents@,
            ) == Err::<Seq<u8>, Error>(e)),
        },
        extents@.len() == 1 ==> !(r matches Err(Error::OutOfMemory)),
        extents@.len() >= 1 ==> (spec_span(extents@[0], mdats@, source@.len(), in_file) matches Err(
            e,
        ) ==> r == Err::<Cow<'a, [u8]>, Error>(e)),
{
    if extents.len() == 1 {
        assert(extents@.drop_first() =~= Seq::empty());
        let (start, end) = match span(&extents[0], mdats, source.len(), in_file) {
            Err(e) => {
                return Err(e);
            },
            Ok(x) => x,
        };
        let slice = slice_subrange(source, start, end);
        assert(Seq::<u8>::empty() + source@.subrange(start as int, end as int) =~= slice@);
        assert(spec_concat_extents(source@, mdats@, in_file, extents@.drop_first(), slice@) == Ok::<
            Seq<u8>,
            Error,
        >(slice@));
        return Ok(Cow::Borrowed(slice));
    }
    let mut data: Vec<u8> = Vec::new();
    let mut i: usize = 0;
    assert(extents@.subrange(0, extents@.len() as int) =~= extents@);
    while i < extents.len()
        invariant
            i <= extents@.len(),
            i > 0 ==> spec_span(extents@[0], mdats@, source@.len(), in_file) is Ok,
            spec_resolve_extents(source@, mdats@, in_file, extents@) == spec_concat_extents(
                source@,
                mdats@,
                in_file,
                extents@.subrange(i as int, extents@.len() as int),
                data@,
            ),
        decreases extents@.len() - i,
    {
        assert(extents@.subrange(i as int, extents@.len() as int).drop_first()
            =~= extents@.subrange(i + 1, extents@.len() as int));
        let (start, end) = match span(&extents[i], mdats, source.len(), in_file) {
            Err(e) => {
                return Err(e);
            },
            Ok(x) => x,
        };
        let slice = slice_subrange(source, start, end);
        match extend(&mut data, slice) {
            Err(e) => {
                return Err(e);
            },
            Ok(()) => {},
        }
        i = i + 1;
    }
    Ok(Cow::Owned(data))
}

/// Number of chunks that entry `i` of the sample-to-chunk table governs:
/// those from its first chunk up to the first chunk of the next entry, as
/// far as the chunk offset table has them.
pub open spec fn spec_chunk_span(st: SampleTableView, i: int) -> int {
    let first = st.sample_to_chunk[i].first_chunk as int;
    let next = if i + 1 < st.sample_to_chunk.len() {
        st.sample_to_chunk[i + 1].first_chunk as int
    } else {
        u32::MAX as int
    };
    let stop = if next < st.chunk_offsets.len() + 1 {
        next
    } else {
        st.chunk_offsets.len() as int + 1
    };
    if first == 0 || stop <= first {
        0
    } else {
        stop - first
    }
}

/// The chunk, counted from one, that holds sample `index`, and the number
/// of samples before it in that chunk, searching from entry `i` of the
/// sample-to-chunk table on, before which `cur` samples lie.
pub open spec fn spec_locate(st: SampleTableView, i: int, cur: int, index: int) -> Option<(int, int)>
    decreases st.sample_to_chunk.len() - i,
{
    if i < 0 || i >= st.sample_to_chunk.len() {
        None
    } else {
        let spc = st.sample_to_chunk[i].samples_per_chunk as int;
        let total = spec_chunk_span(st, i) * spc;
        if index - cur < total {
            Some((st.sample_to_chunk[i].first_chunk + (index - cur) / spc, (index - cur) % spc))
        } else {
            spec_locate(st, i + 1, cur + total, index)
        }
    }
}

/// Sum of the sizes of the samples `from` up to, not including, `to`.
pub open spec fn spec_sum_sizes(sizes: Seq<u32>, from: int, to: int) -> int
    decreases to - from,
{
    if from >= to {
        0
    } else {
        sizes[to - 1] + spec_sum_sizes(sizes, from, to - 1)
    }
}

/// Offset in the file and size of sample `index`: the offset of its chunk
/// plus the sizes of the samples before it in that chunk.
pub open spec fn spec_sample_location(st: SampleTableView, index: int) -> Result<(u64, u32), Error> {
    if index < 0 || index >= st.sample_sizes.len() {
        Err(Error::InvalidData("sample index out of bounds"))
    } else {
        match spec_locate(st, 0, 0, index) {
            None => Err(Error::InvalidData("sample not found in chunk table")),
            Some((chunk, within)) => {
                let offset = st.chunk_offsets[chunk - 1] + spec_sum_sizes(
                    st.sample_sizes,
                    index - within,
                    index,
                );
                if offset > u64::MAX {
                    Err(Error::InvalidData("sample offset overflow"))
                } else {
                    Ok((offset as u64, st.sample_sizes[index]))
                }
            },
        }
    }
}

/// A sum of sizes grows with its upper end.
pub proof fn lemma_sum_sizes_monotone(sizes: Seq<u32>, from: int, a: int, b: int)
    requires
        from <= a <= b,
    ensures
        0 <= spec_sum_sizes(sizes, from, a) <= spec_sum_sizes(sizes, from, b),
    decreases b - from,
{
    if from < b {
        if a < b {
            lemma_sum_sizes_monotone(sizes, from, a, b - 1);
        } else {
            lemma_sum_sizes_monotone(sizes, from, a - 1, b - 1);
        }
    }
}

/// Number of chunks that entry `i` of the sample-to-chunk table governs.
pub fn chunk_span(st: &SampleTable, i: usize) -> (r: u64)
    requires
        i < st.sample_to_chunk@.len(),
    ensures
        r == spec_chunk_span(st.deep_view(), i as int),
        r <= u32::MAX,
{
    let first = st.sample_to_chunk[i].first_chunk as u64;
    let entries = st.sample_to_chunk.len();
    let next: u64 = if i + 1 < entries {
        st.sample_to_chunk[i + 1].first_chunk as u64
    } else {
        u32::MAX as u64
    };
    let chunks = st.chunk_offsets.len() as u64;
    let stop: u64 = if next <= chunks {
        next
    } else {
        chunks + 1
    };
    if first == 0 || stop <= first {
        0
    } else {
        stop - first
    }
}

/// Locates sample `index` in the chunks.
#[verifier::loop_isolation(false)]
pub fn locate(st: &SampleTable, index: u64) -> (r: Option<(u64, u64)>)
    ensures
        match r {
            Some((chunk, within)) => spec_locate(st.deep_view(), 0, 0, index as int) == Some(
                (chunk as int, within as int),
            ) && 1 <= chunk <= st.chunk_offsets@.len() && within <= index,
            None => spec_locate(st.deep_view(), 0, 0, index as int) is None,
        },
{
    let ghost v = st.deep_view();
    let mut cur: u64 = 0;
    let mut i: usize = 0;
    while i < st.sample_to_chunk.len()
        invariant
            i <= st.sample_to_chunk@.len(),
            cur <= index,
            spec_locate(v, 0, 0, index as int) == spec_locate(v, i as int, cur as int, index as int),
        decreases st.sample_to_chunk@.len() - i,
    {
        let entry = st.sample_to_chunk[i];
        let spc = entry.samples_per_chunk as u64;
        let chunks = chunk_span(st, i);
        assert(chunks * spc <= 0xffff_ffff * 0xffff_ffff) by (nonlinear_arith)
            requires
                chunks <= 0xffff_ffff,
                spc <= 0xffff_ffff,
        ;
        let total = chunks * spc;
        let k = index - cur;
        if k < total {
            assert(spc > 0 && chunks > 0) by (nonlinear_arith)
                requires
                    k < chunks * spc,
                    k >= 0,
                    spc >= 0,
                    chunks >= 0,
            ;
            assert(k / spc < chunks && k % spc <= k) by (nonlinear_arith)
                requires
                    k < chunks * spc,
                    spc > 0,
                    k >= 0,
            ;
            return Some((entry.first_chunk as u64 + k / spc, k % spc));
        }
        cur = cur + total;
        i = i + 1;
    }
    None
}

/// Sum of the sizes of the `count` samples before sample `index`, or
/// nothing when the sum does not fit 64 bits.
#[verifier::loop_isolation(false)]
pub fn sum_sizes_before(sizes: &Vec<u32>, index: usize, count: u64) -> (r: Option<u64>)
    requires
        count <= index <= sizes@.len(),
    ensures
        match r {
            Some(sum) => sum == spec_sum_sizes(sizes@, index - count, index as int),
            None => spec_sum_sizes(sizes@, index - count, index as int) > u64::MAX,
        },
{
    let from: usize = index - count as usize;
    let mut sum: u64 = 0;
    let mut k: usize = from;
    while k < index
        invariant
            from <= k <= index,
            sum == spec_sum_sizes(sizes@, from as int, k as int),
        decreases index - k,
    {
        let size = sizes[k] as u64;
        if size > u64::MAX - sum {
            proof {
                lemma_sum_sizes_monotone(sizes@, from as int, k + 1, index as int);
            }
            return None;
        }
        sum = sum + size;
        k = k + 1;
    }
    Some(sum)
}

/// Works out where sample `index` lies in the file, and its size.
pub fn calculate_sample_location(st: &SampleTable, index: usize) -> (r: Result<(u64, u32), Error>)
    ensures
        r == spec_sample_location(st.deep_view(), index as int),
{
    if index >= st.sample_sizes.len() {
        return Err(Error::InvalidData("sample index out of bounds"));
    }
    let sample_size = st.sample_sizes[index];
    match locate(st, index as u64) {
        None => Err(Error::InvalidData("sample not found in chunk table")),
        Some((chunk, within)) => {
            let chunks = st.chunk_offsets.len();
            assert(chunk - 1 < chunks);
            let chunk_offset = st.chunk_offsets[(chunk - 1) as usize];
            match sum_sizes_before(&st.sample_sizes, index, within) {
                None => Err(Error::InvalidData("sample offset overflow")),
                Some(offset_in_chunk) => {
                    if offset_in_chunk > u64::MAX - chunk_offset {
                        Err(Error::InvalidData("sample offset overflow"))
                    } else {
                        Ok((chunk_offset + offset_in_chunk, sample_size))
                    }
                },
            }
        },
    }
}

/// The duration in media units of sample `index`, searching from entry `i`
/// of the time-to-sample table on, before which `cur` samples lie.
pub open spec fn spec_sample_delta(stts: Seq<TimeToSampleEntry>, i: int, cur: int, index: int) -> Option<
    u32,
>
    decreases stts.len() - i,
{
    if i < 0 || i >= stts.len() {
        None
    } else if index - cur < stts[i].sample_count {
        Some(stts[i].sample_delta)
    } else {
        spec_sample_delta(stts, i + 1, cur + stts[i].sample_count, index)
    }
}

/// `delta` media units in milliseconds, at `timescale` units per second,
/// rounded down and cut to 32 bits; 0 when the timescale is 0.
pub open spec fn spec_duration_ms(delta: u32, timescale: u32) -> u32 {
    if timescale == 0 {
        0
    } else {
        ((delta as int * 1000 / timescale as int) % 0x1_0000_0000) as u32
    }
}

/// The duration of frame `index` in milliseconds; 0 when the
/// time-to-sample table does not reach that frame.
pub open spec fn spec_frame_duration(stts: Seq<TimeToSampleEntry>, timescale: u32, index: int) -> u32 {
    match spec_sample_delta(stts, 0, 0, index) {
        Some(delta) => spec_duration_ms(delta, timescale),
        None => 0,
    }
}

/// Converts a duration in media units to milliseconds.
pub fn duration_ms(delta: u32, timescale: u32) -> (r: u32)
    ensures
        r == spec_duration_ms(delta, timescale),
{
    if timescale == 0 {
        0
    } else {
        let ms: u64 = (delta as u64) * 1000 / (timescale as u64);
        (ms % 0x1_0000_0000) as u32
    }
}

/// Works out how long frame `index` is shown.
#[verifier::loop_isolation(false)]
pub fn calculate_frame_duration(st: &SampleTable, timescale: u32, index: usize) -> (r: u32)
    ensures
        r == spec_frame_duration(st.time_to_sample@, timescale, index as int),
{
    let mut cur: u64 = 0;
    let mut i: usize = 0;
    let target = index as u64;
    while i < st.time_to_sample.len()
        invariant
            i <= st.time_to_sample@.len(),
            cur <= target,
            spec_sample_delta(st.time_to_sample@, 0, 0, index as int) == spec_sample_delta(
                st.time_to_sample@,
                i as int,
                cur as int,
                index as int,
            ),
        decreases st.time_to_sample@.len() - i,
    {
        let entry = st.time_to_sample[i];
        if target - cur < entry.sample_count as u64 {
            return duration_ms(entry.sample_delta, timescale);
        }
        cur = cur + entry.sample_count as u64;
        i = i + 1;
    }
    0
}

} // verus!
