//! The pass over the top-level boxes of a file: `ftyp` first, then `meta`,
//! `moov` and any number of `mdat` boxes, in any order.
use vstd::prelude::*;
use enough::StopReason;
use crate::boxes::{BoxType, FourCC, FOURCC_AVIF, FOURCC_AVIS};
use crate::bytes::spec_be_u32;
use crate::config::{DecodeConfig, ParseOptions, ResourceTracker};
use crate::error::{agrees, agrees_unless_stopped, Error};
use crate::fallible::{push, with_capacity};
use crate::meta::{read_avif_meta, spec_read_avif_meta, AvifInternalMeta, MetaView};
use crate::moov::{
    read_moov, spec_animation_view, spec_read_moov, AnimationParserData, AnimationView,
};
use crate::reader::{
    check_parser_state, spec_check_parser_state, spec_fold_boxes, BMFFBox,
};

verus! {

/// The file type box.
#[derive(Debug)]
pub struct FileTypeBox {
    pub major_brand: FourCC,
    pub minor_version: u32,
    pub compatible_brands: Vec<FourCC>,
}

/// The mathematical value of a [`FileTypeBox`].
pub struct FileTypeView {
    pub major_brand: FourCC,
    pub minor_version: u32,
    pub compatible_brands: Seq<FourCC>,
}

impl DeepView for FileTypeBox {
    type V = FileTypeView;

    open spec fn deep_view(&self) -> FileTypeView {
        FileTypeView {
            major_brand: self.major_brand,
            minor_version: self.minor_version,
            compatible_brands: self.compatible_brands@,
        }
    }
}

/// The payload of a `mdat` box: `length` bytes of the file from `offset` on.
#[derive(Debug, Clone, Copy, PartialEq, Eq, Structural)]
pub struct MdatBounds {
    pub offset: u64,
    pub length: u64,
}

/// Number of compatible brands that the `ftyp` box `b` declares: what
/// follows its major brand and minor version must be whole brands.
pub open spec fn spec_ftyp_brand_count(b: BMFFBox) -> Result<int, Error> {
    if b.avail() < 8 {
        Err(Error::UnexpectedEOF)
    } else if (b.limit - 8) % 4 != 0 {
        Err(Error::InvalidData("invalid ftyp size"))
    } else if (b.limit - 8) / 4 > usize::MAX {
        Err(Error::Unsupported("integer conversion failed"))
    } else {
        Ok((b.limit - 8) / 4)
    }
}

/// The content of the `ftyp` box `b`: the brands fill the box exactly.
pub open spec fn spec_read_ftyp(data: Seq<u8>, b: BMFFBox) -> Result<FileTypeView, Error> {
    if spec_ftyp_brand_count(b) is Err {
        Err(spec_ftyp_brand_count(b)->Err_0)
    } else if b.avail() - 8 < b.limit - 8 {
        Err(Error::UnexpectedEOF)
    } else {
        Ok(
            FileTypeView {
                major_brand: FourCC { value: spec_be_u32(data, b.pos as int) },
                minor_version: spec_be_u32(data, b.pos + 4),
                compatible_brands: Seq::new(
                    ((b.limit - 8) / 4) as nat,
                    |i: int| FourCC { value: spec_be_u32(data, b.pos + 8 + 4 * i) },
                ),
            },
        )
    }
}

/// Parses a file type box.
#[verifier::loop_isolation(false)]
pub fn read_ftyp(data: &[u8], src: &mut BMFFBox) -> (r: Result<FileTypeBox, Error>)
    requires
        old(src).wf(data@.len()),
    ensures
        final(src).wf(data@.len()),
        agrees(r, spec_read_ftyp(data@, *old(src))),
        spec_ftyp_brand_count(*old(src)) matches Err(e) ==> r == Err::<FileTypeBox, Error>(e),
{
    let major = src.be_u32(data)?;
    let minor = src.be_u32(data)?;
    let bytes_left = src.bytes_left();
    if bytes_left % 4 != 0 {
        return Err(Error::InvalidData("invalid ftyp size"));
    }
    let brand_count = bytes_left / 4;
    if brand_count > usize::MAX as u64 {
        return Err(Error::Unsupported("integer conversion failed"));
    }
    let mut brands: Vec<FourCC> = with_capacity(brand_count as usize)?;
    let ghost at = old(src).pos + 8;
    let mut i: u64 = 0;
    while i < brand_count
        invariant
            src.wf(data@.len()),
            src.end == old(src).end,
            i <= brand_count,
            src.pos == at + 4 * i,
            brands@ == Seq::new(i as nat, |k: int| FourCC { value: spec_be_u32(data@, at + 4 * k) }),
        decreases brand_count - i,
    {
        let brand = src.be_u32(data)?;
        match push(&mut brands, FourCC { value: brand }) {
            Err(e) => {
                return Err(e);
            },
            Ok(()) => {},
        }
        i = i + 1;
        assert(brands@ =~= Seq::new(
            i as nat,
            |k: int| FourCC { value: spec_be_u32(data@, at + 4 * k) },
        ));
    }
    Ok(
        FileTypeBox {
            major_brand: FourCC { value: major },
            minor_version: minor,
            compatible_brands: brands,
        },
    )
}

/// What the pass over the top-level boxes yields.
#[derive(Debug)]
pub struct ParsedStructure {
    pub meta: AvifInternalMeta,
    pub mdat_bounds: Vec<MdatBounds>,
    pub animation_data: Option<AnimationParserData>,
}

/// The mathematical value of a [`ParsedStructure`].
pub struct ParsedView {
    pub meta: MetaView,
    pub mdat_bounds: Seq<MdatBounds>,
    pub animation_data: Option<AnimationView>,
}

impl DeepView for ParsedStructure {
    type V = ParsedView;

    open spec fn deep_view(&self) -> ParsedView {
        ParsedView {
            meta: self.meta.deep_view(),
            mdat_bounds: self.mdat_bounds@,
            animation_data: spec_animation_view(self.animation_data),
        }
    }
}

/// What the pass has gathered so far.
pub struct TopParts {
    pub meta: Option<AvifInternalMeta>,
    pub mdat_bounds: Vec<MdatBounds>,
    pub animation_data: Option<AnimationParserData>,
}

/// The mathematical value of [`TopParts`].
pub struct TopPartsView {
    pub meta: Option<MetaView>,
    pub mdat_bounds: Seq<MdatBounds>,
    pub animation_data: Option<AnimationView>,
}

impl DeepView for TopParts {
    type V = TopPartsView;

    open spec fn deep_view(&self) -> TopPartsView {
        TopPartsView {
            meta: match self.meta {
                Some(m) => Some(m.deep_view()),
                None => None,
            },
            mdat_bounds: self.mdat_bounds@,
            animation_data: spec_animation_view(self.animation_data),
        }
    }
}

/// What the top-level box `child` adds to `acc`, before it is checked that
/// the box was read to its end. A second `meta` box is an error; of several
/// `moov` boxes the first that holds a colour track counts; an empty `mdat`
/// box is ignored. Where the reader is to copy the payloads, each `mdat`
/// payload is held against the memory limit `mdat_limit` as it is met.
#[verifier::opaque]
pub open spec fn spec_top_child_parsed(
    data: Seq<u8>,
    child: BMFFBox,
    acc: TopPartsView,
    lenient: bool,
    mdat_limit: Option<u64>,
) -> Result<TopPartsView, Error> {
    match child.head.name {
        BoxType::MetadataBox => if acc.meta is Some {
            Err(
                Error::InvalidData(
                    "There should be zero or one meta boxes per ISO 14496-12:2015 \u{a7} 8.11.1.1",
                ),
            )
        } else {
            match spec_read_avif_meta(data, child, lenient) {
                Err(e) => Err(e),
                Ok(m) => Ok(TopPartsView { meta: Some(m), ..acc }),
            }
        },
        BoxType::MovieBox => if acc.animation_data is Some {
            Ok(acc)
        } else {
            match spec_read_moov(data, child) {
                Err(e) => Err(e),
                Ok(a) => Ok(TopPartsView { animation_data: a, ..acc }),
            }
        },
        BoxType::MediaDataBox => if child.avail() > 0 {
            if mdat_limit is Some && child.avail() > mdat_limit->0 {
                Err(Error::ResourceLimitExceeded("peak memory limit exceeded"))
            } else {
                Ok(
                    TopPartsView {
                        mdat_bounds: acc.mdat_bounds.push(
                            MdatBounds { offset: child.pos as u64, length: child.avail() as u64 },
                        ),
                        ..acc
                    },
                )
            }
        } else {
            Ok(acc)
        },
        _ => Ok(acc),
    }
}

/// What the top-level box `child` adds to `acc`.
#[verifier::opaque]
pub open spec fn spec_top_child(
    data: Seq<u8>,
    child: BMFFBox,
    acc: TopPartsView,
    lenient: bool,
    mdat_limit: Option<u64>,
) -> Result<TopPartsView, Error> {
    match spec_top_child_parsed(data, child, acc, lenient, mdat_limit) {
        Err(e) => Err(e),
        Ok(next) => match spec_check_parser_state(child.drained()) {
            Err(e) => Err(e),
            Ok(()) => Ok(next),
        },
    }
}

/// One step of the pass over the top-level boxes.
pub open spec fn spec_top_step(data: Seq<u8>, lenient: bool, mdat_limit: Option<u64>) -> spec_fn(
    BMFFBox,
    TopPartsView,
) -> Result<(TopPartsView, bool), Error> {
    |child: BMFFBox, acc: TopPartsView|
        match spec_top_child(data, child, acc, lenient, mdat_limit) {
            Err(e) => Err(e),
            Ok(next) => Ok((next, false)),
        }
}

/// Nothing gathered yet.
pub open spec fn spec_top_parts_empty() -> TopPartsView {
    TopPartsView { meta: None, mdat_bounds: Seq::empty(), animation_data: None }
}

/// The structure, once every top-level box has been read: there must have
/// been a `meta` box.
pub open spec fn spec_finish_top(parts: TopPartsView) -> Result<ParsedView, Error> {
    match parts.meta {
        None => Err(Error::InvalidData("missing meta")),
        Some(meta) => Ok(
            ParsedView {
                meta,
                mdat_bounds: parts.mdat_bounds,
                animation_data: parts.animation_data,
            },
        ),
    }
}

/// What the first box of a file must be: an `ftyp` box with the major
/// brand `avif` or `avis`.
pub open spec fn spec_check_first(data: Seq<u8>, first: BMFFBox) -> Result<(), Error> {
    if first.head.name != BoxType::FileTypeBox {
        Err(Error::InvalidData("'ftyp' box must occur first"))
    } else {
        match spec_read_ftyp(data, first) {
            Err(e) => Err(e),
            Ok(ftyp) => if ftyp.major_brand.value != FOURCC_AVIF && ftyp.major_brand.value
                != FOURCC_AVIS {
                Err(Error::InvalidData("ftyp must be 'avif' or 'avis'"))
            } else {
                Ok(())
            },
        }
    }
}

/// The error of a file that is rejected at its first box, before anything
/// is stored: the file is empty or its first header is malformed, the first
/// box is no `ftyp` box, or the `ftyp` box does not hold whole brands.
pub open spec fn spec_first_box_error(data: Seq<u8>) -> Option<Error> {
    match BMFFBox::spec_root(data.len()).spec_next_box(data) {
        Err(e) => Some(e),
        Ok(None) => Some(Error::InvalidData("missing meta")),
        Ok(Some((first, _))) => if first.head.name != BoxType::FileTypeBox {
            Some(Error::InvalidData("'ftyp' box must occur first"))
        } else {
            match spec_ftyp_brand_count(first) {
                Err(e) => Some(e),
                Ok(_) => None,
            }
        },
    }
}

/// The structure of the file `data`, as the zero-copy parser records it.
pub open spec fn spec_parse_raw(data: Seq<u8>, lenient: bool) -> Result<ParsedView, Error> {
    spec_parse_raw_limited(data, lenient, None)
}

/// The structure of the file `data`, each `mdat` payload being held
/// against the memory limit `mdat_limit` as the pass meets it.
pub open spec fn spec_parse_raw_limited(data: Seq<u8>, lenient: bool, mdat_limit: Option<u64>) -> Result<
    ParsedView,
    Error,
> {
    let root = BMFFBox::spec_root(data.len());
    match root.spec_next_box(data) {
        Err(e) => Err(e),
        Ok(None) => Err(Error::InvalidData("missing meta")),
        Ok(Some((first, rest))) => match spec_check_first(data, first) {
            Err(e) => Err(e),
            Ok(()) => match spec_fold_boxes(
                data,
                rest,
                spec_top_parts_empty(),
                spec_top_step(data, lenient, mdat_limit),
            ) {
                Err(e) => Err(e),
                Ok(parts) => spec_finish_top(parts),
            },
        },
    }
}

/// Whether a parse of `data` gets as far as asking whether to stop: the
/// first box is an accepted `ftyp` box, and a header follows it.
pub open spec fn spec_polls_stop(data: Seq<u8>) -> bool {
    let root = BMFFBox::spec_root(data.len());
    match root.spec_next_box(data) {
        Ok(Some((first, rest))) => spec_check_first(data, first) is Ok && spec_has_next(
            data,
            rest,
        ),
        _ => false,
    }
}

/// Checks the first box of a file.
pub fn check_first(data: &[u8], first: &mut BMFFBox) -> (r: Result<(), Error>)
    requires
        old(first).wf(data@.len()),
    ensures
        match r {
            Ok(()) => spec_check_first(data@, *old(first)) == Ok::<(), Error>(()),
            Err(e) => !(e is Stopped) && (e is OutOfMemory
                || spec_check_first(data@, *old(first)) == Err::<(), Error>(
                e,
            )),
        },
        old(first).head.name != BoxType::FileTypeBox ==> r == Err::<(), Error>(
            Error::InvalidData("'ftyp' box must occur first"),
        ),
        old(first).head.name == BoxType::FileTypeBox ==> (spec_ftyp_brand_count(
            *old(first),
        ) matches Err(e) ==> r == Err::<(), Error>(e)),
{
    if first.head.name != BoxType::FileTypeBox {
        return Err(Error::InvalidData("'ftyp' box must occur first"));
    }
    let ftyp = read_ftyp(data, first)?;
    if !ftyp.major_brand.is(FOURCC_AVIF) && !ftyp.major_brand.is(FOURCC_AVIS) {
        return Err(Error::InvalidData("ftyp must be 'avif' or 'avis'"));
    }
    Ok(())
}

/// Parses the content of one top-level box into `acc`.
pub fn read_top_child_content(
    data: &[u8],
    child: &mut BMFFBox,
    acc: TopParts,
    options: &ParseOptions,
    tracker: &mut ResourceTracker,
) -> (r: Result<TopParts, Error>)
    requires
        old(child).wf(data@.len()),
        old(child).limit == old(child).head.size - old(child).head.offset,
        old(tracker).spec_idle(),
    ensures
        final(child).wf(data@.len()),
        r is Ok ==> final(tracker).spec_idle(),
        final(tracker).peak_memory_limit == old(tracker).peak_memory_limit,
        agrees(
            r,
            spec_top_child_parsed(
                data@,
                *old(child),
                acc.deep_view(),
                options.lenient,
                old(tracker).peak_memory_limit,
            ),
        ),
        r is Ok ==> *final(child) == old(child).drained(),
        old(child).head.name == BoxType::MediaDataBox && old(tracker).peak_memory_limit is Some
            && old(child).avail() > old(tracker).peak_memory_limit->0 ==> r == Err::<
            TopParts,
            Error,
        >(Error::ResourceLimitExceeded("peak memory limit exceeded")),
        old(child).head.name == BoxType::MetadataBox && acc.meta is Some ==> r is Err && !(
        r matches Err(Error::OutOfMemory)),
        old(child).head.name != BoxType::MetadataBox
            && old(child).head.name != BoxType::MovieBox
            && old(child).head.name != BoxType::MediaDataBox
            ==> !(r matches Err(Error::OutOfMemory)),
{
    reveal(spec_top_child_parsed);
    let mut acc = acc;
    match child.head.name {
        BoxType::MetadataBox => {
            if acc.meta.is_some() {
                return Err(
                    Error::InvalidData(
                        "There should be zero or one meta boxes per ISO 14496-12:2015 \u{a7} 8.11.1.1",
                    ),
                );
            }
            acc.meta = Some(read_avif_meta(data, child, options)?);
        },
        BoxType::MovieBox => {
            if acc.animation_data.is_some() {
                child.skip_box_content();
            } else {
                acc.animation_data = read_moov(data, child)?;
            }
        },
        BoxType::MediaDataBox => {
            if child.end - child.pos > 0 {
                let offset = child.offset();
                let length = (child.end - child.pos) as u64;
                tracker.reserve(length)?;
                tracker.release(length);
                push(&mut acc.mdat_bounds, MdatBounds { offset, length })?;
            }
            child.skip_box_content();
        },
        _ => {
            child.skip_box_content();
        },
    }
    Ok(acc)
}

/// Parses one top-level box into `acc` and checks that the box was read to
/// its end.
pub fn read_top_child(
    data: &[u8],
    child: &mut BMFFBox,
    acc: TopParts,
    options: &ParseOptions,
    tracker: &mut ResourceTracker,
) -> (r: Result<TopParts, Error>)
    requires
        old(child).wf(data@.len()),
        old(child).limit == old(child).head.size - old(child).head.offset,
        old(tracker).spec_idle(),
    ensures
        final(child).wf(data@.len()),
        r is Ok ==> final(tracker).spec_idle(),
        final(tracker).peak_memory_limit == old(tracker).peak_memory_limit,
        agrees(
            r,
            spec_top_child(
                data@,
                *old(child),
                acc.deep_view(),
                options.lenient,
                old(tracker).peak_memory_limit,
            ),
        ),
        old(child).head.name == BoxType::MediaDataBox && old(tracker).peak_memory_limit is Some
            && old(child).avail() > old(tracker).peak_memory_limit->0 ==> r == Err::<
            TopParts,
            Error,
        >(Error::ResourceLimitExceeded("peak memory limit exceeded")),
        old(child).head.name != BoxType::MetadataBox
            && old(child).head.name != BoxType::MovieBox
            && old(child).head.name != BoxType::MediaDataBox
            ==> !(r matches Err(Error::OutOfMemory)),
        old(child).head.name == BoxType::MetadataBox && acc.meta is Some ==> r is Err
            && !(r matches Err(Error::OutOfMemory)),
{
    reveal(spec_top_child);
    let next = read_top_child_content(data, child, acc, options, tracker)?;
    check_parser_state(child)?;
    Ok(next)
}

/// Turns the answer of the stop callback into the parser's result: a
/// request to stop ends the parse with that reason.
pub fn stop_outcome(polled: Result<(), StopReason>) -> (r: Result<(), Error>)
    ensures
        match polled {
            Ok(()) => r == Ok::<(), Error>(()),
            Err(reason) => r == Err::<(), Error>(Error::Stopped(reason)),
        },
{
    match polled {
        Ok(()) => Ok(()),
        Err(reason) => Err(Error::Stopped(reason)),
    }
}

/// Makes the structure from what the pass has gathered.
pub fn finish_top(parts: TopParts) -> (r: Result<ParsedStructure, Error>)
    ensures
        match r {
            Ok(p) => spec_finish_top(parts.deep_view()) == Ok::<ParsedView, Error>(p.deep_view()),
            Err(e) => spec_finish_top(parts.deep_view()) == Err::<ParsedView, Error>(e),
        },
{
    match parts.meta {
        None => Err(Error::InvalidData("missing meta")),
        Some(meta) => Ok(
            ParsedStructure {
                meta,
                mdat_bounds: parts.mdat_bounds,
                animation_data: parts.animation_data,
            },
        ),
    }
}

/// Whether the stop callback asks to stop every time it is called.
pub open spec fn spec_always_stops<F: Fn() -> Result<(), StopReason>>(stop: &F) -> bool {
    forall|x: Result<(), StopReason>| #[trigger] stop.ensures((), x) ==> x is Err
}

/// Whether a header can be read at the front of `b`.
pub open spec fn spec_has_next(data: Seq<u8>, b: BMFFBox) -> bool {
    b.spec_next_box(data) matches Ok(Some(_))
}

/// Walks over the top-level boxes that follow the first, asking `stop`
/// before each of them whether to go on.
#[verifier::loop_isolation(false)]
pub fn read_top_children<F: Fn() -> Result<(), StopReason>>(
    data: &[u8],
    src: &mut BMFFBox,
    options: &ParseOptions,
    tracker: &mut ResourceTracker,
    stop: &F,
) -> (r: Result<TopParts, Error>)
    requires
        old(src).wf(data@.len()),
        old(tracker).spec_idle(),
        stop.requires(()),
    ensures
        agrees_unless_stopped(
            r,
            spec_fold_boxes(
                data@,
                *old(src),
                spec_top_parts_empty(),
                spec_top_step(data@, options.lenient, old(tracker).peak_memory_limit),
            ),
        ),
        old(src).spec_next_box(data@) matches Err(e) ==> r == Err::<TopParts, Error>(e),
        old(src).spec_next_box(data@) matches Ok(None) ==> (r matches Ok(p) && p.deep_view()
            == spec_top_parts_empty()),
        r matches Err(Error::Stopped(reason)) ==> stop.ensures((), Err(reason)),
        spec_has_next(data@, *old(src)) && spec_always_stops(stop) ==> (r matches Err(e) && (e
            is Stopped || e is OutOfMemory)),
{
    let ghost step = spec_top_step(data@, options.lenient, tracker.peak_memory_limit);
    let mut parts = TopParts { meta: None, mdat_bounds: Vec::new(), animation_data: None };
    let ghost whole = spec_fold_boxes(data@, *src, parts.deep_view(), step);
    let mut done = false;
    let ghost mut went_on = false;
    while !done
        invariant
            src.wf(data@.len()),
            stop.requires(()),
            tracker.spec_idle(),
            tracker.peak_memory_limit == old(tracker).peak_memory_limit,
            !went_on ==> parts.deep_view() == spec_top_parts_empty(),
            !done ==> whole == spec_fold_boxes(data@, *src, parts.deep_view(), step),
            done ==> whole == Ok::<TopPartsView, Error>(parts.deep_view()),
            went_on ==> !spec_always_stops(stop),
            went_on ==> spec_has_next(data@, *old(src)),
            !went_on && !done ==> *src == *old(src),
            !went_on && done ==> !spec_has_next(data@, *old(src)),
        decreases
                (if done {
                    0
                } else {
                    src.avail() + 1
                }),
    {
        let mut b = match src.next_box(data) {
            Err(e) => {
                return Err(e);
            },
            Ok(None) => {
                done = true;
                continue ;
            },
            Ok(Some(b)) => b,
        };
        let polled = stop();
        match stop_outcome(polled) {
            Err(e) => {
                return Err(e);
            },
            Ok(()) => {},
        }
        proof {
            assert(stop.ensures((), polled) && polled is Ok);
            went_on = true;
        }
        parts = match read_top_child(data, &mut b, parts, options, tracker) {
            Err(e) => {
                return Err(e);
            },
            Ok(next) => next,
        };
    }
    Ok(parts)
}

/// Parses the box structure of the file `data`, recording where the media
/// data lies without copying it. `stop` is asked before each top-level box
/// after the first whether to go on.
pub fn parse_raw<F: Fn() -> Result<(), StopReason>>(
    data: &[u8],
    options: &ParseOptions,
    stop: &F,
) -> (r: Result<ParsedStructure, Error>)
    requires
        stop.requires(()),
    ensures
        agrees_unless_stopped(r, spec_parse_raw(data@, options.lenient)),
        spec_first_box_error(data@) matches Some(e) ==> r == Err::<ParsedStructure, Error>(e),
        r matches Err(Error::Stopped(reason)) ==> stop.ensures((), Err(reason)),
        spec_polls_stop(data@) && spec_always_stops(stop) ==> (r matches Err(e) && (e is Stopped
            || e is OutOfMemory)),
{
    let mut tracker = ResourceTracker::new(&DecodeConfig::unlimited());
    parse_raw_tracked(data, options, &mut tracker, stop)
}

/// Parses the box structure of the file `data` for a reader that is to
/// copy the media data: the size of each `mdat` payload is reserved with
/// `tracker` as the pass meets it, and given back. `stop` is asked before
/// each top-level box after the first whether to go on.
pub fn parse_raw_tracked<F: Fn() -> Result<(), StopReason>>(
    data: &[u8],
    options: &ParseOptions,
    tracker: &mut ResourceTracker,
    stop: &F,
) -> (r: Result<ParsedStructure, Error>)
    requires
        old(tracker).spec_idle(),
        stop.requires(()),
    ensures
        agrees_unless_stopped(
            r,
            spec_parse_raw_limited(data@, options.lenient, old(tracker).peak_memory_limit),
        ),
        spec_first_box_error(data@) matches Some(e) ==> r == Err::<ParsedStructure, Error>(e),
        r matches Err(Error::Stopped(reason)) ==> stop.ensures((), Err(reason)),
        spec_polls_stop(data@) && spec_always_stops(stop) ==> (r matches Err(e) && (e is Stopped
            || e is OutOfMemory)),
{
    let mut root = BMFFBox::root(data);
    let mut first = match root.next_box(data) {
        Err(e) => {
            return Err(e);
        },
        Ok(None) => {
            return Err(Error::InvalidData("missing meta"));
        },
        Ok(Some(b)) => b,
    };
    check_first(data, &mut first)?;
    let parts = read_top_children(data, &mut root, options, tracker, stop)?;
    finish_top(parts)
}

} // verus!
