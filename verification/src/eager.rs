//! The eager interface: every item, tile and frame of a file copied into
//! owned buffers. It is a convenience on top of [`AvifParser`].
use vstd::prelude::*;
use enough::StopReason;
use fallible_collections::TryVec;
use std::collections::TryReserveError;
use std::convert::TryFrom;
use crate::config::{DecodeConfig, ParseOptions, ResourceTracker};
use crate::error::Error;
use crate::fallible::out_of_memory;
use crate::obu::{spec_av1_metadata, AV1Metadata};
use crate::parser::{
    build, cow_bytes, spec_build, spec_frame, spec_item_data, spec_primary_data, spec_tile_data,
    AvifParser, ParserStateView,
};
use crate::props::GridConfig;
use crate::stop::unstoppable_check;
use crate::toplevel::{
    parse_raw_tracked, spec_always_stops, spec_first_box_error, spec_parse_raw_limited,
    spec_polls_stop, stop_outcome,
};

verus! {

/// `fallible_collections::TryVec`: a vector whose growth reports a refusal
/// of the allocator. What it holds is known only through the names below.
#[verifier::external_type_specification]
#[verifier::external_body]
#[verifier::reject_recursive_types(T)]
pub struct ExTryVec<T>(TryVec<T>);

/// The bytes that a `TryVec` of bytes holds, in order.
pub uninterp spec fn try_vec_bytes(v: TryVec<u8>) -> Seq<u8>;

/// The byte buffers that a `TryVec` of tiles holds, in order.
pub uninterp spec fn try_vec_tiles(v: TryVec<TryVec<u8>>) -> Seq<Seq<u8>>;

/// The frames that a `TryVec` of frames holds, in order.
pub uninterp spec fn try_vec_frames(v: TryVec<AnimationFrame>) -> Seq<AnimationFrameView>;

/// `TryVec::try_from` a slice: a vector that holds a copy of the bytes of
/// `src`, or the allocator's refusal.
#[verifier::external_body]
fn try_vec_copy(src: &[u8]) -> (r: Result<TryVec<u8>, TryReserveError>)
    ensures
        r matches Ok(v) ==> try_vec_bytes(v) == src@,
{
    TryVec::try_from(src)
}

/// `TryVec::as_slice`: the bytes that the vector holds.
#[verifier::external_body]
fn try_vec_as_slice(v: &TryVec<u8>) -> (r: &[u8])
    ensures
        r@ == try_vec_bytes(*v),
{
    v.as_slice()
}

/// `TryVec::new` for tiles: a vector that holds nothing.
#[verifier::external_body]
fn tiles_new() -> (r: TryVec<TryVec<u8>>)
    ensures
        try_vec_tiles(r) == Seq::<Seq<u8>>::empty(),
{
    TryVec::new()
}

/// `TryVec::push` for tiles: appends `tile`, or leaves the vector as it was
/// when the allocator refuses to grow it.
#[verifier::external_body]
fn tiles_push(v: &mut TryVec<TryVec<u8>>, tile: TryVec<u8>) -> (r: Result<(), TryReserveError>)
    ensures
        r is Ok ==> try_vec_tiles(*final(v)) == try_vec_tiles(*old(v)).push(try_vec_bytes(tile)),
        r is Err ==> try_vec_tiles(*final(v)) == try_vec_tiles(*old(v)),
{
    v.push(tile)
}

/// `TryVec::new` for frames: a vector that holds nothing.
#[verifier::external_body]
fn frames_new() -> (r: TryVec<AnimationFrame>)
    ensures
        try_vec_frames(r) == Seq::<AnimationFrameView>::empty(),
{
    TryVec::new()
}

/// `TryVec::push` for frames: appends `frame`, or leaves the vector as it
/// was when the allocator refuses to grow it.
#[verifier::external_body]
fn frames_push(v: &mut TryVec<AnimationFrame>, frame: AnimationFrame) -> (r: Result<
    (),
    TryReserveError,
>)
    ensures
        r is Ok ==> try_vec_frames(*final(v)) == try_vec_frames(*old(v)).push(frame.deep_view()),
        r is Err ==> try_vec_frames(*final(v)) == try_vec_frames(*old(v)),
{
    v.push(frame)
}

/// One frame of an animation, with its data in an owned buffer.
#[derive(Debug)]
pub struct AnimationFrame {
    /// AV1 data of the frame.
    pub data: TryVec<u8>,
    /// How long the frame is shown, in milliseconds.
    pub duration_ms: u32,
}

/// The mathematical value of an [`AnimationFrame`].
pub struct AnimationFrameView {
    pub data: Seq<u8>,
    pub duration_ms: u32,
}

impl DeepView for AnimationFrame {
    type V = AnimationFrameView;

    open spec fn deep_view(&self) -> AnimationFrameView {
        AnimationFrameView { data: try_vec_bytes(self.data), duration_ms: self.duration_ms }
    }
}

/// An animation with all its frames.
#[derive(Debug)]
pub struct AnimationConfig {
    /// How often to play: 0 for endlessly, 1 for once.
    pub loop_count: u32,
    pub frames: TryVec<AnimationFrame>,
}

/// The mathematical value of an [`AnimationConfig`].
pub struct AnimationConfigView {
    pub loop_count: u32,
    pub frames: Seq<AnimationFrameView>,
}

/// A file with the data of all its items in owned buffers.
#[derive(Debug)]
pub struct AvifData {
    /// AV1 data of the colour planes of the primary item; empty for a grid.
    pub primary_item: TryVec<u8>,
    /// AV1 data of the alpha plane, if there is one.
    pub alpha_item: Option<TryVec<u8>>,
    /// Whether the colour values are already multiplied by alpha.
    pub premultiplied_alpha: bool,
    /// The layout of the grid, if the primary item is a grid.
    pub grid_config: Option<GridConfig>,
    /// AV1 data of each tile, in grid order; empty unless the image is a grid.
    pub grid_tiles: TryVec<TryVec<u8>>,
    /// The animation, if the file holds one.
    pub animation: Option<AnimationConfig>,
}

/// The mathematical value of an [`AvifData`].
pub struct AvifDataView {
    pub primary_item: Seq<u8>,
    pub alpha_item: Option<Seq<u8>>,
    pub premultiplied_alpha: bool,
    pub grid_config: Option<GridConfig>,
    pub grid_tiles: Seq<Seq<u8>>,
    pub animation: Option<AnimationConfigView>,
}

impl DeepView for AvifData {
    type V = AvifDataView;

    open spec fn deep_view(&self) -> AvifDataView {
        AvifDataView {
            primary_item: try_vec_bytes(self.primary_item),
            alpha_item: match self.alpha_item {
                Some(a) => Some(try_vec_bytes(a)),
                None => None,
            },
            premultiplied_alpha: self.premultiplied_alpha,
            grid_config: self.grid_config,
            grid_tiles: try_vec_tiles(self.grid_tiles),
            animation: match self.animation {
                Some(a) => Some(
                    AnimationConfigView {
                        loop_count: a.loop_count,
                        frames: try_vec_frames(a.frames),
                    },
                ),
                None => None,
            },
        }
    }
}

/// The data of the alpha item, if there is one.
pub open spec fn spec_alpha_item(raw: Seq<u8>, state: ParserStateView) -> Result<
    Option<Seq<u8>>,
    Error,
> {
    match state.alpha {
        None => Ok(None),
        Some(item) => match spec_item_data(raw, state, item) {
            Err(e) => Err(e),
            Ok(data) => Ok(Some(data)),
        },
    }
}

/// `acc` followed by the data of the tiles from tile `i` on.
pub open spec fn spec_tiles_from(raw: Seq<u8>, state: ParserStateView, i: int, acc: Seq<Seq<u8>>) -> Result<
    Seq<Seq<u8>>,
    Error,
>
    decreases state.tiles.len() - i,
{
    if i < 0 || i >= state.tiles.len() {
        Ok(acc)
    } else {
        match spec_tile_data(raw, state, i) {
            Err(e) => Err(e),
            Ok(data) => spec_tiles_from(raw, state, i + 1, acc.push(data)),
        }
    }
}

/// `acc` followed by the frames from frame `i` up to frame `count`.
pub open spec fn spec_frames_from(
    raw: Seq<u8>,
    state: ParserStateView,
    i: int,
    count: int,
    acc: Seq<AnimationFrameView>,
) -> Result<Seq<AnimationFrameView>, Error>
    decreases count - i,
{
    if i < 0 || i >= count {
        Ok(acc)
    } else {
        match spec_frame(raw, state, i) {
            Err(e) => Err(e),
            Ok(f) => spec_frames_from(
                raw,
                state,
                i + 1,
                count,
                acc.push(AnimationFrameView { data: f.data, duration_ms: f.duration_ms }),
            ),
        }
    }
}

/// The animation with all its frames, if the file holds one.
pub open spec fn spec_animation_config(raw: Seq<u8>, state: ParserStateView) -> Result<
    Option<AnimationConfigView>,
    Error,
> {
    match state.animation_data {
        None => Ok(None),
        Some(anim) => match spec_frames_from(
            raw,
            state,
            0,
            anim.sample_table.sample_sizes.len() as int,
            Seq::empty(),
        ) {
            Err(e) => Err(e),
            Ok(frames) => Ok(Some(AnimationConfigView { loop_count: anim.loop_count, frames })),
        },
    }
}

/// Everything that a parser with the bytes `raw` and the knowledge
/// `state` can hand out, in owned buffers.
pub open spec fn spec_avif_data(raw: Seq<u8>, state: ParserStateView) -> Result<AvifDataView, Error> {
    match spec_primary_data(raw, state) {
        Err(e) => Err(e),
        Ok(primary_item) => match spec_alpha_item(raw, state) {
            Err(e) => Err(e),
            Ok(alpha_item) => match spec_tiles_from(raw, state, 0, Seq::empty()) {
                Err(e) => Err(e),
                Ok(grid_tiles) => match spec_animation_config(raw, state) {
                    Err(e) => Err(e),
                    Ok(animation) => Ok(
                        AvifDataView {
                            primary_item,
                            alpha_item,
                            premultiplied_alpha: state.premultiplied_alpha,
                            grid_config: state.grid_config,
                            grid_tiles,
                            animation,
                        },
                    ),
                },
            },
        },
    }
}

/// What holds of the outcome `r` of copying everything out of a parser.
pub open spec fn spec_collected(r: Result<AvifData, Error>, expected: Result<AvifDataView, Error>) -> bool {
    match r {
        Ok(d) => expected == Ok::<AvifDataView, Error>(d.deep_view()),
        Err(e) => e is Stopped || e is OutOfMemory || expected == Err::<AvifDataView, Error>(e),
    }
}

/// An owned copy of `src` in a `TryVec`; `OutOfMemory` when allocation
/// fails.
pub fn copy_to_try_vec(src: &[u8]) -> (r: Result<TryVec<u8>, Error>)
    ensures
        r matches Ok(v) ==> try_vec_bytes(v) == src@,
        r matches Err(e) ==> e is OutOfMemory,
{
    out_of_memory(try_vec_copy(src))
}

/// Copies the data of every tile, asking `stop` before every sixteenth
/// tile whether to go on.
#[verifier::loop_isolation(false)]
fn collect_tiles<F: Fn() -> Result<(), StopReason>>(parser: &AvifParser<'_>, stop: &F) -> (r: Result<
    TryVec<TryVec<u8>>,
    Error,
>)
    requires
        stop.requires(()),
    ensures
        match r {
            Ok(v) => spec_tiles_from(parser.spec_raw(), parser.spec_state(), 0, Seq::empty())
                == Ok::<Seq<Seq<u8>>, Error>(try_vec_tiles(v)),
            Err(e) => e is Stopped || e is OutOfMemory || spec_tiles_from(
                parser.spec_raw(),
                parser.spec_state(),
                0,
                Seq::empty(),
            ) == Err::<Seq<Seq<u8>>, Error>(e),
        },
        r matches Err(Error::Stopped(reason)) ==> stop.ensures((), Err(reason)),
        parser.spec_state().tiles.len() == 0 ==> r is Ok,
{
    let mut tiles = tiles_new();
    let count = parser.grid_tile_count();
    let mut i: usize = 0;
    while i < count
        invariant
            i <= count,
            count == parser.spec_state().tiles.len(),
            stop.requires(()),
            spec_tiles_from(parser.spec_raw(), parser.spec_state(), 0, Seq::empty())
                == spec_tiles_from(
                parser.spec_raw(),
                parser.spec_state(),
                i as int,
                try_vec_tiles(tiles),
            ),
        decreases count - i,
    {
        if i % 16 == 0 {
            match stop_outcome(stop()) {
                Err(e) => {
                    return Err(e);
                },
                Ok(()) => {},
            }
        }
        let data = match parser.tile_data(i) {
            Err(e) => {
                return Err(e);
            },
            Ok(data) => data,
        };
        let copy = match copy_to_try_vec(cow_bytes(&data)) {
            Err(e) => {
                return Err(e);
            },
            Ok(copy) => copy,
        };
        match out_of_memory(tiles_push(&mut tiles, copy)) {
            Err(e) => {
                return Err(e);
            },
            Ok(()) => {},
        }
        i = i + 1;
    }
    Ok(tiles)
}

/// Copies every frame, asking `stop` before every sixteenth frame whether
/// to go on.
#[verifier::loop_isolation(false)]
fn collect_frames<F: Fn() -> Result<(), StopReason>>(
    parser: &AvifParser<'_>,
    count: usize,
    stop: &F,
) -> (r: Result<TryVec<AnimationFrame>, Error>)
    requires
        stop.requires(()),
    ensures
        match r {
            Ok(v) => spec_frames_from(
                parser.spec_raw(),
                parser.spec_state(),
                0,
                count as int,
                Seq::empty(),
            ) == Ok::<Seq<AnimationFrameView>, Error>(try_vec_frames(v)),
            Err(e) => e is Stopped || e is OutOfMemory || spec_frames_from(
                parser.spec_raw(),
                parser.spec_state(),
                0,
                count as int,
                Seq::empty(),
            ) == Err::<Seq<AnimationFrameView>, Error>(e),
        },
        r matches Err(Error::Stopped(reason)) ==> stop.ensures((), Err(reason)),
        count == 0 ==> r is Ok,
{
    let mut frames = frames_new();
    let mut i: usize = 0;
    while i < count
        invariant
            i <= count,
            stop.requires(()),
            spec_frames_from(parser.spec_raw(), parser.spec_state(), 0, count as int, Seq::empty())
                == spec_frames_from(
                parser.spec_raw(),
                parser.spec_state(),
                i as int,
                count as int,
                try_vec_frames(frames),
            ),
        decreases count - i,
    {
        if i % 16 == 0 {
            match stop_outcome(stop()) {
                Err(e) => {
                    return Err(e);
                },
                Ok(()) => {},
            }
        }
        let frame_ref = match parser.frame(i) {
            Err(e) => {
                return Err(e);
            },
            Ok(f) => f,
        };
        let data = match copy_to_try_vec(cow_bytes(&frame_ref.data)) {
            Err(e) => {
                return Err(e);
            },
            Ok(copy) => copy,
        };
        let frame = AnimationFrame { data, duration_ms: frame_ref.duration_ms };
        match out_of_memory(frames_push(&mut frames, frame)) {
            Err(e) => {
                return Err(e);
            },
            Ok(()) => {},
        }
        i = i + 1;
    }
    Ok(frames)
}

/// Copies everything that `parser` can hand out into owned buffers.
pub fn collect_avif_data<F: Fn() -> Result<(), StopReason>>(parser: &AvifParser<'_>, stop: &F) -> (r:
    Result<AvifData, Error>)
    requires
        stop.requires(()),
    ensures
        spec_collected(r, spec_avif_data(parser.spec_raw(), parser.spec_state())),
        parser.spec_state().grid_config is Some || parser.spec_state().primary.extents.len() == 1
            ==> (spec_primary_data(parser.spec_raw(), parser.spec_state()) matches Err(e) ==> r
            == Err::<AvifData, Error>(e)),
        r matches Err(Error::Stopped(reason)) ==> stop.ensures((), Err(reason)),
{
    let primary_data = parser.primary_data()?;
    let primary_item = copy_to_try_vec(cow_bytes(&primary_data))?;
    let alpha_item = match parser.alpha_data() {
        Some(Ok(data)) => Some(copy_to_try_vec(cow_bytes(&data))?),
        Some(Err(e)) => {
            return Err(e);
        },
        None => None,
    };
    let grid_tiles = collect_tiles(parser, stop)?;
    let animation = match parser.animation_info() {
        Some(info) => {
            let frames = collect_frames(parser, info.frame_count, stop)?;
            Some(AnimationConfig { loop_count: info.loop_count, frames })
        },
        None => None,
    };
    let grid_config = match parser.grid_config() {
        Some(g) => Some(*g),
        None => None,
    };
    Ok(
        AvifData {
            primary_item,
            alpha_item,
            premultiplied_alpha: parser.premultiplied_alpha(),
            grid_config,
            grid_tiles,
            animation,
        },
    )
}

impl<'data> AvifParser<'data> {
    /// Copies every item, tile and frame into owned buffers.
    pub fn to_avif_data(&self) -> (r: Result<AvifData, Error>)
        ensures
            match r {
                Ok(d) => spec_avif_data(self.spec_raw(), self.spec_state()) == Ok::<
                    AvifDataView,
                    Error,
                >(d.deep_view()),
                Err(e) => !(e is Stopped) && (e is OutOfMemory || spec_avif_data(
                    self.spec_raw(),
                    self.spec_state(),
                ) == Err::<AvifDataView, Error>(e)),
            },
            self.spec_state().grid_config is Some || self.spec_state().primary.extents.len() == 1
                ==> (spec_primary_data(self.spec_raw(), self.spec_state()) matches Err(e) ==> r
                == Err::<AvifData, Error>(e)),
    {
        let stop = || -> (polled: Result<(), StopReason>)
            ensures
                polled is Ok,
            { unstoppable_check() };
        collect_avif_data(self, &stop)
    }
}

/// The content of the file `data` in owned buffers, under the limits of
/// `config`. The peak memory limit is held against each `mdat` payload as
/// the pass over the top-level boxes meets it, so that a payload above the
/// limit ends the read there.
pub open spec fn spec_read_avif(data: Seq<u8>, config: DecodeConfig) -> Result<AvifDataView, Error> {
    match spec_parse_raw_limited(data, config.lenient, config.peak_memory_limit) {
        Err(e) => Err(e),
        Ok(parsed) => match spec_build(parsed, config) {
            Err(e) => Err(e),
            Ok(state) => spec_avif_data(data, state),
        },
    }
}

/// Reads the content of an AVIF file into owned buffers, under the limits
/// of `config`. `stop` is asked between top-level boxes, and before every
/// sixteenth tile and frame, whether to go on.
pub fn read_avif_with_config<F: Fn() -> Result<(), StopReason>>(
    data: &[u8],
    config: &DecodeConfig,
    stop: &F,
) -> (r: Result<AvifData, Error>)
    requires
        stop.requires(()),
    ensures
        spec_collected(r, spec_read_avif(data@, *config)),
        spec_first_box_error(data@) matches Some(e) ==> r == Err::<AvifData, Error>(e),
        r matches Err(Error::Stopped(reason)) ==> stop.ensures((), Err(reason)),
        spec_polls_stop(data@) && spec_always_stops(stop) ==> (r matches Err(e) && (e is Stopped
            || e is OutOfMemory)),
{
    let options = config.parse_options();
    let mut tracker = ResourceTracker::new(config);
    let parsed = parse_raw_tracked(data, &options, &mut tracker, stop)?;
    let state = build(parsed, config)?;
    let parser = AvifParser::with_state(data, state);
    collect_avif_data(&parser, stop)
}

/// The configuration without limits, lenient or not.
pub open spec fn spec_unlimited_with(lenient: bool) -> DecodeConfig {
    DecodeConfig { lenient, ..DecodeConfig::spec_unlimited() }
}

/// Reads the content of an AVIF file into owned buffers, without limits.
pub fn read_avif_with_options(data: &[u8], options: &ParseOptions) -> (r: Result<AvifData, Error>)
    ensures
        match r {
            Ok(d) => spec_read_avif(data@, spec_unlimited_with(options.lenient))
                == Ok::<AvifDataView, Error>(d.deep_view()),
            Err(e) => !(e is Stopped) && (e is OutOfMemory || spec_read_avif(
                data@,
                spec_unlimited_with(options.lenient),
            ) == Err::<AvifDataView, Error>(e)),
        },
        spec_first_box_error(data@) matches Some(e) ==> r == Err::<AvifData, Error>(e),
{
    let stop = || -> (polled: Result<(), StopReason>)
        ensures
            polled is Ok,
        { unstoppable_check() };
    let config = DecodeConfig::unlimited().lenient(options.lenient);
    read_avif_with_config(data, &config, &stop)
}

/// Reads the content of an AVIF file into owned buffers, strictly and
/// without limits.
pub fn read_avif(data: &[u8]) -> (r: Result<AvifData, Error>)
    ensures
        match r {
            Ok(d) => spec_read_avif(data@, DecodeConfig::spec_unlimited()) == Ok::<
                AvifDataView,
                Error,
            >(d.deep_view()),
            Err(e) => !(e is Stopped) && (e is OutOfMemory || spec_read_avif(
                data@,
                DecodeConfig::spec_unlimited(),
            ) == Err::<AvifDataView, Error>(e)),
        },
        spec_first_box_error(data@) matches Some(e) ==> r == Err::<AvifData, Error>(e),
{
    let options = ParseOptions { lenient: false };
    read_avif_with_options(data, &options)
}

impl AvifData {
    /// The picture properties that the data of the primary item declares.
    pub fn primary_item_metadata(&self) -> (r: Result<AV1Metadata, Error>)
        ensures
            r == spec_av1_metadata(try_vec_bytes(self.primary_item)),
    {
        AV1Metadata::parse_av1_bitstream(try_vec_as_slice(&self.primary_item))
    }

    /// The picture properties that the data of the alpha item declares, if
    /// there is an alpha item.
    pub fn alpha_item_metadata(&self) -> (r: Result<Option<AV1Metadata>, Error>)
        ensures
            match self.alpha_item {
                None => r == Ok::<Option<AV1Metadata>, Error>(None),
                Some(a) => match spec_av1_metadata(try_vec_bytes(a)) {
                    Ok(m) => r == Ok::<Option<AV1Metadata>, Error>(Some(m)),
                    Err(e) => r == Err::<Option<AV1Metadata>, Error>(e),
                },
            },
    {
        match &self.alpha_item {
            None => Ok(None),
            Some(a) => Ok(Some(AV1Metadata::parse_av1_bitstream(try_vec_as_slice(a))?)),
        }
    }
}

} // verus!
