//! The parser: a parsed file together with its bytes, and the lazy access
//! to the data of its items and frames.
use vstd::prelude::*;
use vstd::slice::slice_subrange;
use std::borrow::Cow;
use enough::StopReason;
use crate::boxes::FOURCC_GRID;
use crate::config::{DecodeConfig, ResourceTracker};
use crate::derived::{
    calculate_grid_config, collect_dimg_tiles, collect_tile_extents, find_alpha_item_id,
    get_item_extents, has_reference, sort_tiles, spec_alpha_item_id, spec_dimg_tiles,
    spec_grid_config, spec_item_extents, spec_premultiplied, spec_sort_tiles, spec_tile_extents,
    ItemExtents, ItemExtentsView,
};
use crate::boxes::FOURCC_PREM;
use crate::error::{agrees, agrees_unless_stopped, Error};
use crate::items::ConstructionMethod;
use crate::meta::{find_item_type, spec_item_type, MetaView};
use crate::moov::{
    spec_animation_view, spec_table_view, AnimationParserData, AnimationView, SampleTable,
    SampleTableView,
};
use crate::obu::{spec_av1_metadata, AV1Metadata};
use crate::props::GridConfig;
use crate::resolve::{
    calculate_frame_duration, calculate_sample_location, resolve_extents, spec_frame_duration,
    spec_resolve_extents, spec_sample_location,
};
use crate::stop::unstoppable_check;
use crate::toplevel::{
    parse_raw, spec_always_stops, spec_first_box_error, spec_parse_raw, spec_polls_stop,
    MdatBounds, ParsedStructure,
    ParsedView,
};

verus! {

/// What a parser knows about a file, apart from the bytes of the file.
#[derive(Debug)]
pub struct ParserState {
    /// The payloads of the `mdat` boxes, in file order.
    pub mdat_bounds: Vec<MdatBounds>,
    /// Content of the `idat` box, if there is one.
    pub idat: Option<Vec<u8>>,
    /// Where the data of the primary item lies.
    pub primary: ItemExtents,
    /// Where the data of the alpha item lies, if there is one.
    pub alpha: Option<ItemExtents>,
    /// The layout of the grid, if the primary item is a grid.
    pub grid_config: Option<GridConfig>,
    /// Where the data of each tile lies, in grid order.
    pub tiles: Vec<ItemExtents>,
    /// The sample tables, if the file holds an animation.
    pub animation_data: Option<AnimationParserData>,
    /// Whether the colour values are already multiplied by alpha.
    pub premultiplied_alpha: bool,
}

/// The mathematical value of a [`ParserState`].
pub struct ParserStateView {
    pub mdat_bounds: Seq<MdatBounds>,
    pub idat: Option<Seq<u8>>,
    pub primary: ItemExtentsView,
    pub alpha: Option<ItemExtentsView>,
    pub grid_config: Option<GridConfig>,
    pub tiles: Seq<ItemExtentsView>,
    pub animation_data: Option<AnimationView>,
    pub premultiplied_alpha: bool,
}

/// The value of optional extents.
pub open spec fn spec_extents_view(x: Option<ItemExtents>) -> Option<ItemExtentsView> {
    match x {
        Some(x) => Some(x.deep_view()),
        None => None,
    }
}

/// The value of optional bytes.
pub open spec fn spec_bytes_view(x: Option<Vec<u8>>) -> Option<Seq<u8>> {
    match x {
        Some(x) => Some(x@),
        None => None,
    }
}

impl DeepView for ParserState {
    type V = ParserStateView;

    open spec fn deep_view(&self) -> ParserStateView {
        ParserStateView {
            mdat_bounds: self.mdat_bounds@,
            idat: spec_bytes_view(self.idat),
            primary: self.primary.deep_view(),
            alpha: spec_extents_view(self.alpha),
            grid_config: self.grid_config,
            tiles: self.tiles.deep_view(),
            animation_data: spec_animation_view(self.animation_data),
            premultiplied_alpha: self.premultiplied_alpha,
        }
    }
}

/// The count `n` as a 32-bit number, held at the largest when it is more.
pub open spec fn spec_count_u32(n: nat) -> u32 {
    if n > u32::MAX {
        u32::MAX
    } else {
        n as u32
    }
}

/// The count `n` as a 32-bit number, held at the largest when it is more.
pub fn count_u32(n: usize) -> (r: u32)
    ensures
        r == spec_count_u32(n as nat),
{
    if n > u32::MAX as usize {
        u32::MAX
    } else {
        n as u32
    }
}

/// Where the data of the item `id` lies, if `id` names one.
pub open spec fn spec_optional_extents(meta: MetaView, id: Option<u32>) -> Result<
    Option<ItemExtentsView>,
    Error,
> {
    match id {
        None => Ok(None),
        Some(id) => match spec_item_extents(meta.iloc_items, id) {
            Err(e) => Err(e),
            Ok(x) => Ok(Some(x)),
        },
    }
}

/// Whether the primary item is a grid.
pub open spec fn spec_is_grid(meta: MetaView) -> bool {
    spec_item_type(meta.item_infos, meta.primary_item_id) matches Some(t) && t.value
        == FOURCC_GRID
}

/// The layout and the tiles of the primary item: none unless it is a grid.
/// The tiles are the targets of its `dimg` references in ascending order
/// of reference index; their number is held against the tile limit.
pub open spec fn spec_build_grid(meta: MetaView, config: DecodeConfig) -> Result<
    (Option<GridConfig>, Seq<ItemExtentsView>),
    Error,
> {
    if !spec_is_grid(meta) {
        Ok((None, Seq::empty()))
    } else {
        let tiles = spec_dimg_tiles(meta.item_references, meta.primary_item_id);
        if config.max_grid_tiles is Some && spec_count_u32(tiles.len())
            > config.max_grid_tiles->0 {
            Err(Error::ResourceLimitExceeded("grid tile count limit exceeded"))
        } else {
            match spec_tile_extents(meta.iloc_items, spec_sort_tiles(tiles), Seq::empty()) {
                Err(e) => Err(e),
                Ok(extents) => match spec_grid_config(
                    meta.properties,
                    meta.primary_item_id,
                    spec_sort_tiles(tiles),
                    config.total_megapixels_limit,
                ) {
                    Err(e) => Err(e),
                    Ok(g) => Ok((Some(g), extents)),
                },
            }
        }
    }
}

/// Whether the animation passes the frame limit.
pub open spec fn spec_check_frames(animation: Option<AnimationView>, config: DecodeConfig) -> Result<
    (),
    Error,
> {
    if animation is Some && config.max_animation_frames is Some && spec_count_u32(
        animation->0.sample_table.sample_sizes.len(),
    ) > config.max_animation_frames->0 {
        Err(Error::ResourceLimitExceeded("animation frame count limit exceeded"))
    } else {
        Ok(())
    }
}

/// What a parser knows about a file with the structure `parsed`, under the
/// limits of `config`.
pub open spec fn spec_build(parsed: ParsedView, config: DecodeConfig) -> Result<
    ParserStateView,
    Error,
> {
    let meta = parsed.meta;
    let alpha_id = spec_alpha_item_id(
        meta.item_references,
        meta.primary_item_id,
        meta.properties,
    );
    match spec_item_extents(meta.iloc_items, meta.primary_item_id) {
        Err(e) => Err(e),
        Ok(primary) => match spec_optional_extents(meta, alpha_id) {
            Err(e) => Err(e),
            Ok(alpha) => match spec_build_grid(meta, config) {
                Err(e) => Err(e),
                Ok((grid_config, tiles)) => match spec_check_frames(
                    parsed.animation_data,
                    config,
                ) {
                    Err(e) => Err(e),
                    Ok(()) => Ok(
                        ParserStateView {
                            mdat_bounds: parsed.mdat_bounds,
                            idat: meta.idat,
                            primary,
                            alpha,
                            grid_config,
                            tiles,
                            animation_data: parsed.animation_data,
                            premultiplied_alpha: spec_premultiplied(
                                meta.item_references,
                                meta.primary_item_id,
                                alpha_id,
                            ),
                        },
                    ),
                },
            },
        },
    }
}

/// What a parser knows about the file `data`, under the limits of `config`.
pub open spec fn spec_parse(data: Seq<u8>, config: DecodeConfig) -> Result<ParserStateView, Error> {
    match spec_parse_raw(data, config.lenient) {
        Err(e) => Err(e),
        Ok(parsed) => spec_build(parsed, config),
    }
}

/// Works out the layout and the tiles of the primary item.
pub fn build_grid(
    meta: &crate::meta::AvifInternalMeta,
    config: &DecodeConfig,
    tracker: &ResourceTracker,
) -> (r: Result<(Option<GridConfig>, Vec<ItemExtents>), Error>)
    requires
        tracker.max_grid_tiles == config.max_grid_tiles,
        tracker.total_megapixels_limit == config.total_megapixels_limit,
    ensures
        match r {
            Ok((g, tiles)) => spec_build_grid(meta.deep_view(), *config) == Ok::<
                (Option<GridConfig>, Seq<ItemExtentsView>),
                Error,
            >((g, tiles.deep_view())),
            Err(e) => !(e is Stopped) && (e is OutOfMemory || spec_build_grid(
                meta.deep_view(),
                *config,
            ) == Err::<(Option<GridConfig>, Seq<ItemExtentsView>), Error>(e)),
        },
        !spec_is_grid(meta.deep_view()) ==> r is Ok,
{
    let is_grid = match find_item_type(&meta.item_infos, meta.primary_item_id) {
        Some(t) => t.is(FOURCC_GRID),
        None => false,
    };
    if !is_grid {
        let none: Vec<ItemExtents> = Vec::new();
        assert(none.deep_view() =~= Seq::empty());
        return Ok((None, none));
    }
    let tiles = collect_dimg_tiles(&meta.item_references, meta.primary_item_id)?;
    tracker.validate_grid_tiles(count_u32(tiles.len()))?;
    let sorted = sort_tiles(&tiles)?;
    let extents = collect_tile_extents(meta, &sorted)?;
    let grid_config = calculate_grid_config(meta, &sorted, tracker)?;
    Ok((Some(grid_config), extents))
}

/// Makes the parser's knowledge from the structure of a file.
pub fn build(parsed: ParsedStructure, config: &DecodeConfig) -> (r: Result<ParserState, Error>)
    ensures
        agrees(r, spec_build(parsed.deep_view(), *config)),
        spec_item_extents(
            parsed.deep_view().meta.iloc_items,
            parsed.deep_view().meta.primary_item_id,
        ) matches Err(e) ==> r == Err::<ParserState, Error>(e),
{
    let tracker = ResourceTracker::new(config);
    let ParsedStructure { meta, mdat_bounds, animation_data } = parsed;
    let primary = get_item_extents(&meta, meta.primary_item_id)?;
    let alpha_item_id = find_alpha_item_id(&meta);
    let alpha = match alpha_item_id {
        Some(id) => Some(get_item_extents(&meta, id)?),
        None => None,
    };
    let premultiplied_alpha = match alpha_item_id {
        Some(alpha_id) => has_reference(
            &meta.item_references,
            FOURCC_PREM,
            meta.primary_item_id,
            alpha_id,
        ),
        None => false,
    };
    let (grid_config, tiles) = build_grid(&meta, config, &tracker)?;
    if let Some(animation) = &animation_data {
        tracker.validate_animation_frames(count_u32(animation.sample_table.sample_sizes.len()))?;
    }
    Ok(
        ParserState {
            mdat_bounds,
            idat: meta.idat,
            primary,
            alpha,
            grid_config,
            tiles,
            animation_data,
            premultiplied_alpha,
        },
    )
}

/// The data of an item whose extents are `item`, taken from the file
/// `raw` or from the `idat` payload.
pub open spec fn spec_item_data(raw: Seq<u8>, state: ParserStateView, item: ItemExtentsView) -> Result<
    Seq<u8>,
    Error,
> {
    match item.construction_method {
        ConstructionMethod::File => spec_resolve_extents(raw, state.mdat_bounds, true, item.extents),
        ConstructionMethod::Idat => match state.idat {
            None => Err(Error::InvalidData("idat box missing but construction_method is Idat")),
            Some(idat) => spec_resolve_extents(idat, state.mdat_bounds, false, item.extents),
        },
        ConstructionMethod::Item => Err(
            Error::Unsupported("construction_method 'item' not supported"),
        ),
    }
}

/// The data of the primary item: nothing for a grid, whose picture is in
/// its tiles.
pub open spec fn spec_primary_data(raw: Seq<u8>, state: ParserStateView) -> Result<Seq<u8>, Error> {
    if state.grid_config is Some {
        Ok(Seq::empty())
    } else {
        spec_item_data(raw, state, state.primary)
    }
}

/// The data of tile `index`.
pub open spec fn spec_tile_data(raw: Seq<u8>, state: ParserStateView, index: int) -> Result<
    Seq<u8>,
    Error,
> {
    if index < 0 || index >= state.tiles.len() {
        Err(Error::InvalidData("tile index out of bounds"))
    } else {
        spec_item_data(raw, state, state.tiles[index])
    }
}

/// The bytes of sample `index` of the sample table `st`.
pub open spec fn spec_sample_data(raw: Seq<u8>, st: SampleTableView, index: int) -> Result<
    Seq<u8>,
    Error,
> {
    match spec_sample_location(st, index) {
        Err(e) => Err(e),
        Ok((offset, size)) => if offset + size > raw.len() {
            Err(Error::InvalidData("frame not found in raw buffer"))
        } else {
            Ok(raw.subrange(offset as int, offset + size))
        },
    }
}

/// The mathematical value of a [`FrameRef`].
pub struct FrameView {
    pub data: Seq<u8>,
    pub alpha_data: Option<Seq<u8>>,
    pub duration_ms: u32,
}

/// Frame `index` of the animation.
pub open spec fn spec_frame(raw: Seq<u8>, state: ParserStateView, index: int) -> Result<
    FrameView,
    Error,
> {
    match state.animation_data {
        None => Err(Error::InvalidData("not an animated AVIF")),
        Some(anim) => if index < 0 || index >= anim.sample_table.sample_sizes.len() {
            Err(Error::InvalidData("frame index out of bounds"))
        } else {
            match spec_sample_data(raw, anim.sample_table, index) {
                Err(e) => Err(e),
                Ok(data) => match anim.alpha_sample_table {
                    None => Ok(
                        FrameView {
                            data,
                            alpha_data: None,
                            duration_ms: spec_frame_duration(
                                anim.sample_table.time_to_sample,
                                anim.media_timescale,
                                index,
                            ),
                        },
                    ),
                    Some(alpha) => match spec_sample_data(raw, alpha, index) {
                        Err(e) => Err(e),
                        Ok(alpha_data) => Ok(
                            FrameView {
                                data,
                                alpha_data: Some(alpha_data),
                                duration_ms: spec_frame_duration(
                                    anim.sample_table.time_to_sample,
                                    anim.media_timescale,
                                    index,
                                ),
                            },
                        ),
                    },
                },
            }
        },
    }
}

/// A single frame of an animation. Its data are slices of the parser's
/// buffer.
#[derive(Debug)]
pub struct FrameRef<'a> {
    /// The AV1 data of the colour planes.
    pub data: Cow<'a, [u8]>,
    /// The AV1 data of the alpha plane, if the animation has one.
    pub alpha_data: Option<Cow<'a, [u8]>>,
    /// How long the frame is shown, in milliseconds.
    pub duration_ms: u32,
}

impl<'a> FrameRef<'a> {
    /// The mathematical value of the frame.
    pub open spec fn spec_view(&self) -> FrameView {
        FrameView {
            data: self.data@,
            alpha_data: match self.alpha_data {
                Some(a) => Some(a@),
                None => None,
            },
            duration_ms: self.duration_ms,
        }
    }

    /// Whether every slice of the frame is borrowed.
    pub open spec fn spec_borrowed(&self) -> bool {
        self.data is Borrowed && (self.alpha_data matches Some(a) ==> a is Borrowed)
    }
}

/// Facts about an animation.
#[derive(Debug, Clone, Copy)]
pub struct AnimationInfo {
    pub frame_count: usize,
    /// How often to play: 0 for endlessly, 1 for once.
    pub loop_count: u32,
    /// Units per second of the sample durations.
    pub media_timescale: u32,
    /// Whether each frame comes with an alpha plane.
    pub has_alpha: bool,
}

/// Takes sample `index` of the table `st` out of `raw`.
pub fn sample_data<'a>(raw: &'a [u8], st: &SampleTable, index: usize) -> (r: Result<&'a [u8], Error>)
    ensures
        match r {
            Ok(slice) => spec_sample_data(raw@, st.deep_view(), index as int) == Ok::<
                Seq<u8>,
                Error,
            >(slice@),
            Err(e) => !(e is Stopped) && !(e is OutOfMemory) && spec_sample_data(
                raw@,
                st.deep_view(),
                index as int,
            ) == Err::<Seq<u8>, Error>(e),
        },
{
    let (offset, size) = match calculate_sample_location(st, index) {
        Err(e) => {
            return Err(e);
        },
        Ok(x) => x,
    };
    let len = raw.len() as u64;
    if offset > len || (size as u64) > len - offset {
        return Err(Error::InvalidData("frame not found in raw buffer"));
    }
    Ok(slice_subrange(raw, offset as usize, offset as usize + size as usize))
}

/// A zero-copy AVIF parser over a borrowed or an owned byte buffer.
///
/// Parsing records where the data of items and frames lies and copies none
/// of it. The data access methods hand out slices of the buffer where an
/// item is one contiguous range, and owned copies where ranges have to be
/// put together.
#[derive(Debug)]
pub struct AvifParser<'data> {
    raw: Cow<'data, [u8]>,
    state: ParserState,
}

/// What holds of the outcome `r` of parsing the buffer `data` under
/// `config`: it is what the format prescribes, unless memory ran out.
pub open spec fn spec_parsed<'data>(
    r: Result<AvifParser<'data>, Error>,
    data: Seq<u8>,
    config: DecodeConfig,
) -> bool {
    match r {
        Ok(p) => spec_parse(data, config) == Ok::<ParserStateView, Error>(p.spec_state())
            && p.spec_raw() == data,
        Err(e) => !(e is Stopped) && (e is OutOfMemory || spec_parse(data, config) == Err::<
            ParserStateView,
            Error,
        >(e)),
    }
}

/// Like [`spec_parsed`], for a parse that asks a stop callback.
pub open spec fn spec_parsed_unless_stopped<'data>(
    r: Result<AvifParser<'data>, Error>,
    data: Seq<u8>,
    config: DecodeConfig,
) -> bool {
    match r {
        Ok(p) => spec_parse(data, config) == Ok::<ParserStateView, Error>(p.spec_state())
            && p.spec_raw() == data,
        Err(e) => e is Stopped || e is OutOfMemory || spec_parse(data, config) == Err::<
            ParserStateView,
            Error,
        >(e),
    }
}

impl<'data> AvifParser<'data> {
    /// The bytes of the file.
    pub closed spec fn spec_raw(&self) -> Seq<u8> {
        self.raw@
    }

    /// What the parser knows about the file.
    pub closed spec fn spec_state(&self) -> ParserStateView {
        self.state.deep_view()
    }

    /// Whether the parser borrows the caller's buffer.
    pub closed spec fn spec_borrows_input(&self) -> bool {
        self.raw is Borrowed
    }

    /// Parses an AVIF file from a borrowed byte slice, without limits.
    pub fn from_bytes(data: &'data [u8]) -> (r: Result<AvifParser<'data>, Error>)
        ensures
            spec_parsed(r, data@, DecodeConfig::spec_unlimited()),
            spec_first_box_error(data@) matches Some(e) ==> r == Err::<AvifParser<'data>, Error>(e),
            r matches Ok(p) ==> p.spec_borrows_input(),
    {
        let stop = || -> (polled: Result<(), StopReason>)
            ensures
                polled is Ok,
            { unstoppable_check() };
        let config = DecodeConfig::unlimited();
        AvifParser::from_bytes_with_config(data, &config, &stop)
    }

    /// Parses an AVIF file from a borrowed byte slice, under the limits of
    /// `config`. `stop` is asked before each top-level box after the first
    /// whether to go on.
    pub fn from_bytes_with_config<F: Fn() -> Result<(), StopReason>>(
        data: &'data [u8],
        config: &DecodeConfig,
        stop: &F,
    ) -> (r: Result<AvifParser<'data>, Error>)
        requires
            stop.requires(()),
        ensures
            spec_parsed_unless_stopped(r, data@, *config),
            spec_first_box_error(data@) matches Some(e) ==> r == Err::<AvifParser<'data>, Error>(e),
            r matches Ok(p) ==> p.spec_borrows_input(),
            r matches Err(Error::Stopped(reason)) ==> stop.ensures((), Err(reason)),
            spec_polls_stop(data@) && spec_always_stops(stop) ==> (r matches Err(e) && (e
                is Stopped || e is OutOfMemory)),
    {
        let options = config.parse_options();
        let parsed = parse_raw(data, &options, stop)?;
        let state = build(parsed, config)?;
        Ok(AvifParser { raw: Cow::Borrowed(data), state })
    }

    /// Parses an AVIF file from an owned buffer, without limits.
    pub fn from_owned(data: Vec<u8>) -> (r: Result<AvifParser<'static>, Error>)
        ensures
            spec_parsed(r, data@, DecodeConfig::spec_unlimited()),
            spec_first_box_error(data@) matches Some(e) ==> r == Err::<AvifParser<'static>, Error>(
                e,
            ),
            r matches Ok(p) ==> !p.spec_borrows_input(),
    {
        let stop = || -> (polled: Result<(), StopReason>)
            ensures
                polled is Ok,
            { unstoppable_check() };
        let config = DecodeConfig::unlimited();
        AvifParser::from_owned_with_config(data, &config, &stop)
    }

    /// Parses an AVIF file from an owned buffer, under the limits of
    /// `config`.
    pub fn from_owned_with_config<F: Fn() -> Result<(), StopReason>>(
        data: Vec<u8>,
        config: &DecodeConfig,
        stop: &F,
    ) -> (r: Result<AvifParser<'static>, Error>)
        requires
            stop.requires(()),
        ensures
            spec_parsed_unless_stopped(r, data@, *config),
            spec_first_box_error(data@) matches Some(e) ==> r == Err::<AvifParser<'static>, Error>(
                e,
            ),
            r matches Ok(p) ==> !p.spec_borrows_input(),
            r matches Err(Error::Stopped(reason)) ==> stop.ensures((), Err(reason)),
            spec_polls_stop(data@) && spec_always_stops(stop) ==> (r matches Err(e) && (e
                is Stopped || e is OutOfMemory)),
    {
        let options = config.parse_options();
        let parsed = parse_raw(data.as_slice(), &options, stop)?;
        let state = build(parsed, config)?;
        Ok(AvifParser { raw: Cow::Owned(data), state })
    }

    /// The parser over the bytes `data` that knows `state` about them.
    pub(crate) fn with_state(data: &'data [u8], state: ParserState) -> (r: AvifParser<'data>)
        ensures
            r.spec_raw() == data@,
            r.spec_state() == state.deep_view(),
            r.spec_borrows_input(),
    {
        AvifParser { raw: Cow::Borrowed(data), state }
    }

    /// The bytes of the file.
    pub fn raw_bytes(&self) -> (r: &[u8])
        ensures
            r@ == self.spec_raw(),
    {
        match &self.raw {
            Cow::Borrowed(b) => b,
            Cow::Owned(v) => v.as_slice(),
        }
    }

    /// Resolves the data of an item: a borrowed slice when the item is one
    /// range, an owned buffer when ranges are put together.
    pub fn resolve_item(&self, item: &ItemExtents) -> (r: Result<Cow<'_, [u8]>, Error>)
        ensures
            match r {
                Ok(c) => spec_item_data(self.spec_raw(), self.spec_state(), item.deep_view())
                    == Ok::<Seq<u8>, Error>(c@) && (c is Borrowed <==> item.extents@.len() == 1),
                Err(e) => !(e is Stopped) && (e is OutOfMemory || spec_item_data(
                    self.spec_raw(),
                    self.spec_state(),
                    item.deep_view(),
                ) == Err::<Seq<u8>, Error>(e)),
            },
            item.extents@.len() == 1 ==> !(r matches Err(Error::OutOfMemory)),
            item.construction_method == ConstructionMethod::Item ==> r == Err::<
                Cow<'_, [u8]>,
                Error,
            >(Error::Unsupported("construction_method 'item' not supported")),
            item.construction_method == ConstructionMethod::Idat && self.spec_state().idat is None
                ==> r == Err::<Cow<'_, [u8]>, Error>(
                Error::InvalidData("idat box missing but construction_method is Idat"),
            ),
    {
        match item.construction_method {
            ConstructionMethod::Idat => match &self.state.idat {
                None => Err(
                    Error::InvalidData("idat box missing but construction_method is Idat"),
                ),
                Some(idat) => resolve_extents(
                    idat.as_slice(),
                    &self.state.mdat_bounds,
                    false,
                    &item.extents,
                ),
            },
            ConstructionMethod::File => resolve_extents(
                self.raw_bytes(),
                &self.state.mdat_bounds,
                true,
                &item.extents,
            ),
            ConstructionMethod::Item => Err(
                Error::Unsupported("construction_method 'item' not supported"),
            ),
        }
    }

    /// The data of the primary item; empty for a grid.
    pub fn primary_data(&self) -> (r: Result<Cow<'_, [u8]>, Error>)
        ensures
            match r {
                Ok(c) => spec_primary_data(self.spec_raw(), self.spec_state()) == Ok::<
                    Seq<u8>,
                    Error,
                >(c@) && (c is Borrowed <==> (self.spec_state().grid_config is Some
                    || self.spec_state().primary.extents.len() == 1)),
                Err(e) => !(e is Stopped) && (e is OutOfMemory || spec_primary_data(
                    self.spec_raw(),
                    self.spec_state(),
                ) == Err::<Seq<u8>, Error>(e)),
            },
            self.spec_state().grid_config is Some || self.spec_state().primary.extents.len() == 1
                ==> !(r matches Err(Error::OutOfMemory)),
    {
        if self.state.grid_config.is_some() {
            let nothing = slice_subrange(self.raw_bytes(), 0, 0);
            assert(nothing@ =~= Seq::<u8>::empty());
            return Ok(Cow::Borrowed(nothing));
        }
        self.resolve_item(&self.state.primary)
    }

    /// The data of the alpha item, if there is one.
    pub fn alpha_data(&self) -> (r: Option<Result<Cow<'_, [u8]>, Error>>)
        ensures
            r is Some <==> self.spec_state().alpha is Some,
            r matches Some(Ok(c)) ==> spec_item_data(
                self.spec_raw(),
                self.spec_state(),
                self.spec_state().alpha->0,
            ) == Ok::<Seq<u8>, Error>(c@) && (c is Borrowed <==> self.spec_state().alpha->0.extents.len()
                == 1),
            r matches Some(Err(e)) ==> !(e is Stopped) && (e is OutOfMemory || spec_item_data(
                self.spec_raw(),
                self.spec_state(),
                self.spec_state().alpha->0,
            ) == Err::<Seq<u8>, Error>(e)),
            self.spec_state().alpha matches Some(a) && a.extents.len() == 1 ==> !(r matches Some(
                Err(Error::OutOfMemory),
            )),
    {
        match &self.state.alpha {
            Some(item) => Some(self.resolve_item(item)),
            None => None,
        }
    }

    /// The data of the grid tile `index`.
    pub fn tile_data(&self, index: usize) -> (r: Result<Cow<'_, [u8]>, Error>)
        ensures
            match r {
                Ok(c) => spec_tile_data(self.spec_raw(), self.spec_state(), index as int) == Ok::<
                    Seq<u8>,
                    Error,
                >(c@) && (c is Borrowed <==> self.spec_state().tiles[index as int].extents.len()
                    == 1),
                Err(e) => !(e is Stopped) && (e is OutOfMemory || spec_tile_data(
                    self.spec_raw(),
                    self.spec_state(),
                    index as int,
                ) == Err::<Seq<u8>, Error>(e)),
            },
            index >= self.spec_state().tiles.len() || self.spec_state().tiles[index as int].extents.len()
                == 1 ==> !(r matches Err(Error::OutOfMemory)),
    {
        if index >= self.state.tiles.len() {
            return Err(Error::InvalidData("tile index out of bounds"));
        }
        assert(self.state.tiles.deep_view()[index as int] == self.state.tiles@[index as int].deep_view());
        self.resolve_item(&self.state.tiles[index])
    }

    /// Frame `index` of the animation, as slices of the buffer.
    pub fn frame(&self, index: usize) -> (r: Result<FrameRef<'_>, Error>)
        ensures
            match r {
                Ok(f) => spec_frame(self.spec_raw(), self.spec_state(), index as int) == Ok::<
                    FrameView,
                    Error,
                >(f.spec_view()) && f.spec_borrowed(),
                Err(e) => !(e is Stopped) && !(e is OutOfMemory) && spec_frame(
                    self.spec_raw(),
                    self.spec_state(),
                    index as int,
                ) == Err::<FrameView, Error>(e),
            },
    {
        self.resolve_frame(index)
    }

    /// Resolves a single frame of the animation.
    pub fn resolve_frame(&self, index: usize) -> (r: Result<FrameRef<'_>, Error>)
        ensures
            match r {
                Ok(f) => spec_frame(self.spec_raw(), self.spec_state(), index as int) == Ok::<
                    FrameView,
                    Error,
                >(f.spec_view()) && f.spec_borrowed(),
                Err(e) => !(e is Stopped) && !(e is OutOfMemory) && spec_frame(
                    self.spec_raw(),
                    self.spec_state(),
                    index as int,
                ) == Err::<FrameView, Error>(e),
            },
    {
        let anim = match &self.state.animation_data {
            None => {
                return Err(Error::InvalidData("not an animated AVIF"));
            },
            Some(anim) => anim,
        };
        if index >= anim.sample_table.sample_sizes.len() {
            return Err(Error::InvalidData("frame index out of bounds"));
        }
        let duration_ms = calculate_frame_duration(&anim.sample_table, anim.media_timescale, index);
        let raw = self.raw_bytes();
        let data = match sample_data(raw, &anim.sample_table, index) {
            Err(e) => {
                return Err(e);
            },
            Ok(slice) => slice,
        };
        let alpha_data = match &anim.alpha_sample_table {
            None => None,
            Some(alpha) => match sample_data(raw, alpha, index) {
                Err(e) => {
                    return Err(e);
                },
                Ok(slice) => Some(Cow::Borrowed(slice)),
            },
        };
        Ok(FrameRef { data: Cow::Borrowed(data), alpha_data, duration_ms })
    }

    /// Facts about the animation, if the file holds one.
    pub fn animation_info(&self) -> (r: Option<AnimationInfo>)
        ensures
            match r {
                Some(info) => self.spec_state().animation_data matches Some(anim)
                    && info.frame_count == anim.sample_table.sample_sizes.len() && info.loop_count
                    == anim.loop_count && info.media_timescale == anim.media_timescale
                    && info.has_alpha == (anim.alpha_sample_table is Some),
                None => self.spec_state().animation_data is None,
            },
    {
        match &self.state.animation_data {
            Some(data) => Some(
                AnimationInfo {
                    frame_count: data.sample_table.sample_sizes.len(),
                    loop_count: data.loop_count,
                    media_timescale: data.media_timescale,
                    has_alpha: data.alpha_sample_table.is_some(),
                },
            ),
            None => None,
        }
    }

    /// Number of frames of the animation; 0 without one.
    pub open spec fn spec_frame_count(&self) -> nat {
        match self.spec_state().animation_data {
            Some(anim) => anim.sample_table.sample_sizes.len(),
            None => 0,
        }
    }

    /// A walk over the frames of the animation, from the first.
    pub fn frames(&self) -> (r: FrameIterator<'_>)
        ensures
            r.spec_index() == 0,
            r.spec_count() == self.spec_frame_count(),
            r.spec_parser().spec_raw() == self.spec_raw(),
            r.spec_parser().spec_state() == self.spec_state(),
    {
        let count = match self.animation_info() {
            Some(info) => info.frame_count,
            None => 0,
        };
        FrameIterator { parser: self, index: 0, count }
    }

    /// The layout of the grid, if the primary item is a grid.
    pub fn grid_config(&self) -> (r: Option<&GridConfig>)
        ensures
            match r {
                Some(g) => self.spec_state().grid_config == Some(*g),
                None => self.spec_state().grid_config is None,
            },
    {
        self.state.grid_config.as_ref()
    }

    /// Number of grid tiles.
    pub fn grid_tile_count(&self) -> (r: usize)
        ensures
            r == self.spec_state().tiles.len(),
    {
        self.state.tiles.len()
    }

    /// Whether the colour values are already multiplied by alpha.
    pub fn premultiplied_alpha(&self) -> (r: bool)
        ensures
            r == self.spec_state().premultiplied_alpha,
    {
        self.state.premultiplied_alpha
    }

    /// The picture properties that the data of the primary item declares.
    pub fn primary_metadata(&self) -> (r: Result<AV1Metadata, Error>)
        ensures
            match spec_primary_data(self.spec_raw(), self.spec_state()) {
                Ok(data) => r matches Err(Error::OutOfMemory) || r == spec_av1_metadata(data),
                Err(e) => r matches Err(Error::OutOfMemory) || r == Err::<AV1Metadata, Error>(e),
            },
            r matches Err(e) ==> !(e is Stopped),
            self.spec_state().grid_config is Some || self.spec_state().primary.extents.len() == 1
                ==> !(r matches Err(Error::OutOfMemory)),
    {
        let data = self.primary_data()?;
        AV1Metadata::parse_av1_bitstream(cow_bytes(&data))
    }

    /// The picture properties that the data of the alpha item declares, if
    /// there is an alpha item.
    pub fn alpha_metadata(&self) -> (r: Option<Result<AV1Metadata, Error>>)
        ensures
            r is Some <==> self.spec_state().alpha is Some,
            r matches Some(x) ==> (x matches Err(Error::OutOfMemory)) || match spec_item_data(
                self.spec_raw(),
                self.spec_state(),
                self.spec_state().alpha->0,
            ) {
                Ok(data) => x == spec_av1_metadata(data),
                Err(e) => x == Err::<AV1Metadata, Error>(e),
            },
            self.spec_state().alpha matches Some(a) && a.extents.len() == 1
                ==> !(r matches Some(Err(Error::OutOfMemory))),
    {
        match &self.state.alpha {
            Some(item) => Some(
                match self.resolve_item(item) {
                    Err(e) => Err(e),
                    Ok(data) => AV1Metadata::parse_av1_bitstream(cow_bytes(&data)),
                },
            ),
            None => None,
        }
    }
}

/// The bytes that `data` holds.
pub fn cow_bytes<'a, 'b>(data: &'b Cow<'a, [u8]>) -> (r: &'b [u8])
    ensures
        r@ == data@,
{
    match data {
        Cow::Borrowed(b) => b,
        Cow::Owned(v) => v.as_slice(),
    }
}

/// A walk over the frames of an animation, made by [`AvifParser::frames`].
pub struct FrameIterator<'a> {
    parser: &'a AvifParser<'a>,
    index: usize,
    count: usize,
}

impl<'a> FrameIterator<'a> {
    /// The parser whose frames are walked over.
    pub closed spec fn spec_parser(&self) -> &AvifParser<'a> {
        self.parser
    }

    /// Index of the frame that comes next.
    pub closed spec fn spec_index(&self) -> nat {
        self.index as nat
    }

    /// Number of frames of the animation.
    pub closed spec fn spec_count(&self) -> nat {
        self.count as nat
    }

    /// The next frame, or `None` after the last.
    pub fn next(&mut self) -> (r: Option<Result<FrameRef<'a>, Error>>)
        ensures
            final(self).spec_parser() == old(self).spec_parser(),
            final(self).spec_count() == old(self).spec_count(),
            old(self).spec_index() >= old(self).spec_count() ==> r is None
                && final(self).spec_index() == old(self).spec_index(),
            old(self).spec_index() < old(self).spec_count()
                ==> final(self).spec_index() == old(self).spec_index() + 1 && (match r {
                Some(Ok(f)) => spec_frame(
                    old(self).spec_parser().spec_raw(),
                    old(self).spec_parser().spec_state(),
                    old(self).spec_index() as int,
                ) == Ok::<FrameView, Error>(f.spec_view()) && f.spec_borrowed(),
                Some(Err(e)) => spec_frame(
                    old(self).spec_parser().spec_raw(),
                    old(self).spec_parser().spec_state(),
                    old(self).spec_index() as int,
                ) == Err::<FrameView, Error>(e),
                None => false,
            }),
    {
        if self.index >= self.count {
            return None;
        }
        let result = self.parser.frame(self.index);
        self.index = self.index + 1;
        Some(result)
    }

    /// Number of frames that are still to come.
    pub fn len(&self) -> (r: usize)
        ensures
            r == (if self.spec_index() <= self.spec_count() {
                self.spec_count() - self.spec_index()
            } else {
                0
            }),
    {
        if self.index <= self.count {
            self.count - self.index
        } else {
            0
        }
    }

    /// Bounds on the number of frames that are still to come: both are
    /// that number.
    pub fn size_hint(&self) -> (r: (usize, Option<usize>))
        ensures
            r.1 == Some(r.0),
            r.0 == (if self.spec_index() <= self.spec_count() {
                self.spec_count() - self.spec_index()
            } else {
                0
            }),
    {
        let remaining = self.len();
        (remaining, Some(remaining))
    }
}

} // verus!
