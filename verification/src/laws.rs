//! What holds of every file: general statements about the parser, proved
//! from the definitions that the contracts of its functions use.
use vstd::prelude::*;
use crate::config::DecodeConfig;
use crate::derived::{
    lemma_found_location, lemma_sort_tiles, spec_dimg_tiles, spec_fallback_grid,
    spec_find_location, spec_first_grid, spec_first_ispe, spec_grid_config, spec_item_extents,
    spec_sort_tiles, spec_tile_extents, spec_tiles_sorted, ItemExtentsView, TileRef,
};
use crate::eager::spec_read_avif;
use crate::error::Error;
use crate::items::{ExtentRange, ItemLocationView};
use crate::moov::TimeToSampleEntry;
use crate::parser::{
    spec_build, spec_build_grid, spec_check_frames, spec_count_u32, spec_frame, spec_is_grid,
    spec_optional_extents, spec_parse, spec_parsed, spec_sample_data, AvifParser,
    ParserStateView,
};
use crate::resolve::{
    spec_concat_extents, spec_duration_ms, spec_frame_duration, spec_resolve_extents,
    spec_sample_delta, spec_sample_location, spec_span,
};
use crate::reader::BMFFBox;
use crate::toplevel::{MdatBounds, ParsedView};

verus! {

/// Whether `x` is where the data of item `id` lies according to one of the
/// locations `locations`.
pub open spec fn spec_located(locations: Seq<ItemLocationView>, id: u32, x: ItemExtentsView) -> bool {
    exists|i: int|
        0 <= i < locations.len() && (#[trigger] locations[i]).item_id == id && locations[i].extents
            == x.extents && locations[i].construction_method == x.construction_method
}

/// Extents that are found for an item are those of one of the locations,
/// and that location is about the item.
pub proof fn lemma_extents_located(locations: Seq<ItemLocationView>, id: u32)
    ensures
        spec_item_extents(locations, id) matches Ok(x) ==> spec_located(locations, id, x),
{
    lemma_found_location(locations, id);
    if spec_find_location(locations, id) is Some {
        let l = spec_find_location(locations, id)->0;
        let i = choose|i: int| 0 <= i < locations.len() && locations[i] == l;
        assert(locations[i].item_id == id);
    }
}

/// The extents of a run of tiles are as many as the tiles, and each is
/// what is found for its tile.
pub proof fn lemma_tile_extents(
    locations: Seq<ItemLocationView>,
    tiles: Seq<TileRef>,
    acc: Seq<ItemExtentsView>,
)
    ensures
        spec_tile_extents(locations, tiles, acc) matches Ok(out) ==> out.len() == acc.len()
            + tiles.len() && (forall|i: int| 0 <= i < acc.len() ==> out[i] == acc[i]) && (forall|
            i: int,
        |
            0 <= i < tiles.len() ==> spec_item_extents(locations, tiles[i].item_id) == Ok::<
                ItemExtentsView,
                Error,
            >(#[trigger] out[acc.len() + i])),
    decreases tiles.len(),
{
    if tiles.len() > 0 {
        match spec_item_extents(locations, tiles[0].item_id) {
            Err(_) => {},
            Ok(x) => {
                lemma_tile_extents(locations, tiles.drop_first(), acc.push(x));
                if spec_tile_extents(locations, tiles, acc) is Ok {
                    let out = spec_tile_extents(locations, tiles, acc)->Ok_0;
                    assert(out[acc.len() as int] == acc.push(x)[acc.len() as int]);
                    assert forall|i: int| 0 <= i < tiles.len() implies spec_item_extents(
                        locations,
                        tiles[i].item_id,
                    ) == Ok::<ItemExtentsView, Error>(#[trigger] out[acc.len() + i]) by {
                        if i > 0 {
                            assert(tiles.drop_first()[i - 1] == tiles[i]);
                            assert(out[acc.push(x).len() + (i - 1)] == out[acc.len() + i]);
                        }
                    }
                    assert forall|i: int| 0 <= i < acc.len() implies out[i] == acc[i] by {
                        assert(acc.push(x)[i] == acc[i]);
                    }
                }
            },
        }
    }
}

/// Every item that a parser hands out has a location: the primary item,
/// the alpha item and each tile of a grid are found in the item location
/// table under their item id.
pub proof fn law_items_have_locations(parsed: ParsedView, config: DecodeConfig)
    requires
        spec_build(parsed, config) is Ok,
    ensures
        ({
            let state = spec_build(parsed, config)->Ok_0;
            let meta = parsed.meta;
            let alpha_id = crate::derived::spec_alpha_item_id(
                meta.item_references,
                meta.primary_item_id,
                meta.properties,
            );
            let tiles = spec_sort_tiles(
                spec_dimg_tiles(meta.item_references, meta.primary_item_id),
            );
            &&& spec_located(meta.iloc_items, meta.primary_item_id, state.primary)
            &&& state.alpha is Some <==> alpha_id is Some
            &&& state.alpha is Some ==> spec_located(meta.iloc_items, alpha_id->0, state.alpha->0)
            &&& state.tiles.len() > 0 ==> state.tiles.len() == tiles.len()
            &&& forall|i: int|
                0 <= i < state.tiles.len() ==> spec_located(
                    meta.iloc_items,
                    tiles[i].item_id,
                    #[trigger] state.tiles[i],
                )
        }),
{
    let state = spec_build(parsed, config)->Ok_0;
    let meta = parsed.meta;
    lemma_extents_located(meta.iloc_items, meta.primary_item_id);
    let alpha_id = crate::derived::spec_alpha_item_id(
        meta.item_references,
        meta.primary_item_id,
        meta.properties,
    );
    if alpha_id is Some {
        lemma_extents_located(meta.iloc_items, alpha_id->0);
    }
    let tiles = spec_sort_tiles(spec_dimg_tiles(meta.item_references, meta.primary_item_id));
    if spec_is_grid(meta) {
        lemma_tile_extents(meta.iloc_items, tiles, Seq::empty());
        assert forall|i: int| 0 <= i < state.tiles.len() implies spec_located(
            meta.iloc_items,
            tiles[i].item_id,
            #[trigger] state.tiles[i],
        ) by {
            lemma_extents_located(meta.iloc_items, tiles[i].item_id);
            assert(state.tiles[0 + i] == state.tiles[i]);
        }
    } else {
        assert(state.tiles.len() == 0);
    }
}

/// Putting ranges together succeeds only if each range lies inside the
/// source, and the data is then as long as the ranges together.
pub proof fn lemma_concat_in_bounds(
    source: Seq<u8>,
    mdats: Seq<MdatBounds>,
    in_file: bool,
    extents: Seq<ExtentRange>,
    acc: Seq<u8>,
)
    requires
        spec_concat_extents(source, mdats, in_file, extents, acc) is Ok,
    ensures
        forall|i: int|
            0 <= i < extents.len() ==> (spec_span(
                #[trigger] extents[i],
                mdats,
                source.len(),
                in_file,
            ) matches Ok((s, e)) && 0 <= s <= e <= source.len()),
        spec_concat_extents(source, mdats, in_file, extents, acc)->Ok_0.len() >= acc.len(),
    decreases extents.len(),
{
    if extents.len() > 0 {
        let (s, e) = spec_span(extents[0], mdats, source.len(), in_file)->Ok_0;
        lemma_span_in_bounds(extents[0], mdats, source.len(), in_file);
        lemma_concat_in_bounds(
            source,
            mdats,
            in_file,
            extents.drop_first(),
            acc + source.subrange(s, e),
        );
        assert forall|i: int| 0 <= i < extents.len() implies (spec_span(
            #[trigger] extents[i],
            mdats,
            source.len(),
            in_file,
        ) matches Ok((s, e)) && 0 <= s <= e <= source.len()) by {
            if i > 0 {
                assert(extents.drop_first()[i - 1] == extents[i]);
            }
        }
    }
}

/// A range that is resolved lies inside the source.
pub proof fn lemma_span_in_bounds(extent: ExtentRange, mdats: Seq<MdatBounds>, len: nat, in_file: bool)
    ensures
        spec_span(extent, mdats, len, in_file) matches Ok((s, e)) ==> 0 <= s <= e <= len,
{
}

/// The extents of an item whose data can be had all lie inside the source
/// buffer: inside the file, or inside the `idat` payload for an item that
/// is addressed there.
pub proof fn law_resolved_extents_in_bounds(
    source: Seq<u8>,
    mdats: Seq<MdatBounds>,
    in_file: bool,
    extents: Seq<ExtentRange>,
)
    requires
        spec_resolve_extents(source, mdats, in_file, extents) is Ok,
    ensures
        forall|i: int|
            0 <= i < extents.len() ==> (spec_span(
                #[trigger] extents[i],
                mdats,
                source.len(),
                in_file,
            ) matches Ok((s, e)) && 0 <= s <= e <= source.len()),
{
    lemma_concat_in_bounds(source, mdats, in_file, extents, Seq::empty());
}

/// The data of an item with exactly one extent is a contiguous range of
/// the source: the range that the extent stands for.
pub proof fn law_single_extent_is_a_range(
    source: Seq<u8>,
    mdats: Seq<MdatBounds>,
    in_file: bool,
    extent: ExtentRange,
)
    requires
        spec_resolve_extents(source, mdats, in_file, seq![extent]) is Ok,
    ensures
        spec_span(extent, mdats, source.len(), in_file) matches Ok((s, e)) && (0 <= s <= e
            <= source.len() && spec_resolve_extents(source, mdats, in_file, seq![extent]) == Ok::<
            Seq<u8>,
            Error,
        >(source.subrange(s, e))),
{
    let extents = seq![extent];
    assert(extents[0] == extent);
    lemma_span_in_bounds(extent, mdats, source.len(), in_file);
    let (s, e) = spec_span(extent, mdats, source.len(), in_file)->Ok_0;
    assert(extents.drop_first() =~= Seq::<ExtentRange>::empty());
    assert(Seq::<u8>::empty() + source.subrange(s, e) =~= source.subrange(s, e));
    assert(spec_concat_extents(
        source,
        mdats,
        in_file,
        extents.drop_first(),
        source.subrange(s, e),
    ) == Ok::<Seq<u8>, Error>(source.subrange(s, e)));
}

/// The tiles of a grid are the targets of the `dimg` references of the
/// primary item, each once, in ascending order of reference index; the
/// parser has one extent list for each of them, in that order.
pub proof fn law_grid_tiles_ascend(parsed: ParsedView, config: DecodeConfig)
    requires
        spec_build(parsed, config) is Ok,
        spec_is_grid(parsed.meta),
    ensures
        ({
            let state = spec_build(parsed, config)->Ok_0;
            let meta = parsed.meta;
            let tiles = spec_dimg_tiles(meta.item_references, meta.primary_item_id);
            let sorted = spec_sort_tiles(tiles);
            &&& spec_tiles_sorted(sorted)
            &&& sorted.to_multiset() == tiles.to_multiset()
            &&& state.tiles.len() == tiles.len()
            &&& state.grid_config is Some
            &&& forall|i: int|
                0 <= i < sorted.len() ==> spec_item_extents(
                    meta.iloc_items,
                    sorted[i].item_id,
                ) == Ok::<ItemExtentsView, Error>(#[trigger] state.tiles[i])
        }),
{
    let state = spec_build(parsed, config)->Ok_0;
    let meta = parsed.meta;
    let tiles = spec_dimg_tiles(meta.item_references, meta.primary_item_id);
    let sorted = spec_sort_tiles(tiles);
    lemma_sort_tiles(tiles);
    lemma_tile_extents(meta.iloc_items, sorted, Seq::empty());
    assert forall|i: int| 0 <= i < sorted.len() implies spec_item_extents(
        meta.iloc_items,
        sorted[i].item_id,
    ) == Ok::<ItemExtentsView, Error>(#[trigger] state.tiles[i]) by {
        assert(state.tiles[0 + i] == state.tiles[i]);
    }
}

/// A layout that is worked out from the dimensions of grid and tile has
/// as many rows and columns as tiles fit the canvas; the layout of last
/// resort is one column with a row for each tile, at most 255.
pub proof fn law_grid_layout(
    properties: Seq<crate::props::AssociatedPropertyView>,
    primary: u32,
    tiles: Seq<TileRef>,
    limit: Option<u32>,
)
    requires
        spec_grid_config(properties, primary, tiles, limit) is Ok,
        spec_first_grid(properties, primary) is None,
    ensures
        ({
            let g = spec_grid_config(properties, primary, tiles, limit)->Ok_0;
            let canvas = spec_first_ispe(properties, primary);
            ||| g == spec_fallback_grid(tiles.len()) && g.columns == 1 && (tiles.len() <= 255
                ==> g.rows * g.columns == tiles.len())
            ||| canvas is Some && tiles.len() > 0 && (spec_first_ispe(
                properties,
                tiles[0].item_id,
            ) matches Some(t) && t.width > 0 && t.height > 0 && g.columns * t.width
                == canvas->0.width && g.rows * t.height == canvas->0.height && g.output_width
                == canvas->0.width && g.output_height == canvas->0.height)
        }),
{
    let g = spec_grid_config(properties, primary, tiles, limit)->Ok_0;
    let canvas = spec_first_ispe(properties, primary);
    if g != spec_fallback_grid(tiles.len()) {
        let t = spec_first_ispe(properties, tiles[0].item_id)->0;
        let c = canvas->0;
        assert(c.width / t.width * t.width == c.width) by (nonlinear_arith)
            requires
                t.width > 0,
                c.width % t.width == 0,
        ;
        assert(c.height / t.height * t.height == c.height) by (nonlinear_arith)
            requires
                t.height > 0,
                c.height % t.height == 0,
        ;
    }
}

/// The bytes of a frame are the bytes of the file at the offset that the
/// sample table gives for the frame, as many as the sample is long.
pub proof fn law_frame_round_trip(raw: Seq<u8>, state: ParserStateView, index: int)
    requires
        spec_frame(raw, state, index) is Ok,
    ensures
        state.animation_data matches Some(anim) && (spec_sample_location(
            anim.sample_table,
            index,
        ) matches Ok((offset, size)) && offset + size <= raw.len() && spec_frame(
            raw,
            state,
            index,
        )->Ok_0.data == raw.subrange(offset as int, offset + size) && spec_frame(
            raw,
            state,
            index,
        )->Ok_0.data.len() == size && 0 <= index < anim.sample_table.sample_sizes.len() && size
            == anim.sample_table.sample_sizes[index]),
{
}

/// A frame whose sample lies in the file is handed out: with an animation,
/// an index below the frame count and a sample that the sample table places
/// inside the file, and the same for the sample of the alpha track if there
/// is one, the frame is the bytes at the place that the sample table gives,
/// with the duration that the time-to-sample table gives.
pub proof fn law_frame_is_found(raw: Seq<u8>, state: ParserStateView, index: int)
    requires
        state.animation_data is Some,
        0 <= index < state.animation_data->0.sample_table.sample_sizes.len(),
        spec_sample_location(state.animation_data->0.sample_table, index) matches Ok(
            (offset, size),
        ) && offset + size <= raw.len(),
        state.animation_data->0.alpha_sample_table matches Some(alpha) ==> spec_sample_data(
            raw,
            alpha,
            index,
        ) is Ok,
    ensures
        ({
            let anim = state.animation_data->0;
            let (offset, size) = spec_sample_location(anim.sample_table, index)->Ok_0;
            spec_frame(raw, state, index) matches Ok(f) && f.data == raw.subrange(
                offset as int,
                offset + size,
            ) && f.duration_ms == spec_frame_duration(
                anim.sample_table.time_to_sample,
                anim.media_timescale,
                index,
            ) && (f.alpha_data is Some <==> anim.alpha_sample_table is Some)
        }),
{
}

/// Whether every limit of `high` allows what the same limit of `low`
/// allows; the configurations are otherwise the same.
pub open spec fn spec_limits_raised(low: DecodeConfig, high: DecodeConfig) -> bool {
    &&& low.lenient == high.lenient
    &&& high.peak_memory_limit matches Some(h) ==> low.peak_memory_limit matches Some(l) && l <= h
    &&& high.total_megapixels_limit matches Some(h) ==> low.total_megapixels_limit matches Some(l)
        && l <= h
    &&& high.max_animation_frames matches Some(h) ==> low.max_animation_frames matches Some(l) && l
        <= h
    &&& high.max_grid_tiles matches Some(h) ==> low.max_grid_tiles matches Some(l) && l <= h
}

/// Raising limits preserves success: a file that parses under limits
/// parses to the same under higher limits, or none.
pub proof fn law_raised_limits_preserve_success(data: Seq<u8>, low: DecodeConfig, high: DecodeConfig)
    requires
        spec_limits_raised(low, high),
        spec_parse(data, low) is Ok,
    ensures
        spec_parse(data, high) == spec_parse(data, low),
{
}

/// Raising limits preserves the success of the eager read too: the pass
/// over the top-level boxes meets no `mdat` payload above the lower limit,
/// so none above the higher.
pub proof fn law_raised_limits_preserve_eager_success(
    data: Seq<u8>,
    low: DecodeConfig,
    high: DecodeConfig,
)
    requires
        spec_limits_raised(low, high),
        spec_read_avif(data, low) is Ok,
    ensures
        spec_read_avif(data, high) == spec_read_avif(data, low),
{
    let first = crate::toplevel::spec_top_step(data, low.lenient, low.peak_memory_limit);
    let second = crate::toplevel::spec_top_step(data, high.lenient, high.peak_memory_limit);
    assert forall|child: BMFFBox, a: crate::toplevel::TopPartsView| (#[trigger] first(
        child,
        a,
    )) is Ok implies second(child, a) == first(child, a) by {
        reveal(crate::toplevel::spec_top_child);
        reveal(crate::toplevel::spec_top_child_parsed);
    }
    let root = BMFFBox::spec_root(data.len());
    match root.spec_next_box(data) {
        Ok(Some((_, rest))) => {
            crate::reader::lemma_fold_boxes_agree(
                data,
                rest,
                crate::toplevel::spec_top_parts_empty(),
                first,
                second,
            );
        },
        _ => {},
    }
}

/// A tile or frame limit below what a file holds makes its parse fail:
/// with the number of tiles of the grid, or of frames of the animation,
/// above the limit, the parse ends with a limit's error.
pub proof fn law_limit_below_count_fails(
    data: Seq<u8>,
    unlimited: DecodeConfig,
    limited: DecodeConfig,
)
    requires
        unlimited.lenient == limited.lenient,
        unlimited.max_grid_tiles is None,
        unlimited.max_animation_frames is None,
        spec_parse(data, unlimited) is Ok,
        ({
            let state = spec_parse(data, unlimited)->Ok_0;
            ||| limited.max_grid_tiles matches Some(l) && spec_count_u32(state.tiles.len()) > l
            ||| limited.max_animation_frames matches Some(l) && state.animation_data matches Some(
                anim,
            ) && spec_count_u32(anim.sample_table.sample_sizes.len()) > l
        }),
    ensures
        spec_parse(data, limited) matches Err(Error::ResourceLimitExceeded(_)),
{
    let parsed = crate::toplevel::spec_parse_raw(data, unlimited.lenient)->Ok_0;
    let state = spec_parse(data, unlimited)->Ok_0;
    let meta = parsed.meta;
    if limited.max_grid_tiles is Some && spec_count_u32(state.tiles.len())
        > limited.max_grid_tiles->0 {
        if spec_is_grid(meta) {
            let tiles = spec_dimg_tiles(meta.item_references, meta.primary_item_id);
            lemma_sort_tiles(tiles);
            lemma_tile_extents(meta.iloc_items, spec_sort_tiles(tiles), Seq::empty());
        }
    }
}

/// A megapixel limit below the canvas of a grid whose layout is worked out
/// from the dimensions of grid and tile makes the parse of the grid fail.
pub proof fn law_megapixel_limit_below_canvas_fails(parsed: ParsedView, config: DecodeConfig)
    requires
        spec_is_grid(parsed.meta),
        spec_build(
            parsed,
            DecodeConfig { total_megapixels_limit: None, ..config },
        ) is Ok,
        spec_first_grid(parsed.meta.properties, parsed.meta.primary_item_id) is None,
        ({
            let meta = parsed.meta;
            let tiles = spec_sort_tiles(
                spec_dimg_tiles(meta.item_references, meta.primary_item_id),
            );
            let canvas = spec_first_ispe(meta.properties, meta.primary_item_id);
            &&& tiles.len() > 0
            &&& spec_first_ispe(meta.properties, tiles[0].item_id) is Some
            &&& canvas is Some
            &&& config.total_megapixels_limit matches Some(l) && crate::config::spec_megapixels(
                canvas->0.width,
                canvas->0.height,
            ) > l
        }),
    ensures
        spec_build(parsed, config) == Err::<ParserStateView, Error>(
            Error::ResourceLimitExceeded("total megapixels limit exceeded"),
        ),
{
}

/// Whether one of the payloads `mdats` from number `from` on is larger
/// than `limit`.
pub open spec fn spec_mdat_above(mdats: Seq<MdatBounds>, from: int, limit: u64) -> bool {
    exists|i: int| from <= i < mdats.len() && (#[trigger] mdats[i]).length > limit
}

/// What the memory limit changes in a walk over the top-level boxes that
/// succeeds without one: the walk under the limit ends with the quota error
/// if it adds a payload above the limit, and gathers the same if not.
pub proof fn lemma_walk_under_limit(
    data: Seq<u8>,
    lenient: bool,
    it: BMFFBox,
    acc: crate::toplevel::TopPartsView,
    limit: u64,
)
    requires
        it.pos <= it.end,
        crate::reader::spec_fold_boxes(
            data,
            it,
            acc,
            crate::toplevel::spec_top_step(data, lenient, None),
        ) is Ok,
    ensures
        ({
            let out = crate::reader::spec_fold_boxes(
                data,
                it,
                acc,
                crate::toplevel::spec_top_step(data, lenient, None),
            )->Ok_0;
            let limited = crate::reader::spec_fold_boxes(
                data,
                it,
                acc,
                crate::toplevel::spec_top_step(data, lenient, Some(limit)),
            );
            &&& out.mdat_bounds.len() >= acc.mdat_bounds.len()
            &&& forall|i: int|
                0 <= i < acc.mdat_bounds.len() ==> out.mdat_bounds[i] == acc.mdat_bounds[i]
            &&& limited == (if spec_mdat_above(
                out.mdat_bounds,
                acc.mdat_bounds.len() as int,
                limit,
            ) {
                Err::<crate::toplevel::TopPartsView, Error>(
                    Error::ResourceLimitExceeded("peak memory limit exceeded"),
                )
            } else {
                Ok::<crate::toplevel::TopPartsView, Error>(out)
            })
        }),
    decreases it.avail(),
{
    reveal(crate::toplevel::spec_top_child);
    reveal(crate::toplevel::spec_top_child_parsed);
    crate::reader::lemma_child_advances(data, it);
    let free = crate::toplevel::spec_top_step(data, lenient, None);
    let out = crate::reader::spec_fold_boxes(data, it, acc, free)->Ok_0;
    let from = acc.mdat_bounds.len() as int;
    match it.spec_next_box(data) {
        Ok(Some((child, rest))) => {
            let next = crate::toplevel::spec_top_child(data, child, acc, lenient, None)->Ok_0;
            lemma_walk_under_limit(data, lenient, rest, next, limit);
            if next.mdat_bounds != acc.mdat_bounds {
                let m = MdatBounds { offset: child.pos as u64, length: child.avail() as u64 };
                assert(next.mdat_bounds == acc.mdat_bounds.push(m));
                assert(out.mdat_bounds[from] == next.mdat_bounds[from]);
                assert(out.mdat_bounds[from] == m);
                assert forall|i: int| 0 <= i < acc.mdat_bounds.len() implies out.mdat_bounds[i]
                    == acc.mdat_bounds[i] by {
                    assert(next.mdat_bounds[i] == acc.mdat_bounds[i]);
                }
                if m.length > limit {
                    assert(spec_mdat_above(out.mdat_bounds, from, limit));
                } else {
                    if spec_mdat_above(out.mdat_bounds, from, limit) {
                        let i = choose|i: int|
                            from <= i < out.mdat_bounds.len() && (#[trigger] out.mdat_bounds[i]).length
                                > limit;
                        assert(i != from);
                        assert(spec_mdat_above(out.mdat_bounds, from + 1, limit));
                    }
                    if spec_mdat_above(out.mdat_bounds, from + 1, limit) {
                        let i = choose|i: int|
                            from + 1 <= i < out.mdat_bounds.len() && (
                            #[trigger] out.mdat_bounds[i]).length > limit;
                        assert(spec_mdat_above(out.mdat_bounds, from, limit));
                    }
                }
            }
        },
        _ => {},
    }
}

/// A memory limit below the size of an `mdat` payload makes the eager read
/// fail with the quota error, in a file that the parser accepts.
pub proof fn law_memory_limit_below_mdat_fails(data: Seq<u8>, config: DecodeConfig, i: int)
    requires
        spec_parse(data, config) is Ok,
        0 <= i < spec_parse(data, config)->Ok_0.mdat_bounds.len(),
        config.peak_memory_limit matches Some(l) && spec_parse(
            data,
            config,
        )->Ok_0.mdat_bounds[i].length > l,
    ensures
        spec_read_avif(data, config) == Err::<crate::eager::AvifDataView, Error>(
            Error::ResourceLimitExceeded("peak memory limit exceeded"),
        ),
{
    let root = BMFFBox::spec_root(data.len());
    crate::reader::lemma_child_advances(data, root);
    match root.spec_next_box(data) {
        Ok(Some((_, rest))) => {
            lemma_walk_under_limit(
                data,
                config.lenient,
                rest,
                crate::toplevel::spec_top_parts_empty(),
                config.peak_memory_limit->0,
            );
            let out = crate::reader::spec_fold_boxes(
                data,
                rest,
                crate::toplevel::spec_top_parts_empty(),
                crate::toplevel::spec_top_step(data, config.lenient, None),
            )->Ok_0;
            assert(out.mdat_bounds == spec_parse(data, config)->Ok_0.mdat_bounds);
            assert(spec_mdat_above(out.mdat_bounds, 0, config.peak_memory_limit->0));
        },
        _ => {},
    }
}

/// The quota comes first: a file whose first box is an accepted `ftyp` box
/// and whose second is an `mdat` box with a payload above the memory limit
/// ends the eager read with the quota error, whatever follows and whether
/// or not the file holds a `meta` box.
pub proof fn law_quota_comes_first(data: Seq<u8>, config: DecodeConfig)
    requires
        config.peak_memory_limit is Some,
        ({
            let root = BMFFBox::spec_root(data.len());
            root.spec_next_box(data) matches Ok(Some((first, rest)))
                && crate::toplevel::spec_check_first(data, first) is Ok && (rest.spec_next_box(
                data,
            ) matches Ok(Some((second, _))) && second.head.name
                == crate::boxes::BoxType::MediaDataBox && second.avail()
                > config.peak_memory_limit->0)
        }),
    ensures
        spec_read_avif(data, config) == Err::<crate::eager::AvifDataView, Error>(
            Error::ResourceLimitExceeded("peak memory limit exceeded"),
        ),
{
    reveal(crate::toplevel::spec_top_child);
    reveal(crate::toplevel::spec_top_child_parsed);
}

/// Parsing the same buffer twice gives equal parsers: the same bytes and
/// the same knowledge about them.
pub proof fn law_parse_is_deterministic<'a, 'b>(
    data: Seq<u8>,
    config: DecodeConfig,
    first: Result<AvifParser<'a>, Error>,
    second: Result<AvifParser<'b>, Error>,
)
    requires
        spec_parsed(first, data, config),
        spec_parsed(second, data, config),
        first is Ok,
        second is Ok,
    ensures
        first->Ok_0.spec_state() == second->Ok_0.spec_state(),
        first->Ok_0.spec_raw() == second->Ok_0.spec_raw(),
{
}

/// Of two parses of the same buffer that fail for a reason other than
/// want of memory, both fail for the same reason.
pub proof fn law_parse_fails_alike<'a, 'b>(
    data: Seq<u8>,
    config: DecodeConfig,
    first: Result<AvifParser<'a>, Error>,
    second: Result<AvifParser<'b>, Error>,
)
    requires
        spec_parsed(first, data, config),
        spec_parsed(second, data, config),
        first matches Err(e) && !(e is OutOfMemory),
    ensures
        second matches Err(e) && (e is OutOfMemory || e == first->Err_0),
{
}

/// The duration in media units of frame `index`; 0 when the time-to-sample
/// table does not reach the frame.
pub open spec fn spec_frame_delta(stts: Seq<TimeToSampleEntry>, index: int) -> int {
    match spec_sample_delta(stts, 0, 0, index) {
        Some(delta) => delta as int,
        None => 0,
    }
}

/// The durations in media units of the first `n` frames together.
pub open spec fn spec_total_delta(stts: Seq<TimeToSampleEntry>, n: nat) -> int
    decreases n,
{
    if n == 0 {
        0
    } else {
        spec_total_delta(stts, (n - 1) as nat) + spec_frame_delta(stts, n - 1)
    }
}

/// The durations in milliseconds of the first `n` frames together.
pub open spec fn spec_total_duration_ms(stts: Seq<TimeToSampleEntry>, timescale: u32, n: nat) -> int
    decreases n,
{
    if n == 0 {
        0
    } else {
        spec_total_duration_ms(stts, timescale, (n - 1) as nat) + spec_frame_duration(
            stts,
            timescale,
            n - 1,
        )
    }
}

/// The frame durations add up to the duration of the animation, but for
/// rounding: each frame loses less than a millisecond. In units of the
/// timescale: the sum of the frame durations in milliseconds, times the
/// timescale, is at most a thousand times the sum of the durations in
/// media units, and is less than a frame count of milliseconds short.
pub proof fn law_durations_add_up(stts: Seq<TimeToSampleEntry>, timescale: u32, n: nat)
    requires
        timescale > 0,
        forall|k: int| 0 <= k < n ==> spec_frame_delta(stts, k) * 1000 / (timescale as int)
            < 0x1_0000_0000,
    ensures
        spec_total_duration_ms(stts, timescale, n) * timescale <= spec_total_delta(stts, n) * 1000,
        spec_total_delta(stts, n) * 1000 < (spec_total_duration_ms(stts, timescale, n) + n)
            * timescale || n == 0,
    decreases n,
{
    if n > 0 {
        law_durations_add_up(stts, timescale, (n - 1) as nat);
        let d = spec_frame_delta(stts, n - 1);
        let ms = spec_frame_duration(stts, timescale, n - 1) as int;
        let ts = timescale as int;
        assert(ms == d * 1000 / ts) by {
            assert(d * 1000 / ts < 0x1_0000_0000);
            assert(d * 1000 / ts >= 0) by (nonlinear_arith)
                requires
                    d >= 0,
                    ts > 0,
            ;
        }
        assert(ms * ts <= d * 1000 && d * 1000 < (ms + 1) * ts) by (nonlinear_arith)
            requires
                ms == d * 1000 / ts,
                ts > 0,
        ;
        let a = spec_total_duration_ms(stts, timescale, (n - 1) as nat);
        let t = spec_total_delta(stts, (n - 1) as nat);
        assert((a + ms) * ts == a * ts + ms * ts) by (nonlinear_arith);
        assert((t + d) * 1000 == t * 1000 + d * 1000) by (nonlinear_arith);
        assert((a + ms + n) * ts == (a + (n - 1)) * ts + (ms + 1) * ts) by (nonlinear_arith);
        assert(t * 1000 <= (a + (n - 1)) * ts) by {
            if n - 1 == 0 {
                assert(a == 0 && t == 0);
                assert((a + (n - 1)) * ts == 0) by (nonlinear_arith)
                    requires
                        a + (n - 1) == 0,
                ;
            }
        }
    }
}

/// Whether the payloads `mdats` are non-empty, follow each other in the
/// file without overlap, and end at or before offset `end`.
pub open spec fn spec_mdats_in_order(mdats: Seq<MdatBounds>, end: int) -> bool {
    &&& forall|i: int|
        0 <= i < mdats.len() ==> (#[trigger] mdats[i]).length > 0 && mdats[i].offset
            + mdats[i].length <= end
    &&& forall|i: int, j: int|
        0 <= i < j < mdats.len() ==> (#[trigger] mdats[i]).offset + mdats[i].length <= (
        #[trigger] mdats[j]).offset
}

/// Whether a step of the walk over the top-level boxes keeps the payloads
/// gathered so far in order, up to the end of the box that the step reads.
pub open spec fn spec_step_keeps_order(data: Seq<u8>, lenient: bool, it: BMFFBox, acc: crate::toplevel::TopPartsView) -> bool {
    match it.spec_next_box(data) {
        Ok(Some((child, rest))) => match crate::toplevel::spec_top_child(data, child, acc, lenient, None) {
            Ok(next) => spec_mdats_in_order(next.mdat_bounds, rest.pos as int),
            Err(_) => true,
        },
        _ => true,
    }
}

/// One step of the walk over the top-level boxes keeps the payloads in
/// order: a payload that is added lies in the box that was just read,
/// behind all that were gathered before.
pub proof fn lemma_step_keeps_order(
    data: Seq<u8>,
    lenient: bool,
    it: BMFFBox,
    acc: crate::toplevel::TopPartsView,
)
    requires
        it.pos <= it.end,
        spec_mdats_in_order(acc.mdat_bounds, it.pos as int),
    ensures
        spec_step_keeps_order(data, lenient, it, acc),
{
    reveal(crate::toplevel::spec_top_child);
    reveal(crate::toplevel::spec_top_child_parsed);
    crate::reader::lemma_child_advances(data, it);
    match it.spec_next_box(data) {
        Ok(Some((child, rest))) => {
            match crate::toplevel::spec_top_child(data, child, acc, lenient, None) {
                Ok(next) => {
                    if next.mdat_bounds != acc.mdat_bounds {
                        let m = MdatBounds { offset: child.pos as u64, length: child.avail() as u64 };
                        assert(next.mdat_bounds == acc.mdat_bounds.push(m));
                        assert forall|i: int, j: int|
                            0 <= i < j < next.mdat_bounds.len() implies (
                        #[trigger] next.mdat_bounds[i]).offset + next.mdat_bounds[i].length <= (
                        #[trigger] next.mdat_bounds[j]).offset by {
                            if j < acc.mdat_bounds.len() {
                                assert(next.mdat_bounds[i] == acc.mdat_bounds[i]);
                                assert(next.mdat_bounds[j] == acc.mdat_bounds[j]);
                            } else {
                                assert(next.mdat_bounds[i] == acc.mdat_bounds[i]);
                            }
                        }
                        assert forall|i: int| 0 <= i < next.mdat_bounds.len() implies (
                        #[trigger] next.mdat_bounds[i]).length > 0 && next.mdat_bounds[i].offset
                            + next.mdat_bounds[i].length <= rest.pos by {
                            if i < acc.mdat_bounds.len() {
                                assert(next.mdat_bounds[i] == acc.mdat_bounds[i]);
                            }
                        }
                    } else {
                        assert forall|i: int| 0 <= i < next.mdat_bounds.len() implies (
                        #[trigger] next.mdat_bounds[i]).length > 0 && next.mdat_bounds[i].offset
                            + next.mdat_bounds[i].length <= rest.pos by {
                            assert(next.mdat_bounds[i] == acc.mdat_bounds[i]);
                        }
                    }
                },
                Err(_) => {},
            }
        },
        _ => {},
    }
}

/// The walk over the top-level boxes keeps the payloads in order, and
/// inside the part of the file that was walked over.
pub proof fn lemma_walk_keeps_order(
    data: Seq<u8>,
    lenient: bool,
    it: BMFFBox,
    acc: crate::toplevel::TopPartsView,
)
    requires
        it.pos <= it.end,
        spec_mdats_in_order(acc.mdat_bounds, it.pos as int),
    ensures
        crate::reader::spec_fold_boxes(
            data,
            it,
            acc,
            crate::toplevel::spec_top_step(data, lenient, None),
        ) matches Ok(out) ==> spec_mdats_in_order(out.mdat_bounds, it.end as int),
    decreases it.avail(),
{
    crate::reader::lemma_child_advances(data, it);
    lemma_step_keeps_order(data, lenient, it, acc);
    match it.spec_next_box(data) {
        Ok(Some((child, rest))) => {
            match crate::toplevel::spec_top_child(data, child, acc, lenient, None) {
                Ok(next) => {
                    assert(rest.end == it.end);
                    lemma_walk_keeps_order(data, lenient, rest, next);
                },
                Err(_) => {},
            }
        },
        Ok(None) => {
            assert forall|i: int| 0 <= i < acc.mdat_bounds.len() implies (
            #[trigger] acc.mdat_bounds[i]).length > 0 && acc.mdat_bounds[i].offset
                + acc.mdat_bounds[i].length <= it.end by {}
        },
        Err(_) => {},
    }
}

/// The `mdat` payloads that a parser records are non-empty, lie inside the
/// file, and follow each other without overlap.
pub proof fn law_mdats_in_order(data: Seq<u8>, config: DecodeConfig)
    requires
        spec_parse(data, config) is Ok,
    ensures
        spec_mdats_in_order(spec_parse(data, config)->Ok_0.mdat_bounds, data.len() as int),
{
    let root = BMFFBox::spec_root(data.len());
    crate::reader::lemma_child_advances(data, root);
    match root.spec_next_box(data) {
        Ok(Some((first, rest))) => {
            lemma_walk_keeps_order(
                data,
                config.lenient,
                rest,
                crate::toplevel::spec_top_parts_empty(),
            );
        },
        _ => {},
    }
}

/// With payloads in order, at most one payload holds a given byte: the one
/// that is found is the only one.
pub proof fn law_mdat_found_is_unique(mdats: Seq<MdatBounds>, end: int, offset: u64, i: int)
    requires
        spec_mdats_in_order(mdats, end),
        0 <= i < mdats.len(),
        crate::resolve::spec_mdat_holds(mdats[i], offset),
    ensures
        crate::resolve::spec_find_mdat(mdats, offset) == Some(mdats[i]),
    decreases mdats.len(),
{
    if i > 0 {
        assert(!crate::resolve::spec_mdat_holds(mdats[0], offset));
        let rest = mdats.drop_first();
        assert forall|a: int, b: int| 0 <= a < b < rest.len() implies (#[trigger] rest[a]).offset
            + rest[a].length <= (#[trigger] rest[b]).offset by {
            assert(rest[a] == mdats[a + 1]);
            assert(rest[b] == mdats[b + 1]);
        }
        assert forall|a: int| 0 <= a < rest.len() implies (#[trigger] rest[a]).length > 0
            && rest[a].offset + rest[a].length <= end by {
            assert(rest[a] == mdats[a + 1]);
        }
        assert(rest[i - 1] == mdats[i]);
        law_mdat_found_is_unique(rest, end, offset, i - 1);
    }
}

/// What is gathered from the top-level boxes holds a well-formed
/// description of the items, if it holds one.
pub open spec fn spec_top_parts_wf(parts: crate::toplevel::TopPartsView) -> bool {
    parts.meta matches Some(m) ==> m.wf()
}

/// The records of a file that is accepted are well formed: every item
/// location has at least one extent and no empty range; no item refers to
/// itself; image dimensions are not zero and channel depths are at most
/// sixteen; the primary item is an `av01` or a `grid` item.
pub proof fn law_records_well_formed(data: Seq<u8>, lenient: bool)
    ensures
        crate::toplevel::spec_parse_raw(data, lenient) matches Ok(parsed) ==> parsed.meta.wf(),
{
    let root = BMFFBox::spec_root(data.len());
    match root.spec_next_box(data) {
        Ok(Some((first, rest))) => {
            let step = crate::toplevel::spec_top_step(data, lenient, None);
            let inv = |acc: crate::toplevel::TopPartsView| spec_top_parts_wf(acc);
            assert forall|child: BMFFBox, a: crate::toplevel::TopPartsView| inv(a) implies (
            #[trigger] step(child, a) matches Ok((next, _)) ==> inv(next)) by {
                reveal(crate::toplevel::spec_top_child);
                reveal(crate::toplevel::spec_top_child_parsed);
                crate::meta::lemma_read_avif_meta_wf(data, child, lenient);
            }
            crate::reader::lemma_fold_boxes_keeps(
                data,
                rest,
                crate::toplevel::spec_top_parts_empty(),
                step,
                inv,
            );
        },
        _ => {},
    }
}

/// The extents that a parser holds for the primary item, the alpha item
/// and the tiles are never empty lists, and hold no empty range.
pub proof fn law_parser_extents_well_formed(data: Seq<u8>, config: DecodeConfig)
    requires
        spec_parse(data, config) is Ok,
    ensures
        ({
            let state = spec_parse(data, config)->Ok_0;
            &&& spec_extents_wf(state.primary)
            &&& state.alpha matches Some(a) ==> spec_extents_wf(a)
            &&& forall|i: int| 0 <= i < state.tiles.len()
                ==> spec_extents_wf(#[trigger] state.tiles[i])
        }),
{
    law_records_well_formed(data, config.lenient);
    let parsed = crate::toplevel::spec_parse_raw(data, config.lenient)->Ok_0;
    law_items_have_locations(parsed, config);
    let state = spec_parse(data, config)->Ok_0;
    let meta = parsed.meta;
    assert forall|id: u32, x: ItemExtentsView| spec_located(
        meta.iloc_items,
        id,
        x,
    ) implies spec_extents_wf(x) by {
        let i = choose|i: int|
            0 <= i < meta.iloc_items.len() && (#[trigger] meta.iloc_items[i]).item_id == id
                && meta.iloc_items[i].extents == x.extents
                && meta.iloc_items[i].construction_method == x.construction_method;
        assert(meta.iloc_items[i].wf());
    }
}

/// Whether the extents are a non-empty list without an empty range.
pub open spec fn spec_extents_wf(x: ItemExtentsView) -> bool {
    &&& x.extents.len() >= 1
    &&& forall|i: int| 0 <= i < x.extents.len() ==> (#[trigger] x.extents[i]).wf()
}

} // verus!
