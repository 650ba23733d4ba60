//! What the item records add up to: where an item lies, which item holds
//! the alpha plane, the order of the tiles of a grid and the grid layout.
use vstd::prelude::*;
use crate::boxes::{FOURCC_AUXL, FOURCC_DIMG, FOURCC_PREM};
use crate::config::{spec_megapixels, ResourceTracker};
use crate::error::{agrees, Error};
use crate::fallible::{push, with_capacity};
use crate::items::{
    ConstructionMethod, ExtentRange, ItemLocation, ItemLocationView, ItemReference,
};
use crate::meta::{AvifInternalMeta, MetaView};
use crate::props::{
    AssociatedProperty, AssociatedPropertyView, AuxiliaryTypeProperty, GridConfig,
    ImageSpatialExtents, ItemProperty, ItemPropertyView,
};

verus! {

/// Where the data of an item lies: how it is addressed, and its ranges in
/// order.
#[derive(Debug)]
pub struct ItemExtents {
    pub construction_method: ConstructionMethod,
    pub extents: Vec<ExtentRange>,
}

/// The mathematical value of [`ItemExtents`].
pub struct ItemExtentsView {
    pub construction_method: ConstructionMethod,
    pub extents: Seq<ExtentRange>,
}

impl DeepView for ItemExtents {
    type V = ItemExtentsView;

    open spec fn deep_view(&self) -> ItemExtentsView {
        ItemExtentsView { construction_method: self.construction_method, extents: self.extents@ }
    }
}

/// The first location in `locations` that is about item `id`.
pub open spec fn spec_find_location(locations: Seq<ItemLocationView>, id: u32) -> Option<
    ItemLocationView,
>
    decreases locations.len(),
{
    if locations.len() == 0 {
        None
    } else if locations[0].item_id == id {
        Some(locations[0])
    } else {
        spec_find_location(locations.drop_first(), id)
    }
}

/// Where the data of item `id` lies.
pub open spec fn spec_item_extents(locations: Seq<ItemLocationView>, id: u32) -> Result<
    ItemExtentsView,
    Error,
> {
    match spec_find_location(locations, id) {
        None => Err(Error::InvalidData("item not found in iloc")),
        Some(l) => Ok(
            ItemExtentsView { construction_method: l.construction_method, extents: l.extents },
        ),
    }
}

/// A location that is found is one of the locations, and is about the item
/// asked for.
pub proof fn lemma_found_location(locations: Seq<ItemLocationView>, id: u32)
    ensures
        spec_find_location(locations, id) matches Some(l) ==> l.item_id == id
            && locations.contains(l),
    decreases locations.len(),
{
    if locations.len() > 0 && locations[0].item_id != id {
        lemma_found_location(locations.drop_first(), id);
        if spec_find_location(locations, id) is Some {
            let l = spec_find_location(locations, id)->0;
            let i = choose|i: int| 0 <= i < locations.drop_first().len() && locations.drop_first()[i] == l;
            assert(locations[i + 1] == l);
        }
    } else if locations.len() > 0 {
        assert(locations[0] == locations[0]);
    }
}

/// An owned copy of `extents`.
#[verifier::loop_isolation(false)]
pub fn copy_extents(extents: &Vec<ExtentRange>) -> (r: Result<Vec<ExtentRange>, Error>)
    ensures
        r matches Ok(v) ==> v@ == extents@,
        r matches Err(e) ==> e is OutOfMemory,
{
    let mut copy: Vec<ExtentRange> = with_capacity(extents.len())?;
    let mut i: usize = 0;
    while i < extents.len()
        invariant
            i <= extents@.len(),
            copy@ == extents@.subrange(0, i as int),
        decreases extents@.len() - i,
    {
        match push(&mut copy, extents[i]) {
            Err(e) => {
                return Err(e);
            },
            Ok(()) => {},
        }
        i = i + 1;
        assert(copy@ =~= extents@.subrange(0, i as int));
    }
    assert(copy@ =~= extents@);
    Ok(copy)
}

/// Looks up where the data of item `item_id` lies.
#[verifier::loop_isolation(false)]
pub fn get_item_extents(meta: &AvifInternalMeta, item_id: u32) -> (r: Result<ItemExtents, Error>)
    ensures
        agrees(r, spec_item_extents(meta.deep_view().iloc_items, item_id)),
        spec_item_extents(meta.deep_view().iloc_items, item_id) matches Err(e) ==> r == Err::<
            ItemExtents,
            Error,
        >(e),
{
    let ghost all = meta.iloc_items.deep_view();
    let mut i: usize = 0;
    assert(all.subrange(0, all.len() as int) =~= all);
    while i < meta.iloc_items.len()
        invariant
            i <= all.len(),
            all.len() == meta.iloc_items@.len(),
            spec_find_location(all, item_id) == spec_find_location(
                all.subrange(i as int, all.len() as int),
                item_id,
            ),
        decreases all.len() - i,
    {
        assert(all.subrange(i as int, all.len() as int).drop_first() =~= all.subrange(
            i + 1,
            all.len() as int,
        ));
        assert(all[i as int] == meta.iloc_items@[i as int].deep_view());
        let item = &meta.iloc_items[i];
        if item.item_id == item_id {
            let extents = match copy_extents(&item.extents) {
                Err(e) => {
                    return Err(e);
                },
                Ok(v) => v,
            };
            return Ok(ItemExtents { construction_method: item.construction_method, extents });
        }
        i = i + 1;
    }
    Err(Error::InvalidData("item not found in iloc"))
}

/// The auxiliary type that marks an alpha plane:
/// `urn:mpeg:mpegB:cicp:systems:auxiliary:alpha`.
pub open spec fn spec_alpha_urn() -> Seq<u8> {
    seq![
        117u8, 114, 110, 58, 109, 112, 101, 103, 58, 109, 112, 101, 103, 66, 58, 99, 105, 99, 112,
        58, 115, 121, 115, 116, 101, 109, 115, 58, 97, 117, 120, 105, 108, 105, 97, 114, 121, 58,
        97, 108, 112, 104, 97,
    ]
}

/// Whether `aux_data` starts with the alpha type and ends there or goes on
/// with a zero byte: then the bytes before its first zero byte are the
/// alpha type.
pub open spec fn spec_is_alpha_aux(aux_data: Seq<u8>) -> bool {
    &&& aux_data.len() >= 43
    &&& aux_data.subrange(0, 43) == spec_alpha_urn()
    &&& (aux_data.len() == 43 || aux_data[43] == 0)
}

/// Whether `bytes` is the alpha type.
#[verifier::loop_isolation(false)]
pub fn is_alpha_urn(bytes: &[u8]) -> (r: bool)
    ensures
        r == (bytes@ == spec_alpha_urn()),
{
    let urn: [u8; 43] = [
        117, 114, 110, 58, 109, 112, 101, 103, 58, 109, 112, 101, 103, 66, 58, 99, 105, 99, 112,
        58, 115, 121, 115, 116, 101, 109, 115, 58, 97, 117, 120, 105, 108, 105, 97, 114, 121, 58,
        97, 108, 112, 104, 97,
    ];
    assert(urn@ =~= spec_alpha_urn());
    if bytes.len() != 43 {
        return false;
    }
    let mut i: usize = 0;
    while i < 43
        invariant
            i <= 43,
            forall|k: int| 0 <= k < i ==> bytes@[k] == urn@[k],
        decreases 43 - i,
    {
        if bytes[i] != urn[i] {
            return false;
        }
        i = i + 1;
    }
    assert(bytes@ =~= urn@);
    true
}

/// Whether the auxiliary type of the property, which is what precedes the
/// first zero byte, is the alpha type.
pub fn is_alpha_aux(aux: &AuxiliaryTypeProperty) -> (r: bool)
    ensures
        r == spec_is_alpha_aux(aux.aux_data@),
{
    let (aux_type, _) = aux.type_subtype();
    let r = is_alpha_urn(aux_type);
    proof {
        let d = aux.aux_data@;
        let n = aux_type@.len() as int;
        if r {
            assert(d.subrange(0, 43) == spec_alpha_urn());
        } else if spec_is_alpha_aux(d) {
            let u = spec_alpha_urn();
            assert(forall|k: int| 0 <= k < 43 ==> u[k] != 0);
            assert(forall|k: int| 0 <= k < 43 ==> d[k] == d.subrange(0, 43)[k]);
            if n < 43 {
                assert(d[n] == u[n]);
            } else if n > 43 {
                assert(aux_type@[43] == d[43]);
            }
            assert(n == 43);
        }
    }
    r
}

/// Whether item `id` has an auxiliary type property that marks it as an
/// alpha plane.
pub open spec fn spec_has_alpha_property(properties: Seq<AssociatedPropertyView>, id: u32) -> bool {
    exists|i: int|
        0 <= i < properties.len() && spec_is_alpha_property(#[trigger] properties[i], id)
}

/// Whether `p` says that item `id` is an alpha plane.
pub open spec fn spec_is_alpha_property(p: AssociatedPropertyView, id: u32) -> bool {
    p.item_id == id && (p.property matches ItemPropertyView::AuxiliaryType(d)
        && spec_is_alpha_aux(d))
}

/// Whether `p` says that item `id` is an alpha plane.
pub fn is_alpha_property(p: &AssociatedProperty, id: u32) -> (r: bool)
    ensures
        r == spec_is_alpha_property(p.deep_view(), id),
{
    p.item_id == id && match &p.property {
        ItemProperty::AuxiliaryType(aux) => is_alpha_aux(aux),
        _ => false,
    }
}

/// Whether item `id` has a property that marks it as an alpha plane.
#[verifier::loop_isolation(false)]
pub fn has_alpha_property(properties: &Vec<AssociatedProperty>, id: u32) -> (r: bool)
    ensures
        r == spec_has_alpha_property(properties.deep_view(), id),
{
    let ghost all = properties.deep_view();
    let mut i: usize = 0;
    while i < properties.len()
        invariant
            i <= properties@.len(),
            forall|k: int| 0 <= k < i ==> !spec_is_alpha_property(#[trigger] all[k], id),
        decreases properties@.len() - i,
    {
        assert(all[i as int] == properties@[i as int].deep_view());
        if is_alpha_property(&properties[i], id) {
            return true;
        }
        i = i + 1;
    }
    false
}

/// Whether `r` says that its source is auxiliary to the item `primary` as
/// an alpha plane.
pub open spec fn spec_is_alpha_reference(
    r: ItemReference,
    primary: u32,
    properties: Seq<AssociatedPropertyView>,
) -> bool {
    r.to_item_id == primary && r.from_item_id != primary && r.item_type.value == FOURCC_AUXL
        && spec_has_alpha_property(properties, r.from_item_id)
}

/// The item that holds the alpha plane of the item `primary`: the source of
/// the first `auxl` reference to `primary` from an item that is marked as
/// an alpha plane.
pub open spec fn spec_alpha_item_id(
    references: Seq<ItemReference>,
    primary: u32,
    properties: Seq<AssociatedPropertyView>,
) -> Option<u32>
    decreases references.len(),
{
    if references.len() == 0 {
        None
    } else if spec_is_alpha_reference(references[0], primary, properties) {
        Some(references[0].from_item_id)
    } else {
        spec_alpha_item_id(references.drop_first(), primary, properties)
    }
}

/// Finds the item that holds the alpha plane of the primary item.
#[verifier::loop_isolation(false)]
pub fn find_alpha_item_id(meta: &AvifInternalMeta) -> (r: Option<u32>)
    ensures
        r == spec_alpha_item_id(
            meta.item_references@,
            meta.primary_item_id,
            meta.properties.deep_view(),
        ),
{
    let ghost all = meta.item_references@;
    let ghost props = meta.properties.deep_view();
    let primary = meta.primary_item_id;
    let mut i: usize = 0;
    assert(all.subrange(0, all.len() as int) =~= all);
    while i < meta.item_references.len()
        invariant
            i <= all.len(),
            spec_alpha_item_id(all, primary, props) == spec_alpha_item_id(
                all.subrange(i as int, all.len() as int),
                primary,
                props,
            ),
        decreases all.len() - i,
    {
        assert(all.subrange(i as int, all.len() as int).drop_first() =~= all.subrange(
            i + 1,
            all.len() as int,
        ));
        let iref = meta.item_references[i];
        if iref.to_item_id == primary && iref.from_item_id != primary && iref.item_type.is(
            FOURCC_AUXL,
        ) && has_alpha_property(&meta.properties, iref.from_item_id) {
            return Some(iref.from_item_id);
        }
        i = i + 1;
    }
    None
}

/// Whether `references` holds a reference of type `kind` from `from` to `to`.
pub open spec fn spec_has_reference(references: Seq<ItemReference>, kind: u32, from: u32, to: u32) -> bool {
    exists|i: int|
        0 <= i < references.len() && spec_is_reference(#[trigger] references[i], kind, from, to)
}

/// Whether `r` is a reference of type `kind` from `from` to `to`.
pub open spec fn spec_is_reference(r: ItemReference, kind: u32, from: u32, to: u32) -> bool {
    r.from_item_id == from && r.to_item_id == to && r.item_type.value == kind
}

/// Whether `references` holds a reference of type `kind` from `from` to `to`.
#[verifier::loop_isolation(false)]
pub fn has_reference(references: &Vec<ItemReference>, kind: u32, from: u32, to: u32) -> (r: bool)
    ensures
        r == spec_has_reference(references@, kind, from, to),
{
    let mut i: usize = 0;
    while i < references.len()
        invariant
            i <= references@.len(),
            forall|k: int| 0 <= k < i
                ==> !spec_is_reference(#[trigger] references@[k], kind, from, to),
        decreases references@.len() - i,
    {
        let r = references[i];
        if r.from_item_id == from && r.to_item_id == to && r.item_type.is(kind) {
            return true;
        }
        i = i + 1;
    }
    false
}

/// Whether the colour values are already multiplied by alpha: there is an
/// alpha item, and a `prem` reference from the primary item to it.
pub open spec fn spec_premultiplied(references: Seq<ItemReference>, primary: u32, alpha: Option<u32>) -> bool {
    alpha matches Some(a) && spec_has_reference(references, FOURCC_PREM, primary, a)
}

/// A tile of a grid: the id of its item and its position in the grid.
#[derive(Debug, Clone, Copy, PartialEq, Eq, Structural)]
pub struct TileRef {
    pub item_id: u32,
    pub reference_index: u16,
}

/// The targets of the `dimg` references from item `primary`, in the order
/// of the references.
pub open spec fn spec_dimg_tiles(references: Seq<ItemReference>, primary: u32) -> Seq<TileRef>
    decreases references.len(),
{
    if references.len() == 0 {
        Seq::empty()
    } else {
        let rest = spec_dimg_tiles(references.drop_last(), primary);
        let r = references.last();
        if r.from_item_id == primary && r.item_type.value == FOURCC_DIMG {
            rest.push(TileRef { item_id: r.to_item_id, reference_index: r.reference_index })
        } else {
            rest
        }
    }
}

/// Collects the targets of the `dimg` references from item `primary`.
#[verifier::loop_isolation(false)]
pub fn collect_dimg_tiles(references: &Vec<ItemReference>, primary: u32) -> (r: Result<
    Vec<TileRef>,
    Error,
>)
    ensures
        r matches Ok(v) ==> v@ == spec_dimg_tiles(references@, primary),
        r matches Err(e) ==> e is OutOfMemory,
        references@.len() == 0 ==> r is Ok,
{
    let mut tiles: Vec<TileRef> = Vec::new();
    let mut i: usize = 0;
    assert(references@.subrange(0, 0) =~= Seq::empty());
    while i < references.len()
        invariant
            i <= references@.len(),
            tiles@ == spec_dimg_tiles(references@.subrange(0, i as int), primary),
        decreases references@.len() - i,
    {
        assert(references@.subrange(0, i + 1).drop_last() =~= references@.subrange(0, i as int));
        let r = references[i];
        if r.from_item_id == primary && r.item_type.is(FOURCC_DIMG) {
            match push(
                &mut tiles,
                TileRef { item_id: r.to_item_id, reference_index: r.reference_index },
            ) {
                Err(e) => {
                    return Err(e);
                },
                Ok(()) => {},
            }
        }
        i = i + 1;
    }
    assert(references@.subrange(0, i as int) =~= references@);
    Ok(tiles)
}

/// Whether the positions in `tiles` never go down.
pub open spec fn spec_tiles_sorted(tiles: Seq<TileRef>) -> bool {
    forall|i: int, j: int|
        0 <= i <= j < tiles.len() ==> tiles[i].reference_index <= tiles[j].reference_index
}

/// `sorted` with `t` put behind the last tile whose position is not after
/// that of `t`.
pub open spec fn spec_insert_tile(sorted: Seq<TileRef>, t: TileRef) -> Seq<TileRef>
    decreases sorted.len(),
{
    if sorted.len() == 0 {
        seq![t]
    } else if sorted.last().reference_index <= t.reference_index {
        sorted.push(t)
    } else {
        spec_insert_tile(sorted.drop_last(), t).push(sorted.last())
    }
}

/// `tiles` in ascending order of position; tiles with the same position
/// keep their order.
pub open spec fn spec_sort_tiles(tiles: Seq<TileRef>) -> Seq<TileRef>
    decreases tiles.len(),
{
    if tiles.len() == 0 {
        Seq::empty()
    } else {
        spec_insert_tile(spec_sort_tiles(tiles.drop_last()), tiles.last())
    }
}

/// Inserting a tile keeps the order and adds one tile, and every tile of
/// the result is `t` or was there before.
pub proof fn lemma_insert_tile(sorted: Seq<TileRef>, t: TileRef)
    requires
        spec_tiles_sorted(sorted),
    ensures
        spec_tiles_sorted(spec_insert_tile(sorted, t)),
        spec_insert_tile(sorted, t).len() == sorted.len() + 1,
        spec_insert_tile(sorted, t).to_multiset() == sorted.to_multiset().insert(t),
    decreases sorted.len(),
{
    broadcast use vstd::seq_lib::group_to_multiset_ensures;

    let out = spec_insert_tile(sorted, t);
    if sorted.len() == 0 {
        assert(out =~= Seq::<TileRef>::empty().push(t));
        assert(sorted =~= Seq::<TileRef>::empty());
    } else if sorted.last().reference_index <= t.reference_index {
    } else {
        let head = sorted.drop_last();
        lemma_insert_tile(head, t);
        let inner = spec_insert_tile(head, t);
        assert(sorted =~= head.push(sorted.last()));
        assert forall|i: int, j: int| 0 <= i <= j < out.len() implies out[i].reference_index
            <= out[j].reference_index by {
            if j < inner.len() {
            } else if i < inner.len() {
                assert(inner.to_multiset().count(inner[i]) > 0);
                assert(inner[i] == t || head.to_multiset().count(inner[i]) > 0);
                if inner[i] != t {
                    assert(head.contains(inner[i]));
                    let k = choose|k: int| 0 <= k < head.len() && head[k] == inner[i];
                    assert(sorted[k] == head[k]);
                }
            }
        }
    }
}

/// Sorting gives an ascending sequence with the same tiles.
pub proof fn lemma_sort_tiles(tiles: Seq<TileRef>)
    ensures
        spec_tiles_sorted(spec_sort_tiles(tiles)),
        spec_sort_tiles(tiles).len() == tiles.len(),
        spec_sort_tiles(tiles).to_multiset() == tiles.to_multiset(),
    decreases tiles.len(),
{
    broadcast use vstd::seq_lib::group_to_multiset_ensures;

    if tiles.len() > 0 {
        lemma_sort_tiles(tiles.drop_last());
        lemma_insert_tile(spec_sort_tiles(tiles.drop_last()), tiles.last());
        assert(tiles =~= tiles.drop_last().push(tiles.last()));
    } else {
        assert(tiles =~= Seq::<TileRef>::empty());
    }
}

/// Puts `t` into the ascending vector `sorted`.
#[verifier::loop_isolation(false)]
pub fn insert_tile(sorted: &mut Vec<TileRef>, t: TileRef) -> (r: Result<(), Error>)
    ensures
        r is Ok ==> final(sorted)@ == spec_insert_tile(old(sorted)@, t),
        r matches Err(e) ==> e is OutOfMemory,
{
    let ghost before = sorted@;
    let n = sorted.len();
    match push(sorted, t) {
        Err(e) => {
            return Err(e);
        },
        Ok(()) => {},
    }
    let mut j: usize = n;
    assert(before.subrange(0, n as int) =~= before);
    assert(sorted@ =~= before.subrange(0, n as int).push(t) + before.subrange(n as int, n as int));
    assert(spec_insert_tile(before, t) =~= spec_insert_tile(before.subrange(0, n as int), t)
        + before.subrange(n as int, n as int));
    while j > 0 && sorted[j - 1].reference_index > t.reference_index
        invariant
            j <= n,
            n == before.len(),
            sorted@.len() == n + 1,
            sorted@ == before.subrange(0, j as int).push(t) + before.subrange(j as int, n as int),
            spec_insert_tile(before, t) == spec_insert_tile(before.subrange(0, j as int), t)
                + before.subrange(j as int, n as int),
        decreases j,
    {
        let ghost head = before.subrange(0, j as int);
        assert(head.last() == before[j - 1]);
        assert(sorted@[j - 1] == before[j - 1]);
        assert(head.drop_last() =~= before.subrange(0, j - 1));
        let moved = sorted[j - 1];
        sorted[j] = moved;
        sorted[j - 1] = t;
        j = j - 1;
        assert(sorted@ =~= before.subrange(0, j as int).push(t) + before.subrange(
            j as int,
            n as int,
        ));
        assert(spec_insert_tile(head, t) == spec_insert_tile(head.drop_last(), t).push(
            head.last(),
        ));
        assert(spec_insert_tile(before, t) =~= spec_insert_tile(before.subrange(0, j as int), t)
            + before.subrange(j as int, n as int));
    }
    proof {
        let head = before.subrange(0, j as int);
        if j > 0 {
            assert(head.last() == before[j - 1]);
            assert(sorted@[j - 1] == before[j - 1]);
            assert(spec_insert_tile(head, t) == head.push(t));
        } else {
            assert(head =~= Seq::<TileRef>::empty());
            assert(spec_insert_tile(head, t) =~= head.push(t));
        }
    }
    Ok(())
}

/// Sorts the tiles by position; tiles with the same position keep their
/// order.
#[verifier::loop_isolation(false)]
pub fn sort_tiles(tiles: &Vec<TileRef>) -> (r: Result<Vec<TileRef>, Error>)
    ensures
        r matches Ok(v) ==> v@ == spec_sort_tiles(tiles@) && spec_tiles_sorted(v@) && v@.len()
            == tiles@.len(),
        r matches Err(e) ==> e is OutOfMemory,
{
    let mut sorted: Vec<TileRef> = with_capacity(tiles.len())?;
    let mut i: usize = 0;
    assert(tiles@.subrange(0, 0) =~= Seq::empty());
    while i < tiles.len()
        invariant
            i <= tiles@.len(),
            sorted@ == spec_sort_tiles(tiles@.subrange(0, i as int)),
        decreases tiles@.len() - i,
    {
        assert(tiles@.subrange(0, i + 1).drop_last() =~= tiles@.subrange(0, i as int));
        match insert_tile(&mut sorted, tiles[i]) {
            Err(e) => {
                return Err(e);
            },
            Ok(()) => {},
        }
        i = i + 1;
    }
    proof {
        assert(tiles@.subrange(0, i as int) =~= tiles@);
        lemma_sort_tiles(tiles@);
    }
    Ok(sorted)
}

/// The first grid property that is associated with item `id`.
pub open spec fn spec_first_grid(properties: Seq<AssociatedPropertyView>, id: u32) -> Option<
    GridConfig,
>
    decreases properties.len(),
{
    if properties.len() == 0 {
        None
    } else if properties[0].item_id == id && properties[0].property is ImageGrid {
        Some(properties[0].property->ImageGrid_0)
    } else {
        spec_first_grid(properties.drop_first(), id)
    }
}

/// The first spatial extents property that is associated with item `id`.
pub open spec fn spec_first_ispe(properties: Seq<AssociatedPropertyView>, id: u32) -> Option<
    ImageSpatialExtents,
>
    decreases properties.len(),
{
    if properties.len() == 0 {
        None
    } else if properties[0].item_id == id && properties[0].property is ImageSpatialExtents {
        Some(properties[0].property->ImageSpatialExtents_0)
    } else {
        spec_first_ispe(properties.drop_first(), id)
    }
}

/// Finds the first grid property of item `id`.
#[verifier::loop_isolation(false)]
pub fn find_grid(properties: &Vec<AssociatedProperty>, id: u32) -> (r: Option<GridConfig>)
    ensures
        r == spec_first_grid(properties.deep_view(), id),
{
    let ghost all = properties.deep_view();
    let mut i: usize = 0;
    assert(all.subrange(0, all.len() as int) =~= all);
    while i < properties.len()
        invariant
            i <= all.len(),
            spec_first_grid(all, id) == spec_first_grid(all.subrange(i as int, all.len() as int), id),
        decreases all.len() - i,
    {
        assert(all.subrange(i as int, all.len() as int).drop_first() =~= all.subrange(
            i + 1,
            all.len() as int,
        ));
        assert(all[i as int] == properties@[i as int].deep_view());
        let p = &properties[i];
        if p.item_id == id {
            if let ItemProperty::ImageGrid(g) = &p.property {
                return Some(*g);
            }
        }
        i = i + 1;
    }
    None
}

/// Finds the first spatial extents property of item `id`.
#[verifier::loop_isolation(false)]
pub fn find_ispe(properties: &Vec<AssociatedProperty>, id: u32) -> (r: Option<ImageSpatialExtents>)
    ensures
        r == spec_first_ispe(properties.deep_view(), id),
{
    let ghost all = properties.deep_view();
    let mut i: usize = 0;
    assert(all.subrange(0, all.len() as int) =~= all);
    while i < properties.len()
        invariant
            i <= all.len(),
            spec_first_ispe(all, id) == spec_first_ispe(all.subrange(i as int, all.len() as int), id),
        decreases all.len() - i,
    {
        assert(all.subrange(i as int, all.len() as int).drop_first() =~= all.subrange(
            i + 1,
            all.len() as int,
        ));
        assert(all[i as int] == properties@[i as int].deep_view());
        let p = &properties[i];
        if p.item_id == id {
            if let ItemProperty::ImageSpatialExtents(e) = &p.property {
                return Some(*e);
            }
        }
        i = i + 1;
    }
    None
}

/// The layout of last resort: one column with a row for each tile, at
/// most 255, and a canvas left to be worked out.
pub open spec fn spec_fallback_grid(tile_count: nat) -> GridConfig {
    GridConfig {
        rows: if tile_count < 255 {
            tile_count as u8
        } else {
            255
        },
        columns: 1,
        output_width: 0,
        output_height: 0,
    }
}

/// The layout of a canvas of size `grid` covered by tiles of size `tile`,
/// if the tiles divide the canvas evenly into at most 255 rows and columns.
pub open spec fn spec_derive_grid(grid: ImageSpatialExtents, tile: ImageSpatialExtents) -> Option<
    GridConfig,
> {
    if tile.width != 0 && tile.height != 0 && grid.width % tile.width == 0 && grid.height
        % tile.height == 0 && grid.width / tile.width <= 255 && grid.height / tile.height <= 255 {
        Some(
            GridConfig {
                rows: (grid.height / tile.height) as u8,
                columns: (grid.width / tile.width) as u8,
                output_width: grid.width,
                output_height: grid.height,
            },
        )
    } else {
        None
    }
}

/// The layout of the grid item `primary` with the tiles `tiles`: the grid
/// property of the item if it has one; else what the dimensions of the item
/// and of its first tile give, the canvas being held against the megapixel
/// limit `limit`; else the layout of last resort.
pub open spec fn spec_grid_config(
    properties: Seq<AssociatedPropertyView>,
    primary: u32,
    tiles: Seq<TileRef>,
    limit: Option<u32>,
) -> Result<GridConfig, Error> {
    match spec_first_grid(properties, primary) {
        Some(g) => Ok(g),
        None => {
            let grid = spec_first_ispe(properties, primary);
            let tile = if tiles.len() > 0 {
                spec_first_ispe(properties, tiles[0].item_id)
            } else {
                None
            };
            if grid is Some && tile is Some {
                if limit is Some && spec_megapixels(grid->0.width, grid->0.height) > limit->0 {
                    Err(Error::ResourceLimitExceeded("total megapixels limit exceeded"))
                } else {
                    match spec_derive_grid(grid->0, tile->0) {
                        Some(g) => Ok(g),
                        None => Ok(spec_fallback_grid(tiles.len())),
                    }
                }
            } else {
                Ok(spec_fallback_grid(tiles.len()))
            }
        },
    }
}

/// Works out the layout of a grid image.
pub fn calculate_grid_config(
    meta: &AvifInternalMeta,
    tiles: &Vec<TileRef>,
    tracker: &ResourceTracker,
) -> (r: Result<GridConfig, Error>)
    ensures
        r == spec_grid_config(
            meta.properties.deep_view(),
            meta.primary_item_id,
            tiles@,
            tracker.total_megapixels_limit,
        ),
{
    if let Some(g) = find_grid(&meta.properties, meta.primary_item_id) {
        return Ok(g);
    }
    let grid_dims = find_ispe(&meta.properties, meta.primary_item_id);
    let tile_dims = if tiles.len() > 0 {
        find_ispe(&meta.properties, tiles[0].item_id)
    } else {
        None
    };
    let tile_count = tiles.len();
    let fallback = GridConfig {
        rows: if tile_count < 255 {
            tile_count as u8
        } else {
            255
        },
        columns: 1,
        output_width: 0,
        output_height: 0,
    };
    match (grid_dims, tile_dims) {
        (Some(grid), Some(tile)) => {
            tracker.validate_total_megapixels(grid.width, grid.height)?;
            if tile.width != 0 && tile.height != 0 && grid.width % tile.width == 0 && grid.height
                % tile.height == 0 {
                let columns = grid.width / tile.width;
                let rows = grid.height / tile.height;
                if columns <= 255 && rows <= 255 {
                    return Ok(
                        GridConfig {
                            rows: rows as u8,
                            columns: columns as u8,
                            output_width: grid.width,
                            output_height: grid.height,
                        },
                    );
                }
            }
            Ok(fallback)
        },
        _ => Ok(fallback),
    }
}

/// `acc` followed by where the data of each of the tiles `tiles` lies.
pub open spec fn spec_tile_extents(
    locations: Seq<ItemLocationView>,
    tiles: Seq<TileRef>,
    acc: Seq<ItemExtentsView>,
) -> Result<Seq<ItemExtentsView>, Error>
    decreases tiles.len(),
{
    if tiles.len() == 0 {
        Ok(acc)
    } else {
        match spec_item_extents(locations, tiles[0].item_id) {
            Err(e) => Err(e),
            Ok(x) => spec_tile_extents(locations, tiles.drop_first(), acc.push(x)),
        }
    }
}

/// Looks up where the data of each tile lies.
#[verifier::loop_isolation(false)]
pub fn collect_tile_extents(meta: &AvifInternalMeta, tiles: &Vec<TileRef>) -> (r: Result<
    Vec<ItemExtents>,
    Error,
>)
    ensures
        agrees(r, spec_tile_extents(meta.deep_view().iloc_items, tiles@, Seq::empty())),
        r matches Ok(v) ==> v@.len() == tiles@.len(),
        tiles@.len() == 0 ==> r is Ok,
        tiles@.len() > 0 ==> (spec_item_extents(
            meta.deep_view().iloc_items,
            tiles@[0].item_id,
        ) matches Err(e) ==> (r matches Err(x) && x == e)),
{
    let ghost locations = meta.deep_view().iloc_items;
    let mut out: Vec<ItemExtents> = Vec::new();
    let mut i: usize = 0;
    assert(tiles@.subrange(0, tiles@.len() as int) =~= tiles@);
    assert(out.deep_view() =~= Seq::empty());
    while i < tiles.len()
        invariant
            i <= tiles@.len(),
            out@.len() == i,
            i > 0 ==> spec_item_extents(locations, tiles@[0].item_id) is Ok,
            spec_tile_extents(locations, tiles@, Seq::empty()) == spec_tile_extents(
                locations,
                tiles@.subrange(i as int, tiles@.len() as int),
                out.deep_view(),
            ),
        decreases tiles@.len() - i,
    {
        assert(tiles@.subrange(i as int, tiles@.len() as int).drop_first() =~= tiles@.subrange(
            i + 1,
            tiles@.len() as int,
        ));
        let ghost acc = out.deep_view();
        let x = match get_item_extents(meta, tiles[i].item_id) {
            Err(e) => {
                return Err(e);
            },
            Ok(x) => x,
        };
        let ghost value = x.deep_view();
        match push(&mut out, x) {
            Err(e) => {
                return Err(e);
            },
            Ok(()) => {},
        }
        assert(out.deep_view() =~= acc.push(value));
        i = i + 1;
    }
    Ok(out)
}

} // verus!
