//! Item properties: the `iprp` box with its property container `ipco` and
//! its association table `ipma`.
use vstd::prelude::*;
use vstd::slice::slice_subrange;
use arrayvec::ArrayVec;
use crate::bits::{lemma_bits_bound, lemma_pow2_values, read_bits, spec_bits};
use crate::boxes::BoxType;
use crate::bytes::{spec_be_u16, spec_be_u32};
use crate::config::ParseOptions;
use crate::error::{agrees, Error};
use crate::fallible::{copy_bytes, push};
use crate::items::lemma_deep_view_empty;
use crate::reader::{
    check_parser_state, read_fullbox_extra, read_fullbox_version_no_flags,
    spec_check_parser_state, spec_fold_boxes, spec_fullbox_extra, spec_fullbox_version_no_flags,
    BMFFBox,
};

verus! {

/// `arrayvec::ArrayVec`: a vector with a fixed capacity, stored inline.
/// What it holds is known only through [`channel_depths`].
#[verifier::external_type_specification]
#[verifier::external_body]
#[verifier::reject_recursive_types(T)]
pub struct ExArrayVec<T, const CAP: usize>(ArrayVec<T, CAP>);

/// The bytes that an `ArrayVec` of channel bit depths holds, in order.
pub uninterp spec fn channel_depths(channels: ArrayVec<u8, 16>) -> Seq<u8>;

/// `ArrayVec::new` followed by `ArrayVec::try_extend_from_slice`: a list
/// that holds the bytes of `bytes`, which fit its capacity of 16.
#[verifier::external_body]
fn channels_from_slice(bytes: &[u8]) -> (r: ArrayVec<u8, 16>)
    requires
        bytes@.len() <= 16,
    ensures
        channel_depths(r) == bytes@,
{
    let mut channels = ArrayVec::new();
    channels.try_extend_from_slice(bytes).ok();
    channels
}

/// `ArrayVec::clone`: a list that holds the same bytes.
#[verifier::external_body]
fn channels_clone(channels: &ArrayVec<u8, 16>) -> (r: ArrayVec<u8, 16>)
    ensures
        channel_depths(r) == channel_depths(*channels),
{
    channels.clone()
}

/// Width and height of an image, both non-zero.
#[derive(Debug, Clone, Copy, PartialEq, Eq, Structural)]
pub struct ImageSpatialExtents {
    pub width: u32,
    pub height: u32,
}

/// The layout of a grid image.
#[derive(Debug, Clone, Copy, PartialEq, Eq, Structural)]
pub struct GridConfig {
    /// Number of tile rows.
    pub rows: u8,
    /// Number of tile columns.
    pub columns: u8,
    /// Width of the canvas in pixels; 0 leaves it to be worked out from the tiles.
    pub output_width: u32,
    /// Height of the canvas in pixels; 0 leaves it to be worked out from the tiles.
    pub output_height: u32,
}

/// The payload of an `auxC` box: an auxiliary type, a zero byte and a subtype.
#[derive(Debug)]
pub struct AuxiliaryTypeProperty {
    pub aux_data: Vec<u8>,
}

/// A property that an item can be associated with.
#[derive(Debug)]
pub enum ItemProperty {
    /// Bit depth of each channel, at most sixteen of them.
    Channels(ArrayVec<u8, 16>),
    AuxiliaryType(AuxiliaryTypeProperty),
    ImageSpatialExtents(ImageSpatialExtents),
    ImageGrid(GridConfig),
    /// A property box of a type that is not interpreted.
    Unsupported,
}

/// The mathematical value of an [`ItemProperty`].
pub enum ItemPropertyView {
    Channels(Seq<u8>),
    AuxiliaryType(Seq<u8>),
    ImageSpatialExtents(ImageSpatialExtents),
    ImageGrid(GridConfig),
    Unsupported,
}

/// A row of the association table: item `item_id` has the property with
/// the one-based index `property_index`; index 0 stands for no property.
#[derive(Debug, Clone, Copy, PartialEq, Eq, Structural)]
pub struct Association {
    pub item_id: u32,
    pub essential: bool,
    pub property_index: u16,
}

/// A property together with the item that has it.
#[derive(Debug)]
pub struct AssociatedProperty {
    pub item_id: u32,
    pub property: ItemProperty,
}

/// The mathematical value of an [`AssociatedProperty`].
pub struct AssociatedPropertyView {
    pub item_id: u32,
    pub property: ItemPropertyView,
}

impl DeepView for ImageSpatialExtents {
    type V = ImageSpatialExtents;

    open spec fn deep_view(&self) -> ImageSpatialExtents {
        *self
    }
}

impl DeepView for GridConfig {
    type V = GridConfig;

    open spec fn deep_view(&self) -> GridConfig {
        *self
    }
}

impl DeepView for Association {
    type V = Association;

    open spec fn deep_view(&self) -> Association {
        *self
    }
}

impl DeepView for AuxiliaryTypeProperty {
    type V = Seq<u8>;

    open spec fn deep_view(&self) -> Seq<u8> {
        self.aux_data@
    }
}

impl DeepView for ItemProperty {
    type V = ItemPropertyView;

    open spec fn deep_view(&self) -> ItemPropertyView {
        match self {
            ItemProperty::Channels(c) => ItemPropertyView::Channels(channel_depths(*c)),
            ItemProperty::AuxiliaryType(a) => ItemPropertyView::AuxiliaryType(a.aux_data@),
            ItemProperty::ImageSpatialExtents(e) => ItemPropertyView::ImageSpatialExtents(*e),
            ItemProperty::ImageGrid(g) => ItemPropertyView::ImageGrid(*g),
            ItemProperty::Unsupported => ItemPropertyView::Unsupported,
        }
    }
}

impl DeepView for AssociatedProperty {
    type V = AssociatedPropertyView;

    open spec fn deep_view(&self) -> AssociatedPropertyView {
        AssociatedPropertyView { item_id: self.item_id, property: self.property.deep_view() }
    }
}

impl AuxiliaryTypeProperty {
    /// Offset of the first zero byte, or the length when there is none:
    /// every byte before it is non-zero.
    pub fn type_len(&self) -> (r: usize)
        ensures
            r <= self.aux_data@.len(),
            forall|i: int| 0 <= i < r ==> self.aux_data@[i] != 0,
            r < self.aux_data@.len() ==> self.aux_data@[r as int] == 0,
    {
        let mut i: usize = 0;
        while i < self.aux_data.len() && self.aux_data[i] != 0
            invariant
                i <= self.aux_data@.len(),
                forall|k: int| 0 <= k < i ==> self.aux_data@[k] != 0,
            decreases self.aux_data@.len() - i,
        {
            i = i + 1;
        }
        i
    }

    /// The auxiliary type and the subtype: the bytes before the first zero
    /// byte, and the bytes after it.
    pub fn type_subtype(&self) -> (r: (&[u8], &[u8]))
        ensures
            r.0@.len() <= self.aux_data@.len(),
            r.0@ == self.aux_data@.subrange(0, r.0@.len() as int),
            forall|i: int| 0 <= i < r.0@.len() ==> r.0@[i] != 0,
            r.0@.len() < self.aux_data@.len() ==> self.aux_data@[r.0@.len() as int] == 0 && r.1@
                == self.aux_data@.subrange(r.0@.len() as int + 1, self.aux_data@.len() as int),
            r.0@.len() == self.aux_data@.len() ==> r.1@.len() == 0,
    {
        let split = self.type_len();
        let all = self.aux_data.as_slice();
        let aux_type = slice_subrange(all, 0, split);
        if split < all.len() {
            (aux_type, slice_subrange(all, split + 1, all.len()))
        } else {
            (aux_type, slice_subrange(all, split, split))
        }
    }

    /// An owned copy; `OutOfMemory` when allocation fails.
    pub fn try_clone(&self) -> (r: Result<AuxiliaryTypeProperty, Error>)
        ensures
            r matches Ok(c) ==> c.aux_data@ == self.aux_data@,
            r matches Err(e) ==> e is OutOfMemory,
    {
        Ok(AuxiliaryTypeProperty { aux_data: copy_bytes(self.aux_data.as_slice())? })
    }
}

impl ItemProperty {
    /// An owned copy; `OutOfMemory` when allocation fails.
    pub fn try_clone(&self) -> (r: Result<ItemProperty, Error>)
        ensures
            r matches Ok(c) ==> c.deep_view() == self.deep_view(),
            r matches Err(e) ==> e is OutOfMemory,
            !(self.deep_view() is AuxiliaryType) ==> r is Ok,
    {
        Ok(
            match self {
                ItemProperty::Channels(val) => ItemProperty::Channels(channels_clone(val)),
                ItemProperty::AuxiliaryType(val) => ItemProperty::AuxiliaryType(val.try_clone()?),
                ItemProperty::ImageSpatialExtents(val) => ItemProperty::ImageSpatialExtents(*val),
                ItemProperty::ImageGrid(val) => ItemProperty::ImageGrid(*val),
                ItemProperty::Unsupported => ItemProperty::Unsupported,
            },
        )
    }

    /// Whether the property is of a type that is not interpreted.
    pub fn is_unsupported(&self) -> (r: bool)
        ensures
            r == (self.deep_view() is Unsupported),
    {
        match self {
            ItemProperty::Unsupported => true,
            _ => false,
        }
    }
}

/// The dimensions in the `ispe` box `b`.
pub open spec fn spec_read_ispe(data: Seq<u8>, b: BMFFBox, lenient: bool) -> Result<
    ImageSpatialExtents,
    Error,
> {
    match spec_fullbox_version_no_flags(data, b, lenient) {
        Err(e) => Err(e),
        Ok(_) => if b.avail() < 12 {
            Err(Error::UnexpectedEOF)
        } else if spec_be_u32(data, b.pos + 4) == 0 || spec_be_u32(data, b.pos + 8) == 0 {
            Err(Error::InvalidData("ispe dimensions cannot be zero"))
        } else {
            Ok(
                ImageSpatialExtents {
                    width: spec_be_u32(data, b.pos + 4),
                    height: spec_be_u32(data, b.pos + 8),
                },
            )
        },
    }
}

/// Parses an image spatial extents box.
pub fn read_ispe(data: &[u8], src: &mut BMFFBox, options: &ParseOptions) -> (r: Result<
    ImageSpatialExtents,
    Error,
>)
    requires
        old(src).wf(data@.len()),
    ensures
        final(src).wf(data@.len()),
        r == spec_read_ispe(data@, *old(src), options.lenient),
        r is Ok ==> *final(src) == old(src).advanced(12),
{
    let _version = read_fullbox_version_no_flags(data, src, options)?;
    let width = src.be_u32(data)?;
    let height = src.be_u32(data)?;
    if width == 0 || height == 0 {
        return Err(Error::InvalidData("ispe dimensions cannot be zero"));
    }
    Ok(ImageSpatialExtents { width, height })
}

/// The grid layout in the `grid` box `b`.
pub open spec fn spec_read_grid(data: Seq<u8>, b: BMFFBox, lenient: bool) -> Result<
    GridConfig,
    Error,
> {
    match spec_fullbox_version_no_flags(data, b, lenient) {
        Err(e) => Err(e),
        Ok(version) => if version > 0 {
            Err(Error::Unsupported("grid version > 0"))
        } else if b.avail() < 7 {
            Err(Error::UnexpectedEOF)
        } else if data[b.pos + 4] % 2 == 0 {
            if b.avail() < 11 {
                Err(Error::UnexpectedEOF)
            } else {
                Ok(
                    GridConfig {
                        rows: data[b.pos + 5],
                        columns: data[b.pos + 6],
                        output_width: spec_be_u16(data, b.pos + 7) as u32,
                        output_height: spec_be_u16(data, b.pos + 9) as u32,
                    },
                )
            }
        } else {
            if b.avail() < 15 {
                Err(Error::UnexpectedEOF)
            } else {
                Ok(
                    GridConfig {
                        rows: data[b.pos + 5],
                        columns: data[b.pos + 6],
                        output_width: spec_be_u32(data, b.pos + 7),
                        output_height: spec_be_u32(data, b.pos + 11),
                    },
                )
            }
        },
    }
}

/// Parses an image grid box.
pub fn read_grid(data: &[u8], src: &mut BMFFBox, options: &ParseOptions) -> (r: Result<
    GridConfig,
    Error,
>)
    requires
        old(src).wf(data@.len()),
    ensures
        final(src).wf(data@.len()),
        r == spec_read_grid(data@, *old(src), options.lenient),
{
    let version = read_fullbox_version_no_flags(data, src, options)?;
    if version > 0 {
        return Err(Error::Unsupported("grid version > 0"));
    }
    let flags_byte = src.read_u8(data)?;
    let rows = src.read_u8(data)?;
    let columns = src.read_u8(data)?;
    if flags_byte % 2 == 0 {
        let output_width = src.be_u16(data)? as u32;
        let output_height = src.be_u16(data)? as u32;
        Ok(GridConfig { rows, columns, output_width, output_height })
    } else {
        let output_width = src.be_u32(data)?;
        let output_height = src.be_u32(data)?;
        Ok(GridConfig { rows, columns, output_width, output_height })
    }
}

/// Number of channel depths that are kept from a `pixi` box that declares
/// `declared` of them.
pub open spec fn spec_pixi_kept(declared: u8) -> int {
    if declared < 16 {
        declared as int
    } else {
        16
    }
}

/// The channel bit depths in the `pixi` box `b`.
pub open spec fn spec_read_pixi(data: Seq<u8>, b: BMFFBox, lenient: bool) -> Result<Seq<u8>, Error> {
    match spec_fullbox_version_no_flags(data, b, lenient) {
        Err(e) => Err(e),
        Ok(version) => if version != 0 {
            Err(Error::Unsupported("pixi version"))
        } else if b.avail() < 5 {
            Err(Error::UnexpectedEOF)
        } else {
            let kept = spec_pixi_kept(data[b.pos + 4]);
            if b.avail() < 5 + kept {
                Err(Error::InvalidData("invalid num_channels"))
            } else {
                let after = if lenient {
                    b.drained()
                } else {
                    b.advanced(5 + kept)
                };
                match spec_check_parser_state(after) {
                    Err(e) => Err(e),
                    Ok(()) => Ok(Seq::new(kept as nat, |i: int| data[b.pos + 5 + i])),
                }
            }
        },
    }
}

/// Parses a pixel information box.
pub fn read_pixi(data: &[u8], src: &mut BMFFBox, options: &ParseOptions) -> (r: Result<
    ArrayVec<u8, 16>,
    Error,
>)
    requires
        old(src).wf(data@.len()),
    ensures
        final(src).wf(data@.len()),
        match r {
            Ok(c) => spec_read_pixi(data@, *old(src), options.lenient) == Ok::<Seq<u8>, Error>(
                channel_depths(c),
            ),
            Err(e) => spec_read_pixi(data@, *old(src), options.lenient) == Err::<Seq<u8>, Error>(e),
        },
{
    let version = read_fullbox_version_no_flags(data, src, options)?;
    if version != 0 {
        return Err(Error::Unsupported("pixi version"));
    }
    let num_channels = src.read_u8(data)? as usize;
    let kept: usize = if num_channels < 16 {
        num_channels
    } else {
        16
    };
    if src.end - src.pos < kept {
        return Err(Error::InvalidData("invalid num_channels"));
    }
    let channels = channels_from_slice(slice_subrange(data, src.pos, src.pos + kept));
    assert(channel_depths(channels) =~= Seq::new(kept as nat, |i: int| data@[src.pos + i]));
    src.skip(kept as u64);
    if options.lenient && src.bytes_left() > 0 {
        let left = src.bytes_left();
        src.skip(left);
    }
    check_parser_state(src)?;
    Ok(channels)
}

/// The auxiliary type data in the `auxC` box `b`.
pub open spec fn spec_read_auxc(data: Seq<u8>, b: BMFFBox, lenient: bool) -> Result<Seq<u8>, Error> {
    match spec_fullbox_version_no_flags(data, b, lenient) {
        Err(e) => Err(e),
        Ok(version) => if version != 0 {
            Err(Error::Unsupported("auxC version"))
        } else {
            Ok(data.subrange(b.pos + 4, b.end as int))
        },
    }
}

/// Parses an auxiliary type property box.
pub fn read_auxc(data: &[u8], src: &mut BMFFBox, options: &ParseOptions) -> (r: Result<
    AuxiliaryTypeProperty,
    Error,
>)
    requires
        old(src).wf(data@.len()),
    ensures
        final(src).wf(data@.len()),
        agrees(r, spec_read_auxc(data@, *old(src), options.lenient)),
        spec_fullbox_version_no_flags(data@, *old(src), options.lenient) matches Err(e)
            ==> (r matches Err(x) && x == e),
        spec_fullbox_version_no_flags(data@, *old(src), options.lenient) matches Ok(v)
            ==> (v != 0 ==> (r matches Err(x) && x == Error::Unsupported("auxC version"))),
{
    let version = read_fullbox_version_no_flags(data, src, options)?;
    if version != 0 {
        return Err(Error::Unsupported("auxC version"));
    }
    let aux_data = src.read_into_try_vec(data)?;
    Ok(AuxiliaryTypeProperty { aux_data })
}

/// The property in the child box `child` of a property container.
pub open spec fn spec_read_property(data: Seq<u8>, child: BMFFBox, lenient: bool) -> Result<
    ItemPropertyView,
    Error,
> {
    match child.head.name {
        BoxType::PixelInformationBox => match spec_read_pixi(data, child, lenient) {
            Err(e) => Err(e),
            Ok(c) => Ok(ItemPropertyView::Channels(c)),
        },
        BoxType::AuxiliaryTypeProperty => match spec_read_auxc(data, child, lenient) {
            Err(e) => Err(e),
            Ok(a) => Ok(ItemPropertyView::AuxiliaryType(a)),
        },
        BoxType::ImageSpatialExtentsBox => match spec_read_ispe(data, child, lenient) {
            Err(e) => Err(e),
            Ok(x) => Ok(ItemPropertyView::ImageSpatialExtents(x)),
        },
        BoxType::ImageGridBox => match spec_read_grid(data, child, lenient) {
            Err(e) => Err(e),
            Ok(g) => Ok(ItemPropertyView::ImageGrid(g)),
        },
        _ => Ok(ItemPropertyView::Unsupported),
    }
}

/// Parses one child box of a property container.
pub fn read_property(data: &[u8], child: &mut BMFFBox, options: &ParseOptions) -> (r: Result<
    ItemProperty,
    Error,
>)
    requires
        old(child).wf(data@.len()),
    ensures
        final(child).wf(data@.len()),
        agrees(r, spec_read_property(data@, *old(child), options.lenient)),
        old(child).head.name != BoxType::AuxiliaryTypeProperty
            ==> !(r matches Err(Error::OutOfMemory)),
{
    match child.head.name {
        BoxType::PixelInformationBox => Ok(ItemProperty::Channels(read_pixi(data, child, options)?)),
        BoxType::AuxiliaryTypeProperty => Ok(
            ItemProperty::AuxiliaryType(read_auxc(data, child, options)?),
        ),
        BoxType::ImageSpatialExtentsBox => Ok(
            ItemProperty::ImageSpatialExtents(read_ispe(data, child, options)?),
        ),
        BoxType::ImageGridBox => Ok(ItemProperty::ImageGrid(read_grid(data, child, options)?)),
        _ => {
            child.skip_box_remain();
            Ok(ItemProperty::Unsupported)
        },
    }
}

/// One step of the walk over a property container: the property of
/// `child` is appended.
pub open spec fn spec_ipco_step(data: Seq<u8>, lenient: bool) -> spec_fn(
    BMFFBox,
    Seq<ItemPropertyView>,
) -> Result<(Seq<ItemPropertyView>, bool), Error> {
    |child: BMFFBox, acc: Seq<ItemPropertyView>|
        match spec_read_property(data, child, lenient) {
            Err(e) => Err(e),
            Ok(p) => Ok((acc.push(p), false)),
        }
}

/// The properties in the `ipco` box `b`, one for each child box, in order.
pub open spec fn spec_read_ipco(data: Seq<u8>, b: BMFFBox, lenient: bool) -> Result<
    Seq<ItemPropertyView>,
    Error,
> {
    spec_fold_boxes(data, b, Seq::empty(), spec_ipco_step(data, lenient))
}

/// Parses an item property container box.
#[verifier::loop_isolation(false)]
pub fn read_ipco(data: &[u8], src: &mut BMFFBox, options: &ParseOptions) -> (r: Result<
    Vec<ItemProperty>,
    Error,
>)
    requires
        old(src).wf(data@.len()),
    ensures
        final(src).wf(data@.len()),
        old(src).spec_next_box(data@) matches Err(e) ==> (r matches Err(x) && x == e),
        old(src).spec_next_box(data@) matches Ok(None) ==> r is Ok,
        agrees(r, spec_read_ipco(data@, *old(src), options.lenient)),
        r is Ok ==> *final(src) == old(src).drained(),
{
    let ghost step = spec_ipco_step(data@, options.lenient);
    let ghost whole = spec_read_ipco(data@, *src, options.lenient);
    let mut properties: Vec<ItemProperty> = Vec::new();
    proof {
        lemma_deep_view_empty(properties);
    }
    let ghost start = *src;
    let ghost mut started = false;
    let mut done = false;
    while !done
        invariant
            src.wf(data@.len()),
            !started && !done ==> *src == start,
            started ==> (start.spec_next_box(data@) matches Ok(Some(_))),
            !started && done ==> (start.spec_next_box(data@) matches Ok(None)),
            src.drained() == old(src).drained(),
            !done ==> whole == spec_fold_boxes(data@, *src, properties.deep_view(), step),
            done ==> whole == Ok::<Seq<ItemPropertyView>, Error>(properties.deep_view()) && *src
                == old(src).drained(),
        decreases
                (if done {
                    0
                } else {
                    src.avail() + 1
                }),
    {
        let ghost acc = properties.deep_view();
        let mut b = match src.next_box(data) {
            Err(e) => {
                return Err(e);
            },
            Ok(None) => {
                done = true;
                continue ;
            },
            Ok(Some(b)) => b,
        };
        proof {
            started = true;
        }
        let prop = match read_property(data, &mut b, options) {
            Err(e) => {
                return Err(e);
            },
            Ok(prop) => prop,
        };
        let ghost value = prop.deep_view();
        match push(&mut properties, prop) {
            Err(e) => {
                return Err(e);
            },
            Ok(()) => {},
        }
        assert(properties.deep_view() =~= acc.push(value));
    }
    Ok(properties)
}

/// The association written at offset `at`, in one byte or in two.
pub open spec fn spec_association(data: Seq<u8>, at: int, wide: bool, item_id: u32) -> Association {
    let bytes = data.subrange(
        at,
        at + if wide {
            2int
        } else {
            1int
        },
    );
    Association {
        item_id,
        essential: spec_bits(bytes, 0, 1) == 1,
        property_index: spec_bits(
            bytes,
            1,
            if wide {
                15nat
            } else {
                7nat
            },
        ) as u16,
    }
}

/// Width in bytes of an item id in the association table.
pub open spec fn spec_ipma_id_width(wide_ids: bool) -> int {
    if wide_ids {
        4
    } else {
        2
    }
}

/// Width in bytes of one association.
pub open spec fn spec_ipma_index_width(wide_index: bool) -> int {
    if wide_index {
        2
    } else {
        1
    }
}

/// The associations of the entry whose associations start at `at`.
pub open spec fn spec_ipma_entry(data: Seq<u8>, at: int, wide_index: bool, item_id: u32, n: nat) -> Seq<
    Association,
> {
    Seq::new(
        n,
        |k: int| spec_association(data, at + k * spec_ipma_index_width(wide_index), wide_index, item_id),
    )
}

/// `acc` followed by the associations of the `count` entries written from
/// offset `pos` on, in a box that ends at `end`.
pub open spec fn spec_ipma_entries(
    data: Seq<u8>,
    pos: int,
    end: int,
    wide_ids: bool,
    wide_index: bool,
    count: nat,
    acc: Seq<Association>,
) -> Result<Seq<Association>, Error>
    decreases count,
{
    let idw = spec_ipma_id_width(wide_ids);
    let aw = spec_ipma_index_width(wide_index);
    if count == 0 {
        Ok(acc)
    } else if pos + idw + 1 > end {
        Err(Error::UnexpectedEOF)
    } else if pos + idw + 1 + data[pos + idw] * aw > end {
        Err(Error::UnexpectedEOF)
    } else {
        let item_id = if wide_ids {
            spec_be_u32(data, pos)
        } else {
            spec_be_u16(data, pos) as u32
        };
        spec_ipma_entries(
            data,
            pos + idw + 1 + data[pos + idw] * aw,
            end,
            wide_ids,
            wide_index,
            (count - 1) as nat,
            acc + spec_ipma_entry(data, pos + idw + 1, wide_index, item_id, data[pos + idw] as nat),
        )
    }
}

/// The associations in the `ipma` box `b`, in order.
pub open spec fn spec_read_ipma(data: Seq<u8>, b: BMFFBox) -> Result<Seq<Association>, Error> {
    if b.avail() < 8 {
        Err(Error::UnexpectedEOF)
    } else {
        spec_ipma_entries(
            data,
            b.pos + 8,
            b.end as int,
            spec_fullbox_extra(data, b.pos as int).0 != 0,
            spec_fullbox_extra(data, b.pos as int).1 % 2 == 1,
            spec_be_u32(data, b.pos + 4) as nat,
            Seq::empty(),
        )
    }
}

/// Reads one association.
fn read_association(data: &[u8], src: &mut BMFFBox, wide: bool, item_id: u32) -> (r: Result<
    Association,
    Error,
>)
    requires
        old(src).wf(data@.len()),
    ensures
        final(src).wf(data@.len()),
        old(src).avail() >= spec_ipma_index_width(wide) ==> r == Ok::<Association, Error>(
            spec_association(data@, old(src).pos as int, wide, item_id),
        ) && *final(src) == old(src).advanced(spec_ipma_index_width(wide)),
        old(src).avail() < spec_ipma_index_width(wide) ==> r == Err::<Association, Error>(
            Error::UnexpectedEOF,
        ),
{
    let width: usize = if wide {
        2
    } else {
        1
    };
    if src.end - src.pos < width {
        return Err(Error::UnexpectedEOF);
    }
    let bytes = slice_subrange(data, src.pos, src.pos + width);
    proof {
        lemma_pow2_values();
        lemma_bits_bound(bytes@, 0, 1);
        lemma_bits_bound(bytes@, 1, 7);
        lemma_bits_bound(bytes@, 1, 15);
    }
    let essential = match read_bits(bytes, 0, 1) {
        Some(v) => v == 1,
        None => {
            return Err(Error::UnexpectedEOF);
        },
    };
    let rest: u8 = if wide {
        15
    } else {
        7
    };
    let property_index = match read_bits(bytes, 1, rest) {
        Some(v) => v as u16,
        None => {
            return Err(Error::UnexpectedEOF);
        },
    };
    src.skip(width as u64);
    Ok(Association { item_id, essential, property_index })
}

/// Parses an item property association box.
#[verifier::loop_isolation(false)]
pub fn read_ipma(data: &[u8], src: &mut BMFFBox) -> (r: Result<Vec<Association>, Error>)
    requires
        old(src).wf(data@.len()),
    ensures
        final(src).wf(data@.len()),
        match r {
            Ok(v) => spec_read_ipma(data@, *old(src)) == Ok::<Seq<Association>, Error>(v@),
            Err(e) => !(e is Stopped) && (e is OutOfMemory
                || spec_read_ipma(data@, *old(src)) == Err::<
                Seq<Association>,
                Error,
            >(e)),
        },
        old(src).avail() < 8 ==> (r matches Err(x) && x == Error::UnexpectedEOF),
        old(src).avail() >= 8 && spec_be_u32(data@, old(src).pos + 4) == 0 ==> r is Ok,
{
    let ghost whole = spec_read_ipma(data@, *src);
    let (version, flags) = read_fullbox_extra(data, src)?;
    let wide_ids = version != 0;
    let wide_index = flags % 2 == 1;
    let entry_count = src.be_u32(data)?;
    let mut associations: Vec<Association> = Vec::new();
    let mut i: u32 = 0;
    while i < entry_count
        invariant
            src.wf(data@.len()),
            src.end == old(src).end,
            i <= entry_count,
            whole == spec_ipma_entries(
                data@,
                src.pos as int,
                src.end as int,
                wide_ids,
                wide_index,
                (entry_count - i) as nat,
                associations@,
            ),
        decreases entry_count - i,
    {
        let ghost acc = associations@;
        let ghost at = src.pos as int;
        let ghost idw = spec_ipma_id_width(wide_ids);
        let ghost aw = spec_ipma_index_width(wide_index);
        let item_id: u32 = if wide_ids {
            src.be_u32(data)?
        } else {
            src.be_u16(data)? as u32
        };
        let association_count = src.read_u8(data)?;
        let mut j: u8 = 0;
        while j < association_count
            invariant
                src.wf(data@.len()),
                src.end == old(src).end,
                j <= association_count,
                src.pos == at + idw + 1 + j * aw,
                associations@ == acc + spec_ipma_entry(
                    data@,
                    at + idw + 1,
                    wide_index,
                    item_id,
                    j as nat,
                ),
                association_count == data@[at + idw],
                at + idw + 1 <= src.end,
            decreases association_count - j,
        {
            assert((j + 1) * aw == j * aw + aw) by (nonlinear_arith);
            assert(j < association_count ==> (j + 1) * aw <= association_count * aw)
                by (nonlinear_arith)
                requires
                    aw >= 0,
            ;
            let ghost before = associations@;
            let a = read_association(data, src, wide_index, item_id)?;
            match push(&mut associations, a) {
                Err(e) => {
                    return Err(e);
                },
                Ok(()) => {},
            }
            j = j + 1;
            assert(associations@ =~= acc + spec_ipma_entry(
                data@,
                at + idw + 1,
                wide_index,
                item_id,
                j as nat,
            ));
        }
        i = i + 1;
    }
    Ok(associations)
}

/// The properties that the associations `associations` select from the
/// list `properties`, each with the item it is associated with, in the
/// order of the associations. Index 0, indices past the list and
/// uninterpreted properties select nothing.
pub open spec fn spec_join_properties(
    properties: Seq<ItemPropertyView>,
    associations: Seq<Association>,
) -> Seq<AssociatedPropertyView>
    decreases associations.len(),
{
    if associations.len() == 0 {
        Seq::empty()
    } else {
        let rest = spec_join_properties(properties, associations.drop_last());
        let a = associations.last();
        if 1 <= a.property_index <= properties.len() && !(properties[a.property_index - 1]
            is Unsupported) {
            rest.push(
                AssociatedPropertyView {
                    item_id: a.item_id,
                    property: properties[a.property_index - 1],
                },
            )
        } else {
            rest
        }
    }
}

/// Joins the association table against the property list.
#[verifier::loop_isolation(false)]
pub fn join_properties(properties: &Vec<ItemProperty>, associations: &Vec<Association>) -> (r:
    Result<Vec<AssociatedProperty>, Error>)
    ensures
        agrees(r, Ok(spec_join_properties(properties.deep_view(), associations@))),
        associations@.len() == 0 ==> r is Ok,
{
    let mut associated: Vec<AssociatedProperty> = Vec::new();
    let mut i: usize = 0;
    proof {
        lemma_deep_view_empty(associated);
        assert(associations@.subrange(0, 0) =~= Seq::empty());
    }
    while i < associations.len()
        invariant
            i <= associations@.len(),
            associated.deep_view() == spec_join_properties(
                properties.deep_view(),
                associations@.subrange(0, i as int),
            ),
        decreases associations@.len() - i,
    {
        let a = associations[i];
        let ghost acc = associated.deep_view();
        proof {
            assert(associations@.subrange(0, i + 1).drop_last() =~= associations@.subrange(
                0,
                i as int,
            ));
        }
        if a.property_index != 0 && (a.property_index as usize) - 1 < properties.len() {
            let prop = &properties[(a.property_index as usize) - 1];
            if !prop.is_unsupported() {
                let copy = match prop.try_clone() {
                    Err(e) => {
                        return Err(e);
                    },
                    Ok(copy) => copy,
                };
                let entry = AssociatedProperty { item_id: a.item_id, property: copy };
                let ghost value = entry.deep_view();
                match push(&mut associated, entry) {
                    Err(e) => {
                        return Err(e);
                    },
                    Ok(()) => {},
                }
                assert(associated.deep_view() =~= acc.push(value));
            }
        }
        i = i + 1;
    }
    proof {
        assert(associations@.subrange(0, i as int) =~= associations@);
    }
    Ok(associated)
}

/// What the walk over an `iprp` box has gathered: the property list and
/// the association table.
pub struct PropertyTables {
    pub properties: Vec<ItemProperty>,
    pub associations: Vec<Association>,
}

/// The mathematical value of [`PropertyTables`].
pub struct PropertyTablesView {
    pub properties: Seq<ItemPropertyView>,
    pub associations: Seq<Association>,
}

impl DeepView for PropertyTables {
    type V = PropertyTablesView;

    open spec fn deep_view(&self) -> PropertyTablesView {
        PropertyTablesView {
            properties: self.properties.deep_view(),
            associations: self.associations@,
        }
    }
}

/// What the child box `child` of an `iprp` box adds to `acc`.
pub open spec fn spec_iprp_child(
    data: Seq<u8>,
    child: BMFFBox,
    acc: PropertyTablesView,
    lenient: bool,
) -> Result<PropertyTablesView, Error> {
    match child.head.name {
        BoxType::ItemPropertyContainerBox => match spec_read_ipco(data, child, lenient) {
            Err(e) => Err(e),
            Ok(properties) => Ok(PropertyTablesView { properties, associations: acc.associations }),
        },
        BoxType::ItemPropertyAssociationBox => match spec_read_ipma(data, child) {
            Err(e) => Err(e),
            Ok(associations) => Ok(PropertyTablesView { properties: acc.properties, associations }),
        },
        _ => Err(Error::InvalidData("unexpected ipco child")),
    }
}

/// One step of the walk over an `iprp` box.
pub open spec fn spec_iprp_step(data: Seq<u8>, lenient: bool) -> spec_fn(
    BMFFBox,
    PropertyTablesView,
) -> Result<(PropertyTablesView, bool), Error> {
    |child: BMFFBox, acc: PropertyTablesView|
        match spec_iprp_child(data, child, acc, lenient) {
            Err(e) => Err(e),
            Ok(next) => Ok((next, false)),
        }
}

/// The associated properties that the `iprp` box `b` declares.
pub open spec fn spec_read_iprp(data: Seq<u8>, b: BMFFBox, lenient: bool) -> Result<
    Seq<AssociatedPropertyView>,
    Error,
> {
    match spec_fold_boxes(
        data,
        b,
        PropertyTablesView { properties: Seq::empty(), associations: Seq::empty() },
        spec_iprp_step(data, lenient),
    ) {
        Err(e) => Err(e),
        Ok(t) => Ok(spec_join_properties(t.properties, t.associations)),
    }
}

/// Parses one child box of an `iprp` box into `acc`.
pub fn read_iprp_child(
    data: &[u8],
    child: &mut BMFFBox,
    acc: PropertyTables,
    options: &ParseOptions,
) -> (r: Result<PropertyTables, Error>)
    requires
        old(child).wf(data@.len()),
    ensures
        final(child).wf(data@.len()),
        agrees(r, spec_iprp_child(data@, *old(child), acc.deep_view(), options.lenient)),
        old(child).head.name != BoxType::ItemPropertyContainerBox
            && old(child).head.name != BoxType::ItemPropertyAssociationBox ==> (r matches Err(x)
            && x == Error::InvalidData("unexpected ipco child")),
{
    match child.head.name {
        BoxType::ItemPropertyContainerBox => {
            let properties = read_ipco(data, child, options)?;
            Ok(PropertyTables { properties, associations: acc.associations })
        },
        BoxType::ItemPropertyAssociationBox => {
            let associations = read_ipma(data, child)?;
            Ok(PropertyTables { properties: acc.properties, associations })
        },
        _ => Err(Error::InvalidData("unexpected ipco child")),
    }
}

/// Parses an item properties box.
#[verifier::loop_isolation(false)]
pub fn read_iprp(data: &[u8], src: &mut BMFFBox, options: &ParseOptions) -> (r: Result<
    Vec<AssociatedProperty>,
    Error,
>)
    requires
        old(src).wf(data@.len()),
    ensures
        final(src).wf(data@.len()),
        old(src).spec_next_box(data@) matches Err(e) ==> (r matches Err(x) && x == e),
        old(src).spec_next_box(data@) matches Ok(None) ==> r is Ok,
        agrees(r, spec_read_iprp(data@, *old(src), options.lenient)),
        r is Ok ==> *final(src) == old(src).drained(),
{
    let ghost step = spec_iprp_step(data@, options.lenient);
    let mut tables = PropertyTables { properties: Vec::new(), associations: Vec::new() };
    proof {
        lemma_deep_view_empty(tables.properties);
    }
    let ghost whole = spec_fold_boxes(data@, *src, tables.deep_view(), step);
    let ghost start = *src;
    let ghost mut started = false;
    let mut done = false;
    while !done
        invariant
            src.wf(data@.len()),
            !started && !done ==> *src == start,
            started ==> (start.spec_next_box(data@) matches Ok(Some(_))),
            !started && done ==> (start.spec_next_box(data@) matches Ok(None)),
            !started ==> tables.associations@.len() == 0,
            src.drained() == old(src).drained(),
            !done ==> whole == spec_fold_boxes(data@, *src, tables.deep_view(), step),
            done ==> whole == Ok::<PropertyTablesView, Error>(tables.deep_view()) && *src == old(
                src,
            ).drained(),
        decreases
                (if done {
                    0
                } else {
                    src.avail() + 1
                }),
    {
        let mut b = match src.next_box(data) {
            Err(e) => {
                return Err(e);
            },
            Ok(None) => {
                done = true;
                continue ;
            },
            Ok(Some(b)) => b,
        };
        proof {
            started = true;
        }
        tables = match read_iprp_child(data, &mut b, tables, options) {
            Err(e) => {
                return Err(e);
            },
            Ok(next) => next,
        };
    }
    join_properties(&tables.properties, &tables.associations)
}

impl ItemPropertyView {
    /// Channel depths are at most sixteen; image dimensions are not zero.
    pub open spec fn wf(self) -> bool {
        match self {
            ItemPropertyView::Channels(c) => c.len() <= 16,
            ItemPropertyView::ImageSpatialExtents(e) => e.width > 0 && e.height > 0,
            _ => true,
        }
    }
}

/// Whether each of the properties is well formed.
pub open spec fn spec_properties_wf(properties: Seq<ItemPropertyView>) -> bool {
    forall|i: int| 0 <= i < properties.len() ==> (#[trigger] properties[i]).wf()
}

/// Whether each of the associated properties is well formed.
pub open spec fn spec_associated_wf(properties: Seq<AssociatedPropertyView>) -> bool {
    forall|i: int| 0 <= i < properties.len() ==> (#[trigger] properties[i]).property.wf()
}

/// Every property in an `ipco` box that is accepted is well formed.
pub proof fn lemma_read_ipco_wf(data: Seq<u8>, b: BMFFBox, lenient: bool)
    ensures
        spec_read_ipco(data, b, lenient) matches Ok(properties) ==> spec_properties_wf(properties),
{
    let step = spec_ipco_step(data, lenient);
    let inv = |acc: Seq<ItemPropertyView>| spec_properties_wf(acc);
    assert forall|child: BMFFBox, a: Seq<ItemPropertyView>| inv(a) implies (#[trigger] step(
        child,
        a,
    ) matches Ok((next, _)) ==> inv(next)) by {
        match spec_read_property(data, child, lenient) {
            Err(_) => {},
            Ok(p) => {
                assert(p.wf());
                let next = a.push(p);
                assert forall|i: int| 0 <= i < next.len() implies (#[trigger] next[i]).wf() by {
                    if i < a.len() {
                        assert(next[i] == a[i]);
                    }
                }
            },
        }
    }
    crate::reader::lemma_fold_boxes_keeps(data, b, Seq::empty(), step, inv);
}

/// Joining well-formed properties gives well-formed associated properties.
pub proof fn lemma_join_wf(properties: Seq<ItemPropertyView>, associations: Seq<Association>)
    requires
        spec_properties_wf(properties),
    ensures
        spec_associated_wf(spec_join_properties(properties, associations)),
    decreases associations.len(),
{
    if associations.len() > 0 {
        lemma_join_wf(properties, associations.drop_last());
        let rest = spec_join_properties(properties, associations.drop_last());
        let out = spec_join_properties(properties, associations);
        assert forall|i: int| 0 <= i < out.len() implies (#[trigger] out[i]).property.wf() by {
            if i < rest.len() {
                assert(out[i] == rest[i]);
            } else {
                let a = associations.last();
                assert(properties[a.property_index - 1].wf());
            }
        }
    }
}

/// Every associated property of an `iprp` box that is accepted is well
/// formed.
pub proof fn lemma_read_iprp_wf(data: Seq<u8>, b: BMFFBox, lenient: bool)
    ensures
        spec_read_iprp(data, b, lenient) matches Ok(properties) ==> spec_associated_wf(properties),
{
    let step = spec_iprp_step(data, lenient);
    let inv = |acc: PropertyTablesView| spec_properties_wf(acc.properties);
    assert forall|child: BMFFBox, a: PropertyTablesView| inv(a) implies (#[trigger] step(
        child,
        a,
    ) matches Ok((next, _)) ==> inv(next)) by {
        lemma_read_ipco_wf(data, child, lenient);
    }
    let start = PropertyTablesView { properties: Seq::empty(), associations: Seq::empty() };
    crate::reader::lemma_fold_boxes_keeps(data, b, start, step, inv);
    match spec_fold_boxes(data, b, start, step) {
        Ok(t) => {
            lemma_join_wf(t.properties, t.associations);
        },
        Err(_) => {},
    }
}

} // verus!
