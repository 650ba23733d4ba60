//! The records that the `meta` box yields: item infos, references and
//! locations.
use vstd::prelude::*;
use crate::boxes::FourCC;

verus! {

/// An entry of the item information box: the type of one item.
#[derive(Debug, Clone, Copy, PartialEq, Eq, Structural)]
pub struct ItemInfoEntry {
    pub item_id: u32,
    pub item_type: FourCC,
}

/// One reference from an item to another.
#[derive(Debug, Clone, Copy, PartialEq, Eq, Structural)]
pub struct ItemReference {
    /// The kind of reference, which is the type of the box that held it.
    pub item_type: FourCC,
    pub from_item_id: u32,
    pub to_item_id: u32,
    /// Position of this reference in its box, from zero. For the tiles of
    /// a grid this is the position of the tile in the grid.
    pub reference_index: u16,
}

/// Where the bytes of an item are taken from.
#[derive(Debug, Clone, Copy, PartialEq, Eq, Structural)]
pub enum ConstructionMethod {
    /// Offsets count from the start of the file.
    File,
    /// Offsets count from the start of the `idat` box's content.
    Idat,
    /// Offsets count inside another item.
    Item,
}

/// A contiguous range of bytes.
#[derive(Debug, Clone, Copy, PartialEq, Eq, Structural)]
pub enum ExtentRange {
    /// The bytes from `start` up to, not including, `end`.
    WithLength { start: u64, end: u64 },
    /// The bytes from `start` to the end of the enclosing data.
    ToEnd { start: u64 },
}

impl ExtentRange {
    /// Offset of the first byte of the range.
    pub open spec fn spec_start(self) -> u64 {
        match self {
            ExtentRange::WithLength { start, .. } => start,
            ExtentRange::ToEnd { start } => start,
        }
    }

    /// Offset of the first byte of the range.
    pub fn start(&self) -> (r: u64)
        ensures
            r == self.spec_start(),
    {
        match self {
            ExtentRange::WithLength { start, .. } => *start,
            ExtentRange::ToEnd { start } => *start,
        }
    }
}

/// The location of one item: how its bytes are addressed, and the ranges
/// that make up its data, in order.
#[derive(Debug)]
pub struct ItemLocation {
    pub item_id: u32,
    pub construction_method: ConstructionMethod,
    pub extents: Vec<ExtentRange>,
}

/// The mathematical value of an [`ItemLocation`].
pub struct ItemLocationView {
    pub item_id: u32,
    pub construction_method: ConstructionMethod,
    pub extents: Seq<ExtentRange>,
}

impl DeepView for ItemInfoEntry {
    type V = ItemInfoEntry;

    open spec fn deep_view(&self) -> ItemInfoEntry {
        *self
    }
}

impl DeepView for ItemReference {
    type V = ItemReference;

    open spec fn deep_view(&self) -> ItemReference {
        *self
    }
}

impl DeepView for ExtentRange {
    type V = ExtentRange;

    open spec fn deep_view(&self) -> ExtentRange {
        *self
    }
}

impl DeepView for ItemLocation {
    type V = ItemLocationView;

    open spec fn deep_view(&self) -> ItemLocationView {
        ItemLocationView {
            item_id: self.item_id,
            construction_method: self.construction_method,
            extents: self.extents@,
        }
    }
}

/// An empty vector has the empty sequence as its value.
pub proof fn lemma_deep_view_empty<T: DeepView>(v: Vec<T>)
    requires
        v@.len() == 0,
    ensures
        v.deep_view() == Seq::<T::V>::empty(),
{
    assert(v.deep_view() =~= Seq::<T::V>::empty());
}

impl ExtentRange {
    /// A range with a length is not empty.
    pub open spec fn wf(self) -> bool {
        match self {
            ExtentRange::WithLength { start, end } => start < end,
            ExtentRange::ToEnd { .. } => true,
        }
    }
}

impl ItemLocationView {
    /// A location has at least one extent, and none of its extents is an
    /// empty range.
    pub open spec fn wf(self) -> bool {
        &&& self.extents.len() >= 1
        &&& forall|i: int| 0 <= i < self.extents.len() ==> (#[trigger] self.extents[i]).wf()
    }
}

impl ItemReference {
    /// No item refers to itself.
    pub open spec fn wf(self) -> bool {
        self.from_item_id != self.to_item_id
    }
}

/// Whether each of the locations is well formed.
pub open spec fn spec_locations_wf(locations: Seq<ItemLocationView>) -> bool {
    forall|i: int| 0 <= i < locations.len() ==> (#[trigger] locations[i]).wf()
}

/// Whether each of the references is well formed.
pub open spec fn spec_references_wf(references: Seq<ItemReference>) -> bool {
    forall|i: int| 0 <= i < references.len() ==> (#[trigger] references[i]).wf()
}

} // verus!
