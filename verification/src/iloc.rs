//! The item location box, `iloc`: a bit-packed table that says, for each
//! item, where its bytes lie.
use vstd::prelude::*;
use crate::bits::{lemma_bits_bound, lemma_pow2_grows, lemma_pow2_values, read_bits, spec_bits};
use crate::config::ParseOptions;
use crate::error::{agrees, Error};
use crate::fallible::{push, with_capacity};
use crate::items::{
    lemma_deep_view_empty, spec_locations_wf, ConstructionMethod, ExtentRange, ItemLocation,
    ItemLocationView,
};
use crate::reader::{read_fullbox_version_no_flags, spec_fullbox_version_no_flags, BMFFBox};

verus! {

/// The possible sizes, in bytes, of the variable-sized fields of `iloc`.
#[derive(Debug, Clone, Copy, PartialEq, Eq, Structural)]
pub enum IlocFieldSize {
    Zero,
    Four,
    Eight,
}

impl IlocFieldSize {
    /// Width of the field in bits.
    pub open spec fn spec_to_bits(self) -> u8 {
        match self {
            IlocFieldSize::Zero => 0,
            IlocFieldSize::Four => 32,
            IlocFieldSize::Eight => 64,
        }
    }

    /// The field size that the four-bit value `value` selects.
    pub open spec fn spec_try_from(value: u8) -> Result<IlocFieldSize, Error> {
        if value == 0 {
            Ok(IlocFieldSize::Zero)
        } else if value == 4 {
            Ok(IlocFieldSize::Four)
        } else if value == 8 {
            Ok(IlocFieldSize::Eight)
        } else {
            Err(Error::InvalidData("value must be in the set {0, 4, 8}"))
        }
    }

    /// Width of the field in bits.
    pub fn to_bits(&self) -> (r: u8)
        ensures
            r == self.spec_to_bits(),
    {
        match self {
            IlocFieldSize::Zero => 0,
            IlocFieldSize::Four => 32,
            IlocFieldSize::Eight => 64,
        }
    }

    /// The field size that `value` selects; only 0, 4 and 8 select one.
    pub fn try_from(value: u8) -> (r: Result<IlocFieldSize, Error>)
        ensures
            r == IlocFieldSize::spec_try_from(value),
    {
        if value == 0 {
            Ok(IlocFieldSize::Zero)
        } else if value == 4 {
            Ok(IlocFieldSize::Four)
        } else if value == 8 {
            Ok(IlocFieldSize::Eight)
        } else {
            Err(Error::InvalidData("value must be in the set {0, 4, 8}"))
        }
    }
}

/// The versions of `iloc` that are understood.
#[derive(Debug, Clone, Copy, PartialEq, Eq, Structural)]
pub enum IlocVersion {
    Zero,
    One,
    Two,
}

impl IlocVersion {
    /// The version that the version byte `value` selects.
    pub open spec fn spec_try_from(value: u8) -> Result<IlocVersion, Error> {
        if value == 0 {
            Ok(IlocVersion::Zero)
        } else if value == 1 {
            Ok(IlocVersion::One)
        } else if value == 2 {
            Ok(IlocVersion::Two)
        } else {
            Err(Error::Unsupported("unsupported version in 'iloc' box"))
        }
    }

    /// The version that the version byte `value` selects.
    pub fn try_from(value: u8) -> (r: Result<IlocVersion, Error>)
        ensures
            r == IlocVersion::spec_try_from(value),
    {
        if value == 0 {
            Ok(IlocVersion::Zero)
        } else if value == 1 {
            Ok(IlocVersion::One)
        } else if value == 2 {
            Ok(IlocVersion::Two)
        } else {
            Err(Error::Unsupported("unsupported version in 'iloc' box"))
        }
    }
}

/// The field widths that the first two bytes of an `iloc` box declare.
#[derive(Debug, Clone, Copy)]
pub struct IlocLayout {
    pub version: IlocVersion,
    pub offset_bits: u8,
    pub length_bits: u8,
    pub base_offset_bits: u8,
    /// Width of the extent index; zero in version 0, which has none.
    pub index_bits: u8,
}

impl IlocLayout {
    /// Every width is 0, 32 or 64 bits.
    pub open spec fn wf(self) -> bool {
        &&& self.offset_bits == 0 || self.offset_bits == 32 || self.offset_bits == 64
        &&& self.length_bits == 0 || self.length_bits == 32 || self.length_bits == 64
        &&& self.base_offset_bits == 0 || self.base_offset_bits == 32 || self.base_offset_bits
            == 64
        &&& self.index_bits == 0 || self.index_bits == 32 || self.index_bits == 64
    }

    /// Width of an item id and of the item count.
    pub open spec fn id_bits(self) -> int {
        if self.version == IlocVersion::Two {
            32
        } else {
            16
        }
    }

    /// Width of the reserved bits and the construction method together.
    pub open spec fn method_bits(self) -> int {
        if self.version == IlocVersion::Zero {
            0
        } else {
            16
        }
    }

    /// Width of what precedes the extents of one item.
    pub open spec fn head_bits(self) -> int {
        self.id_bits() + self.method_bits() + 16 + self.base_offset_bits + 16
    }

    /// Width of one extent.
    pub open spec fn extent_bits(self) -> int {
        self.index_bits + self.offset_bits + self.length_bits
    }
}

/// The error for a field that runs past the end of the box.
pub open spec fn spec_truncated() -> Error {
    Error::InvalidData("truncated bits")
}

/// The field widths declared by the content `s` of an `iloc` box.
pub open spec fn spec_iloc_layout(s: Seq<u8>, version: IlocVersion) -> Result<IlocLayout, Error> {
    if s.len() < 1 {
        Err(spec_truncated())
    } else {
        match IlocFieldSize::spec_try_from(spec_bits(s, 0, 4) as u8) {
            Err(e) => Err(e),
            Ok(offset_size) => match IlocFieldSize::spec_try_from(spec_bits(s, 4, 4) as u8) {
                Err(e) => Err(e),
                Ok(length_size) => if s.len() < 2 {
                    Err(spec_truncated())
                } else {
                    match IlocFieldSize::spec_try_from(spec_bits(s, 8, 4) as u8) {
                        Err(e) => Err(e),
                        Ok(base_offset_size) => if version == IlocVersion::Zero {
                            Ok(
                                IlocLayout {
                                    version,
                                    offset_bits: offset_size.spec_to_bits(),
                                    length_bits: length_size.spec_to_bits(),
                                    base_offset_bits: base_offset_size.spec_to_bits(),
                                    index_bits: 0,
                                },
                            )
                        } else {
                            match IlocFieldSize::spec_try_from(spec_bits(s, 12, 4) as u8) {
                                Err(e) => Err(e),
                                Ok(index_size) => Ok(
                                    IlocLayout {
                                        version,
                                        offset_bits: offset_size.spec_to_bits(),
                                        length_bits: length_size.spec_to_bits(),
                                        base_offset_bits: base_offset_size.spec_to_bits(),
                                        index_bits: index_size.spec_to_bits(),
                                    },
                                ),
                            }
                        },
                    }
                },
            },
        }
    }
}

/// The extent written at bit `pos` of `s`, relative to `base`.
pub open spec fn spec_iloc_extent(s: Seq<u8>, pos: int, l: IlocLayout, base: u64) -> Result<
    ExtentRange,
    Error,
> {
    let at_offset = pos + l.index_bits;
    let at_length = at_offset + l.offset_bits;
    if at_length + l.length_bits > 8 * s.len() {
        Err(spec_truncated())
    } else {
        let offset = spec_bits(s, at_offset, l.offset_bits as nat);
        let length = spec_bits(s, at_length, l.length_bits as nat);
        if base + offset > u64::MAX {
            Err(Error::InvalidData("offset calculation overflow"))
        } else if length == 0 {
            Ok(ExtentRange::ToEnd { start: (base + offset) as u64 })
        } else if base + offset + length > u64::MAX {
            Err(Error::InvalidData("end calculation overflow"))
        } else {
            Ok(
                ExtentRange::WithLength {
                    start: (base + offset) as u64,
                    end: (base + offset + length) as u64,
                },
            )
        }
    }
}

/// `acc` followed by the `count` extents written from bit `pos` of `s` on.
pub open spec fn spec_iloc_extents(
    s: Seq<u8>,
    pos: int,
    l: IlocLayout,
    base: u64,
    count: nat,
    acc: Seq<ExtentRange>,
) -> Result<Seq<ExtentRange>, Error>
    decreases count,
{
    if count == 0 {
        Ok(acc)
    } else {
        match spec_iloc_extent(s, pos, l, base) {
            Err(e) => Err(e),
            Ok(x) => spec_iloc_extents(
                s,
                pos + l.extent_bits(),
                l,
                base,
                (count - 1) as nat,
                acc.push(x),
            ),
        }
    }
}

/// What precedes the extents of one item.
pub struct IlocItemHead {
    pub item_id: u32,
    pub construction_method: ConstructionMethod,
    pub base_offset: u64,
    pub extent_count: u16,
}

/// The head of the item written at bit `pos` of `s`.
pub open spec fn spec_iloc_item_head(s: Seq<u8>, pos: int, l: IlocLayout) -> Result<
    IlocItemHead,
    Error,
> {
    let total = 8 * s.len();
    let at_method = pos + l.id_bits();
    let at_dref = at_method + l.method_bits();
    let at_base = at_dref + 16;
    let at_count = at_base + l.base_offset_bits;
    let method = if l.version == IlocVersion::Zero {
        0
    } else {
        spec_bits(s, at_method + 12, 4)
    };
    if at_dref > total {
        Err(spec_truncated())
    } else if method == 2 {
        Err(Error::Unsupported("construction_method 'item_offset' is not supported"))
    } else if method > 2 {
        Err(
            Error::InvalidData(
                "construction_method is taken from the set 0, 1 or 2 per ISO 14496-12:2015 \u{a7} 8.11.3.3",
            ),
        )
    } else if at_base > total {
        Err(spec_truncated())
    } else if spec_bits(s, at_dref, 16) != 0 {
        Err(
            Error::Unsupported(
                "external file references (iloc.data_reference_index != 0) are not supported",
            ),
        )
    } else if at_count + 16 > total {
        Err(spec_truncated())
    } else if spec_bits(s, at_count, 16) < 1 {
        Err(
            Error::InvalidData(
                "extent_count must have a value 1 or greater per ISO 14496-12:2015 \u{a7} 8.11.3.3",
            ),
        )
    } else {
        Ok(
            IlocItemHead {
                item_id: spec_bits(s, pos, l.id_bits() as nat) as u32,
                construction_method: if method == 0 {
                    ConstructionMethod::File
                } else {
                    ConstructionMethod::Idat
                },
                base_offset: spec_bits(s, at_base, l.base_offset_bits as nat) as u64,
                extent_count: spec_bits(s, at_count, 16) as u16,
            },
        )
    }
}

/// The item written at bit `pos` of `s`.
pub open spec fn spec_iloc_item(s: Seq<u8>, pos: int, l: IlocLayout) -> Result<
    ItemLocationView,
    Error,
> {
    match spec_iloc_item_head(s, pos, l) {
        Err(e) => Err(e),
        Ok(h) => match spec_iloc_extents(
            s,
            pos + l.head_bits(),
            l,
            h.base_offset,
            h.extent_count as nat,
            Seq::empty(),
        ) {
            Err(e) => Err(e),
            Ok(extents) => Ok(
                ItemLocationView {
                    item_id: h.item_id,
                    construction_method: h.construction_method,
                    extents,
                },
            ),
        },
    }
}

/// Width in bits of the item written at bit `pos` of `s`.
pub open spec fn spec_iloc_item_bits(s: Seq<u8>, pos: int, l: IlocLayout) -> int {
    l.head_bits() + spec_bits(s, pos + l.head_bits() - 16, 16) * l.extent_bits()
}

/// `acc` followed by the `count` items written from bit `pos` of `s` on,
/// and the bit at which the last of them ends.
pub open spec fn spec_iloc_items(
    s: Seq<u8>,
    pos: int,
    l: IlocLayout,
    count: nat,
    acc: Seq<ItemLocationView>,
) -> Result<(Seq<ItemLocationView>, int), Error>
    decreases count,
{
    if count == 0 {
        Ok((acc, pos))
    } else {
        match spec_iloc_item(s, pos, l) {
            Err(e) => Err(e),
            Ok(item) => spec_iloc_items(
                s,
                pos + spec_iloc_item_bits(s, pos, l),
                l,
                (count - 1) as nat,
                acc.push(item),
            ),
        }
    }
}

/// Largest content of an `iloc` box, in bytes, whose bit positions fit 64
/// bits: eight times this many bits is the most that can be counted.
pub const ILOC_MAX_BYTES: u64 = 0x1fff_ffff_ffff_ffff;

/// The items that the content `s` of an `iloc` box of version `version`
/// lists.
pub open spec fn spec_iloc(s: Seq<u8>, version: IlocVersion) -> Result<Seq<ItemLocationView>, Error> {
    if s.len() > ILOC_MAX_BYTES {
        Err(Error::Unsupported("iloc box too large"))
    } else {
        match spec_iloc_layout(s, version) {
            Err(e) => Err(e),
            Ok(l) => if 16 + l.id_bits() > 8 * s.len() {
                Err(spec_truncated())
            } else {
                match spec_iloc_items(
                    s,
                    16 + l.id_bits(),
                    l,
                    spec_bits(s, 16, l.id_bits() as nat),
                    Seq::empty(),
                ) {
                    Err(e) => Err(e),
                    Ok((items, end)) => if end == 8 * s.len() {
                        Ok(items)
                    } else {
                        Err(Error::InvalidData("invalid iloc size"))
                    },
                }
            },
        }
    }
}

/// The items that the `iloc` box `b` lists.
pub open spec fn spec_read_iloc(data: Seq<u8>, b: BMFFBox, lenient: bool) -> Result<
    Seq<ItemLocationView>,
    Error,
> {
    match spec_fullbox_version_no_flags(data, b, lenient) {
        Err(e) => Err(e),
        Ok(v) => match IlocVersion::spec_try_from(v) {
            Err(e) => Err(e),
            Ok(version) => spec_iloc(data.subrange(b.pos + 4, b.end as int), version),
        },
    }
}

/// Reads `count` bits at `*pos` and moves past them.
fn take_bits(bytes: &[u8], pos: &mut u64, count: u8) -> (r: Result<u64, Error>)
    requires
        count <= 64,
        bytes@.len() <= ILOC_MAX_BYTES,
        *old(pos) <= 8 * bytes@.len(),
    ensures
        *old(pos) + count <= 8 * bytes@.len() ==> r == Ok::<u64, Error>(
            spec_bits(bytes@, *old(pos) as int, count as nat) as u64,
        ) && *final(pos) == *old(pos) + count && r->Ok_0 == spec_bits(
            bytes@,
            *old(pos) as int,
            count as nat,
        ),
        *old(pos) + count > 8 * bytes@.len() ==> r == Err::<u64, Error>(spec_truncated())
            && *final(pos) == *old(pos),
{
    proof {
        lemma_bits_bound(bytes@, *pos as int, count as nat);
        lemma_pow2_grows(count as nat, 64);
        lemma_pow2_values();
    }
    match read_bits(bytes, *pos, count) {
        Some(v) => {
            *pos = *pos + count as u64;
            Ok(v)
        },
        None => Err(Error::InvalidData("truncated bits")),
    }
}

/// Reads one field-size nibble.
fn take_field_size(bytes: &[u8], pos: &mut u64) -> (r: Result<IlocFieldSize, Error>)
    requires
        bytes@.len() <= ILOC_MAX_BYTES,
        *old(pos) <= 8 * bytes@.len(),
    ensures
        *old(pos) + 4 <= 8 * bytes@.len() ==> r == IlocFieldSize::spec_try_from(
            spec_bits(bytes@, *old(pos) as int, 4) as u8,
        ) && *final(pos) == *old(pos) + 4,
        *old(pos) + 4 > 8 * bytes@.len() ==> r == Err::<IlocFieldSize, Error>(spec_truncated()),
{
    proof {
        lemma_bits_bound(bytes@, *pos as int, 4);
        lemma_pow2_values();
    }
    let v = take_bits(bytes, pos, 4)?;
    IlocFieldSize::try_from(v as u8)
}

/// Reads the field widths at the front of the content of an `iloc` box.
fn read_iloc_layout(bytes: &[u8], version: IlocVersion) -> (r: Result<IlocLayout, Error>)
    requires
        bytes@.len() <= ILOC_MAX_BYTES,
    ensures
        r == spec_iloc_layout(bytes@, version),
        r matches Ok(l) ==> l.wf() && l.version == version && bytes@.len() >= 2,
{
    let mut pos: u64 = 0;
    let offset_size = take_field_size(bytes, &mut pos)?;
    let length_size = take_field_size(bytes, &mut pos)?;
    let base_offset_size = take_field_size(bytes, &mut pos)?;
    let index_bits: u8 = match version {
        IlocVersion::Zero => 0,
        _ => {
            let index_size = take_field_size(bytes, &mut pos)?;
            index_size.to_bits()
        },
    };
    Ok(
        IlocLayout {
            version,
            offset_bits: offset_size.to_bits(),
            length_bits: length_size.to_bits(),
            base_offset_bits: base_offset_size.to_bits(),
            index_bits,
        },
    )
}

/// Reads one extent.
fn read_iloc_extent(bytes: &[u8], pos: &mut u64, l: &IlocLayout, base: u64) -> (r: Result<
    ExtentRange,
    Error,
>)
    requires
        l.wf(),
        bytes@.len() <= ILOC_MAX_BYTES,
        *old(pos) <= 8 * bytes@.len(),
    ensures
        r == spec_iloc_extent(bytes@, *old(pos) as int, *l, base),
        r is Ok ==> *final(pos) == *old(pos) + l.extent_bits(),
        *final(pos) <= 8 * bytes@.len(),
{
    proof {
        lemma_pow2_values();
        lemma_bits_bound(bytes@, *pos + l.index_bits, l.offset_bits as nat);
        lemma_bits_bound(
            bytes@,
            *pos + l.index_bits + l.offset_bits,
            l.length_bits as nat,
        );
    }
    if l.index_bits != 0 {
        let _extent_index = take_bits(bytes, pos, l.index_bits)?;
    }
    let extent_offset = take_bits(bytes, pos, l.offset_bits)?;
    let extent_length = take_bits(bytes, pos, l.length_bits)?;
    if extent_offset > u64::MAX - base {
        return Err(Error::InvalidData("offset calculation overflow"));
    }
    let start = base + extent_offset;
    if extent_length == 0 {
        Ok(ExtentRange::ToEnd { start })
    } else {
        if extent_length > u64::MAX - start {
            return Err(Error::InvalidData("end calculation overflow"));
        }
        Ok(ExtentRange::WithLength { start, end: start + extent_length })
    }
}

/// Reads what precedes the extents of one item.
fn read_iloc_item_head(bytes: &[u8], pos: &mut u64, l: &IlocLayout) -> (r: Result<
    IlocItemHead,
    Error,
>)
    requires
        l.wf(),
        bytes@.len() <= ILOC_MAX_BYTES,
        *old(pos) <= 8 * bytes@.len(),
    ensures
        r == spec_iloc_item_head(bytes@, *old(pos) as int, *l),
        r is Ok ==> *final(pos) == *old(pos) + l.head_bits(),
        *final(pos) <= 8 * bytes@.len(),
{
    let ghost start = *pos as int;
    proof {
        lemma_pow2_values();
        lemma_bits_bound(bytes@, start, l.id_bits() as nat);
        lemma_bits_bound(bytes@, start + l.id_bits() + 12, 4);
        lemma_bits_bound(bytes@, start + l.id_bits() + l.method_bits(), 16);
        lemma_bits_bound(
            bytes@,
            start + l.id_bits() + l.method_bits() + 16,
            l.base_offset_bits as nat,
        );
        lemma_bits_bound(
            bytes@,
            start + l.id_bits() + l.method_bits() + 16 + l.base_offset_bits,
            16,
        );
    }
    let item_id = match l.version {
        IlocVersion::Two => take_bits(bytes, pos, 32)?,
        _ => take_bits(bytes, pos, 16)?,
    };
    let construction_method = match l.version {
        IlocVersion::Zero => ConstructionMethod::File,
        _ => {
            let _reserved = take_bits(bytes, pos, 12)?;
            let method = take_bits(bytes, pos, 4)?;
            if method == 0 {
                ConstructionMethod::File
            } else if method == 1 {
                ConstructionMethod::Idat
            } else if method == 2 {
                return Err(
                    Error::Unsupported("construction_method 'item_offset' is not supported"),
                );
            } else {
                return Err(
                    Error::InvalidData(
                        "construction_method is taken from the set 0, 1 or 2 per ISO 14496-12:2015 \u{a7} 8.11.3.3",
                    ),
                );
            }
        },
    };
    let data_reference_index = take_bits(bytes, pos, 16)?;
    if data_reference_index != 0 {
        return Err(
            Error::Unsupported(
                "external file references (iloc.data_reference_index != 0) are not supported",
            ),
        );
    }
    let base_offset = take_bits(bytes, pos, l.base_offset_bits)?;
    let extent_count = take_bits(bytes, pos, 16)?;
    if extent_count < 1 {
        return Err(
            Error::InvalidData(
                "extent_count must have a value 1 or greater per ISO 14496-12:2015 \u{a7} 8.11.3.3",
            ),
        );
    }
    Ok(
        IlocItemHead {
            item_id: item_id as u32,
            construction_method,
            base_offset,
            extent_count: extent_count as u16,
        },
    )
}

/// Reads the `count` extents of one item.
fn read_iloc_extents(bytes: &[u8], pos: &mut u64, l: &IlocLayout, base: u64, count: u16) -> (r:
    Result<Vec<ExtentRange>, Error>)
    requires
        l.wf(),
        bytes@.len() <= ILOC_MAX_BYTES,
        *old(pos) <= 8 * bytes@.len(),
    ensures
        match r {
            Ok(v) => spec_iloc_extents(
                bytes@,
                *old(pos) as int,
                *l,
                base,
                count as nat,
                Seq::empty(),
            ) == Ok::<Seq<ExtentRange>, Error>(v@) && *final(pos) == *old(pos) + count
                * l.extent_bits(),
            Err(e) => !(e is Stopped) && (e is OutOfMemory
                || spec_iloc_extents(
                bytes@,
                *old(pos) as int,
                *l,
                base,
                count as nat,
                Seq::empty(),
            ) == Err::<Seq<ExtentRange>, Error>(e)),
        },
        *final(pos) <= 8 * bytes@.len(),
{
    let ghost whole = spec_iloc_extents(
        bytes@,
        *pos as int,
        *l,
        base,
        count as nat,
        Seq::empty(),
    );
    let mut extents: Vec<ExtentRange> = with_capacity(count as usize)?;
    let mut i: u16 = 0;
    while i < count
        invariant
            l.wf(),
            bytes@.len() <= ILOC_MAX_BYTES,
            i <= count,
            *pos == *old(pos) + i * l.extent_bits(),
            *pos <= 8 * bytes@.len(),
            whole == spec_iloc_extents(
                bytes@,
                *old(pos) as int,
                *l,
                base,
                count as nat,
                Seq::empty(),
            ),
            whole == spec_iloc_extents(bytes@, *pos as int, *l, base, (count - i) as nat, extents@),
        decreases count - i,
    {
        assert((i + 1) * l.extent_bits() == i * l.extent_bits() + l.extent_bits())
            by (nonlinear_arith);
        let ghost here = *pos as int;
        let ghost acc = extents@;
        assert(whole == match spec_iloc_extent(bytes@, here, *l, base) {
            Err(e) => Err(e),
            Ok(x) => spec_iloc_extents(
                bytes@,
                here + l.extent_bits(),
                *l,
                base,
                (count - i - 1) as nat,
                acc.push(x),
            ),
        });
        match read_iloc_extent(bytes, pos, l, base) {
            Err(e) => {
                return Err(e);
            },
            Ok(extent) => match push(&mut extents, extent) {
                Err(e) => {
                    return Err(e);
                },
                Ok(()) => {},
            },
        }
        i = i + 1;
    }
    Ok(extents)
}

/// Reads one item of the table.
fn read_iloc_item(bytes: &[u8], pos: &mut u64, l: &IlocLayout) -> (r: Result<ItemLocation, Error>)
    requires
        l.wf(),
        bytes@.len() <= ILOC_MAX_BYTES,
        *old(pos) <= 8 * bytes@.len(),
    ensures
        agrees(r, spec_iloc_item(bytes@, *old(pos) as int, *l)),
        spec_iloc_item_head(bytes@, *old(pos) as int, *l) matches Err(e) ==> r == Err::<
            ItemLocation,
            Error,
        >(e),
        r is Ok ==> *final(pos) == *old(pos) + spec_iloc_item_bits(bytes@, *old(pos) as int, *l),
        *final(pos) <= 8 * bytes@.len(),
{
    let ghost start = *pos as int;
    proof {
        lemma_pow2_values();
        lemma_bits_bound(bytes@, start + l.head_bits() - 16, 16);
    }
    let head = match read_iloc_item_head(bytes, pos, l) {
        Err(e) => {
            return Err(e);
        },
        Ok(head) => head,
    };
    let extents = match read_iloc_extents(bytes, pos, l, head.base_offset, head.extent_count) {
        Err(e) => {
            return Err(e);
        },
        Ok(extents) => extents,
    };
    Ok(
        ItemLocation {
            item_id: head.item_id,
            construction_method: head.construction_method,
            extents,
        },
    )
}

/// Reads the `count` items of the table.
fn read_iloc_items(bytes: &[u8], pos: &mut u64, l: &IlocLayout, count: u32) -> (r: Result<
    Vec<ItemLocation>,
    Error,
>)
    requires
        l.wf(),
        bytes@.len() <= ILOC_MAX_BYTES,
        *old(pos) <= 8 * bytes@.len(),
    ensures
        match r {
            Ok(v) => spec_iloc_items(bytes@, *old(pos) as int, *l, count as nat, Seq::empty())
                == Ok::<(Seq<ItemLocationView>, int), Error>((v.deep_view(), *final(pos) as int)),
            Err(e) => !(e is Stopped) && (e is OutOfMemory
                || spec_iloc_items(
                bytes@,
                *old(pos) as int,
                *l,
                count as nat,
                Seq::empty(),
            ) == Err::<(Seq<ItemLocationView>, int), Error>(e)),
        },
        *final(pos) <= 8 * bytes@.len(),
{
    let ghost whole = spec_iloc_items(bytes@, *pos as int, *l, count as nat, Seq::empty());
    let mut items: Vec<ItemLocation> = with_capacity(count as usize)?;
    proof {
        lemma_deep_view_empty(items);
    }
    let mut i: u32 = 0;
    while i < count
        invariant
            l.wf(),
            bytes@.len() <= ILOC_MAX_BYTES,
            i <= count,
            *pos <= 8 * bytes@.len(),
            whole == spec_iloc_items(bytes@, *old(pos) as int, *l, count as nat, Seq::empty()),
            whole == spec_iloc_items(
                bytes@,
                *pos as int,
                *l,
                (count - i) as nat,
                items.deep_view(),
            ),
        decreases count - i,
    {
        let ghost here = *pos as int;
        let ghost acc = items.deep_view();
        assert(whole == match spec_iloc_item(bytes@, here, *l) {
            Err(e) => Err(e),
            Ok(item) => spec_iloc_items(
                bytes@,
                here + spec_iloc_item_bits(bytes@, here, *l),
                *l,
                (count - i - 1) as nat,
                acc.push(item),
            ),
        });
        let item = match read_iloc_item(bytes, pos, l) {
            Err(e) => {
                return Err(e);
            },
            Ok(item) => item,
        };
        let ghost before = items;
        let ghost value = item.deep_view();
        match push(&mut items, item) {
            Err(e) => {
                return Err(e);
            },
            Ok(()) => {},
        }
        proof {
            assert(items.deep_view() =~= acc.push(value));
        }
        i = i + 1;
    }
    Ok(items)
}

/// Parses an item location box.
pub fn read_iloc(data: &[u8], src: &mut BMFFBox, options: &ParseOptions) -> (r: Result<
    Vec<ItemLocation>,
    Error,
>)
    requires
        old(src).wf(data@.len()),
    ensures
        final(src).wf(data@.len()),
        agrees(r, spec_read_iloc(data@, *old(src), options.lenient)),
        r is Ok ==> *final(src) == old(src).drained(),
        spec_fullbox_version_no_flags(data@, *old(src), options.lenient) matches Err(e) ==> r
            == Err::<Vec<ItemLocation>, Error>(e),
        spec_fullbox_version_no_flags(data@, *old(src), options.lenient) matches Ok(v) ==> (
        IlocVersion::spec_try_from(v) matches Err(e) ==> r == Err::<Vec<ItemLocation>, Error>(e)),
{
    let version = IlocVersion::try_from(read_fullbox_version_no_flags(data, src, options)?)?;
    let iloc = src.read_into_try_vec(data)?;
    let bytes = iloc.as_slice();
    if bytes.len() as u64 > ILOC_MAX_BYTES {
        return Err(Error::Unsupported("iloc box too large"));
    }
    let l = read_iloc_layout(bytes, version)?;
    let mut pos: u64 = 16;
    let item_count = match version {
        IlocVersion::Two => take_bits(bytes, &mut pos, 32)?,
        _ => take_bits(bytes, &mut pos, 16)?,
    };
    proof {
        lemma_pow2_values();
        lemma_bits_bound(bytes@, 16, l.id_bits() as nat);
    }
    let items = read_iloc_items(bytes, &mut pos, &l, item_count as u32)?;
    if pos == 8 * (bytes.len() as u64) {
        Ok(items)
    } else {
        Err(Error::InvalidData("invalid iloc size"))
    }
}

/// The extents that are read are as many as were asked for, and none of
/// them is an empty range.
pub proof fn lemma_iloc_extents_wf(
    s: Seq<u8>,
    pos: int,
    l: IlocLayout,
    base: u64,
    count: nat,
    acc: Seq<ExtentRange>,
)
    requires
        forall|i: int| 0 <= i < acc.len() ==> (#[trigger] acc[i]).wf(),
    ensures
        spec_iloc_extents(s, pos, l, base, count, acc) matches Ok(out) ==> out.len() == acc.len()
            + count && forall|i: int| 0 <= i < out.len() ==> (#[trigger] out[i]).wf(),
    decreases count,
{
    if count > 0 {
        match spec_iloc_extent(s, pos, l, base) {
            Err(_) => {},
            Ok(x) => {
                assert(x.wf());
                let next = acc.push(x);
                assert forall|i: int| 0 <= i < next.len() implies (#[trigger] next[i]).wf() by {
                    if i < acc.len() {
                        assert(next[i] == acc[i]);
                    }
                }
                lemma_iloc_extents_wf(s, pos + l.extent_bits(), l, base, (count - 1) as nat, next);
            },
        }
    }
}

/// The items that are read each have at least one extent, and no extent
/// that is an empty range.
pub proof fn lemma_iloc_items_wf(
    s: Seq<u8>,
    pos: int,
    l: IlocLayout,
    count: nat,
    acc: Seq<ItemLocationView>,
)
    requires
        spec_locations_wf(acc),
    ensures
        spec_iloc_items(s, pos, l, count, acc) matches Ok((out, _)) ==> spec_locations_wf(out),
    decreases count,
{
    if count > 0 {
        match spec_iloc_item(s, pos, l) {
            Err(_) => {},
            Ok(item) => {
                let h = spec_iloc_item_head(s, pos, l)->Ok_0;
                lemma_pow2_values();
                lemma_bits_bound(s, pos + l.head_bits() - 16, 16);
                lemma_iloc_extents_wf(
                    s,
                    pos + l.head_bits(),
                    l,
                    h.base_offset,
                    h.extent_count as nat,
                    Seq::empty(),
                );
                assert(item.wf());
                let next = acc.push(item);
                assert forall|i: int| 0 <= i < next.len() implies (#[trigger] next[i]).wf() by {
                    if i < acc.len() {
                        assert(next[i] == acc[i]);
                    }
                }
                lemma_iloc_items_wf(
                    s,
                    pos + spec_iloc_item_bits(s, pos, l),
                    l,
                    (count - 1) as nat,
                    next,
                );
            },
        }
    }
}

/// Every item of an `iloc` box that is accepted has at least one extent,
/// and no extent that is an empty range.
pub proof fn lemma_read_iloc_wf(data: Seq<u8>, b: BMFFBox, lenient: bool)
    ensures
        spec_read_iloc(data, b, lenient) matches Ok(items) ==> spec_locations_wf(items),
{
    match spec_fullbox_version_no_flags(data, b, lenient) {
        Err(_) => {},
        Ok(v) => match IlocVersion::spec_try_from(v) {
            Err(_) => {},
            Ok(version) => {
                let s = data.subrange(b.pos + 4, b.end as int);
                match spec_iloc_layout(s, version) {
                    Err(_) => {},
                    Ok(l) => {
                        lemma_iloc_items_wf(
                            s,
                            16 + l.id_bits(),
                            l,
                            spec_bits(s, 16, l.id_bits() as nat),
                            Seq::empty(),
                        );
                    },
                }
            },
        }
    }
}

} // verus!
