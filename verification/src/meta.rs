//! The `meta` box: which item is the primary one, what the items are, how
//! they refer to each other and where their bytes lie.
use vstd::prelude::*;
use crate::boxes::{BoxType, FourCC, FOURCC_AV01, FOURCC_GRID};
use crate::bytes::{spec_be_u16, spec_be_u32};
use crate::config::ParseOptions;
use crate::error::{agrees, Error};
use crate::fallible::{push, with_capacity};
use crate::iloc::{lemma_read_iloc_wf, read_iloc, spec_read_iloc};
use crate::items::{
    lemma_deep_view_empty, spec_locations_wf, spec_references_wf, ItemInfoEntry, ItemLocation,
    ItemLocationView, ItemReference,
};
use crate::props::{read_iprp, spec_read_iprp, AssociatedProperty, AssociatedPropertyView};
use crate::reader::{
    lemma_advanced_twice, check_parser_state, read_fullbox_extra, read_fullbox_version_no_flags,
    spec_check_parser_state, spec_fold_boxes, spec_fullbox_extra, spec_fullbox_version_no_flags,
    BMFFBox,
};

verus! {

/// The id of the primary item in the `pitm` box `b`.
pub open spec fn spec_read_pitm(data: Seq<u8>, b: BMFFBox, lenient: bool) -> Result<u32, Error> {
    match spec_fullbox_version_no_flags(data, b, lenient) {
        Err(e) => Err(e),
        Ok(version) => if version == 0 {
            if b.avail() < 6 {
                Err(Error::UnexpectedEOF)
            } else {
                Ok(spec_be_u16(data, b.pos + 4) as u32)
            }
        } else if version == 1 {
            if b.avail() < 8 {
                Err(Error::UnexpectedEOF)
            } else {
                Ok(spec_be_u32(data, b.pos + 4))
            }
        } else {
            Err(Error::Unsupported("unsupported pitm version"))
        },
    }
}

/// Number of bytes that a well-formed `pitm` box at `b` holds.
pub open spec fn spec_pitm_len(data: Seq<u8>, b: BMFFBox) -> int {
    if data[b.pos as int] == 0 {
        6
    } else {
        8
    }
}

/// Parses a primary item box.
pub fn read_pitm(data: &[u8], src: &mut BMFFBox, options: &ParseOptions) -> (r: Result<u32, Error>)
    requires
        old(src).wf(data@.len()),
    ensures
        final(src).wf(data@.len()),
        r == spec_read_pitm(data@, *old(src), options.lenient),
        r is Ok ==> *final(src) == old(src).advanced(spec_pitm_len(data@, *old(src))),
{
    let version = read_fullbox_version_no_flags(data, src, options)?;
    if version == 0 {
        Ok(src.be_u16(data)? as u32)
    } else if version == 1 {
        src.be_u32(data)
    } else {
        Err(Error::Unsupported("unsupported pitm version"))
    }
}

/// The entry in the `infe` box `b`.
pub open spec fn spec_read_infe(data: Seq<u8>, b: BMFFBox) -> Result<ItemInfoEntry, Error> {
    if b.avail() < 4 {
        Err(Error::UnexpectedEOF)
    } else {
        let version = spec_fullbox_extra(data, b.pos as int).0;
        if version != 2 && version != 3 {
            Err(Error::Unsupported("unsupported version in 'infe' box"))
        } else {
            let idw: int = if version == 2 {
                2
            } else {
                4
            };
            if b.avail() < 4 + idw + 2 {
                Err(Error::UnexpectedEOF)
            } else if spec_be_u16(data, b.pos + 4 + idw) != 0 {
                Err(
                    Error::Unsupported(
                        "protected items (infe.item_protection_index != 0) are not supported",
                    ),
                )
            } else if b.avail() < 4 + idw + 6 {
                Err(Error::UnexpectedEOF)
            } else {
                Ok(
                    ItemInfoEntry {
                        item_id: if version == 2 {
                            spec_be_u16(data, b.pos + 4) as u32
                        } else {
                            spec_be_u32(data, b.pos + 4)
                        },
                        item_type: FourCC { value: spec_be_u32(data, b.pos + 4 + idw + 2) },
                    },
                )
            }
        }
    }
}

/// Parses an item info entry; the fields after the item type are skipped.
pub fn read_infe(data: &[u8], src: &mut BMFFBox) -> (r: Result<ItemInfoEntry, Error>)
    requires
        old(src).wf(data@.len()),
    ensures
        final(src).wf(data@.len()),
        r == spec_read_infe(data@, *old(src)),
        r is Ok ==> *final(src) == old(src).drained(),
{
    let (version, _) = read_fullbox_extra(data, src)?;
    let item_id: u32 = if version == 2 {
        src.be_u16(data)? as u32
    } else if version == 3 {
        src.be_u32(data)?
    } else {
        return Err(Error::Unsupported("unsupported version in 'infe' box"));
    };
    let item_protection_index = src.be_u16(data)?;
    if item_protection_index != 0 {
        return Err(
            Error::Unsupported(
                "protected items (infe.item_protection_index != 0) are not supported",
            ),
        );
    }
    let item_type = FourCC { value: src.be_u32(data)? };
    src.skip_box_remain();
    Ok(ItemInfoEntry { item_id, item_type })
}

/// What the child box `child` of an `iinf` box adds: its entry, if it is
/// an `infe` box that is read to its end.
pub open spec fn spec_iinf_child(data: Seq<u8>, child: BMFFBox) -> Result<ItemInfoEntry, Error> {
    if child.head.name != BoxType::ItemInfoEntry {
        Err(Error::InvalidData("iinf box should contain only infe boxes"))
    } else {
        match spec_read_infe(data, child) {
            Err(e) => Err(e),
            Ok(entry) => match spec_check_parser_state(child.drained()) {
                Err(e) => Err(e),
                Ok(()) => Ok(entry),
            },
        }
    }
}

/// One step of the walk over an `iinf` box.
pub open spec fn spec_iinf_step(data: Seq<u8>) -> spec_fn(BMFFBox, Seq<ItemInfoEntry>) -> Result<
    (Seq<ItemInfoEntry>, bool),
    Error,
> {
    |child: BMFFBox, acc: Seq<ItemInfoEntry>|
        match spec_iinf_child(data, child) {
            Err(e) => Err(e),
            Ok(entry) => Ok((acc.push(entry), false)),
        }
}

/// The entries in the `iinf` box `b`, in order.
pub open spec fn spec_read_iinf(data: Seq<u8>, b: BMFFBox, lenient: bool) -> Result<
    Seq<ItemInfoEntry>,
    Error,
> {
    match spec_fullbox_version_no_flags(data, b, lenient) {
        Err(e) => Err(e),
        Ok(version) => if version > 1 {
            Err(Error::Unsupported("unsupported iinf version"))
        } else {
            let cw: int = if version == 0 {
                2
            } else {
                4
            };
            if b.avail() < 4 + cw {
                Err(Error::UnexpectedEOF)
            } else {
                spec_fold_boxes(data, b.advanced(4 + cw), Seq::empty(), spec_iinf_step(data))
            }
        },
    }
}

/// Reads the entries of an item information box whose entry count has
/// been read, into `item_infos`.
#[verifier::loop_isolation(false)]
fn read_iinf_entries(data: &[u8], src: &mut BMFFBox, item_infos: &mut Vec<ItemInfoEntry>) -> (r:
    Result<(), Error>)
    requires
        old(src).wf(data@.len()),
    ensures
        final(src).wf(data@.len()),
        old(src).spec_next_box(data@) matches Err(e) ==> (r matches Err(x) && x == e),
        old(src).spec_next_box(data@) matches Ok(None) ==> r is Ok,
        match r {
            Ok(()) => spec_fold_boxes(data@, *old(src), old(item_infos)@, spec_iinf_step(data@))
                == Ok::<Seq<ItemInfoEntry>, Error>(final(item_infos)@) && *final(src) == old(
                src,
            ).drained(),
            Err(e) => !(e is Stopped) && (e is OutOfMemory
                || spec_fold_boxes(
                data@,
                *old(src),
                old(item_infos)@,
                spec_iinf_step(data@),
            ) == Err::<Seq<ItemInfoEntry>, Error>(e)),
        },
{
    let ghost step = spec_iinf_step(data@);
    let ghost whole = spec_fold_boxes(data@, *src, item_infos@, step);
    let ghost start = *src;
    let ghost mut started = false;
    let mut done = false;
    while !done
        invariant
            src.wf(data@.len()),
            !started && !done ==> *src == start,
            started ==> (start.spec_next_box(data@) matches Ok(Some(_))),
            !started && done ==> (start.spec_next_box(data@) matches Ok(None)),
            src.drained() == old(src).drained(),
            !done ==> whole == spec_fold_boxes(data@, *src, item_infos@, step),
            done ==> whole == Ok::<Seq<ItemInfoEntry>, Error>(item_infos@) && *src == old(
                src,
            ).drained(),
        decreases
                (if done {
                    0
                } else {
                    src.avail() + 1
                }),
    {
        let mut b = match src.next_box(data) {
            Err(e) => {
                return Err(e);
            },
            Ok(None) => {
                done = true;
                continue ;
            },
            Ok(Some(b)) => b,
        };
        proof {
            started = true;
        }
        let entry = match read_iinf_child(data, &mut b) {
            Err(e) => {
                return Err(e);
            },
            Ok(entry) => entry,
        };
        match push(item_infos, entry) {
            Err(e) => {
                return Err(e);
            },
            Ok(()) => {},
        }
    }
    Ok(())
}

/// Parses one child box of an item information box.
pub fn read_iinf_child(data: &[u8], child: &mut BMFFBox) -> (r: Result<ItemInfoEntry, Error>)
    requires
        old(child).wf(data@.len()),
    ensures
        final(child).wf(data@.len()),
        r == spec_iinf_child(data@, *old(child)),
{
    if child.head.name != BoxType::ItemInfoEntry {
        return Err(Error::InvalidData("iinf box should contain only infe boxes"));
    }
    let entry = read_infe(data, child)?;
    check_parser_state(child)?;
    Ok(entry)
}

/// Parses an item information box.
pub fn read_iinf(data: &[u8], src: &mut BMFFBox, options: &ParseOptions) -> (r: Result<
    Vec<ItemInfoEntry>,
    Error,
>)
    requires
        old(src).wf(data@.len()),
    ensures
        final(src).wf(data@.len()),
        match r {
            Ok(v) => spec_read_iinf(data@, *old(src), options.lenient) == Ok::<
                Seq<ItemInfoEntry>,
                Error,
            >(v@),
            Err(e) => !(e is Stopped) && (e is OutOfMemory
                || spec_read_iinf(data@, *old(src), options.lenient)
                == Err::<Seq<ItemInfoEntry>, Error>(e)),
        },
        r is Ok ==> *final(src) == old(src).drained(),
        spec_fullbox_version_no_flags(data@, *old(src), options.lenient) matches Err(e)
            ==> (r matches Err(x) && x == e),
        spec_fullbox_version_no_flags(data@, *old(src), options.lenient) matches Ok(v)
            ==> (v > 1 ==> (r matches Err(x)
            && x == Error::Unsupported("unsupported iinf version"))),
{
    let version = read_fullbox_version_no_flags(data, src, options)?;
    if version > 1 {
        return Err(Error::Unsupported("unsupported iinf version"));
    }
    let entry_count: usize = if version == 0 {
        src.be_u16(data)? as usize
    } else {
        src.be_u32(data)? as usize
    };
    proof {
        lemma_advanced_twice(
            *old(src),
            4,
            if version == 0 {
                2
            } else {
                4
            },
        );
    }
    let mut item_infos: Vec<ItemInfoEntry> = with_capacity(entry_count)?;
    match read_iinf_entries(data, src, &mut item_infos) {
        Err(e) => Err(e),
        Ok(()) => Ok(item_infos),
    }
}

/// Width in bytes of an item id in an `iref` box.
pub open spec fn spec_iref_id_width(wide: bool) -> int {
    if wide {
        4
    } else {
        2
    }
}

/// The item id written at offset `at`.
pub open spec fn spec_iref_id(data: Seq<u8>, at: int, wide: bool) -> u32 {
    if wide {
        spec_be_u32(data, at)
    } else {
        spec_be_u16(data, at) as u32
    }
}

/// `acc` followed by the references number `k` up to `count` of the
/// reference box `child`, whose `to` ids start at offset `at`.
pub open spec fn spec_iref_targets(
    data: Seq<u8>,
    child: BMFFBox,
    wide: bool,
    from: u32,
    at: int,
    k: nat,
    count: nat,
    acc: Seq<ItemReference>,
) -> Result<Seq<ItemReference>, Error>
    decreases count - k,
{
    let idw = spec_iref_id_width(wide);
    if k >= count {
        Ok(acc)
    } else if at + (k + 1) * idw > child.end {
        Err(Error::UnexpectedEOF)
    } else if spec_iref_id(data, at + k * idw, wide) == from {
        Err(Error::InvalidData("from_item_id and to_item_id must be different"))
    } else {
        spec_iref_targets(
            data,
            child,
            wide,
            from,
            at,
            k + 1,
            count,
            acc.push(
                ItemReference {
                    item_type: FourCC { value: child.head.name.spec_code() },
                    from_item_id: from,
                    to_item_id: spec_iref_id(data, at + k * idw, wide),
                    reference_index: k as u16,
                },
            ),
        )
    }
}

/// `acc` followed by the references in the reference box `child`, which
/// must be read to its end.
pub open spec fn spec_iref_child(
    data: Seq<u8>,
    child: BMFFBox,
    wide: bool,
    acc: Seq<ItemReference>,
) -> Result<Seq<ItemReference>, Error> {
    let idw = spec_iref_id_width(wide);
    if child.avail() < idw + 2 {
        Err(Error::UnexpectedEOF)
    } else {
        let count = spec_be_u16(data, child.pos + idw);
        match spec_iref_targets(
            data,
            child,
            wide,
            spec_iref_id(data, child.pos as int, wide),
            child.pos + idw + 2,
            0,
            count as nat,
            acc,
        ) {
            Err(e) => Err(e),
            Ok(refs) => match spec_check_parser_state(child.advanced(idw + 2 + count * idw)) {
                Err(e) => Err(e),
                Ok(()) => Ok(refs),
            },
        }
    }
}

/// One step of the walk over an `iref` box.
pub open spec fn spec_iref_step(data: Seq<u8>, wide: bool) -> spec_fn(
    BMFFBox,
    Seq<ItemReference>,
) -> Result<(Seq<ItemReference>, bool), Error> {
    |child: BMFFBox, acc: Seq<ItemReference>|
        match spec_iref_child(data, child, wide, acc) {
            Err(e) => Err(e),
            Ok(next) => Ok((next, false)),
        }
}

/// The references in the `iref` box `b`, in order.
pub open spec fn spec_read_iref(data: Seq<u8>, b: BMFFBox, lenient: bool) -> Result<
    Seq<ItemReference>,
    Error,
> {
    match spec_fullbox_version_no_flags(data, b, lenient) {
        Err(e) => Err(e),
        Ok(version) => if version > 1 {
            Err(Error::Unsupported("iref version"))
        } else {
            spec_fold_boxes(data, b.advanced(4), Seq::empty(), spec_iref_step(data, version == 1))
        },
    }
}

/// Reads the references of one reference box and appends them to `refs`.
#[verifier::loop_isolation(false)]
pub fn read_iref_child(data: &[u8], child: &mut BMFFBox, wide: bool, refs: &mut Vec<ItemReference>) -> (r:
    Result<(), Error>)
    requires
        old(child).wf(data@.len()),
    ensures
        final(child).wf(data@.len()),
        match r {
            Ok(()) => spec_iref_child(data@, *old(child), wide, old(refs)@) == Ok::<
                Seq<ItemReference>,
                Error,
            >(final(refs)@),
            Err(e) => !(e is Stopped) && (e is OutOfMemory
                || spec_iref_child(data@, *old(child), wide, old(refs)@)
                == Err::<Seq<ItemReference>, Error>(e)),
        },
        old(child).avail() < spec_iref_id_width(wide) + 2 ==> (r matches Err(x)
            && x == Error::UnexpectedEOF),
        old(child).avail() >= spec_iref_id_width(wide) + 2
            && spec_be_u16(data@, old(child).pos + spec_iref_id_width(wide)) == 0
            ==> !(r matches Err(Error::OutOfMemory)),
{
    let ghost whole = spec_iref_child(data@, *child, wide, refs@);
    let ghost idw = spec_iref_id_width(wide);
    let from_item_id: u32 = if wide {
        child.be_u32(data)?
    } else {
        child.be_u16(data)? as u32
    };
    let reference_count = child.be_u16(data)?;
    let item_type = FourCC { value: child.head.name.code() };
    let ghost at = child.pos as int;
    let mut reference_index: u16 = 0;
    while reference_index < reference_count
        invariant
            child.wf(data@.len()),
            child.end == old(child).end,
            child.head == old(child).head,
            reference_index <= reference_count,
            child.pos == at + reference_index * idw,
            child.limit == old(child).limit - (child.pos - old(child).pos),
            at == old(child).pos + idw + 2,
            reference_count == spec_be_u16(data@, old(child).pos + idw),
            from_item_id == spec_iref_id(data@, old(child).pos as int, wide),
            spec_iref_targets(
                data@,
                *old(child),
                wide,
                from_item_id,
                at,
                0,
                reference_count as nat,
                old(refs)@,
            ) == spec_iref_targets(
                data@,
                *old(child),
                wide,
                from_item_id,
                at,
                reference_index as nat,
                reference_count as nat,
                refs@,
            ),
        decreases reference_count - reference_index,
    {
        assert((reference_index + 1) * idw == reference_index * idw + idw) by (nonlinear_arith);
        let to_item_id: u32 = if wide {
            child.be_u32(data)?
        } else {
            child.be_u16(data)? as u32
        };
        if from_item_id == to_item_id {
            return Err(Error::InvalidData("from_item_id and to_item_id must be different"));
        }
        match push(
            refs,
            ItemReference { item_type, from_item_id, to_item_id, reference_index },
        ) {
            Err(e) => {
                return Err(e);
            },
            Ok(()) => {},
        }
        reference_index = reference_index + 1;
    }
    assert(*child == old(child).advanced(idw + 2 + reference_count * idw));
    check_parser_state(child)
}

/// Walks over the reference boxes of an item reference box whose version
/// has been read, and gathers their references.
#[verifier::loop_isolation(false)]
fn read_iref_children(data: &[u8], src: &mut BMFFBox, wide: bool) -> (r: Result<
    Vec<ItemReference>,
    Error,
>)
    requires
        old(src).wf(data@.len()),
    ensures
        final(src).wf(data@.len()),
        old(src).spec_next_box(data@) matches Err(e) ==> (r matches Err(x) && x == e),
        old(src).spec_next_box(data@) matches Ok(None) ==> r is Ok,
        match r {
            Ok(v) => spec_fold_boxes(data@, *old(src), Seq::empty(), spec_iref_step(data@, wide))
                == Ok::<Seq<ItemReference>, Error>(v@),
            Err(e) => !(e is Stopped) && (e is OutOfMemory || spec_fold_boxes(
                data@,
                *old(src),
                Seq::empty(),
                spec_iref_step(data@, wide),
            ) == Err::<Seq<ItemReference>, Error>(e)),
        },
        r is Ok ==> *final(src) == old(src).drained(),
{
    let mut item_references: Vec<ItemReference> = Vec::new();
    let ghost step = spec_iref_step(data@, wide);
    let ghost whole = spec_fold_boxes(data@, *src, item_references@, step);
    let ghost start = *src;
    let ghost mut started = false;
    let mut done = false;
    while !done
        invariant
            src.wf(data@.len()),
            !started && !done ==> *src == start,
            started ==> (start.spec_next_box(data@) matches Ok(Some(_))),
            !started && done ==> (start.spec_next_box(data@) matches Ok(None)),
            src.drained() == old(src).drained(),
            !done ==> whole == spec_fold_boxes(data@, *src, item_references@, step),
            done ==> whole == Ok::<Seq<ItemReference>, Error>(item_references@) && *src == old(
                src,
            ).drained(),
        decreases
                (if done {
                    0
                } else {
                    src.avail() + 1
                }),
    {
        let mut b = match src.next_box(data) {
            Err(e) => {
                return Err(e);
            },
            Ok(None) => {
                done = true;
                continue ;
            },
            Ok(Some(b)) => b,
        };
        proof {
            started = true;
        }
        match read_iref_child(data, &mut b, wide, &mut item_references) {
            Err(e) => {
                return Err(e);
            },
            Ok(()) => {},
        }
    }
    Ok(item_references)
}

/// Parses an item reference box.
pub fn read_iref(data: &[u8], src: &mut BMFFBox, options: &ParseOptions) -> (r: Result<
    Vec<ItemReference>,
    Error,
>)
    requires
        old(src).wf(data@.len()),
    ensures
        final(src).wf(data@.len()),
        spec_fullbox_version_no_flags(data@, *old(src), options.lenient) matches Err(e) ==> (
        r matches Err(x) && x == e),
        spec_fullbox_version_no_flags(data@, *old(src), options.lenient) matches Ok(v) ==> (v > 1
            ==> (r matches Err(x) && x == Error::Unsupported("iref version"))),
        spec_fullbox_version_no_flags(data@, *old(src), options.lenient) matches Ok(v) ==> (v <= 1
            ==> (old(src).advanced(4).spec_next_box(data@) matches Err(e) ==> (r matches Err(x)
            && x == e))),
        spec_fullbox_version_no_flags(data@, *old(src), options.lenient) matches Ok(v) ==> (v <= 1
            ==> (old(src).advanced(4).spec_next_box(data@) matches Ok(None) ==> r is Ok)),
        match r {
            Ok(v) => spec_read_iref(data@, *old(src), options.lenient) == Ok::<
                Seq<ItemReference>,
                Error,
            >(v@),
            Err(e) => !(e is Stopped) && (e is OutOfMemory || spec_read_iref(
                data@,
                *old(src),
                options.lenient,
            ) == Err::<Seq<ItemReference>, Error>(e)),
        },
        r is Ok ==> *final(src) == old(src).drained(),
{
    let version = read_fullbox_version_no_flags(data, src, options)?;
    if version > 1 {
        return Err(Error::Unsupported("iref version"));
    }
    read_iref_children(data, src, version == 1)
}

/// What the `meta` box says about the items of the file.
#[derive(Debug)]
pub struct AvifInternalMeta {
    pub item_references: Vec<ItemReference>,
    pub properties: Vec<AssociatedProperty>,
    pub primary_item_id: u32,
    pub iloc_items: Vec<ItemLocation>,
    pub item_infos: Vec<ItemInfoEntry>,
    /// Content of the `idat` box, if there is one.
    pub idat: Option<Vec<u8>>,
}

/// The mathematical value of an [`AvifInternalMeta`].
pub struct MetaView {
    pub item_references: Seq<ItemReference>,
    pub properties: Seq<AssociatedPropertyView>,
    pub primary_item_id: u32,
    pub iloc_items: Seq<ItemLocationView>,
    pub item_infos: Seq<ItemInfoEntry>,
    pub idat: Option<Seq<u8>>,
}

impl DeepView for AvifInternalMeta {
    type V = MetaView;

    open spec fn deep_view(&self) -> MetaView {
        MetaView {
            item_references: self.item_references@,
            properties: self.properties.deep_view(),
            primary_item_id: self.primary_item_id,
            iloc_items: self.iloc_items.deep_view(),
            item_infos: self.item_infos@,
            idat: match self.idat {
                Some(v) => Some(v@),
                None => None,
            },
        }
    }
}

/// What the walk over a `meta` box has gathered so far.
pub struct MetaParts {
    pub primary_item_id: Option<u32>,
    pub item_infos: Option<Vec<ItemInfoEntry>>,
    pub iloc_items: Option<Vec<ItemLocation>>,
    pub item_references: Vec<ItemReference>,
    pub properties: Vec<AssociatedProperty>,
    pub idat: Option<Vec<u8>>,
}

/// The mathematical value of [`MetaParts`].
pub struct MetaPartsView {
    pub primary_item_id: Option<u32>,
    pub item_infos: Option<Seq<ItemInfoEntry>>,
    pub iloc_items: Option<Seq<ItemLocationView>>,
    pub item_references: Seq<ItemReference>,
    pub properties: Seq<AssociatedPropertyView>,
    pub idat: Option<Seq<u8>>,
}

impl DeepView for MetaParts {
    type V = MetaPartsView;

    open spec fn deep_view(&self) -> MetaPartsView {
        MetaPartsView {
            primary_item_id: self.primary_item_id,
            item_infos: match self.item_infos {
                Some(v) => Some(v@),
                None => None,
            },
            iloc_items: match self.iloc_items {
                Some(v) => Some(v.deep_view()),
                None => None,
            },
            item_references: self.item_references@,
            properties: self.properties.deep_view(),
            idat: match self.idat {
                Some(v) => Some(v@),
                None => None,
            },
        }
    }
}

/// Nothing gathered yet.
pub open spec fn spec_meta_parts_empty() -> MetaPartsView {
    MetaPartsView {
        primary_item_id: None,
        item_infos: None,
        iloc_items: None,
        item_references: Seq::empty(),
        properties: Seq::empty(),
        idat: None,
    }
}

/// What the child box `child` of a `meta` box adds to `acc`, before it is
/// checked that the child was read to its end.
#[verifier::opaque]
pub open spec fn spec_meta_child_parsed(
    data: Seq<u8>,
    child: BMFFBox,
    acc: MetaPartsView,
    lenient: bool,
) -> Result<MetaPartsView, Error> {
    match child.head.name {
        BoxType::ItemInfoBox => if acc.item_infos is Some {
            Err(
                Error::InvalidData(
                    "There should be zero or one iinf boxes per ISO 14496-12:2015 \u{a7} 8.11.6.1",
                ),
            )
        } else {
            match spec_read_iinf(data, child, lenient) {
                Err(e) => Err(e),
                Ok(v) => Ok(MetaPartsView { item_infos: Some(v), ..acc }),
            }
        },
        BoxType::ItemLocationBox => if acc.iloc_items is Some {
            Err(
                Error::InvalidData(
                    "There should be zero or one iloc boxes per ISO 14496-12:2015 \u{a7} 8.11.3.1",
                ),
            )
        } else {
            match spec_read_iloc(data, child, lenient) {
                Err(e) => Err(e),
                Ok(v) => Ok(MetaPartsView { iloc_items: Some(v), ..acc }),
            }
        },
        BoxType::PrimaryItemBox => if acc.primary_item_id is Some {
            Err(
                Error::InvalidData(
                    "There should be zero or one iloc boxes per ISO 14496-12:2015 \u{a7} 8.11.4.1",
                ),
            )
        } else {
            match spec_read_pitm(data, child, lenient) {
                Err(e) => Err(e),
                Ok(id) => Ok(MetaPartsView { primary_item_id: Some(id), ..acc }),
            }
        },
        BoxType::ImageReferenceBox => match spec_read_iref(data, child, lenient) {
            Err(e) => Err(e),
            Ok(v) => Ok(MetaPartsView { item_references: acc.item_references + v, ..acc }),
        },
        BoxType::ImagePropertiesBox => match spec_read_iprp(data, child, lenient) {
            Err(e) => Err(e),
            Ok(v) => Ok(MetaPartsView { properties: v, ..acc }),
        },
        BoxType::ItemDataBox => if acc.idat is Some {
            Err(Error::InvalidData("There should be zero or one idat boxes"))
        } else {
            Ok(
                MetaPartsView {
                    idat: Some(data.subrange(child.pos as int, child.end as int)),
                    ..acc
                },
            )
        },
        _ => Ok(acc),
    }
}

/// The window on `child` after its content has been parsed.
pub open spec fn spec_meta_child_after(data: Seq<u8>, child: BMFFBox) -> BMFFBox {
    if child.head.name == BoxType::PrimaryItemBox {
        child.advanced(spec_pitm_len(data, child))
    } else {
        child.drained()
    }
}

/// What the child box `child` of a `meta` box adds to `acc`.
pub open spec fn spec_meta_child(
    data: Seq<u8>,
    child: BMFFBox,
    acc: MetaPartsView,
    lenient: bool,
) -> Result<MetaPartsView, Error> {
    match spec_meta_child_parsed(data, child, acc, lenient) {
        Err(e) => Err(e),
        Ok(next) => match spec_check_parser_state(spec_meta_child_after(data, child)) {
            Err(e) => Err(e),
            Ok(()) => Ok(next),
        },
    }
}

/// One step of the walk over a `meta` box.
pub open spec fn spec_meta_step(data: Seq<u8>, lenient: bool) -> spec_fn(
    BMFFBox,
    MetaPartsView,
) -> Result<(MetaPartsView, bool), Error> {
    |child: BMFFBox, acc: MetaPartsView|
        match spec_meta_child(data, child, acc, lenient) {
            Err(e) => Err(e),
            Ok(next) => Ok((next, false)),
        }
}

/// The type of the first entry of `infos` that is about item `id`.
pub open spec fn spec_item_type(infos: Seq<ItemInfoEntry>, id: u32) -> Option<FourCC>
    decreases infos.len(),
{
    if infos.len() == 0 {
        None
    } else if infos[0].item_id == id {
        Some(infos[0].item_type)
    } else {
        spec_item_type(infos.drop_first(), id)
    }
}

/// The description of the items, once every child of the `meta` box has
/// been read: the primary item must be named, and must be of type `av01`
/// or `grid`; item infos and locations must be there.
pub open spec fn spec_finish_meta(parts: MetaPartsView) -> Result<MetaView, Error> {
    if parts.primary_item_id is None {
        Err(Error::InvalidData("Required pitm box not present in meta box"))
    } else if parts.item_infos is None {
        Err(Error::InvalidData("iinf missing"))
    } else {
        match spec_item_type(parts.item_infos->0, parts.primary_item_id->0) {
            None => Err(Error::InvalidData("primary_item_id not present in iinf box")),
            Some(t) => if t.value != FOURCC_AV01 && t.value != FOURCC_GRID {
                Err(Error::InvalidData("primary_item_id type is not av01 or grid"))
            } else if parts.iloc_items is None {
                Err(Error::InvalidData("iloc missing"))
            } else {
                Ok(
                    MetaView {
                        item_references: parts.item_references,
                        properties: parts.properties,
                        primary_item_id: parts.primary_item_id->0,
                        iloc_items: parts.iloc_items->0,
                        item_infos: parts.item_infos->0,
                        idat: parts.idat,
                    },
                )
            },
        }
    }
}

/// The description of the items in the `meta` box `b`.
pub open spec fn spec_read_avif_meta(data: Seq<u8>, b: BMFFBox, lenient: bool) -> Result<
    MetaView,
    Error,
> {
    match spec_fullbox_version_no_flags(data, b, lenient) {
        Err(e) => Err(e),
        Ok(version) => if version != 0 {
            Err(Error::Unsupported("unsupported meta version"))
        } else {
            match spec_fold_boxes(
                data,
                b.advanced(4),
                spec_meta_parts_empty(),
                spec_meta_step(data, lenient),
            ) {
                Err(e) => Err(e),
                Ok(parts) => spec_finish_meta(parts),
            }
        },
    }
}

/// The type of the first entry of `infos` that is about item `id`.
#[verifier::loop_isolation(false)]
pub fn find_item_type(infos: &Vec<ItemInfoEntry>, id: u32) -> (r: Option<FourCC>)
    ensures
        r == spec_item_type(infos@, id),
{
    let mut i: usize = 0;
    proof {
        assert(infos@.subrange(0, infos@.len() as int) =~= infos@);
    }
    while i < infos.len()
        invariant
            i <= infos@.len(),
            spec_item_type(infos@, id) == spec_item_type(
                infos@.subrange(i as int, infos@.len() as int),
                id,
            ),
        decreases infos@.len() - i,
    {
        proof {
            assert(infos@.subrange(i as int, infos@.len() as int).drop_first() =~= infos@.subrange(
                i + 1,
                infos@.len() as int,
            ));
        }
        if infos[i].item_id == id {
            return Some(infos[i].item_type);
        }
        i = i + 1;
    }
    None
}

/// Parses the content of one child box of a `meta` box into `acc`.
pub fn read_meta_child_content(
    data: &[u8],
    child: &mut BMFFBox,
    acc: MetaParts,
    options: &ParseOptions,
) -> (r: Result<MetaParts, Error>)
    requires
        old(child).wf(data@.len()),
        old(child).limit == old(child).head.size - old(child).head.offset,
    ensures
        final(child).wf(data@.len()),
        agrees(r, spec_meta_child_parsed(data@, *old(child), acc.deep_view(), options.lenient)),
        r is Ok ==> *final(child) == spec_meta_child_after(data@, *old(child)),
        old(child).head.name != BoxType::ItemInfoBox
            && old(child).head.name != BoxType::ItemLocationBox
            && old(child).head.name != BoxType::ImageReferenceBox
            && old(child).head.name != BoxType::ImagePropertiesBox
            && old(child).head.name != BoxType::ItemDataBox
            ==> !(r matches Err(Error::OutOfMemory)),
        old(child).head.name == BoxType::ItemInfoBox && acc.item_infos is Some ==> r is Err
            && !(r matches Err(Error::OutOfMemory)),
        old(child).head.name == BoxType::ItemLocationBox && acc.iloc_items is Some ==> r is Err
            && !(r matches Err(Error::OutOfMemory)),
        old(child).head.name == BoxType::ItemDataBox && acc.idat is Some ==> r is Err
            && !(r matches Err(Error::OutOfMemory)),
{
    reveal(spec_meta_child_parsed);
    let mut acc = acc;
    match child.head.name {
        BoxType::ItemInfoBox => {
            if acc.item_infos.is_some() {
                return Err(
                    Error::InvalidData(
                        "There should be zero or one iinf boxes per ISO 14496-12:2015 \u{a7} 8.11.6.1",
                    ),
                );
            }
            acc.item_infos = Some(read_iinf(data, child, options)?);
        },
        BoxType::ItemLocationBox => {
            if acc.iloc_items.is_some() {
                return Err(
                    Error::InvalidData(
                        "There should be zero or one iloc boxes per ISO 14496-12:2015 \u{a7} 8.11.3.1",
                    ),
                );
            }
            acc.iloc_items = Some(read_iloc(data, child, options)?);
        },
        BoxType::PrimaryItemBox => {
            if acc.primary_item_id.is_some() {
                return Err(
                    Error::InvalidData(
                        "There should be zero or one iloc boxes per ISO 14496-12:2015 \u{a7} 8.11.4.1",
                    ),
                );
            }
            acc.primary_item_id = Some(read_pitm(data, child, options)?);
        },
        BoxType::ImageReferenceBox => {
            let mut refs = read_iref(data, child, options)?;
            crate::fallible::append(&mut acc.item_references, &mut refs)?;
        },
        BoxType::ImagePropertiesBox => {
            acc.properties = read_iprp(data, child, options)?;
        },
        BoxType::ItemDataBox => {
            if acc.idat.is_some() {
                return Err(Error::InvalidData("There should be zero or one idat boxes"));
            }
            acc.idat = Some(child.read_into_try_vec(data)?);
        },
        _ => {
            child.skip_box_content();
        },
    }
    Ok(acc)
}

/// Parses one child box of a `meta` box into `acc` and checks that the
/// child was read to its end.
pub fn read_meta_child(data: &[u8], child: &mut BMFFBox, acc: MetaParts, options: &ParseOptions) -> (r:
    Result<MetaParts, Error>)
    requires
        old(child).wf(data@.len()),
        old(child).limit == old(child).head.size - old(child).head.offset,
    ensures
        final(child).wf(data@.len()),
        agrees(r, spec_meta_child(data@, *old(child), acc.deep_view(), options.lenient)),
        old(child).head.name != BoxType::ItemInfoBox
            && old(child).head.name != BoxType::ItemLocationBox
            && old(child).head.name != BoxType::ImageReferenceBox
            && old(child).head.name != BoxType::ImagePropertiesBox
            && old(child).head.name != BoxType::ItemDataBox
            ==> !(r matches Err(Error::OutOfMemory)),
{
    let next = read_meta_child_content(data, child, acc, options)?;
    check_parser_state(child)?;
    Ok(next)
}

/// Checks what the walk over a `meta` box has gathered and makes the
/// description of the items from it.
pub fn finish_meta(parts: MetaParts) -> (r: Result<AvifInternalMeta, Error>)
    ensures
        match r {
            Ok(m) => spec_finish_meta(parts.deep_view()) == Ok::<MetaView, Error>(m.deep_view()),
            Err(e) => spec_finish_meta(parts.deep_view()) == Err::<MetaView, Error>(e),
        },
{
    let primary_item_id = match parts.primary_item_id {
        None => {
            return Err(Error::InvalidData("Required pitm box not present in meta box"));
        },
        Some(id) => id,
    };
    let item_infos = match parts.item_infos {
        None => {
            return Err(Error::InvalidData("iinf missing"));
        },
        Some(v) => v,
    };
    match find_item_type(&item_infos, primary_item_id) {
        None => {
            return Err(Error::InvalidData("primary_item_id not present in iinf box"));
        },
        Some(t) => {
            if !t.is(FOURCC_AV01) && !t.is(FOURCC_GRID) {
                return Err(Error::InvalidData("primary_item_id type is not av01 or grid"));
            }
        },
    }
    let iloc_items = match parts.iloc_items {
        None => {
            return Err(Error::InvalidData("iloc missing"));
        },
        Some(v) => v,
    };
    Ok(
        AvifInternalMeta {
            item_references: parts.item_references,
            properties: parts.properties,
            primary_item_id,
            iloc_items,
            item_infos,
            idat: parts.idat,
        },
    )
}

/// Walks over the children of a `meta` box whose version has been read.
#[verifier::loop_isolation(false)]
fn read_meta_children(data: &[u8], src: &mut BMFFBox, options: &ParseOptions) -> (r: Result<
    MetaParts,
    Error,
>)
    requires
        old(src).wf(data@.len()),
    ensures
        final(src).wf(data@.len()),
        old(src).spec_next_box(data@) matches Err(e) ==> (r matches Err(x) && x == e),
        old(src).spec_next_box(data@) matches Ok(None) ==> r is Ok,
        agrees(
            r,
            spec_fold_boxes(
                data@,
                *old(src),
                spec_meta_parts_empty(),
                spec_meta_step(data@, options.lenient),
            ),
        ),
        r is Ok ==> *final(src) == old(src).drained(),
{
    let ghost step = spec_meta_step(data@, options.lenient);
    let mut parts = MetaParts {
        primary_item_id: None,
        item_infos: None,
        iloc_items: None,
        item_references: Vec::new(),
        properties: Vec::new(),
        idat: None,
    };
    proof {
        lemma_deep_view_empty(parts.properties);
    }
    let ghost whole = spec_fold_boxes(data@, *src, parts.deep_view(), step);
    let ghost start = *src;
    let ghost mut started = false;
    let mut done = false;
    while !done
        invariant
            src.wf(data@.len()),
            !started && !done ==> *src == start,
            started ==> (start.spec_next_box(data@) matches Ok(Some(_))),
            !started && done ==> (start.spec_next_box(data@) matches Ok(None)),
            src.drained() == old(src).drained(),
            !done ==> whole == spec_fold_boxes(data@, *src, parts.deep_view(), step),
            done ==> whole == Ok::<MetaPartsView, Error>(parts.deep_view()) && *src == old(
                src,
            ).drained(),
        decreases
                (if done {
                    0
                } else {
                    src.avail() + 1
                }),
    {
        let mut b = match src.next_box(data) {
            Err(e) => {
                return Err(e);
            },
            Ok(None) => {
                done = true;
                continue ;
            },
            Ok(Some(b)) => b,
        };
        proof {
            started = true;
        }
        parts = match read_meta_child(data, &mut b, parts, options) {
            Err(e) => {
                return Err(e);
            },
            Ok(next) => next,
        };
    }
    Ok(parts)
}

/// Parses a `meta` box.
pub fn read_avif_meta(data: &[u8], src: &mut BMFFBox, options: &ParseOptions) -> (r: Result<
    AvifInternalMeta,
    Error,
>)
    requires
        old(src).wf(data@.len()),
    ensures
        final(src).wf(data@.len()),
        agrees(r, spec_read_avif_meta(data@, *old(src), options.lenient)),
        r is Ok ==> *final(src) == old(src).drained(),
        spec_fullbox_version_no_flags(data@, *old(src), options.lenient) matches Err(e) ==> r
            == Err::<AvifInternalMeta, Error>(e),
        spec_fullbox_version_no_flags(data@, *old(src), options.lenient) matches Ok(v) ==> (v != 0
            ==> r == Err::<AvifInternalMeta, Error>(Error::Unsupported("unsupported meta version"))),
        spec_fullbox_version_no_flags(data@, *old(src), options.lenient) matches Ok(v) ==> (v == 0
            ==> (old(src).advanced(4).spec_next_box(data@) matches Err(e) ==> r == Err::<
            AvifInternalMeta,
            Error,
        >(e))),
        spec_fullbox_version_no_flags(data@, *old(src), options.lenient) matches Ok(v) ==> (v == 0
            ==> (old(src).advanced(4).spec_next_box(data@) matches Ok(None) ==> r == Err::<
            AvifInternalMeta,
            Error,
        >(Error::InvalidData("Required pitm box not present in meta box")))),
{
    let version = read_fullbox_version_no_flags(data, src, options)?;
    if version != 0 {
        return Err(Error::Unsupported("unsupported meta version"));
    }
    let parts = read_meta_children(data, src, options)?;
    finish_meta(parts)
}

/// The references that are read from one reference box are none of an
/// item to itself.
pub proof fn lemma_iref_targets_wf(
    data: Seq<u8>,
    child: BMFFBox,
    wide: bool,
    from: u32,
    at: int,
    k: nat,
    count: nat,
    acc: Seq<ItemReference>,
)
    requires
        spec_references_wf(acc),
    ensures
        spec_iref_targets(data, child, wide, from, at, k, count, acc) matches Ok(out)
            ==> spec_references_wf(out),
    decreases count - k,
{
    let idw = spec_iref_id_width(wide);
    if k < count && at + (k + 1) * idw <= child.end && spec_iref_id(data, at + k * idw, wide)
        != from {
        let r = ItemReference {
            item_type: FourCC { value: child.head.name.spec_code() },
            from_item_id: from,
            to_item_id: spec_iref_id(data, at + k * idw, wide),
            reference_index: k as u16,
        };
        let next = acc.push(r);
        assert forall|i: int| 0 <= i < next.len() implies (#[trigger] next[i]).wf() by {
            if i < acc.len() {
                assert(next[i] == acc[i]);
            }
        }
        lemma_iref_targets_wf(data, child, wide, from, at, k + 1, count, next);
    }
}

/// No reference of an `iref` box that is accepted is of an item to itself.
pub proof fn lemma_read_iref_wf(data: Seq<u8>, b: BMFFBox, lenient: bool)
    ensures
        spec_read_iref(data, b, lenient) matches Ok(references) ==> spec_references_wf(references),
{
    match spec_fullbox_version_no_flags(data, b, lenient) {
        Err(_) => {},
        Ok(version) => {
            let wide = version == 1;
            let step = spec_iref_step(data, wide);
            let inv = |acc: Seq<ItemReference>| spec_references_wf(acc);
            assert forall|child: BMFFBox, a: Seq<ItemReference>| inv(a) implies (#[trigger] step(
                child,
                a,
            ) matches Ok((next, _)) ==> inv(next)) by {
                let idw = spec_iref_id_width(wide);
                lemma_iref_targets_wf(
                    data,
                    child,
                    wide,
                    spec_iref_id(data, child.pos as int, wide),
                    child.pos + idw + 2,
                    0,
                    spec_be_u16(data, child.pos + idw) as nat,
                    a,
                );
            }
            crate::reader::lemma_fold_boxes_keeps(data, b.advanced(4), Seq::empty(), step, inv);
        },
    }
}

impl MetaView {
    /// The records are well formed, each by its kind, and the primary item
    /// is an `av01` or a `grid` item.
    pub open spec fn wf(self) -> bool {
        &&& spec_locations_wf(self.iloc_items)
        &&& spec_references_wf(self.item_references)
        &&& crate::props::spec_associated_wf(self.properties)
        &&& spec_item_type(self.item_infos, self.primary_item_id) matches Some(t) && (t.value
            == FOURCC_AV01 || t.value == FOURCC_GRID)
    }
}

/// What is gathered from the children of a `meta` box is well formed.
pub open spec fn spec_meta_parts_wf(parts: MetaPartsView) -> bool {
    &&& parts.iloc_items matches Some(items) ==> spec_locations_wf(items)
    &&& spec_references_wf(parts.item_references)
    &&& crate::props::spec_associated_wf(parts.properties)
}

/// The description of the items in a `meta` box that is accepted is well
/// formed.
pub proof fn lemma_read_avif_meta_wf(data: Seq<u8>, b: BMFFBox, lenient: bool)
    ensures
        spec_read_avif_meta(data, b, lenient) matches Ok(m) ==> m.wf(),
{
    let step = spec_meta_step(data, lenient);
    let inv = |acc: MetaPartsView| spec_meta_parts_wf(acc);
    assert forall|child: BMFFBox, a: MetaPartsView| inv(a) implies (#[trigger] step(
        child,
        a,
    ) matches Ok((next, _)) ==> inv(next)) by {
        reveal(spec_meta_child_parsed);
        lemma_read_iloc_wf(data, child, lenient);
        lemma_read_iref_wf(data, child, lenient);
        crate::props::lemma_read_iprp_wf(data, child, lenient);
        match spec_read_iref(data, child, lenient) {
            Ok(v) => {
                let joined = a.item_references + v;
                assert forall|i: int| 0 <= i < joined.len() implies (#[trigger] joined[i]).wf() by {
                    if i < a.item_references.len() {
                        assert(joined[i] == a.item_references[i]);
                    } else {
                        assert(joined[i] == v[i - a.item_references.len()]);
                    }
                }
            },
            Err(_) => {},
        }
    }
    crate::reader::lemma_fold_boxes_keeps(data, b.advanced(4), spec_meta_parts_empty(), step, inv);
}

} // verus!
