//! The box reader: headers, nested boxes and the primitive reads on a box.
//!
//! A file is a sequence of boxes; a box is a header followed by content,
//! which for a container is again a sequence of boxes. A [`BMFFBox`] is a
//! window on the bytes of one box: the reads below consume from its front.
use vstd::prelude::*;
use vstd::slice::slice_subrange;
use crate::boxes::BoxType;
use crate::bytes::{
    slice_be_u16, slice_be_u32, slice_be_u64, slice_u8, spec_be_u128, spec_be_u16, spec_be_u24,
    spec_be_u32, spec_be_u64,
};
use crate::config::ParseOptions;
use crate::error::Error;
use crate::fallible::{extend, with_capacity};

verus! {

/// Smallest size of a box: four bytes of size and four of type.
pub const BOX_MIN_SIZE: u64 = 8;

/// Smallest size of a box that carries a 64-bit size.
pub const BOX_MIN_LARGE_SIZE: u64 = 16;

/// The size recorded for a box that runs to the end of its container.
pub const BOX_SIZE_TO_END: u64 = 0xffff_ffff_ffff_ffff;

/// The header of a box.
#[derive(Debug, Clone, Copy)]
pub struct BoxHeader {
    /// Box type.
    pub name: BoxType,
    /// Size of the box in bytes, header included; [`BOX_SIZE_TO_END`] for a
    /// box that runs to the end of its container.
    pub size: u64,
    /// Size of the header, which is the offset of the content in the box.
    pub offset: u64,
    /// The extended type of a `uuid` box, as a big-endian integer.
    pub uuid: Option<u128>,
}

/// A window on one box.
#[derive(Debug, Clone, Copy)]
pub struct BMFFBox {
    /// The header that was read for this box.
    pub head: BoxHeader,
    /// Offset in the file of the next unread byte.
    pub pos: usize,
    /// Offset in the file at which the readable bytes of the box end.
    pub end: usize,
    /// Bytes that the box still claims, by its declared size. This exceeds
    /// `end - pos` when the container ends before the box does.
    pub limit: u64,
}

/// What the header bytes at `pos` say, the container ending at `end`, once
/// size and type have been read.
pub open spec fn spec_header_tail(
    data: Seq<u8>,
    pos: int,
    end: int,
    name: BoxType,
    size: u64,
    offset: u64,
) -> BoxHeader {
    if name == BoxType::UuidBox && size >= offset + 16 {
        let count = if end - pos - offset < 16 {
            end - pos - offset
        } else {
            16
        };
        BoxHeader {
            name,
            size,
            offset: (offset + count) as u64,
            uuid: if count == 16 {
                Some(spec_be_u128(data, pos + offset))
            } else {
                None
            },
        }
    } else {
        BoxHeader { name, size, offset, uuid: None }
    }
}

/// The box header that starts at `pos` in a container that ends at `end`:
/// `Ok(None)` when the container ends before the size and type are complete.
#[verifier::opaque]
pub open spec fn spec_box_header(data: Seq<u8>, pos: int, end: int) -> Result<
    Option<BoxHeader>,
    Error,
> {
    if end - pos < 8 {
        Ok(None)
    } else {
        let size32 = spec_be_u32(data, pos);
        let name = BoxType::spec_from(spec_be_u32(data, pos + 4));
        if size32 == 0 {
            Ok(Some(spec_header_tail(data, pos, end, name, BOX_SIZE_TO_END, 8)))
        } else if size32 == 1 {
            if end - pos < 16 {
                Ok(None)
            } else if spec_be_u64(data, pos + 8) < 16 {
                Err(Error::InvalidData("malformed size"))
            } else {
                Ok(Some(spec_header_tail(data, pos, end, name, spec_be_u64(data, pos + 8), 16)))
            }
        } else if size32 < 8 {
            Err(Error::InvalidData("malformed size"))
        } else {
            Ok(Some(spec_header_tail(data, pos, end, name, size32 as u64, 8)))
        }
    }
}

/// The header of a box is never larger than the box.
pub proof fn lemma_header_fits(data: Seq<u8>, pos: int, end: int)
    requires
        0 <= pos <= end,
    ensures
        spec_box_header(data, pos, end) matches Ok(Some(h)) ==> 8 <= h.offset <= h.size
            && h.offset <= 32 && h.offset <= end - pos,
{
    reveal(spec_box_header);
}

/// Reads the box header that starts at `pos` in a container that ends at
/// `end`. `Ok(None)` when the container ends before size and type are
/// complete.
pub fn read_box_header(data: &[u8], pos: usize, end: usize) -> (r: Result<Option<BoxHeader>, Error>)
    requires
        pos <= end <= data@.len(),
    ensures
        r == spec_box_header(data@, pos as int, end as int),
        r matches Err(e) ==> !(e is Stopped) && !(e is OutOfMemory),
{
    reveal(spec_box_header);
    let size32 = match slice_be_u32(data, pos, end) {
        Some(v) => v,
        None => {
            return Ok(None);
        },
    };
    let code = match slice_be_u32(data, pos + 4, end) {
        Some(v) => v,
        None => {
            return Ok(None);
        },
    };
    let name = BoxType::from(code);
    let size: u64;
    let offset: u64;
    if size32 == 0 {
        size = BOX_SIZE_TO_END;
        offset = BOX_MIN_SIZE;
    } else if size32 == 1 {
        let size64 = match slice_be_u64(data, pos + 8, end) {
            Some(v) => v,
            None => {
                return Ok(None);
            },
        };
        if size64 < BOX_MIN_LARGE_SIZE {
            return Err(Error::InvalidData("malformed size"));
        }
        size = size64;
        offset = BOX_MIN_LARGE_SIZE;
    } else {
        if (size32 as u64) < BOX_MIN_SIZE {
            return Err(Error::InvalidData("malformed size"));
        }
        size = size32 as u64;
        offset = BOX_MIN_SIZE;
    }
    if name == BoxType::UuidBox && size >= offset + 16 {
        let at = pos + offset as usize;
        let left = end - at;
        if left >= 16 {
            let hi = slice_be_u64(data, at, end);
            let lo = slice_be_u64(data, at + 8, end);
            match (hi, lo) {
                (Some(hi), Some(lo)) => {
                    let id: u128 = (hi as u128) * 0x1_0000_0000_0000_0000 + (lo as u128);
                    return Ok(Some(BoxHeader { name, size, offset: offset + 16, uuid: Some(id) }));
                },
                _ => {
                    return Ok(None);
                },
            }
        }
        return Ok(Some(BoxHeader { name, size, offset: offset + left as u64, uuid: None }));
    }
    Ok(Some(BoxHeader { name, size, offset, uuid: None }))
}

impl BMFFBox {
    /// The window lies inside a file of `len` bytes and claims at least the
    /// bytes it can read.
    pub open spec fn wf(self, len: nat) -> bool {
        self.pos <= self.end <= len && self.end - self.pos <= self.limit
    }

    /// Number of bytes that can still be read.
    pub open spec fn avail(self) -> int {
        self.end - self.pos
    }

    /// The window after `n` bytes have been consumed.
    pub open spec fn advanced(self, n: int) -> BMFFBox {
        BMFFBox {
            head: self.head,
            pos: (self.pos + n) as usize,
            end: self.end,
            limit: (self.limit - n) as u64,
        }
    }

    /// The window after every readable byte has been consumed.
    pub open spec fn drained(self) -> BMFFBox {
        self.advanced(self.avail())
    }

    /// The window on a whole file of `len` bytes.
    pub open spec fn spec_root(len: nat) -> BMFFBox {
        BMFFBox {
            head: BoxHeader {
                name: BoxType::UnknownBox(0),
                size: BOX_SIZE_TO_END,
                offset: 0,
                uuid: None,
            },
            pos: 0,
            end: len as usize,
            limit: len as u64,
        }
    }

    /// The child box whose header `h` was read at the front of `self`.
    pub open spec fn spec_child(self, h: BoxHeader) -> BMFFBox {
        let start = self.pos + h.offset;
        BMFFBox {
            head: h,
            pos: start as usize,
            end: if h.size - h.offset <= self.end - start {
                (start + h.size - h.offset) as usize
            } else {
                self.end
            },
            limit: (h.size - h.offset) as u64,
        }
    }

    /// The next child box of `self`, and `self` moved past that child.
    /// `Ok(None)` at the end of the children.
    pub open spec fn spec_next_box(self, data: Seq<u8>) -> Result<Option<(BMFFBox, BMFFBox)>, Error> {
        match spec_box_header(data, self.pos as int, self.end as int) {
            Err(e) => Err(e),
            Ok(None) => Ok(None),
            Ok(Some(h)) => {
                let child = self.spec_child(h);
                Ok(Some((child, self.advanced(child.end - self.pos))))
            },
        }
    }

    /// The window on the whole of `data`.
    pub fn root(data: &[u8]) -> (r: BMFFBox)
        ensures
            r == BMFFBox::spec_root(data@.len()),
            r.wf(data@.len()),
    {
        BMFFBox {
            head: BoxHeader {
                name: BoxType::UnknownBox(0),
                size: BOX_SIZE_TO_END,
                offset: 0,
                uuid: None,
            },
            pos: 0,
            end: data.len(),
            limit: data.len() as u64,
        }
    }

    /// Bytes that the box still claims.
    pub fn bytes_left(&self) -> (r: u64)
        ensures
            r == self.limit,
    {
        self.limit
    }

    /// The header of the box.
    pub fn get_header(&self) -> (r: &BoxHeader)
        ensures
            *r == self.head,
    {
        &self.head
    }

    /// Offset in the file of the next unread byte.
    pub fn offset(&self) -> (r: u64)
        ensures
            r == self.pos,
    {
        self.pos as u64
    }

    /// Consumes `n` bytes that are known to be readable.
    fn advance(&mut self, n: usize)
        requires
            n <= old(self).avail(),
            old(self).pos <= old(self).end,
            old(self).avail() <= old(self).limit,
        ensures
            *final(self) == old(self).advanced(n as int),
    {
        self.pos = self.pos + n;
        self.limit = self.limit - n as u64;
    }

    /// Reads one byte.
    pub fn read_u8(&mut self, data: &[u8]) -> (r: Result<u8, Error>)
        requires
            old(self).wf(data@.len()),
        ensures
            final(self).wf(data@.len()),
            old(self).avail() >= 1 ==> r == Ok::<u8, Error>(data@[old(self).pos as int])
                && *final(self) == old(self).advanced(1),
            old(self).avail() < 1 ==> r == Err::<u8, Error>(Error::UnexpectedEOF) && *final(self)
                == old(self).drained(),
    {
        match slice_u8(data, self.pos, self.end) {
            Some(v) => {
                self.advance(1);
                Ok(v)
            },
            None => {
                self.advance(self.end - self.pos);
                Err(Error::UnexpectedEOF)
            },
        }
    }

    /// Reads a big-endian 16-bit integer.
    pub fn be_u16(&mut self, data: &[u8]) -> (r: Result<u16, Error>)
        requires
            old(self).wf(data@.len()),
        ensures
            final(self).wf(data@.len()),
            old(self).avail() >= 2 ==> r == Ok::<u16, Error>(
                spec_be_u16(data@, old(self).pos as int),
            ) && *final(self) == old(self).advanced(2),
            old(self).avail() < 2 ==> r == Err::<u16, Error>(Error::UnexpectedEOF) && *final(self)
                == old(self).drained(),
    {
        match slice_be_u16(data, self.pos, self.end) {
            Some(v) => {
                self.advance(2);
                Ok(v)
            },
            None => {
                self.advance(self.end - self.pos);
                Err(Error::UnexpectedEOF)
            },
        }
    }

    /// Reads a big-endian 32-bit integer.
    pub fn be_u32(&mut self, data: &[u8]) -> (r: Result<u32, Error>)
        requires
            old(self).wf(data@.len()),
        ensures
            final(self).wf(data@.len()),
            old(self).avail() >= 4 ==> r == Ok::<u32, Error>(
                spec_be_u32(data@, old(self).pos as int),
            ) && *final(self) == old(self).advanced(4),
            old(self).avail() < 4 ==> r == Err::<u32, Error>(Error::UnexpectedEOF) && *final(self)
                == old(self).drained(),
    {
        match slice_be_u32(data, self.pos, self.end) {
            Some(v) => {
                self.advance(4);
                Ok(v)
            },
            None => {
                self.advance(self.end - self.pos);
                Err(Error::UnexpectedEOF)
            },
        }
    }

    /// Reads a big-endian 64-bit integer.
    pub fn be_u64(&mut self, data: &[u8]) -> (r: Result<u64, Error>)
        requires
            old(self).wf(data@.len()),
        ensures
            final(self).wf(data@.len()),
            old(self).avail() >= 8 ==> r == Ok::<u64, Error>(
                spec_be_u64(data@, old(self).pos as int),
            ) && *final(self) == old(self).advanced(8),
            old(self).avail() < 8 ==> r == Err::<u64, Error>(Error::UnexpectedEOF) && *final(self)
                == old(self).drained(),
    {
        match slice_be_u64(data, self.pos, self.end) {
            Some(v) => {
                self.advance(8);
                Ok(v)
            },
            None => {
                self.advance(self.end - self.pos);
                Err(Error::UnexpectedEOF)
            },
        }
    }

    /// Skips `bytes` bytes, or all that are left when fewer are.
    pub fn skip(&mut self, bytes: u64)
        requires
            old(self).pos <= old(self).end,
            old(self).avail() <= old(self).limit,
        ensures
            *final(self) == old(self).advanced(
                if bytes < old(self).avail() {
                    bytes as int
                } else {
                    old(self).avail()
                },
            ),
    {
        let avail = self.end - self.pos;
        if bytes < avail as u64 {
            self.advance(bytes as usize);
        } else {
            self.advance(avail);
        }
    }

    /// Reads every byte that is left into an owned buffer. Room for what
    /// the box claims is reserved first, unless the box runs to the end of
    /// its container.
    pub fn read_into_try_vec(&mut self, data: &[u8]) -> (r: Result<Vec<u8>, Error>)
        requires
            old(self).wf(data@.len()),
        ensures
            final(self).wf(data@.len()),
            r matches Ok(v) ==> v@ == data@.subrange(old(self).pos as int, old(self).end as int)
                && *final(self) == old(self).drained(),
            r matches Err(e) ==> e is OutOfMemory,
    {
        let limit = self.limit;
        let mut v: Vec<u8> = if limit >= BOX_SIZE_TO_END - BOX_MIN_LARGE_SIZE {
            Vec::new()
        } else {
            if limit > usize::MAX as u64 {
                return Err(Error::OutOfMemory);
            }
            with_capacity(limit as usize)?
        };
        extend(&mut v, slice_subrange(data, self.pos, self.end))?;
        assert(Seq::<u8>::empty() + data@.subrange(self.pos as int, self.end as int) =~= data@.subrange(
            self.pos as int,
            self.end as int,
        ));
        self.advance(self.end - self.pos);
        Ok(v)
    }

    /// Reads the header of the next child box and moves past that child.
    /// `Ok(None)` when fewer bytes are left than a header needs.
    pub fn next_box(&mut self, data: &[u8]) -> (r: Result<Option<BMFFBox>, Error>)
        requires
            old(self).wf(data@.len()),
        ensures
            final(self).wf(data@.len()),
            match r {
                Ok(Some(child)) => old(self).spec_next_box(data@) == Ok::<
                    Option<(BMFFBox, BMFFBox)>,
                    Error,
                >(Some((child, *final(self)))) && child.wf(data@.len()) && child.limit
                    == child.head.size - child.head.offset && final(self).avail() + 8 <= old(
                    self,
                ).avail(),
                Ok(None) => old(self).spec_next_box(data@) == Ok::<
                    Option<(BMFFBox, BMFFBox)>,
                    Error,
                >(None) && *final(self) == old(self).drained(),
                Err(e) => !(e is Stopped) && !(e is OutOfMemory) && old(self).spec_next_box(data@) == Err::<
                    Option<(BMFFBox, BMFFBox)>,
                    Error,
                >(e),
            },
    {
        proof {
            lemma_header_fits(data@, self.pos as int, self.end as int);
        }
        match read_box_header(data, self.pos, self.end) {
            Err(e) => Err(e),
            Ok(None) => {
                self.advance(self.end - self.pos);
                Ok(None)
            },
            Ok(Some(head)) => {
                let start = self.pos + head.offset as usize;
                let claimed: u64 = head.size - head.offset;
                let room = self.end - start;
                let child_end = if claimed <= room as u64 {
                    start + claimed as usize
                } else {
                    self.end
                };
                let child = BMFFBox { head, pos: start, end: child_end, limit: claimed };
                self.advance(child_end - self.pos);
                Ok(Some(child))
            },
        }
    }

    /// Skips the whole content of a box of which nothing has been read.
    pub fn skip_box_content(&mut self)
        requires
            old(self).pos <= old(self).end,
            old(self).avail() <= old(self).limit,
            old(self).limit == old(self).head.size - old(self).head.offset,
        ensures
            *final(self) == old(self).drained(),
    {
        let to_skip = self.head.size - self.head.offset;
        self.skip(to_skip);
    }

    /// Skips what is left of a box.
    pub fn skip_box_remain(&mut self)
        requires
            old(self).pos <= old(self).end,
            old(self).avail() <= old(self).limit,
        ensures
            *final(self) == old(self).drained(),
    {
        let remain = self.bytes_left();
        self.skip(remain);
    }
}

/// Consuming `n` bytes and then `m` is consuming `n + m`.
pub proof fn lemma_advanced_twice(b: BMFFBox, n: int, m: int)
    requires
        0 <= n,
        0 <= m,
        n + m <= b.avail(),
        b.avail() <= b.limit,
    ensures
        b.advanced(n).advanced(m) == b.advanced(n + m),
{
}

/// Version and flags of a full box whose first unread byte is at `pos`.
pub open spec fn spec_fullbox_extra(data: Seq<u8>, pos: int) -> (u8, u32) {
    (data[pos], spec_be_u24(data, pos + 1))
}

/// Reads the version byte and the 24 flag bits of a full box.
pub fn read_fullbox_extra(data: &[u8], src: &mut BMFFBox) -> (r: Result<(u8, u32), Error>)
    requires
        old(src).wf(data@.len()),
    ensures
        final(src).wf(data@.len()),
        old(src).avail() >= 4 ==> r == Ok::<(u8, u32), Error>(
            spec_fullbox_extra(data@, old(src).pos as int),
        ) && *final(src) == old(src).advanced(4),
        old(src).avail() < 4 ==> r == Err::<(u8, u32), Error>(Error::UnexpectedEOF),
{
    let version = src.read_u8(data)?;
    let flags_a = src.read_u8(data)?;
    let flags_b = src.read_u8(data)?;
    let flags_c = src.read_u8(data)?;
    let flags: u32 = (flags_a as u32) * 0x1_0000 + (flags_b as u32) * 0x100 + (flags_c as u32);
    Ok((version, flags))
}

/// The version of a full box whose flags must be zero unless parsing is
/// lenient.
pub open spec fn spec_fullbox_version_no_flags(data: Seq<u8>, b: BMFFBox, lenient: bool) -> Result<
    u8,
    Error,
> {
    if b.avail() < 4 {
        Err(Error::UnexpectedEOF)
    } else if spec_fullbox_extra(data, b.pos as int).1 != 0 && !lenient {
        Err(Error::Unsupported("expected flags to be 0"))
    } else {
        Ok(spec_fullbox_extra(data, b.pos as int).0)
    }
}

/// Reads version and flags of a full box and rejects non-zero flags unless
/// parsing is lenient.
pub fn read_fullbox_version_no_flags(data: &[u8], src: &mut BMFFBox, options: &ParseOptions) -> (r:
    Result<u8, Error>)
    requires
        old(src).wf(data@.len()),
    ensures
        final(src).wf(data@.len()),
        r == spec_fullbox_version_no_flags(data@, *old(src), options.lenient),
        r is Ok ==> *final(src) == old(src).advanced(4),
{
    let (version, flags) = read_fullbox_extra(data, src)?;
    if flags != 0 && !options.lenient {
        return Err(Error::Unsupported("expected flags to be 0"));
    }
    Ok(version)
}

/// Whether a box was read to its declared end, or runs to the end of its
/// container.
pub open spec fn spec_check_parser_state(b: BMFFBox) -> Result<(), Error> {
    if b.limit == 0 || b.head.size == BOX_SIZE_TO_END {
        Ok(())
    } else {
        Err(Error::InvalidData("unread box content or bad parser sync"))
    }
}

/// Fails when content of the box is left unread, unless the box runs to the
/// end of its container.
pub fn check_parser_state(b: &BMFFBox) -> (r: Result<(), Error>)
    ensures
        r == spec_check_parser_state(*b),
{
    if b.limit == 0 || b.head.size == BOX_SIZE_TO_END {
        Ok(())
    } else {
        Err(Error::InvalidData("unread box content or bad parser sync"))
    }
}

/// A child box takes at least the eight bytes of a header from its
/// container.
pub proof fn lemma_child_advances(data: Seq<u8>, it: BMFFBox)
    requires
        it.pos <= it.end,
    ensures
        it.spec_next_box(data) matches Ok(Some((child, rest))) ==> rest.avail() + 8 <= it.avail()
            && it.pos + 8 <= child.pos <= child.end <= it.end && rest.pos == child.end,
{
    lemma_header_fits(data, it.pos as int, it.end as int);
}

/// The children of the container `it`, folded in file order: `step` takes a
/// child and what was gathered so far, and gives what is gathered after it,
/// with a flag that ends the walk early. Each child shortens what is left of
/// the container, see [`lemma_child_advances`], so the walk comes to an end.
pub open spec fn spec_fold_boxes<A>(
    data: Seq<u8>,
    it: BMFFBox,
    acc: A,
    step: spec_fn(BMFFBox, A) -> Result<(A, bool), Error>,
) -> Result<A, Error>
    decreases it.avail(),
{
    match it.spec_next_box(data) {
        Err(e) => Err(e),
        Ok(None) => Ok(acc),
        Ok(Some((child, rest))) => match step(child, acc) {
            Err(e) => Err(e),
            Ok((next, done)) => if done || rest.avail() >= it.avail() {
                Ok(next)
            } else {
                spec_fold_boxes(data, rest, next, step)
            },
        },
    }
}

/// What every step of a walk keeps, the walk keeps: if `inv` holds of what
/// was gathered at the start, and every step takes what satisfies `inv` to
/// what satisfies `inv`, then `inv` holds of what the walk gathers.
pub proof fn lemma_fold_boxes_keeps<A>(
    data: Seq<u8>,
    it: BMFFBox,
    acc: A,
    step: spec_fn(BMFFBox, A) -> Result<(A, bool), Error>,
    inv: spec_fn(A) -> bool,
)
    requires
        inv(acc),
        forall|child: BMFFBox, a: A|
            inv(a) ==> (#[trigger] step(child, a) matches Ok((next, _)) ==> inv(next)),
    ensures
        spec_fold_boxes(data, it, acc, step) matches Ok(out) ==> inv(out),
    decreases it.avail(),
{
    match it.spec_next_box(data) {
        Ok(Some((child, rest))) => {
            match step(child, acc) {
                Ok((next, done)) => {
                    if !(done || rest.avail() >= it.avail()) {
                        lemma_fold_boxes_keeps(data, rest, next, step, inv);
                    }
                },
                Err(_) => {},
            }
        },
        _ => {},
    }
}

/// Two walks whose steps agree wherever the step of the first succeeds
/// gather the same, if the first walk succeeds.
pub proof fn lemma_fold_boxes_agree<A>(
    data: Seq<u8>,
    it: BMFFBox,
    acc: A,
    first: spec_fn(BMFFBox, A) -> Result<(A, bool), Error>,
    second: spec_fn(BMFFBox, A) -> Result<(A, bool), Error>,
)
    requires
        forall|child: BMFFBox, a: A|
            (#[trigger] first(child, a)) is Ok ==> second(child, a) == first(child, a),
    ensures
        spec_fold_boxes(data, it, acc, first) is Ok ==> spec_fold_boxes(data, it, acc, second)
            == spec_fold_boxes(data, it, acc, first),
    decreases it.avail(),
{
    match it.spec_next_box(data) {
        Ok(Some((child, rest))) => {
            match first(child, acc) {
                Ok((next, done)) => {
                    if !(done || rest.avail() >= it.avail()) {
                        lemma_fold_boxes_agree(data, rest, next, first, second);
                    }
                },
                Err(_) => {},
            }
        },
        _ => {},
    }
}

} // verus!
