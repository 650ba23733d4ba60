//! The AV1 sequence header: the one unit of an AV1 bitstream that says
//! what kind of picture follows.
use vstd::prelude::*;
use vstd::slice::slice_subrange;
use crate::bits::{
    lemma_bits_bound, lemma_pow2_grows, lemma_pow2_values, read_bits, spec_bit, spec_bits,
    spec_pow2,
};
use crate::error::Error;

verus! {

/// The unit type of a sequence header.
pub const OBU_SEQUENCE_HEADER: u8 = 1;

/// Largest payload of a unit, in bytes.
pub const OBU_MAX_PAYLOAD: usize = 0xffff_ffff;

/// Largest bit position that the reads below start from.
pub const OBU_MAX_POS: u64 = 0x100_0000_0000;

/// The colour format that a sequence header declares.
#[derive(Debug, Clone, Copy)]
pub struct ColorConfig {
    /// 8, 10 or 12.
    pub bit_depth: u8,
    pub monochrome: bool,
    /// Whether chroma has half the resolution, horizontally and vertically.
    pub chroma_subsampling: (bool, bool),
}

/// What is taken from a sequence header.
#[derive(Debug, Clone, Copy)]
pub struct SequenceHeaderObu {
    pub seq_profile: u8,
    pub still_picture: bool,
    pub reduced_still_picture_header: bool,
    /// At least 1.
    pub max_frame_width: u32,
    /// At least 1.
    pub max_frame_height: u32,
    pub color: ColorConfig,
}

/// Basic properties of an AV1 picture, from its sequence header.
#[derive(Debug, Clone, Copy)]
pub struct AV1Metadata {
    /// Should be true for a still image.
    pub still_picture: bool,
    /// At least 1.
    pub max_frame_width: u32,
    /// At least 1.
    pub max_frame_height: u32,
    /// 8, 10 or 12.
    pub bit_depth: u8,
    /// 0, 1 or 2.
    pub seq_profile: u8,
    /// Whether chroma has half the resolution, horizontally and vertically.
    pub chroma_subsampling: (bool, bool),
    pub monochrome: bool,
}

/// The `count` bits at bit `pos` of `s` as an unsigned integer, or 0 when
/// they do not all lie inside `s`.
pub open spec fn spec_take(s: Seq<u8>, pos: int, count: nat) -> int {
    if 0 <= pos && pos + count <= 8 * s.len() {
        spec_bits(s, pos, count) as int
    } else {
        0
    }
}

/// Number of zero bits from bit `pos` of `s` up to the next one bit or the
/// end of `s`.
pub open spec fn spec_leading_zeros(s: Seq<u8>, pos: int) -> int
    decreases 8 * s.len() - pos,
{
    if pos < 0 || pos >= 8 * s.len() || spec_bit(s, pos) == 1 {
        0
    } else {
        1 + spec_leading_zeros(s, pos + 1)
    }
}

/// The bit after a variable-length code that starts at bit `pos`: a run of
/// zero bits, a one bit, and as many more bits as there were zeros if those
/// were fewer than 32.
pub open spec fn spec_after_uvlc(s: Seq<u8>, pos: int) -> int {
    let zeros = spec_leading_zeros(s, pos);
    if zeros >= 32 {
        pos + zeros + 1
    } else {
        pos + zeros + 1 + zeros
    }
}

/// The bit after the `count` operating points that start at bit `pos`.
pub open spec fn spec_after_operating_points(
    s: Seq<u8>,
    pos: int,
    count: nat,
    decoder_model: bool,
    delay_bits: int,
    display_delay: bool,
) -> int
    decreases count,
{
    if count == 0 {
        pos
    } else {
        let level = spec_take(s, pos + 12, 5);
        let q1 = if level > 7 {
            pos + 18
        } else {
            pos + 17
        };
        let q2 = if decoder_model {
            if spec_take(s, q1, 1) == 1 {
                q1 + 2 + 2 * delay_bits
            } else {
                q1 + 1
            }
        } else {
            q1
        };
        let q3 = if display_delay {
            if spec_take(s, q2, 1) == 1 {
                q2 + 5
            } else {
                q2 + 1
            }
        } else {
            q2
        };
        spec_after_operating_points(
            s,
            q3,
            (count - 1) as nat,
            decoder_model,
            delay_bits,
            display_delay,
        )
    }
}

/// The bit after the timing information, the decoder model and the
/// operating points of a full sequence header, which start at bit `pos`.
#[verifier::opaque]
pub open spec fn spec_after_models(s: Seq<u8>, pos: int) -> int {
    let timing = spec_take(s, pos, 1) == 1;
    let q = pos + 1;
    let after_timing = if timing {
        if spec_take(s, q + 64, 1) == 1 {
            spec_after_uvlc(s, q + 65)
        } else {
            q + 65
        }
    } else {
        q
    };
    let decoder_model = timing && spec_take(s, after_timing, 1) == 1;
    let delay_bits = if decoder_model {
        spec_take(s, after_timing + 1, 5) + 1
    } else {
        0
    };
    let q1 = if timing {
        if decoder_model {
            after_timing + 1 + 47
        } else {
            after_timing + 1
        }
    } else {
        q
    };
    let display_delay = spec_take(s, q1, 1) == 1;
    let count = spec_take(s, q1 + 1, 5) + 1;
    spec_after_operating_points(s, q1 + 6, count as nat, decoder_model, delay_bits, display_delay)
}

/// The bit after the coding tool flags of a full sequence header, which
/// start at bit `pos`.
#[verifier::opaque]
pub open spec fn spec_after_tools(s: Seq<u8>, pos: int) -> int {
    let order_hint = spec_take(s, pos + 4, 1) == 1;
    let q1 = if order_hint {
        pos + 7
    } else {
        pos + 5
    };
    let choose_screen_content = spec_take(s, q1, 1) == 1;
    let force_screen_content = if choose_screen_content {
        2
    } else {
        spec_take(s, q1 + 1, 1)
    };
    let q3 = if choose_screen_content {
        q1 + 1
    } else {
        q1 + 2
    };
    let q4 = if force_screen_content > 0 {
        if spec_take(s, q3, 1) == 1 {
            q3 + 1
        } else {
            q3 + 2
        }
    } else {
        q3
    };
    if order_hint {
        q4 + 3
    } else {
        q4
    }
}

/// The colour format written at bit `pos`, and the bit after it.
#[verifier::opaque]
pub open spec fn spec_color_config(s: Seq<u8>, pos: int, seq_profile: int) -> (ColorConfig, int) {
    let high_bitdepth = spec_take(s, pos, 1) == 1;
    let twelve = seq_profile == 2 && high_bitdepth;
    let bit_depth: u8 = if twelve {
        if spec_take(s, pos + 1, 1) == 1 {
            12
        } else {
            10
        }
    } else if high_bitdepth {
        10
    } else {
        8
    };
    let q1 = if twelve {
        pos + 2
    } else {
        pos + 1
    };
    let monochrome = seq_profile != 1 && spec_take(s, q1, 1) == 1;
    let q2 = if seq_profile == 1 {
        q1
    } else {
        q1 + 1
    };
    let described = spec_take(s, q2, 1) == 1;
    let srgb = described && spec_take(s, q2 + 1, 8) == 1 && spec_take(s, q2 + 9, 8) == 13
        && spec_take(s, q2 + 17, 8) == 0;
    let q4 = if described {
        q2 + 25
    } else {
        q2 + 1
    };
    if monochrome {
        (ColorConfig { bit_depth, monochrome, chroma_subsampling: (true, true) }, q4 + 1)
    } else if srgb {
        (ColorConfig { bit_depth, monochrome, chroma_subsampling: (false, false) }, q4 + 1)
    } else {
        let q5 = q4 + 1;
        let free = seq_profile == 2 && bit_depth == 12;
        let x = if seq_profile == 0 {
            true
        } else if seq_profile == 1 {
            false
        } else if free {
            spec_take(s, q5, 1) == 1
        } else {
            true
        };
        let y = if seq_profile == 0 {
            true
        } else if seq_profile == 1 {
            false
        } else if free {
            x && spec_take(s, q5 + 1, 1) == 1
        } else {
            false
        };
        let q6 = if free {
            if x {
                q5 + 2
            } else {
                q5 + 1
            }
        } else {
            q5
        };
        let q7 = if x && y {
            q6 + 2
        } else {
            q6
        };
        (ColorConfig { bit_depth, monochrome, chroma_subsampling: (x, y) }, q7 + 1)
    }
}

/// The largest frame width and height written at bit `pos`, and the bit
/// after them: two four-bit widths, less one, then the two values, less
/// one, at those widths.
#[verifier::opaque]
pub open spec fn spec_frame_size(s: Seq<u8>, pos: int) -> (int, int, int) {
    let width_bits = spec_take(s, pos, 4) + 1;
    let height_bits = spec_take(s, pos + 4, 4) + 1;
    (
        spec_take(s, pos + 8, width_bits as nat) + 1,
        spec_take(s, pos + 8 + width_bits, height_bits as nat) + 1,
        pos + 8 + width_bits + height_bits,
    )
}

/// What the sequence header in `s` declares, and the number of bits that
/// the header takes.
pub open spec fn spec_sequence_header_fields(s: Seq<u8>) -> (SequenceHeaderObu, int) {
    let seq_profile = spec_take(s, 0, 3);
    let still_picture = spec_take(s, 3, 1) == 1;
    let reduced = spec_take(s, 4, 1) == 1;
    let p1 = if reduced {
        10
    } else {
        spec_after_models(s, 5)
    };
    let (width, height, p2) = spec_frame_size(s, p1);
    let p3 = if reduced {
        p2
    } else if spec_take(s, p2, 1) == 1 {
        p2 + 8
    } else {
        p2 + 1
    };
    let p4 = p3 + 3;
    let p5 = if reduced {
        p4
    } else {
        spec_after_tools(s, p4)
    };
    let (color, p6) = spec_color_config(s, p5 + 3, seq_profile);
    (
        SequenceHeaderObu {
            seq_profile: seq_profile as u8,
            still_picture,
            reduced_still_picture_header: reduced,
            max_frame_width: width as u32,
            max_frame_height: height as u32,
            color,
        },
        p6 + 1,
    )
}

/// What the sequence header with the payload `s` declares. Profiles above
/// 2 are rejected; every bit that the header needs must lie inside `s`.
pub open spec fn spec_parse_sequence_header(s: Seq<u8>) -> Result<SequenceHeaderObu, Error> {
    if s.len() > 0 && spec_take(s, 0, 3) > 2 {
        Err(Error::InvalidData("invalid seq_profile"))
    } else if spec_sequence_header_fields(s).1 > 8 * s.len() {
        Err(Error::InvalidData("truncated bits"))
    } else {
        Ok(spec_sequence_header_fields(s).0)
    }
}

/// Reads `count` bits at `*pos` and moves past them, whether they lie
/// inside `data` or not.
fn take(data: &[u8], pos: &mut u64, count: u8) -> (r: u64)
    requires
        count <= 32,
        data@.len() <= OBU_MAX_PAYLOAD,
        *old(pos) <= OBU_MAX_POS,
    ensures
        r == spec_take(data@, *old(pos) as int, count as nat),
        *final(pos) == *old(pos) + count,
        r < 0x1_0000_0000,
        r < spec_pow2(count as nat),
{
    let at = *pos;
    *pos = at + count as u64;
    proof {
        lemma_bits_bound(data@, at as int, count as nat);
        lemma_pow2_grows(count as nat, 32);
        lemma_pow2_values();
    }
    if at <= 8 * (data.len() as u64) {
        match read_bits(data, at, count) {
            Some(v) => v,
            None => 0,
        }
    } else {
        0
    }
}

/// Reads one bit as a flag.
fn take_flag(data: &[u8], pos: &mut u64) -> (r: bool)
    requires
        data@.len() <= OBU_MAX_PAYLOAD,
        *old(pos) <= OBU_MAX_POS,
    ensures
        r == (spec_take(data@, *old(pos) as int, 1) == 1),
        *final(pos) == *old(pos) + 1,
{
    take(data, pos, 1) == 1
}

/// Skips a variable-length code.
#[verifier::loop_isolation(false)]
fn skip_uvlc(data: &[u8], pos: &mut u64)
    requires
        data@.len() <= OBU_MAX_PAYLOAD,
        *old(pos) <= OBU_MAX_POS,
    ensures
        *final(pos) == spec_after_uvlc(data@, *old(pos) as int),
        *old(pos) <= *final(pos) <= OBU_MAX_POS + 100,
        *final(pos) <= *old(pos) + 100 || *final(pos) <= 8 * data@.len() + 100,
{
    let total: u64 = 8 * (data.len() as u64);
    let start = *pos;
    let mut zeros: u64 = 0;
    let mut at = start;
    proof {
        lemma_pow2_values();
    }
    while at < total && take_bit(data, at) == 0
        invariant
            start <= at,
            at == start + zeros,
            at <= total || at == start,
            spec_leading_zeros(data@, start as int) == zeros + spec_leading_zeros(data@, at as int),
        decreases total - at,
    {
        zeros = zeros + 1;
        at = at + 1;
    }
    *pos = if zeros >= 32 {
        at + 1
    } else {
        at + 1 + zeros
    };
}

/// The bit at position `at`, which lies inside `data`.
fn take_bit(data: &[u8], at: u64) -> (r: u64)
    requires
        data@.len() <= OBU_MAX_PAYLOAD,
        at < 8 * data@.len(),
    ensures
        r == spec_bit(data@, at as int),
{
    proof {
        lemma_pow2_values();
        reveal_with_fuel(spec_bits, 2);
    }
    match read_bits(data, at, 1) {
        Some(v) => v,
        None => 0,
    }
}

/// Skips the operating points.
#[verifier::loop_isolation(false)]
fn skip_operating_points(
    data: &[u8],
    pos: &mut u64,
    count: u64,
    decoder_model: bool,
    delay_bits: u64,
    display_delay: bool,
)
    requires
        data@.len() <= OBU_MAX_PAYLOAD,
        *old(pos) <= OBU_MAX_POS - 8000,
        count <= 32,
        delay_bits <= 32,
    ensures
        *final(pos) == spec_after_operating_points(
            data@,
            *old(pos) as int,
            count as nat,
            decoder_model,
            delay_bits as int,
            display_delay,
        ),
        *old(pos) <= *final(pos) <= *old(pos) + 100 * count,
{
    let mut i: u64 = 0;
    while i < count
        invariant
            i <= count,
            *old(pos) <= *pos <= *old(pos) + 100 * i,
            spec_after_operating_points(
                data@,
                *old(pos) as int,
                count as nat,
                decoder_model,
                delay_bits as int,
                display_delay,
            ) == spec_after_operating_points(
                data@,
                *pos as int,
                (count - i) as nat,
                decoder_model,
                delay_bits as int,
                display_delay,
            ),
        decreases count - i,
    {
        let _idc = take(data, pos, 12);
        let level = take(data, pos, 5);
        if level > 7 {
            let _tier = take(data, pos, 1);
        }
        if decoder_model {
            if take_flag(data, pos) {
                *pos = *pos + 2 * delay_bits + 1;
            }
        }
        if display_delay {
            if take_flag(data, pos) {
                let _delay = take(data, pos, 4);
            }
        }
        i = i + 1;
    }
}

/// Skips timing information, decoder model and operating points.
fn skip_models(data: &[u8], pos: &mut u64)
    requires
        data@.len() <= OBU_MAX_PAYLOAD,
        *old(pos) == 5,
    ensures
        *final(pos) == spec_after_models(data@, *old(pos) as int),
        *final(pos) <= 8 * data@.len() + 4000,
{
    reveal(spec_after_models);
    let timing = take_flag(data, pos);
    let mut decoder_model = false;
    let mut delay_bits: u64 = 0;
    if timing {
        *pos = *pos + 64;
        if take_flag(data, pos) {
            skip_uvlc(data, pos);
        }
        decoder_model = take_flag(data, pos);
        if decoder_model {
            delay_bits = take(data, pos, 5) + 1;
            *pos = *pos + 42;
        }
    }
    let display_delay = take_flag(data, pos);
    let count = take(data, pos, 5) + 1;
    proof {
        lemma_pow2_values();
    }
    skip_operating_points(data, pos, count, decoder_model, delay_bits, display_delay);
}

/// Skips the coding tool flags of a full sequence header.
fn skip_tools(data: &[u8], pos: &mut u64)
    requires
        data@.len() <= OBU_MAX_PAYLOAD,
        *old(pos) <= OBU_MAX_POS - 100,
    ensures
        *final(pos) == spec_after_tools(data@, *old(pos) as int),
        *old(pos) <= *final(pos) <= *old(pos) + 20,
{
    reveal(spec_after_tools);
    *pos = *pos + 4;
    let order_hint = take_flag(data, pos);
    if order_hint {
        *pos = *pos + 2;
    }
    let choose_screen_content = take_flag(data, pos);
    let force_screen_content: u64 = if choose_screen_content {
        2
    } else {
        take(data, pos, 1)
    };
    if force_screen_content > 0 {
        if !take_flag(data, pos) {
            *pos = *pos + 1;
        }
    }
    if order_hint {
        *pos = *pos + 3;
    }
}

/// Reads the colour format.
fn read_color_config(data: &[u8], pos: &mut u64, seq_profile: u8) -> (r: ColorConfig)
    requires
        data@.len() <= OBU_MAX_PAYLOAD,
        *old(pos) <= OBU_MAX_POS - 100,
        seq_profile <= 2,
    ensures
        (r, *final(pos) as int) == spec_color_config(data@, *old(pos) as int, seq_profile as int),
        *old(pos) <= *final(pos) <= *old(pos) + 40,
        r.bit_depth == 8 || r.bit_depth == 10 || r.bit_depth == 12,
{
    reveal(spec_color_config);
    let high_bitdepth = take_flag(data, pos);
    let bit_depth: u8 = if seq_profile == 2 && high_bitdepth {
        if take_flag(data, pos) {
            12
        } else {
            10
        }
    } else if high_bitdepth {
        10
    } else {
        8
    };
    let monochrome = if seq_profile == 1 {
        false
    } else {
        take_flag(data, pos)
    };
    let described = take_flag(data, pos);
    let mut srgb = false;
    if described {
        let color_primaries = take(data, pos, 8);
        let transfer_characteristics = take(data, pos, 8);
        let matrix_coefficients = take(data, pos, 8);
        srgb = color_primaries == 1 && transfer_characteristics == 13 && matrix_coefficients == 0;
    }
    if monochrome {
        let _color_range = take_flag(data, pos);
        return ColorConfig { bit_depth, monochrome, chroma_subsampling: (true, true) };
    }
    if srgb {
        *pos = *pos + 1;
        return ColorConfig { bit_depth, monochrome, chroma_subsampling: (false, false) };
    }
    let _color_range = take_flag(data, pos);
    let x: bool;
    let y: bool;
    if seq_profile == 0 {
        x = true;
        y = true;
    } else if seq_profile == 1 {
        x = false;
        y = false;
    } else if bit_depth == 12 {
        x = take_flag(data, pos);
        y = if x {
            take_flag(data, pos)
        } else {
            false
        };
    } else {
        x = true;
        y = false;
    }
    if x && y {
        let _chroma_sample_position = take(data, pos, 2);
    }
    let _separate_uv_delta_q = take_flag(data, pos);
    ColorConfig { bit_depth, monochrome, chroma_subsampling: (x, y) }
}

/// Reads the largest frame width and height.
fn read_frame_size(data: &[u8], pos: &mut u64) -> (r: (u32, u32))
    requires
        data@.len() <= OBU_MAX_PAYLOAD,
        *old(pos) <= OBU_MAX_POS - 100,
    ensures
        (r.0 as int, r.1 as int, *final(pos) as int) == spec_frame_size(data@, *old(pos) as int),
        *old(pos) <= *final(pos) <= *old(pos) + 40,
        1 <= r.0 <= 65536,
        1 <= r.1 <= 65536,
{
    reveal(spec_frame_size);
    proof {
        lemma_pow2_values();
    }
    let width_bits = take(data, pos, 4) + 1;
    let height_bits = take(data, pos, 4) + 1;
    proof {
        lemma_pow2_grows(width_bits as nat, 16);
        lemma_pow2_grows(height_bits as nat, 16);
    }
    let width = take(data, pos, width_bits as u8) + 1;
    let height = take(data, pos, height_bits as u8) + 1;
    (width as u32, height as u32)
}

/// Parses the payload of a sequence header unit.
pub fn parse_sequence_header(data: &[u8]) -> (r: Result<SequenceHeaderObu, Error>)
    requires
        data@.len() <= OBU_MAX_PAYLOAD,
    ensures
        r == spec_parse_sequence_header(data@),
        r matches Ok(h) ==> h.max_frame_width >= 1 && h.max_frame_height >= 1 && h.seq_profile <= 2
            && (h.color.bit_depth == 8 || h.color.bit_depth == 10 || h.color.bit_depth == 12),
        r matches Err(e) ==> !(e is Stopped) && !(e is OutOfMemory),
{
    proof {
        lemma_pow2_values();
    }
    let mut pos: u64 = 0;
    let seq_profile = take(data, &mut pos, 3) as u8;
    if data.len() > 0 && seq_profile > 2 {
        return Err(Error::InvalidData("invalid seq_profile"));
    }
    let still_picture = take_flag(data, &mut pos);
    let reduced = take_flag(data, &mut pos);
    if reduced {
        let _seq_level_idx = take(data, &mut pos, 5);
    } else {
        skip_models(data, &mut pos);
    }
    let (width, height) = read_frame_size(data, &mut pos);
    if !reduced {
        if take_flag(data, &mut pos) {
            pos = pos + 7;
        }
    }
    pos = pos + 3;
    if !reduced {
        skip_tools(data, &mut pos);
    }
    pos = pos + 3;
    let color = read_color_config(data, &mut pos, seq_profile);
    pos = pos + 1;
    if pos > 8 * (data.len() as u64) {
        return Err(Error::InvalidData("truncated bits"));
    }
    Ok(
        SequenceHeaderObu {
            seq_profile,
            still_picture,
            reduced_still_picture_header: reduced,
            max_frame_width: width,
            max_frame_height: height,
            color,
        },
    )
}

/// The size field that starts at byte `at` of `s`, from its byte number
/// `i` on: seven bits a byte, least significant first, the top bit of a
/// byte saying that another follows; at most eight bytes. With the value
/// comes the number of bytes of the field.
pub open spec fn spec_leb128(s: Seq<u8>, at: int, i: nat, acc: int) -> Result<(int, int), Error>
    decreases 8 - i,
{
    if i >= 8 {
        Err(Error::InvalidData("invalid leb128"))
    } else if at + i >= s.len() {
        Err(Error::UnexpectedEOF)
    } else {
        let value = acc + (s[at + i] % 128) * spec_pow2(7 * i);
        if s[at + i] < 128 {
            Ok((value, i as int + 1))
        } else {
            spec_leb128(s, at, i + 1, value)
        }
    }
}

/// Reads a size field.
#[verifier::loop_isolation(false)]
fn read_leb128(data: &[u8], at: usize) -> (r: Result<(u64, usize), Error>)
    requires
        at <= data@.len(),
    ensures
        match r {
            Ok((value, used)) => spec_leb128(data@, at as int, 0, 0) == Ok::<(int, int), Error>(
                (value as int, used as int),
            ) && 1 <= used <= 8 && at + used <= data@.len(),
            Err(e) => !(e is Stopped) && !(e is OutOfMemory) && spec_leb128(data@, at as int, 0, 0)
                == Err::<(int, int), Error>(e),
        },
{
    let mut value: u64 = 0;
    let mut factor: u64 = 1;
    let mut i: usize = 0;
    proof {
        lemma_pow2_values();
    }
    while i < 8
        invariant
            i < 8,
            factor == spec_pow2(7 * i as nat),
            value < factor,
            factor <= 0x2_0000_0000_0000,
            spec_leb128(data@, at as int, 0, 0) == spec_leb128(
                data@,
                at as int,
                i as nat,
                value as int,
            ),
        decreases 8 - i,
    {
        if i >= data.len() - at {
            return Err(Error::UnexpectedEOF);
        }
        let b = data[at + i];
        let low = (b % 128) as u64;
        assert(low * factor + value < 128 * factor) by (nonlinear_arith)
            requires
                low <= 127,
                value < factor,
        ;
        proof {
            lemma_pow2_step(7 * i as nat);
            lemma_pow2_sevens(i as nat + 1);
        }
        value = value + low * factor;
        if b < 128 {
            return Ok((value, i + 1));
        }
        i = i + 1;
        if i == 8 {
            return Err(Error::InvalidData("invalid leb128"));
        }
        factor = factor * 128;
    }
    Err(Error::InvalidData("invalid leb128"))
}

/// Two to the power of seven times `k`, for `k` up to 8, is at most two
/// to the 56.
pub proof fn lemma_pow2_sevens(k: nat)
    requires
        k <= 8,
    ensures
        spec_pow2(7 * k) <= 0x100_0000_0000_0000,
        k <= 7 ==> spec_pow2(7 * k) <= 0x2_0000_0000_0000,
        k == 0 ==> spec_pow2(7 * k) == 0x1,
        k == 1 ==> spec_pow2(7 * k) == 0x80,
        k == 2 ==> spec_pow2(7 * k) == 0x4000,
        k == 3 ==> spec_pow2(7 * k) == 0x20_0000,
        k == 4 ==> spec_pow2(7 * k) == 0x1000_0000,
        k == 5 ==> spec_pow2(7 * k) == 0x8_0000_0000,
        k == 6 ==> spec_pow2(7 * k) == 0x400_0000_0000,
        k == 7 ==> spec_pow2(7 * k) == 0x2_0000_0000_0000,
        k == 8 ==> spec_pow2(7 * k) == 0x100_0000_0000_0000,
    decreases k,
{
    if k > 0 {
        lemma_pow2_sevens((k - 1) as nat);
        lemma_pow2_step((7 * (k - 1)) as nat);
    }
}

/// Seven more in the exponent is a factor of 128.
pub proof fn lemma_pow2_step(e: nat)
    ensures
        spec_pow2(e + 7) == 128 * spec_pow2(e),
{
    reveal_with_fuel(spec_pow2, 8);
}

/// The sequence header of the first sequence header unit in `s` from byte
/// `at` on. Units of other types are passed over.
pub open spec fn spec_parse_obu(s: Seq<u8>, at: int) -> Result<SequenceHeaderObu, Error>
    decreases s.len() - at,
{
    if at < 0 || at >= s.len() {
        Err(Error::UnexpectedEOF)
    } else if s[at] >= 128 {
        Err(Error::InvalidData("forbidden bit set in OBU header"))
    } else {
        let head: int = if (s[at] / 4) % 2 == 1 {
            2
        } else {
            1
        };
        if at + head > s.len() {
            Err(Error::UnexpectedEOF)
        } else {
            let sized = if (s[at] / 2) % 2 == 1 {
                spec_leb128(s, at + head, 0, 0)
            } else {
                Ok((s.len() - at - head, 0int))
            };
            match sized {
                Err(e) => Err(e),
                Ok((size, used)) => if size > OBU_MAX_PAYLOAD {
                    Err(Error::InvalidData("OBU too large"))
                } else if used < 0 || size < 0 || at + head + used + size > s.len() {
                    Err(Error::UnexpectedEOF)
                } else if (s[at] / 8) % 16 == OBU_SEQUENCE_HEADER {
                    spec_parse_sequence_header(
                        s.subrange(at + head + used, at + head + used + size),
                    )
                } else {
                    spec_parse_obu(s, at + head + used + size)
                },
            }
        }
    }
}

/// Finds the first sequence header unit in `data` and parses it.
#[verifier::loop_isolation(false)]
pub fn parse_obu(data: &[u8]) -> (r: Result<SequenceHeaderObu, Error>)
    ensures
        r == spec_parse_obu(data@, 0),
        r matches Ok(h) ==> h.max_frame_width >= 1 && h.max_frame_height >= 1 && h.seq_profile <= 2
            && (h.color.bit_depth == 8 || h.color.bit_depth == 10 || h.color.bit_depth == 12),
        r matches Err(e) ==> !(e is Stopped) && !(e is OutOfMemory),
{
    let mut at: usize = 0;
    while at < data.len()
        invariant
            at <= data@.len(),
            spec_parse_obu(data@, 0) == spec_parse_obu(data@, at as int),
        decreases data@.len() - at,
    {
        let b = data[at];
        if b >= 128 {
            return Err(Error::InvalidData("forbidden bit set in OBU header"));
        }
        let obu_type = (b / 8) % 16;
        let head: usize = if (b / 4) % 2 == 1 {
            2
        } else {
            1
        };
        if head > data.len() - at {
            return Err(Error::UnexpectedEOF);
        }
        let start = at + head;
        let (size, used): (u64, usize) = if (b / 2) % 2 == 1 {
            match read_leb128(data, start) {
                Err(e) => {
                    return Err(e);
                },
                Ok(x) => x,
            }
        } else {
            ((data.len() - start) as u64, 0)
        };
        if size > OBU_MAX_PAYLOAD as u64 {
            return Err(Error::InvalidData("OBU too large"));
        }
        let payload = start + used;
        if size > (data.len() - payload) as u64 {
            return Err(Error::UnexpectedEOF);
        }
        let end = payload + size as usize;
        if obu_type == OBU_SEQUENCE_HEADER {
            return parse_sequence_header(slice_subrange(data, payload, end));
        }
        at = end;
    }
    Err(Error::UnexpectedEOF)
}

/// The picture properties that the bitstream `s` declares in its first
/// sequence header.
pub open spec fn spec_av1_metadata(s: Seq<u8>) -> Result<AV1Metadata, Error> {
    match spec_parse_obu(s, 0) {
        Err(e) => Err(e),
        Ok(h) => Ok(
            AV1Metadata {
                still_picture: h.still_picture,
                max_frame_width: h.max_frame_width,
                max_frame_height: h.max_frame_height,
                bit_depth: h.color.bit_depth,
                seq_profile: h.seq_profile,
                chroma_subsampling: h.color.chroma_subsampling,
                monochrome: h.color.monochrome,
            },
        ),
    }
}

impl AV1Metadata {
    /// Parses a raw AV1 bitstream as far as its first sequence header.
    ///
    /// This is for the bare payload of an image item, not for an AVIF file.
    pub fn parse_av1_bitstream(obu_bitstream: &[u8]) -> (r: Result<AV1Metadata, Error>)
        ensures
            r == spec_av1_metadata(obu_bitstream@),
            r matches Ok(m) ==> m.max_frame_width >= 1 && m.max_frame_height >= 1 && m.seq_profile
                <= 2 && (m.bit_depth == 8 || m.bit_depth == 10 || m.bit_depth == 12),
            r matches Err(e) ==> !(e is Stopped) && !(e is OutOfMemory),
    {
        let h = parse_obu(obu_bitstream)?;
        Ok(
            AV1Metadata {
                still_picture: h.still_picture,
                max_frame_width: h.max_frame_width,
                max_frame_height: h.max_frame_height,
                bit_depth: h.color.bit_depth,
                seq_profile: h.seq_profile,
                chroma_subsampling: h.color.chroma_subsampling,
                monochrome: h.color.monochrome,
            },
        )
    }
}

} // verus!
