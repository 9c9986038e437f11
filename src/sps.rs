//! What the library reads of an H.264 sequence parameter set.

use vstd::prelude::*;
use vstd::string::StringExecFns;
use crate::text::{hex2, push_hex2};

verus! {

/// The chroma sampling of the coded pictures.
#[derive(Debug, Clone, Copy, PartialEq, Eq, Structural)]
pub enum ChromaFormat {
    Monochrome,
    YUV420,
    YUV422,
    YUV444,
}

/// Frame cropping offsets, in crop units.
#[derive(Debug, Clone, Copy, PartialEq, Eq, Structural)]
pub struct FrameCropping {
    pub left_offset: u32,
    pub right_offset: u32,
    pub top_offset: u32,
    pub bottom_offset: u32,
}

/// The fields of a sequence parameter set that the track reads.
#[derive(Debug, Clone, Copy)]
pub struct SpsInfo {
    pub profile_idc: u8,
    /// `constraint_set0_flag` first.
    pub constraint_flags: [bool; 8],
    pub level_idc: u8,
    pub pic_width_in_mbs_minus1: u32,
    pub pic_height_in_map_units_minus1: u32,
    /// True when `frame_mbs_only_flag` is set (frames only, no fields).
    pub frame_mbs_only: bool,
    pub chroma_format: ChromaFormat,
    pub frame_cropping: Option<FrameCropping>,
}


/// The constraint flags packed into a byte, `constraint_set0_flag` in the lowest bit.
pub open spec fn flags_byte(f: Seq<bool>) -> int {
    (if f[0] { 1int } else { 0 }) + (if f[1] { 2int } else { 0 }) + (if f[2] { 4int } else { 0 }) + (
    if f[3] {
        8int
    } else {
        0
    }) + (if f[4] { 16int } else { 0 }) + (if f[5] { 32int } else { 0 }) + (if f[6] {
        64int
    } else {
        0
    }) + (if f[7] { 128int } else { 0 })
}

pub open spec fn clamp_u32(x: int) -> u32 {
    if x < 0 {
        0
    } else if x > u32::MAX {
        u32::MAX
    } else {
        x as u32
    }
}

/// Picture width and height in pixels, after frame cropping; a crop larger
/// than the picture gives zero, and a size beyond `u32` is clamped.
pub open spec fn spec_dimensions(s: SpsInfo) -> (u32, u32) {
    let mul: int = if s.frame_mbs_only { 1 } else { 2 };
    let vsub = s.chroma_format == ChromaFormat::YUV420;
    let hsub = s.chroma_format == ChromaFormat::YUV420 || s.chroma_format == ChromaFormat::YUV422;
    let step_x: int = if hsub { 2 } else { 1 };
    let step_y: int = if vsub { mul * 2 } else { mul };
    let width = (s.pic_width_in_mbs_minus1 + 1) * 16;
    let height = mul * (s.pic_height_in_map_units_minus1 + 1) * 16;
    match s.frame_cropping {
        Some(c) => (
            clamp_u32(width - c.left_offset * step_x - c.right_offset * step_x),
            clamp_u32(height - c.top_offset * step_y - c.bottom_offset * step_y),
        ),
        None => (clamp_u32(width), clamp_u32(height)),
    }
}

/// The RFC 6381 codec string of the stream, `avc1.PPCCLL`.
pub open spec fn spec_codec(s: SpsInfo) -> Seq<char> {
    seq!['a', 'v', 'c', '1', '.'] + hex2(s.profile_idc) + hex2(flags_byte(s.constraint_flags@) as u8)
        + hex2(s.level_idc)
}

fn clamp(x: i128) -> (r: u32)
    ensures
        r == clamp_u32(x as int),
{
    if x < 0 {
        0
    } else if x > u32::MAX as i128 {
        u32::MAX
    } else {
        x as u32
    }
}

impl SpsInfo {
    /// Packs the constraint flags into a byte, `constraint_set0_flag` lowest.
    pub fn constraint_flags_byte(&self) -> (r: u8)
        ensures
            r as int == flags_byte(self.constraint_flags@),
    {
        let f = &self.constraint_flags;
        let mut b: u8 = 0;
        if f[0] {
            b = b + 1;
        }
        if f[1] {
            b = b + 2;
        }
        if f[2] {
            b = b + 4;
        }
        if f[3] {
            b = b + 8;
        }
        if f[4] {
            b = b + 16;
        }
        if f[5] {
            b = b + 32;
        }
        if f[6] {
            b = b + 64;
        }
        if f[7] {
            b = b + 128;
        }
        b
    }

    /// Picture width and height in pixels.
    pub fn dimensions(&self) -> (r: (u32, u32))
        ensures
            r == spec_dimensions(*self),
    {
        let mul: i128 = if self.frame_mbs_only { 1 } else { 2 };
        let vsub = self.chroma_format == ChromaFormat::YUV420;
        let hsub = self.chroma_format == ChromaFormat::YUV420 || self.chroma_format == ChromaFormat::YUV422;
        let step_x: i128 = if hsub { 2 } else { 1 };
        let step_y: i128 = if vsub { mul * 2 } else { mul };
        let width = (self.pic_width_in_mbs_minus1 as i128 + 1) * 16;
        let height = mul * (self.pic_height_in_map_units_minus1 as i128 + 1) * 16;
        match self.frame_cropping {
            Some(c) => (
                clamp(width - c.left_offset as i128 * step_x - c.right_offset as i128 * step_x),
                clamp(height - c.top_offset as i128 * step_y - c.bottom_offset as i128 * step_y),
            ),
            None => (clamp(width), clamp(height)),
        }
    }

    /// The RFC 6381 codec string, `avc1.` and the hexadecimal profile,
    /// constraint-flags byte and level.
    pub fn rfc6381_codec(&self) -> (r: String)
        ensures
            r@ == spec_codec(*self),
    {
        let mut text = String::new();
        proof {
            reveal_strlit("avc1.");
        }
        text.append("avc1.");
        push_hex2(&mut text, self.profile_idc);
        push_hex2(&mut text, self.constraint_flags_byte());
        push_hex2(&mut text, self.level_idc);
        assert(text@ =~= spec_codec(*self));
        text
    }
}

} // verus!

