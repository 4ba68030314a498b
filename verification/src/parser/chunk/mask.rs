//! Mask chunks (0x2016).
use vstd::prelude::*;

use crate::parser::chunk::AsepriteChunkParser;
use crate::parser::primitives::{
    parse_short, parse_string, parse_word, skip_bytes, spec_short, spec_skip, spec_string,
    spec_take, spec_word, take, SHORT, WORD,
};
use crate::parser::result::{presult_view, PResult, SpecResult};

verus! {

#[derive(Debug, PartialEq, Eq)]
pub struct MaskChunk<'a> {
    pub x: SHORT,
    pub y: SHORT,
    pub width: WORD,
    pub height: WORD,
    pub name: String,
    /// One bit per pixel, each row padded to whole bytes.
    pub bitmap: &'a [u8],
}

/// The model of a mask chunk.
pub struct SpecMaskChunk {
    pub x: i16,
    pub y: i16,
    pub width: u16,
    pub height: u16,
    pub name: Seq<char>,
    pub bitmap: Seq<u8>,
}

impl<'a> View for MaskChunk<'a> {
    type V = SpecMaskChunk;

    open spec fn view(&self) -> SpecMaskChunk {
        SpecMaskChunk {
            x: self.x,
            y: self.y,
            width: self.width,
            height: self.height,
            name: self.name@,
            bitmap: self.bitmap@,
        }
    }
}

/// The size of a mask's bitmap: `height` rows of `ceil(width / 8)` bytes.
pub open spec fn mask_bitmap_size(width: u16, height: u16) -> nat {
    (height * ((width + 7) / 8)) as nat
}

/// The head of a mask: x, y, width, height and eight reserved bytes.
pub open spec fn spec_mask_head(s: Seq<u8>) -> SpecResult<(i16, i16, u16, u16)> {
    match spec_short(s) {
        Err(e) => Err(e),
        Ok((s1, x)) => match spec_short(s1) {
            Err(e) => Err(e),
            Ok((s2, y)) => match spec_word(s2) {
                Err(e) => Err(e),
                Ok((s3, width)) => match spec_word(s3) {
                    Err(e) => Err(e),
                    Ok((s4, height)) => match spec_skip(s4, 8) {
                        Err(e) => Err(e),
                        Ok((s5, _)) => Ok((s5, (x, y, width, height))),
                    },
                },
            },
        },
    }
}

/// A mask: its head, its name, and its bitmap.
pub open spec fn spec_mask_chunk(s: Seq<u8>) -> SpecResult<SpecMaskChunk> {
    match spec_mask_head(s) {
        Err(e) => Err(e),
        Ok((s1, (x, y, width, height))) => match spec_string(s1) {
            Err(e) => Err(e),
            Ok((s2, name)) => match spec_take(s2, mask_bitmap_size(width, height)) {
                Err(e) => Err(e),
                Ok((s3, bitmap)) => Ok((s3, SpecMaskChunk { x, y, width, height, name, bitmap })),
            },
        },
    }
}

fn parse_mask_head(input: &[u8]) -> (res: PResult<'_, (i16, i16, u16, u16)>)
    ensures
        presult_view(res) == spec_mask_head(input@),
{
    let (input, x) = parse_short(input)?;
    let (input, y) = parse_short(input)?;
    let (input, width) = parse_word(input)?;
    let (input, height) = parse_word(input)?;
    let (input, _) = skip_bytes(input, 8)?;
    Ok((input, (x, y, width, height)))
}

impl<'a> AsepriteChunkParser<'a> for MaskChunk<'a> {
    const CHUNK_TYPE: WORD = 0x2016;

    open spec fn spec_chunk_type() -> WORD {
        0x2016
    }

    fn chunk_type() -> (t: WORD) {
        Self::CHUNK_TYPE
    }

    open spec fn spec_parse_data(input: Seq<u8>) -> SpecResult<SpecMaskChunk> {
        spec_mask_chunk(input)
    }

    fn parse_data(input: &'a [u8]) -> (res: PResult<'a, Self>) {
        let (input, (x, y, width, height)) = parse_mask_head(input)?;
        let (input, name) = parse_string(input)?;
        let row_bytes: usize = ((width as usize) + 7) / 8;
        assert((height as usize) * row_bytes <= 0xffff * 0x2000) by (nonlinear_arith)
            requires
                height <= 0xffff,
                row_bytes <= 0x2000,
        ;
        let bitmap_size: usize = (height as usize) * row_bytes;
        let (input, bitmap) = take(input, bitmap_size)?;
        Ok((input, MaskChunk { x, y, width, height, name, bitmap }))
    }
}

} // verus!
