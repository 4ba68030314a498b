//! Color profile chunks (0x2007).
use vstd::prelude::*;

use crate::parser::chunk::AsepriteChunkParser;
use crate::parser::primitives::{
    parse_dword, parse_long, parse_word, skip_bytes, spec_dword, spec_long, spec_skip, spec_take,
    spec_word, take, FIXED, WORD,
};
use crate::parser::result::{PResult, SpecResult};

verus! {

#[derive(Debug, PartialEq, Eq)]
pub struct ColorProfileChunk<'a> {
    /// 0: none, 1: sRGB, 2: embedded ICC profile.
    pub kind: WORD,
    pub flags: WORD,
    pub gamma: FIXED,
    pub icc: Option<&'a [u8]>,
}

/// The model of a color profile chunk.
pub struct SpecColorProfileChunk {
    pub kind: u16,
    pub flags: u16,
    pub gamma: i32,
    pub icc: Option<Seq<u8>>,
}

impl<'a> View for ColorProfileChunk<'a> {
    type V = SpecColorProfileChunk;

    open spec fn view(&self) -> SpecColorProfileChunk {
        SpecColorProfileChunk {
            kind: self.kind,
            flags: self.flags,
            gamma: self.gamma,
            icc: match self.icc {
                Some(d) => Some(d@),
                None => None,
            },
        }
    }
}

/// An ICC profile: its length as a DWORD, then that many bytes.
pub open spec fn spec_icc(s: Seq<u8>) -> SpecResult<Seq<u8>> {
    match spec_dword(s) {
        Err(e) => Err(e),
        Ok((s1, len)) => spec_take(s1, len as nat),
    }
}

/// A color profile: kind, flags, gamma, eight reserved bytes, and an ICC profile when
/// the kind is 2.
pub open spec fn spec_color_profile_chunk(s: Seq<u8>) -> SpecResult<SpecColorProfileChunk> {
    match spec_word(s) {
        Err(e) => Err(e),
        Ok((s1, kind)) => match spec_word(s1) {
            Err(e) => Err(e),
            Ok((s2, flags)) => match spec_long(s2) {
                Err(e) => Err(e),
                Ok((s3, gamma)) => match spec_skip(s3, 8) {
                    Err(e) => Err(e),
                    Ok((s4, _)) => if kind == 2 {
                        match spec_icc(s4) {
                            Err(e) => Err(e),
                            Ok((s5, d)) => Ok(
                                (s5, SpecColorProfileChunk { kind, flags, gamma, icc: Some(d) }),
                            ),
                        }
                    } else {
                        Ok((s4, SpecColorProfileChunk { kind, flags, gamma, icc: None }))
                    },
                },
            },
        },
    }
}

impl<'a> AsepriteChunkParser<'a> for ColorProfileChunk<'a> {
    const CHUNK_TYPE: WORD = 0x2007;

    open spec fn spec_chunk_type() -> WORD {
        0x2007
    }

    fn chunk_type() -> (t: WORD) {
        Self::CHUNK_TYPE
    }

    open spec fn spec_parse_data(input: Seq<u8>) -> SpecResult<SpecColorProfileChunk> {
        spec_color_profile_chunk(input)
    }

    fn parse_data(input: &'a [u8]) -> (res: PResult<'a, Self>) {
        let (input, kind) = parse_word(input)?;
        let (input, flags) = parse_word(input)?;
        let (input, gamma) = parse_long(input)?;
        let (input, _) = skip_bytes(input, 8)?;
        let (input, icc) = if kind == 2 {
            let (i, len) = parse_dword(input)?;
            let (i, data) = take(i, len as usize)?;
            (i, Some(data))
        } else {
            (input, None)
        };
        Ok((input, ColorProfileChunk { kind, flags, gamma, icc }))
    }
}

} // verus!
