//! Chunk framing: every chunk is a DWORD size (header included), a WORD type and a
//! body of `size - 6` bytes. The typed bodies are read by the parsers of the
//! submodules, through [`AsepriteChunk::parse_as`].
pub mod cel;
pub mod colorprofile;
pub mod externalfile;
pub mod layer;
pub mod mask;
pub mod oldpalette;
pub mod palette;
pub mod path;
pub mod slice;
pub mod tag;
pub mod tileset;
pub mod userdata;

use vstd::prelude::*;

use crate::parser::primitives::{
    parse_dword, parse_word, spec_dword, spec_take, spec_word, take, DWORD, WORD,
};
use crate::parser::result::{presult_view, ErrorKind, PResult, ParseError, SpecResult};

pub use crate::parser::primitives::{Point, Rect, Size};
pub use cel::{CelChunk, CelData, CelExtraChunk};
pub use colorprofile::ColorProfileChunk;
pub use externalfile::{ExternalFileEntry, ExternalFilesChunk};
pub use layer::LayerChunk;
pub use mask::MaskChunk;
pub use oldpalette::{OldPalette04Chunk, OldPalette11Chunk, OldPaletteColor, OldPalettePacket};
pub use palette::{PaletteChunk, PaletteEntry};
pub use path::PathChunk;
pub use slice::{SliceChunk, SliceKey};
pub use tag::{Tag, TagsChunk};
pub use tileset::TilesetChunk;
pub use userdata::{PropValue, PropertiesMap, UserDataChunk};

verus! {

/// One chunk of a frame, with its body still unparsed.
#[derive(Debug, PartialEq, Eq)]
pub struct AsepriteChunk<'a> {
    pub chunk_size: DWORD,
    pub chunk_type: WORD,
    pub raw: &'a [u8],
}

/// The model of a chunk.
pub struct SpecAsepriteChunk {
    pub chunk_size: u32,
    pub chunk_type: u16,
    pub raw: Seq<u8>,
}

impl<'a> View for AsepriteChunk<'a> {
    type V = SpecAsepriteChunk;

    open spec fn view(&self) -> SpecAsepriteChunk {
        SpecAsepriteChunk { chunk_size: self.chunk_size, chunk_type: self.chunk_type, raw: self.raw@ }
    }
}

/// A chunk: its size (which counts the 6 header bytes, so it is at least 6), its
/// type, and `size - 6` bytes of body. A size under 6 fails with `Verify` at the body.
pub open spec fn spec_aseprite_chunk(s: Seq<u8>) -> SpecResult<SpecAsepriteChunk> {
    match spec_dword(s) {
        Err(e) => Err(e),
        Ok((s1, chunk_size)) => match spec_word(s1) {
            Err(e) => Err(e),
            Ok((s2, chunk_type)) => if chunk_size < 6 {
                Err((s2, ErrorKind::Verify))
            } else {
                match spec_take(s2, (chunk_size - 6) as nat) {
                    Err(e) => Err(e),
                    Ok((s3, raw)) => Ok((s3, SpecAsepriteChunk { chunk_size, chunk_type, raw })),
                }
            },
        },
    }
}

pub fn parse_aseprite_chunk(input: &[u8]) -> (res: PResult<'_, AsepriteChunk<'_>>)
    ensures
        presult_view(res) == spec_aseprite_chunk(input@),
{
    let (input, chunk_size) = parse_dword(input)?;
    let (input, chunk_type) = parse_word(input)?;
    if chunk_size < 6 {
        return Err(ParseError { input, code: ErrorKind::Verify });
    }
    let body_len: usize = (chunk_size - 6) as usize;
    let (input, raw) = take(input, body_len)?;
    Ok((input, AsepriteChunk { chunk_size, chunk_type, raw }))
}

/// A typed chunk body: the chunk type it is read from, and how it is read.
pub trait AsepriteChunkParser<'a>: Sized + View {
    /// The chunk type this body is read from; the same value as `chunk_type`.
    const CHUNK_TYPE: WORD;

    /// The chunk type this body is read from.
    spec fn spec_chunk_type() -> WORD;

    fn chunk_type() -> (t: WORD)
        ensures
            t == Self::spec_chunk_type(),
            t == Self::CHUNK_TYPE,
    ;

    /// The meaning of `parse_data` over the body's bytes.
    spec fn spec_parse_data(input: Seq<u8>) -> SpecResult<<Self as View>::V>;

    fn parse_data(input: &'a [u8]) -> (res: PResult<'a, Self>)
        ensures
            presult_view(res) == Self::spec_parse_data(input@),
    ;
}

/// A chunk read as `T`: its type must be `T`'s chunk type (else `Verify` at the body),
/// and `T` must read the whole body (else `Eof` at what it left).
pub open spec fn spec_parse_as<'a, T: AsepriteChunkParser<'a>>(c: SpecAsepriteChunk) -> SpecResult<
    <T as View>::V,
> {
    if c.chunk_type != T::spec_chunk_type() {
        Err((c.raw, ErrorKind::Verify))
    } else {
        match T::spec_parse_data(c.raw) {
            Err(e) => Err(e),
            Ok((rest, v)) => if rest.len() != 0 {
                Err((rest, ErrorKind::Eof))
            } else {
                Ok((rest, v))
            },
        }
    }
}

impl<'a> AsepriteChunk<'a> {
    pub fn parse_as<T: AsepriteChunkParser<'a>>(&self) -> (res: PResult<'a, T>)
        ensures
            presult_view(res) == spec_parse_as::<T>(self@),
            T::spec_chunk_type() == T::CHUNK_TYPE,
    {
        if self.chunk_type != T::chunk_type() {
            return Err(ParseError { input: self.raw, code: ErrorKind::Verify });
        }
        let (rest, value) = T::parse_data(self.raw)?;
        if rest.len() != 0 {
            return Err(ParseError { input: rest, code: ErrorKind::Eof });
        }
        Ok((rest, value))
    }
}

} // verus!
