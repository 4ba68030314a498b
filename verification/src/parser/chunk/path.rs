//! Path chunks (0x2017), which the format reserves and which carry nothing.
use vstd::prelude::*;

use crate::parser::chunk::AsepriteChunkParser;
use crate::parser::primitives::WORD;
use crate::parser::result::{PResult, SpecResult};

verus! {

#[derive(Debug, Clone, Copy, PartialEq, Eq)]
pub struct PathChunk;

impl View for PathChunk {
    type V = PathChunk;

    open spec fn view(&self) -> PathChunk {
        *self
    }
}

impl<'a> AsepriteChunkParser<'a> for PathChunk {
    const CHUNK_TYPE: WORD = 0x2017;

    open spec fn spec_chunk_type() -> WORD {
        0x2017
    }

    fn chunk_type() -> (t: WORD) {
        Self::CHUNK_TYPE
    }

    /// A path chunk reads nothing.
    open spec fn spec_parse_data(input: Seq<u8>) -> SpecResult<PathChunk> {
        Ok((input, PathChunk))
    }

    fn parse_data(input: &'a [u8]) -> (res: PResult<'a, Self>) {
        Ok((input, PathChunk))
    }
}

} // verus!
