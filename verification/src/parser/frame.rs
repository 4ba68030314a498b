//! Frames: a 16-byte header followed by its chunks.
use vstd::prelude::*;

use crate::parser::chunk::{parse_aseprite_chunk, spec_aseprite_chunk, AsepriteChunk, SpecAsepriteChunk};
use crate::parser::primitives::{
    parse_dword, parse_magic_word, parse_word, skip_bytes, spec_dword, spec_magic_word, spec_skip,
    spec_word, DWORD, WORD,
};
use crate::parser::result::{ErrorKind, lemma_count_err, presult_view, spec_count, PResult, SpecResult};

verus! {

/// The magic number of every frame header.
pub const FRAME_MAGIC: u16 = 0xF1FA;

#[derive(Debug, Clone, Copy, PartialEq, Eq)]
pub struct AsepriteFrameHeader {
    pub bytes_in_frame: DWORD,
    pub magic_number: WORD,
    /// The number of chunks, or 0xFFFF when `number_of_chunks_new` holds it.
    pub number_of_chunks_old: WORD,
    /// In milliseconds.
    pub frame_duration: WORD,
    pub number_of_chunks_new: DWORD,
}

impl View for AsepriteFrameHeader {
    type V = AsepriteFrameHeader;

    open spec fn view(&self) -> AsepriteFrameHeader {
        *self
    }
}

#[derive(Debug, PartialEq, Eq)]
pub struct Frame<'a> {
    pub header: AsepriteFrameHeader,
    pub chunks: Vec<AsepriteChunk<'a>>,
}

/// The model of a frame.
pub struct SpecFrame {
    pub header: AsepriteFrameHeader,
    pub chunks: Seq<SpecAsepriteChunk>,
}

/// The models of a run of chunks.
pub open spec fn chunks_view<'a>(v: Seq<AsepriteChunk<'a>>) -> Seq<SpecAsepriteChunk> {
    v.map_values(|c: AsepriteChunk<'a>| c@)
}

impl<'a> View for Frame<'a> {
    type V = SpecFrame;

    open spec fn view(&self) -> SpecFrame {
        SpecFrame { header: self.header, chunks: chunks_view(self.chunks@) }
    }
}

/// The frame header: bytes in frame, the magic number 0xF1FA, the old chunk count,
/// the duration, two reserved bytes, the new chunk count.
pub open spec fn spec_frame_header(s: Seq<u8>) -> SpecResult<AsepriteFrameHeader> {
    match spec_dword(s) {
        Err(e) => Err(e),
        Ok((s1, bytes_in_frame)) => match spec_magic_word(s1, FRAME_MAGIC) {
            Err(e) => Err(e),
            Ok((s2, magic_number)) => match spec_word(s2) {
                Err(e) => Err(e),
                Ok((s3, number_of_chunks_old)) => match spec_word(s3) {
                    Err(e) => Err(e),
                    Ok((s4, frame_duration)) => match spec_skip(s4, 2) {
                        Err(e) => Err(e),
                        Ok((s5, _)) => match spec_dword(s5) {
                            Err(e) => Err(e),
                            Ok((s6, number_of_chunks_new)) => Ok(
                                (
                                    s6,
                                    AsepriteFrameHeader {
                                        bytes_in_frame,
                                        magic_number,
                                        number_of_chunks_old,
                                        frame_duration,
                                        number_of_chunks_new,
                                    },
                                ),
                            ),
                        },
                    },
                },
            },
        },
    }
}

/// The number of chunks a frame holds: the old count, unless it is 0xFFFF, in which
/// case the new one.
pub open spec fn chunk_count(h: AsepriteFrameHeader) -> nat {
    if h.number_of_chunks_old == 0xFFFF {
        h.number_of_chunks_new as nat
    } else {
        h.number_of_chunks_old as nat
    }
}

/// Reading one chunk, as a function value.
pub open spec fn chunk_parser() -> spec_fn(Seq<u8>) -> SpecResult<SpecAsepriteChunk> {
    |s: Seq<u8>| spec_aseprite_chunk(s)
}

/// A frame: its header, then as many chunks as the header announces.
pub open spec fn spec_frame(s: Seq<u8>) -> SpecResult<SpecFrame> {
    match spec_frame_header(s) {
        Err(e) => Err(e),
        Ok((s1, header)) => match spec_count(chunk_parser(), s1, chunk_count(header)) {
            Err(e) => Err(e),
            Ok((s2, chunks)) => Ok((s2, SpecFrame { header, chunks })),
        },
    }
}

pub fn parse_aseprite_frame_header(input: &[u8]) -> (res: PResult<'_, AsepriteFrameHeader>)
    ensures
        presult_view(res) == spec_frame_header(input@),
{
    let (input, bytes_in_frame) = parse_dword(input)?;
    let (input, magic_number) = parse_magic_word::<0xF1FA>(input)?;
    let (input, number_of_chunks_old) = parse_word(input)?;
    let (input, frame_duration) = parse_word(input)?;
    let (input, _) = skip_bytes(input, 2)?;
    let (input, number_of_chunks_new) = parse_dword(input)?;
    Ok(
        (
            input,
            AsepriteFrameHeader {
                bytes_in_frame,
                magic_number,
                number_of_chunks_old,
                frame_duration,
                number_of_chunks_new,
            },
        ),
    )
}

pub fn parse_aseprite_frame(input: &[u8]) -> (res: PResult<'_, Frame<'_>>)
    ensures
        presult_view(res) == spec_frame(input@),
{
    let (after_header, header) = parse_aseprite_frame_header(input)?;
    let n: u32 = if header.number_of_chunks_old == 0xFFFF {
        header.number_of_chunks_new
    } else {
        header.number_of_chunks_old as u32
    };
    let ghost start = after_header@;
    let mut rest = after_header;
    let mut chunks: Vec<AsepriteChunk> = Vec::new();
    let mut i: u32 = 0;
    assert(chunks_view(chunks@) =~= Seq::empty());
    while i < n
        invariant
            i <= n,
            n == chunk_count(header),
            spec_frame_header(input@) == Ok::<_, (Seq<u8>, ErrorKind)>((start, header)),
            spec_count(chunk_parser(), start, i as nat) == Ok::<_, (Seq<u8>, ErrorKind)>(
                (rest@, chunks_view(chunks@)),
            ),
        decreases n - i,
    {
        match parse_aseprite_chunk(rest) {
            Ok((r, c)) => {
                proof {
                    assert(chunks_view(chunks@.push(c)) =~= chunks_view(chunks@).push(c@));
                }
                chunks.push(c);
                rest = r;
                i = i + 1;
            },
            Err(e) => {
                proof {
                    assert(chunk_parser()(rest@) == spec_aseprite_chunk(rest@));
                    assert(spec_count(chunk_parser(), start, (i + 1) as nat) is Err);
                    lemma_count_err(chunk_parser(), start, (i + 1) as nat, n as nat);
                }
                return Err(e);
            },
        }
    }
    Ok((rest, Frame { header, chunks }))
}

} // verus!
