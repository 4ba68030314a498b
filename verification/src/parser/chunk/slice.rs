//! Slice chunks (0x2022): named regions of the sprite, keyed by frame.
use vstd::prelude::*;

use crate::parser::chunk::AsepriteChunkParser;
use crate::parser::primitives::{
    dword_to_long, i32_of, parse_dword, parse_long, parse_point, parse_string, spec_dword, spec_long, spec_point,
    spec_string, DWORD, LONG, Point, Rect, Size, WORD,
};
use crate::parser::result::{
    lemma_count_err, presult_view, spec_count, ErrorKind, PResult, SpecResult,
};

verus! {

#[derive(Debug, Clone, Copy, PartialEq, Eq)]
pub struct SliceKey {
    pub frame: DWORD,
    pub x: LONG,
    pub y: LONG,
    pub width: DWORD,
    pub height: DWORD,
    /// The center of a 9-patch slice (flag bit 1).
    pub ninepatch: Option<Rect>,
    /// The pivot (flag bit 2).
    pub pivot: Option<Point>,
}

impl View for SliceKey {
    type V = SliceKey;

    open spec fn view(&self) -> SliceKey {
        *self
    }
}

#[derive(Debug, PartialEq, Eq)]
pub struct SliceChunk {
    pub flags: DWORD,
    pub name: String,
    pub keys: Vec<SliceKey>,
}

/// The model of a slice chunk.
pub struct SpecSliceChunk {
    pub flags: u32,
    pub name: Seq<char>,
    pub keys: Seq<SliceKey>,
}

impl View for SliceChunk {
    type V = SpecSliceChunk;

    open spec fn view(&self) -> SpecSliceChunk {
        SpecSliceChunk { flags: self.flags, name: self.name@, keys: self.keys@ }
    }
}

/// The fixed part of a key: frame, x, y, width, height.
pub open spec fn spec_slice_key_bounds(s: Seq<u8>) -> SpecResult<(u32, i32, i32, u32, u32)> {
    match spec_dword(s) {
        Err(e) => Err(e),
        Ok((s1, frame)) => match spec_long(s1) {
            Err(e) => Err(e),
            Ok((s2, x)) => match spec_long(s2) {
                Err(e) => Err(e),
                Ok((s3, y)) => match spec_dword(s3) {
                    Err(e) => Err(e),
                    Ok((s4, width)) => match spec_dword(s4) {
                        Err(e) => Err(e),
                        Ok((s5, height)) => Ok((s5, (frame, x, y, width, height))),
                    },
                },
            },
        },
    }
}

/// A 9-patch center: x and y as LONGs, width and height as DWORDs (kept as their
/// 32 bits in a LONG).
pub open spec fn spec_ninepatch(s: Seq<u8>) -> SpecResult<Rect> {
    match spec_long(s) {
        Err(e) => Err(e),
        Ok((s1, cx)) => match spec_long(s1) {
            Err(e) => Err(e),
            Ok((s2, cy)) => match spec_dword(s2) {
                Err(e) => Err(e),
                Ok((s3, cw)) => match spec_dword(s3) {
                    Err(e) => Err(e),
                    Ok((s4, ch)) => Ok(
                        (
                            s4,
                            Rect {
                                origin: Point { x: cx, y: cy },
                                size: Size { w: i32_of(cw), h: i32_of(ch) },
                            },
                        ),
                    ),
                },
            },
        },
    }
}

/// A key: its bounds, then the 9-patch center and the pivot when the chunk's flags
/// call for them.
pub open spec fn spec_slice_key(s: Seq<u8>, has_ninepatch: bool, has_pivot: bool) -> SpecResult<
    SliceKey,
> {
    match spec_slice_key_bounds(s) {
        Err(e) => Err(e),
        Ok((s1, (frame, x, y, width, height))) => {
            let np: SpecResult<Option<Rect>> = if has_ninepatch {
                match spec_ninepatch(s1) {
                    Err(e) => Err(e),
                    Ok((r, c)) => Ok((r, Some(c))),
                }
            } else {
                Ok((s1, None))
            };
            match np {
                Err(e) => Err(e),
                Ok((s2, ninepatch)) => {
                    let pv: SpecResult<Option<Point>> = if has_pivot {
                        match spec_point(s2) {
                            Err(e) => Err(e),
                            Ok((r, p)) => Ok((r, Some(p))),
                        }
                    } else {
                        Ok((s2, None))
                    };
                    match pv {
                        Err(e) => Err(e),
                        Ok((s3, pivot)) => Ok(
                            (s3, SliceKey { frame, x, y, width, height, ninepatch, pivot }),
                        ),
                    }
                },
            }
        },
    }
}

pub open spec fn slice_key_parser(has_ninepatch: bool, has_pivot: bool) -> spec_fn(
    Seq<u8>,
) -> SpecResult<SliceKey> {
    |s: Seq<u8>| spec_slice_key(s, has_ninepatch, has_pivot)
}

/// The head of a slice: number of keys, flags, a reserved DWORD, the name.
pub open spec fn spec_slice_head(s: Seq<u8>) -> SpecResult<(u32, u32, Seq<char>)> {
    match spec_dword(s) {
        Err(e) => Err(e),
        Ok((s1, num_keys)) => match spec_dword(s1) {
            Err(e) => Err(e),
            Ok((s2, flags)) => match spec_dword(s2) {
                Err(e) => Err(e),
                Ok((s3, _reserved)) => match spec_string(s3) {
                    Err(e) => Err(e),
                    Ok((s4, name)) => Ok((s4, (num_keys, flags, name))),
                },
            },
        },
    }
}

/// A slice: its head, then its keys, each with a 9-patch center when flag bit 1 is
/// set and a pivot when flag bit 2 is set.
pub open spec fn spec_slice_chunk(s: Seq<u8>) -> SpecResult<SpecSliceChunk> {
    match spec_slice_head(s) {
        Err(e) => Err(e),
        Ok((s1, (num_keys, flags, name))) => match spec_count(
            slice_key_parser(flags & 1 != 0, flags & 2 != 0),
            s1,
            num_keys as nat,
        ) {
            Err(e) => Err(e),
            Ok((s2, keys)) => Ok((s2, SpecSliceChunk { flags, name, keys })),
        },
    }
}

fn parse_slice_key_bounds(input: &[u8]) -> (res: PResult<'_, (u32, i32, i32, u32, u32)>)
    ensures
        presult_view(res) == spec_slice_key_bounds(input@),
{
    let (input, frame) = parse_dword(input)?;
    let (input, x) = parse_long(input)?;
    let (input, y) = parse_long(input)?;
    let (input, width) = parse_dword(input)?;
    let (input, height) = parse_dword(input)?;
    Ok((input, (frame, x, y, width, height)))
}

fn parse_ninepatch(input: &[u8]) -> (res: PResult<'_, Rect>)
    ensures
        presult_view(res) == spec_ninepatch(input@),
{
    let (i, cx) = parse_long(input)?;
    let (i, cy) = parse_long(i)?;
    let (i, cw) = parse_dword(i)?;
    let (i, ch) = parse_dword(i)?;
    Ok(
        (
            i,
            Rect {
                origin: Point { x: cx, y: cy },
                size: Size { w: dword_to_long(cw), h: dword_to_long(ch) },
            },
        ),
    )
}

/// One key of a slice; `has_ninepatch` and `has_pivot` come from the slice's flags.
fn parse_slice_key(input: &[u8], has_ninepatch: bool, has_pivot: bool) -> (res: PResult<'_, SliceKey>)
    ensures
        presult_view(res) == spec_slice_key(input@, has_ninepatch, has_pivot),
{
    let (input, (frame, x, y, width, height)) = parse_slice_key_bounds(input)?;
    let (input, ninepatch) = if has_ninepatch {
        let (i, c) = parse_ninepatch(input)?;
        (i, Some(c))
    } else {
        (input, None)
    };
    let (input, pivot) = if has_pivot {
        let (i, p) = parse_point(input)?;
        (i, Some(p))
    } else {
        (input, None)
    };
    Ok((input, SliceKey { frame, x, y, width, height, ninepatch, pivot }))
}

fn parse_slice_keys(input: &[u8], n: u32, has_ninepatch: bool, has_pivot: bool) -> (res: PResult<
    '_,
    Vec<SliceKey>,
>)
    ensures
        presult_view(res) == spec_count(
            slice_key_parser(has_ninepatch, has_pivot),
            input@,
            n as nat,
        ),
{
    let mut rest = input;
    let mut keys: Vec<SliceKey> = Vec::new();
    let mut i: u32 = 0;
    while i < n
        invariant
            i <= n,
            spec_count(slice_key_parser(has_ninepatch, has_pivot), input@, i as nat) == Ok::<
                _,
                (Seq<u8>, ErrorKind),
            >((rest@, keys@)),
        decreases n - i,
    {
        match parse_slice_key(rest, has_ninepatch, has_pivot) {
            Ok((r, k)) => {
                keys.push(k);
                rest = r;
                i = i + 1;
            },
            Err(e) => {
                proof {
                    assert(slice_key_parser(has_ninepatch, has_pivot)(rest@) == spec_slice_key(
                        rest@,
                        has_ninepatch,
                        has_pivot,
                    ));
                    lemma_count_err(
                        slice_key_parser(has_ninepatch, has_pivot),
                        input@,
                        (i + 1) as nat,
                        n as nat,
                    );
                }
                return Err(e);
            },
        }
    }
    Ok((rest, keys))
}

fn parse_slice_head(input: &[u8]) -> (res: PResult<'_, (u32, u32, String)>)
    ensures
        presult_view(res) == spec_slice_head(input@),
{
    let (input, num_keys) = parse_dword(input)?;
    let (input, flags) = parse_dword(input)?;
    let (input, _reserved) = parse_dword(input)?;
    let (input, name) = parse_string(input)?;
    Ok((input, (num_keys, flags, name)))
}

impl<'a> AsepriteChunkParser<'a> for SliceChunk {
    const CHUNK_TYPE: WORD = 0x2022;

    open spec fn spec_chunk_type() -> WORD {
        0x2022
    }

    fn chunk_type() -> (t: WORD) {
        Self::CHUNK_TYPE
    }

    open spec fn spec_parse_data(input: Seq<u8>) -> SpecResult<SpecSliceChunk> {
        spec_slice_chunk(input)
    }

    fn parse_data(input: &'a [u8]) -> (res: PResult<'a, Self>) {
        let (input, (num_keys, flags, name)) = parse_slice_head(input)?;
        let (input, keys) = parse_slice_keys(input, num_keys, flags & 1 != 0, flags & 2 != 0)?;
        Ok((input, SliceChunk { flags, name, keys }))
    }
}

} // verus!
