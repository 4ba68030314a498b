//! Tags chunks (0x2018): named frame ranges for animation.
use vstd::prelude::*;

use crate::parser::chunk::AsepriteChunkParser;
use crate::parser::primitives::{
    parse_byte, parse_string, parse_word, skip_bytes, spec_byte, spec_skip, spec_string,
    spec_take, spec_word, take, BYTE, WORD,
};
use crate::parser::result::{
    lemma_count_err, presult_map, presult_view, spec_count, ErrorKind, PResult, SpecResult,
};

verus! {

#[derive(Debug, PartialEq, Eq)]
pub struct Tag {
    pub from_frame: WORD,
    pub to_frame: WORD,
    /// 0: forward, 1: reverse, 2: ping-pong, 3: ping-pong reverse.
    pub direction: BYTE,
    pub repeat: WORD,
    pub color: [BYTE; 3],
    pub name: String,
}

/// The model of a tag.
pub struct SpecTag {
    pub from_frame: u16,
    pub to_frame: u16,
    pub direction: u8,
    pub repeat: u16,
    pub color: Seq<u8>,
    pub name: Seq<char>,
}

impl View for Tag {
    type V = SpecTag;

    open spec fn view(&self) -> SpecTag {
        SpecTag {
            from_frame: self.from_frame,
            to_frame: self.to_frame,
            direction: self.direction,
            repeat: self.repeat,
            color: self.color@,
            name: self.name@,
        }
    }
}

#[derive(Debug, PartialEq, Eq)]
pub struct TagsChunk {
    pub tags: Vec<Tag>,
}

/// The model of a tags chunk.
pub struct SpecTagsChunk {
    pub tags: Seq<SpecTag>,
}

pub open spec fn tags_view(s: Seq<Tag>) -> Seq<SpecTag> {
    s.map_values(|t: Tag| t@)
}

impl View for TagsChunk {
    type V = SpecTagsChunk;

    open spec fn view(&self) -> SpecTagsChunk {
        SpecTagsChunk { tags: tags_view(self.tags@) }
    }
}

/// The head of a tag: from and to frame, direction, repeat count, six reserved bytes.
pub open spec fn spec_tag_head(s: Seq<u8>) -> SpecResult<(u16, u16, u8, u16)> {
    match spec_word(s) {
        Err(e) => Err(e),
        Ok((s1, from_frame)) => match spec_word(s1) {
            Err(e) => Err(e),
            Ok((s2, to_frame)) => match spec_byte(s2) {
                Err(e) => Err(e),
                Ok((s3, direction)) => match spec_word(s3) {
                    Err(e) => Err(e),
                    Ok((s4, repeat)) => match spec_skip(s4, 6) {
                        Err(e) => Err(e),
                        Ok((s5, _)) => Ok((s5, (from_frame, to_frame, direction, repeat))),
                    },
                },
            },
        },
    }
}

/// A tag: its head, three color bytes, one reserved byte, its name.
pub open spec fn spec_tag(s: Seq<u8>) -> SpecResult<SpecTag> {
    match spec_tag_head(s) {
        Err(e) => Err(e),
        Ok((s1, (from_frame, to_frame, direction, repeat))) => match spec_take(s1, 3) {
            Err(e) => Err(e),
            Ok((s2, color)) => match spec_skip(s2, 1) {
                Err(e) => Err(e),
                Ok((s3, _)) => match spec_string(s3) {
                    Err(e) => Err(e),
                    Ok((s4, name)) => Ok(
                        (s4, SpecTag { from_frame, to_frame, direction, repeat, color, name }),
                    ),
                },
            },
        },
    }
}

pub open spec fn tag_parser() -> spec_fn(Seq<u8>) -> SpecResult<SpecTag> {
    |s: Seq<u8>| spec_tag(s)
}

/// A tags chunk: the number of tags, eight reserved bytes, the tags.
pub open spec fn spec_tags_chunk(s: Seq<u8>) -> SpecResult<SpecTagsChunk> {
    match spec_word(s) {
        Err(e) => Err(e),
        Ok((s1, n)) => match spec_skip(s1, 8) {
            Err(e) => Err(e),
            Ok((s2, _)) => match spec_count(tag_parser(), s2, n as nat) {
                Err(e) => Err(e),
                Ok((s3, tags)) => Ok((s3, SpecTagsChunk { tags })),
            },
        },
    }
}

fn parse_tag_head(input: &[u8]) -> (res: PResult<'_, (u16, u16, u8, u16)>)
    ensures
        presult_view(res) == spec_tag_head(input@),
{
    let (input, from_frame) = parse_word(input)?;
    let (input, to_frame) = parse_word(input)?;
    let (input, direction) = parse_byte(input)?;
    let (input, repeat) = parse_word(input)?;
    let (input, _) = skip_bytes(input, 6)?;
    Ok((input, (from_frame, to_frame, direction, repeat)))
}

fn parse_tag(input: &[u8]) -> (res: PResult<'_, Tag>)
    ensures
        presult_view(res) == spec_tag(input@),
{
    let (input, (from_frame, to_frame, direction, repeat)) = parse_tag_head(input)?;
    let (input, color_slice) = take(input, 3)?;
    let color: [u8; 3] = [color_slice[0], color_slice[1], color_slice[2]];
    assert(color@ =~= color_slice@);
    let (input, _) = skip_bytes(input, 1)?;
    let (input, name) = parse_string(input)?;
    Ok((input, Tag { from_frame, to_frame, direction, repeat, color, name }))
}

fn parse_tags(input: &[u8], n: u16) -> (res: PResult<'_, Vec<Tag>>)
    ensures
        presult_map(res, |v: Vec<Tag>| tags_view(v@)) == spec_count(tag_parser(), input@, n as nat),
{
    let mut rest = input;
    let mut tags: Vec<Tag> = Vec::new();
    let mut i: u16 = 0;
    assert(tags_view(tags@) =~= Seq::empty());
    while i < n
        invariant
            i <= n,
            spec_count(tag_parser(), input@, i as nat) == Ok::<_, (Seq<u8>, ErrorKind)>(
                (rest@, tags_view(tags@)),
            ),
        decreases n - i,
    {
        match parse_tag(rest) {
            Ok((r, t)) => {
                proof {
                    assert(tags_view(tags@.push(t)) =~= tags_view(tags@).push(t@));
                }
                tags.push(t);
                rest = r;
                i = i + 1;
            },
            Err(e) => {
                proof {
                    assert(tag_parser()(rest@) == spec_tag(rest@));
                    lemma_count_err(tag_parser(), input@, (i + 1) as nat, n as nat);
                }
                return Err(e);
            },
        }
    }
    Ok((rest, tags))
}

impl<'a> AsepriteChunkParser<'a> for TagsChunk {
    const CHUNK_TYPE: WORD = 0x2018;

    open spec fn spec_chunk_type() -> WORD {
        0x2018
    }

    fn chunk_type() -> (t: WORD) {
        Self::CHUNK_TYPE
    }

    open spec fn spec_parse_data(input: Seq<u8>) -> SpecResult<SpecTagsChunk> {
        spec_tags_chunk(input)
    }

    fn parse_data(input: &'a [u8]) -> (res: PResult<'a, Self>) {
        let (input, num_tags) = parse_word(input)?;
        let (input, _) = skip_bytes(input, 8)?;
        let (input, tags) = parse_tags(input, num_tags)?;
        Ok((input, TagsChunk { tags }))
    }
}

} // verus!
