//! Properties of the parsers as a whole, proved over their specifications.
use vstd::prelude::*;
use vstd::utf8::{decode_utf8_encode_utf8, encode_utf8};

use crate::parser::chunk::cel::{spec_cel_chunk, spec_cel_data, spec_cel_extra_chunk, spec_cel_head};
use crate::parser::chunk::colorprofile::spec_color_profile_chunk;
use crate::parser::chunk::externalfile::{entry_parser, spec_external_files_chunk};
use crate::parser::chunk::layer::{
    spec_layer_chunk, spec_layer_uuid, spec_layer_words, spec_tileset_index,
};
use crate::parser::chunk::mask::spec_mask_chunk;
use crate::parser::chunk::oldpalette::{
    color_parser, packet_parser, spec_old_palette_chunk, spec_old_palette_packet,
};
use crate::parser::chunk::palette::{palette_entry_parser, spec_palette_chunk, spec_palette_head};
use crate::parser::chunk::slice::{slice_key_parser, spec_slice_chunk, spec_slice_head};
use crate::parser::chunk::tag::{spec_tags_chunk, tag_parser};
use crate::parser::chunk::tileset::{
    spec_tileset_chunk, spec_tileset_external, spec_tileset_head, spec_tileset_image,
};
use crate::parser::chunk::userdata::{
    property_map_parser, spec_prop, spec_prop_value, spec_property_map, spec_props,
    spec_user_data_chunk, spec_user_data_maps, spec_vec_elem, spec_vec_elems,
};
use crate::parser::chunk::{
    CelChunk, CelExtraChunk, ColorProfileChunk, ExternalFilesChunk, LayerChunk, MaskChunk,
    OldPalette04Chunk, OldPalette11Chunk, PaletteChunk, PathChunk, SliceChunk, TagsChunk,
    TilesetChunk, UserDataChunk, spec_aseprite_chunk, spec_parse_as, AsepriteChunkParser, SpecAsepriteChunk,
};
use crate::parser::frame::{chunk_count, chunk_parser, spec_frame, spec_frame_header};
use crate::parser::primitives::{
    spec_byte, spec_dword, spec_long, spec_long64, spec_magic_word, spec_point, spec_qword,
    spec_rect, spec_short, spec_size, spec_skip, spec_string, spec_take, spec_uuid, spec_word,
};
use crate::parser::result::{
    append_stable, is_suffix, lemma_count_append, lemma_count_len, lemma_count_within, lemma_suffix_trans, lemma_within_suffix, spec_count,
    stays_within,
};

verus! {

// ---------------------------------------------------------------------------
// Every parser reads a prefix of its input
// ---------------------------------------------------------------------------
/// Every primitive reads a prefix of its input: on success what it leaves is a
/// suffix of the input, and on failure so is the point where it stopped.
pub proof fn lemma_primitives_within(s: Seq<u8>, n: nat, magic: u16)
    ensures
        stays_within(s, spec_take(s, n)),
        stays_within(s, spec_skip(s, n)),
        stays_within(s, spec_byte(s)),
        stays_within(s, spec_word(s)),
        stays_within(s, spec_short(s)),
        stays_within(s, spec_dword(s)),
        stays_within(s, spec_long(s)),
        stays_within(s, spec_qword(s)),
        stays_within(s, spec_long64(s)),
        stays_within(s, spec_uuid(s)),
        stays_within(s, spec_string(s)),
        stays_within(s, spec_magic_word(s, magic)),
        stays_within(s, spec_point(s)),
        stays_within(s, spec_size(s)),
        stays_within(s, spec_rect(s)),
{
}

/// Chunk framing and frame headers read a prefix of their input.
pub proof fn lemma_framing_within(s: Seq<u8>)
    ensures
        stays_within(s, spec_aseprite_chunk(s)),
        stays_within(s, spec_frame_header(s)),
{
}

/// A frame reads a prefix of its input.
pub proof fn lemma_frame_within(s: Seq<u8>)
    ensures
        stays_within(s, spec_frame(s)),
{
    if let Ok((s1, header)) = spec_frame_header(s) {
        assert forall|t: Seq<u8>| #[trigger] stays_within(t, chunk_parser()(t)) by {
            lemma_framing_within(t);
        }
        lemma_count_within(chunk_parser(), s1, crate::parser::frame::chunk_count(header));
        match spec_count(chunk_parser(), s1, crate::parser::frame::chunk_count(header)) {
            Ok((r, _)) => lemma_suffix_trans(r, s1, s),
            Err((at, _)) => lemma_suffix_trans(at, s1, s),
        }
    }
}

/// The cel chunk body reads a prefix of its input.
pub proof fn lemma_cel_within(s: Seq<u8>)
    ensures
        stays_within(s, spec_cel_chunk(s)),
{
}

/// The cel extra chunk body reads a prefix of its input.
pub proof fn lemma_cel_extra_within(s: Seq<u8>)
    ensures
        stays_within(s, spec_cel_extra_chunk(s)),
{
}

/// The color profile chunk body reads a prefix of its input.
pub proof fn lemma_color_profile_within(s: Seq<u8>)
    ensures
        stays_within(s, spec_color_profile_chunk(s)),
{
}


/// The mask chunk body reads a prefix of its input.
pub proof fn lemma_mask_within(s: Seq<u8>)
    ensures
        stays_within(s, spec_mask_chunk(s)),
{
}

/// The fixed head of a layer reads a prefix of its input.
proof fn lemma_layer_words_within(s: Seq<u8>)
    ensures
        stays_within(s, spec_layer_words(s)),
{
}

/// The layer chunk body reads a prefix of its input.
pub proof fn lemma_layer_within(s: Seq<u8>)
    ensures
        stays_within(s, spec_layer_chunk(s)),
{
    lemma_layer_words_within(s);
    if let Ok((s1, (_, layer_type, _, _, _, _))) = spec_layer_words(s) {
        if let Ok((s2, _)) = spec_byte(s1) {
            if let Ok((s3, _)) = spec_skip(s2, 3) {
                assert(is_suffix(s3, s));
                if let Ok((s4, _)) = spec_string(s3) {
                    assert(is_suffix(s4, s));
                    if let Ok((s5, _)) = spec_tileset_index(s4, layer_type) {
                        assert(is_suffix(s5, s));
                        lemma_within_suffix(s, s5, spec_layer_uuid(s5));
                    } else {
                        lemma_within_suffix(s, s4, spec_tileset_index(s4, layer_type));
                    }
                } else {
                    lemma_within_suffix(s, s3, spec_string(s3));
                }
            }
        }
    }
}

/// The fixed head of a tileset reads a prefix of its input.
proof fn lemma_tileset_head_within(s: Seq<u8>)
    ensures
        stays_within(s, spec_tileset_head(s)),
{
}

/// The tileset chunk body reads a prefix of its input.
pub proof fn lemma_tileset_within(s: Seq<u8>)
    ensures
        stays_within(s, spec_tileset_chunk(s)),
{
    lemma_tileset_head_within(s);
    if let Ok((s1, (_, flags, _, _, _, _))) = spec_tileset_head(s) {
        if let Ok((s2, _)) = spec_string(s1) {
            assert(is_suffix(s2, s));
            if let Ok((s3, _)) = spec_tileset_external(s2, flags) {
                assert(is_suffix(s3, s));
                lemma_within_suffix(s, s3, spec_tileset_image(s3, flags));
            } else {
                lemma_within_suffix(s, s2, spec_tileset_external(s2, flags));
            }
        } else {
            lemma_within_suffix(s, s1, spec_string(s1));
        }
    }
}

// ---------------------------------------------------------------------------
// Bodies with repeated items
// ---------------------------------------------------------------------------
/// The external files chunk body reads a prefix of its input.
pub proof fn lemma_external_files_within(s: Seq<u8>)
    ensures
        stays_within(s, spec_external_files_chunk(s)),
{
    assert forall|t: Seq<u8>| #[trigger] stays_within(t, entry_parser()(t)) by {}
    if let Ok((s1, n)) = spec_dword(s) {
        if let Ok((s2, _)) = spec_skip(s1, 8) {
            lemma_count_within(entry_parser(), s2, n as nat);
            lemma_within_suffix(s, s2, spec_count(entry_parser(), s2, n as nat));
        }
    }
}

/// The tags chunk body reads a prefix of its input.
pub proof fn lemma_tags_within(s: Seq<u8>)
    ensures
        stays_within(s, spec_tags_chunk(s)),
{
    assert forall|t: Seq<u8>| #[trigger] stays_within(t, tag_parser()(t)) by {}
    if let Ok((s1, n)) = spec_word(s) {
        if let Ok((s2, _)) = spec_skip(s1, 8) {
            lemma_count_within(tag_parser(), s2, n as nat);
            lemma_within_suffix(s, s2, spec_count(tag_parser(), s2, n as nat));
        }
    }
}

/// An old palette packet reads a prefix of its input.
pub proof fn lemma_old_palette_packet_within(s: Seq<u8>)
    ensures
        stays_within(s, spec_old_palette_packet(s)),
{
    assert forall|t: Seq<u8>| #[trigger] stays_within(t, color_parser()(t)) by {}
    if let Ok((s1, _)) = spec_byte(s) {
        if let Ok((s2, count)) = spec_byte(s1) {
            let n = crate::parser::chunk::oldpalette::packet_color_count(count);
            lemma_count_within(color_parser(), s2, n);
            lemma_within_suffix(s, s2, spec_count(color_parser(), s2, n));
        }
    }
}

/// The old palette chunk bodies read a prefix of their input.
pub proof fn lemma_old_palette_within(s: Seq<u8>)
    ensures
        stays_within(s, spec_old_palette_chunk(s)),
{
    assert forall|t: Seq<u8>| #[trigger] stays_within(t, packet_parser()(t)) by {
        lemma_old_palette_packet_within(t);
    }
    if let Ok((s1, n)) = spec_word(s) {
        lemma_count_within(packet_parser(), s1, n as nat);
        lemma_within_suffix(s, s1, spec_count(packet_parser(), s1, n as nat));
    }
}

/// The palette chunk body reads a prefix of its input.
pub proof fn lemma_palette_within(s: Seq<u8>)
    ensures
        stays_within(s, spec_palette_chunk(s)),
{
    assert forall|t: Seq<u8>| #[trigger] stays_within(t, palette_entry_parser()(t)) by {}
    if let Ok((s1, (_, first, last))) = spec_palette_head(s) {
        let n = crate::parser::chunk::palette::palette_entry_count(first, last);
        lemma_count_within(palette_entry_parser(), s1, n);
        lemma_within_suffix(s, s1, spec_count(palette_entry_parser(), s1, n));
    }
}

/// The slice chunk body reads a prefix of its input.
pub proof fn lemma_slice_within(s: Seq<u8>)
    ensures
        stays_within(s, spec_slice_chunk(s)),
{
    if let Ok((s1, (n, flags, _))) = spec_slice_head(s) {
        let p = slice_key_parser(flags & 1 != 0, flags & 2 != 0);
        assert forall|t: Seq<u8>| #[trigger] stays_within(t, p(t)) by {}
        lemma_count_within(p, s1, n as nat);
        lemma_within_suffix(s, s1, spec_count(p, s1, n as nat));
    }
}

// ---------------------------------------------------------------------------
// Property values
// ---------------------------------------------------------------------------
/// A property value reads a prefix of its input, and on success at least one byte.
pub proof fn lemma_prop_value_within(s: Seq<u8>, t: u16)
    ensures
        stays_within(s, spec_prop_value(s, t)),
        spec_prop_value(s, t) matches Ok((r, _)) ==> r.len() < s.len(),
    decreases s.len(), 0nat,
{
    if t == 0x0011 {
        if let Ok((s1, n)) = spec_dword(s) {
            if let Ok((s2, et)) = spec_word(s1) {
                lemma_vec_elems_within(s2, n as nat, et);
                lemma_within_suffix(s, s2, spec_vec_elems(s2, n as nat, et));
            }
        }
    } else if t == 0x0012 {
        if let Ok((s1, n)) = spec_dword(s) {
            lemma_props_within(s1, n as nat);
            lemma_within_suffix(s, s1, spec_props(s1, n as nat));
        }
    }
}

/// A vector element reads a prefix of its input, and on success at least one byte.
pub proof fn lemma_vec_elem_within(s: Seq<u8>, et: u16)
    ensures
        stays_within(s, spec_vec_elem(s, et)),
        spec_vec_elem(s, et) matches Ok((r, _)) ==> r.len() < s.len(),
    decreases s.len(), 1nat,
{
    if et == 0 {
        if let Ok((s1, t)) = spec_word(s) {
            lemma_prop_value_within(s1, t);
            lemma_within_suffix(s, s1, spec_prop_value(s1, t));
        }
    } else {
        lemma_prop_value_within(s, et);
    }
}

/// A run of vector elements reads a prefix of its input.
pub proof fn lemma_vec_elems_within(s: Seq<u8>, n: nat, et: u16)
    ensures
        stays_within(s, spec_vec_elems(s, n, et)),
    decreases s.len(), n + 1,
{
    if n > 0 {
        lemma_vec_elems_within(s, (n - 1) as nat, et);
        if let Ok((r, _)) = spec_vec_elems(s, (n - 1) as nat, et) {
            lemma_vec_elem_within(r, et);
            lemma_within_suffix(s, r, spec_vec_elem(r, et));
        }
    }
}

/// A named property reads a prefix of its input, and on success at least one byte.
pub proof fn lemma_prop_within(s: Seq<u8>)
    ensures
        stays_within(s, spec_prop(s)),
        spec_prop(s) matches Ok((r, _)) ==> r.len() < s.len(),
    decreases s.len(), 0nat,
{
    if let Ok((s1, _)) = spec_string(s) {
        if let Ok((s2, t)) = spec_word(s1) {
            lemma_prop_value_within(s2, t);
            lemma_within_suffix(s, s2, spec_prop_value(s2, t));
        }
    }
}

/// A run of named properties reads a prefix of its input.
pub proof fn lemma_props_within(s: Seq<u8>, n: nat)
    ensures
        stays_within(s, spec_props(s, n)),
    decreases s.len(), n + 1,
{
    if n > 0 {
        lemma_props_within(s, (n - 1) as nat);
        if let Ok((r, _)) = spec_props(s, (n - 1) as nat) {
            lemma_prop_within(r);
            lemma_within_suffix(s, r, spec_prop(r));
        }
    }
}

/// Vector elements are read by plain repetition: the length bound in their definition
/// never fails.
pub proof fn lemma_vec_elems_is_count(s: Seq<u8>, n: nat, et: u16)
    ensures
        spec_vec_elems(s, n, et) == spec_count(|r: Seq<u8>| spec_vec_elem(r, et), s, n),
    decreases n,
{
    if n > 0 {
        lemma_vec_elems_is_count(s, (n - 1) as nat, et);
        lemma_vec_elems_within(s, (n - 1) as nat, et);
    }
}

/// Named properties are read by plain repetition: the length bound in their
/// definition never fails.
pub proof fn lemma_props_is_count(s: Seq<u8>, n: nat)
    ensures
        spec_props(s, n) == spec_count(|r: Seq<u8>| spec_prop(r), s, n),
    decreases n,
{
    if n > 0 {
        lemma_props_is_count(s, (n - 1) as nat);
        lemma_props_within(s, (n - 1) as nat);
    }
}

/// A properties map reads a prefix of its input.
pub proof fn lemma_property_map_within(s: Seq<u8>)
    ensures
        stays_within(s, spec_property_map(s)),
{
    if let Ok((s1, _)) = spec_dword(s) {
        if let Ok((s2, n)) = spec_dword(s1) {
            lemma_props_within(s2, n as nat);
            lemma_within_suffix(s, s2, spec_props(s2, n as nat));
        }
    }
}

/// The property maps of a user data chunk read a prefix of their input.
pub proof fn lemma_user_data_maps_within(s: Seq<u8>)
    ensures
        stays_within(s, spec_user_data_maps(s)),
{
    assert forall|t: Seq<u8>| #[trigger] stays_within(t, property_map_parser()(t)) by {
        lemma_property_map_within(t);
    }
    if let Ok((s1, _)) = spec_dword(s) {
        if let Ok((s2, n)) = spec_dword(s1) {
            lemma_count_within(property_map_parser(), s2, n as nat);
            lemma_within_suffix(s, s2, spec_count(property_map_parser(), s2, n as nat));
        }
    }
}

/// The user data chunk body reads a prefix of its input.
pub proof fn lemma_user_data_within(s: Seq<u8>)
    ensures
        stays_within(s, spec_user_data_chunk(s)),
{
    if let Ok((s1, flags)) = spec_dword(s) {
        let s2 = if flags & 1 != 0 {
            match spec_string(s1) {
                Ok((r, _)) => r,
                Err(_) => s1,
            }
        } else {
            s1
        };
        let s3 = if flags & 2 != 0 {
            match crate::parser::chunk::userdata::spec_rgba(s2) {
                Ok((r, _)) => r,
                Err(_) => s2,
            }
        } else {
            s2
        };
        lemma_user_data_maps_within(s3);
        assert(crate::parser::result::is_suffix(s3, s));
        lemma_within_suffix(s, s3, spec_user_data_maps(s3));
    }
}

// ---------------------------------------------------------------------------
// Typed chunk bodies
// ---------------------------------------------------------------------------
/// Reading a chunk as `T` stays within the chunk's body, provided `T`'s own parser
/// reads a prefix of its input.
pub proof fn lemma_parse_as_within<'a, T: AsepriteChunkParser<'a>>(c: SpecAsepriteChunk)
    requires
        forall|s: Seq<u8>| #[trigger] stays_within(s, T::spec_parse_data(s)),
    ensures
        stays_within(c.raw, spec_parse_as::<T>(c)),
{
    assert(stays_within(c.raw, T::spec_parse_data(c.raw)));
}

/// A chunk read as `T` succeeds exactly when its type is `T`'s chunk type and `T`
/// reads its whole body; the value is then what `T` reads from the body.
pub proof fn lemma_parse_as_ok<'a, T: AsepriteChunkParser<'a>>(c: SpecAsepriteChunk)
    ensures
        spec_parse_as::<T>(c) is Ok <==> (c.chunk_type == T::spec_chunk_type() && (T::spec_parse_data(
            c.raw,
        ) matches Ok((rest, _)) && rest.len() == 0)),
        spec_parse_as::<T>(c) matches Ok((rest, v)) ==> rest.len() == 0 && T::spec_parse_data(c.raw)
            == Ok::<(Seq<u8>, <T as View>::V), (Seq<u8>, crate::parser::result::ErrorKind)>((rest, v)),
{
}

// ---------------------------------------------------------------------------
// Framing does not look past the bytes it reads
// ---------------------------------------------------------------------------
proof fn lemma_seq_append(s: Seq<u8>, t: Seq<u8>, n: int)
    requires
        0 <= n <= s.len(),
    ensures
        (s + t).skip(n) == s.skip(n) + t,
        (s + t).take(n) == s.take(n),
{
    assert((s + t).skip(n) =~= s.skip(n) + t);
    assert((s + t).take(n) =~= s.take(n));
}

/// The primitives' successes do not depend on the bytes that follow what they read.
pub proof fn lemma_primitives_append(s: Seq<u8>, t: Seq<u8>, n: nat, magic: u16)
    ensures
        append_stable(spec_take(s, n), spec_take(s + t, n), t),
        append_stable(spec_skip(s, n), spec_skip(s + t, n), t),
        append_stable(spec_byte(s), spec_byte(s + t), t),
        append_stable(spec_word(s), spec_word(s + t), t),
        append_stable(spec_short(s), spec_short(s + t), t),
        append_stable(spec_dword(s), spec_dword(s + t), t),
        append_stable(spec_long(s), spec_long(s + t), t),
        append_stable(spec_qword(s), spec_qword(s + t), t),
        append_stable(spec_long64(s), spec_long64(s + t), t),
        append_stable(spec_magic_word(s, magic), spec_magic_word(s + t, magic), t),
{
    if n <= s.len() {
        lemma_seq_append(s, t, n as int);
    }
    if s.len() >= 1 {
        lemma_seq_append(s, t, 1);
    }
    if s.len() >= 2 {
        lemma_seq_append(s, t, 2);
    }
    if s.len() >= 4 {
        lemma_seq_append(s, t, 4);
    }
    if s.len() >= 8 {
        lemma_seq_append(s, t, 8);
        assert((s + t).skip(4)[0] == s.skip(4)[0]);
        assert((s + t).skip(4)[1] == s.skip(4)[1]);
        assert((s + t).skip(4)[2] == s.skip(4)[2]);
        assert((s + t).skip(4)[3] == s.skip(4)[3]);
    }
}

/// A chunk is read the same whatever follows it.
pub proof fn lemma_chunk_append(s: Seq<u8>, t: Seq<u8>)
    ensures
        append_stable(spec_aseprite_chunk(s), spec_aseprite_chunk(s + t), t),
{
    if let Ok((s1, size)) = spec_dword(s) {
        lemma_primitives_append(s, t, 0, 0);
        if let Ok((s2, _)) = spec_word(s1) {
            lemma_primitives_append(s1, t, 0, 0);
            if size >= 6 {
                lemma_primitives_append(s2, t, (size - 6) as nat, 0);
            }
        }
    }
}

/// A frame header is read the same whatever follows it.
pub proof fn lemma_frame_header_append(s: Seq<u8>, t: Seq<u8>)
    ensures
        append_stable(spec_frame_header(s), spec_frame_header(s + t), t),
{
    if let Ok((s1, _)) = spec_dword(s) {
        lemma_primitives_append(s, t, 0, 0);
        if let Ok((s2, _)) = spec_magic_word(s1, 0xF1FA) {
            lemma_primitives_append(s1, t, 0, 0xF1FA);
            if let Ok((s3, _)) = spec_word(s2) {
                lemma_primitives_append(s2, t, 0, 0);
                if let Ok((s4, _)) = spec_word(s3) {
                    lemma_primitives_append(s3, t, 0, 0);
                    if let Ok((s5, _)) = spec_skip(s4, 2) {
                        lemma_primitives_append(s4, t, 2, 0);
                        lemma_primitives_append(s5, t, 0, 0);
                    }
                }
            }
        }
    }
}

/// A whole frame is read the same whatever follows it: frames can be read one after
/// another from a longer input.
pub proof fn lemma_frame_append(s: Seq<u8>, t: Seq<u8>)
    ensures
        append_stable(spec_frame(s), spec_frame(s + t), t),
{
    lemma_frame_header_append(s, t);
    if let Ok((s1, header)) = spec_frame_header(s) {
        assert forall|a: Seq<u8>, b: Seq<u8>| #[trigger] append_stable(
            chunk_parser()(a),
            chunk_parser()(a + b),
            b,
        ) by {
            lemma_chunk_append(a, b);
        }
        lemma_count_append(chunk_parser(), s1, t, chunk_count(header));
    }
}

// ---------------------------------------------------------------------------
// Sizes and counts
// ---------------------------------------------------------------------------
/// A chunk occupies exactly `chunk_size` bytes, its 6-byte header included: its body
/// is the `chunk_size - 6` bytes after the header, and reading resumes right after it.
pub proof fn lemma_chunk_size(s: Seq<u8>)
    ensures
        spec_aseprite_chunk(s) matches Ok((rest, c)) ==> {
            &&& c.chunk_size >= 6
            &&& c.chunk_size <= s.len()
            &&& c.raw == s.subrange(6, c.chunk_size as int)
            &&& rest == s.skip(c.chunk_size as int)
        },
{
    if let Ok((rest, c)) = spec_aseprite_chunk(s) {
        assert(c.raw =~= s.subrange(6, c.chunk_size as int));
        assert(rest =~= s.skip(c.chunk_size as int));
    }
}

/// The sum of the sizes of a run of chunks.
pub open spec fn total_chunk_size(cs: Seq<SpecAsepriteChunk>) -> int
    decreases cs.len(),
{
    if cs.len() == 0 {
        0
    } else {
        total_chunk_size(cs.drop_last()) + cs.last().chunk_size
    }
}

/// A run of chunks occupies the sum of their sizes.
pub proof fn lemma_chunks_size(s: Seq<u8>, n: nat)
    ensures
        spec_count(chunk_parser(), s, n) matches Ok((rest, cs)) ==> {
            &&& 0 <= total_chunk_size(cs) <= s.len()
            &&& rest == s.skip(total_chunk_size(cs))
        },
    decreases n,
{
    if n > 0 {
        lemma_chunks_size(s, (n - 1) as nat);
        if let Ok((r, cs)) = spec_count(chunk_parser(), s, (n - 1) as nat) {
            lemma_chunk_size(r);
            assert(chunk_parser()(r) == spec_aseprite_chunk(r));
            if let Ok((r2, c)) = spec_aseprite_chunk(r) {
                assert(cs.push(c).drop_last() =~= cs);
                assert(total_chunk_size(cs.push(c)) == total_chunk_size(cs) + c.chunk_size);
                assert(r == s.skip(total_chunk_size(cs)));
                assert(r2 == r.skip(c.chunk_size as int));
                assert(r2 =~= s.skip(total_chunk_size(cs) + c.chunk_size));
            }
        }
    } else {
        assert(s =~= s.skip(0));
    }
}

/// A frame holds as many chunks as its header announces (the old count, or the new
/// one when the old is 0xFFFF), and occupies its 16-byte header plus the sizes of its
/// chunks.
pub proof fn lemma_frame_size(s: Seq<u8>)
    ensures
        spec_frame(s) matches Ok((rest, f)) ==> {
            &&& f.chunks.len() == chunk_count(f.header)
            &&& 16 + total_chunk_size(f.chunks) <= s.len()
            &&& rest == s.skip(16 + total_chunk_size(f.chunks))
        },
{
    if let Ok((s1, header)) = spec_frame_header(s) {
        lemma_count_len(chunk_parser(), s1, chunk_count(header));
        lemma_chunks_size(s1, chunk_count(header));
        assert(s1 =~= s.skip(16));
        if let Ok((rest, cs)) = spec_count(chunk_parser(), s1, chunk_count(header)) {
            assert(rest =~= s.skip(16 + total_chunk_size(cs)));
        }
    }
}

/// An old palette packet holds as many colors as its count says, 256 for a count of 0.
pub proof fn lemma_old_palette_packet_colors(s: Seq<u8>)
    ensures
        spec_old_palette_packet(s) matches Ok((_, p)) ==> p.colors.len()
            == crate::parser::chunk::oldpalette::packet_color_count(p.count),
{
    if let Ok((s1, _)) = spec_byte(s) {
        if let Ok((s2, count)) = spec_byte(s1) {
            lemma_count_len(
                color_parser(),
                s2,
                crate::parser::chunk::oldpalette::packet_color_count(count),
            );
        }
    }
}

/// A palette chunk holds one entry per index from the first to the last.
pub proof fn lemma_palette_entries(s: Seq<u8>)
    ensures
        spec_palette_chunk(s) matches Ok((_, p)) ==> p.entries.len()
            == crate::parser::chunk::palette::palette_entry_count(p.first_index, p.last_index),
{
    if let Ok((s1, (_, first, last))) = spec_palette_head(s) {
        lemma_count_len(
            palette_entry_parser(),
            s1,
            crate::parser::chunk::palette::palette_entry_count(first, last),
        );
    }
}

/// A tags chunk holds as many tags as it announces.
pub proof fn lemma_tags_count(s: Seq<u8>)
    ensures
        spec_tags_chunk(s) matches Ok((_, c)) ==> spec_word(s) matches Ok((_, n)) && c.tags.len()
            == n,
{
    if let Ok((s1, n)) = spec_word(s) {
        if let Ok((s2, _)) = spec_skip(s1, 8) {
            lemma_count_len(tag_parser(), s2, n as nat);
        }
    }
}

/// An external files chunk holds as many entries as it announces.
pub proof fn lemma_external_files_count(s: Seq<u8>)
    ensures
        spec_external_files_chunk(s) matches Ok((_, c)) ==> spec_dword(s) matches Ok((_, n))
            && c.entries.len() == n,
{
    if let Ok((s1, n)) = spec_dword(s) {
        if let Ok((s2, _)) = spec_skip(s1, 8) {
            lemma_count_len(entry_parser(), s2, n as nat);
        }
    }
}

/// A slice chunk holds as many keys as it announces; each has a 9-patch center exactly
/// when flag bit 1 is set and a pivot exactly when flag bit 2 is set.
pub proof fn lemma_slice_keys(s: Seq<u8>)
    ensures
        spec_slice_chunk(s) matches Ok((_, c)) ==> {
            &&& spec_dword(s) matches Ok((_, n)) && c.keys.len() == n
            &&& forall|i: int|
                0 <= i < c.keys.len() ==> {
                    &&& (#[trigger] c.keys[i]).ninepatch is Some <==> c.flags & 1 != 0
                    &&& c.keys[i].pivot is Some <==> c.flags & 2 != 0
                }
        },
{
    if let Ok((s1, (n, flags, _))) = spec_slice_head(s) {
        let p = slice_key_parser(flags & 1 != 0, flags & 2 != 0);
        lemma_count_len(p, s1, n as nat);
        lemma_slice_keys_flags(s1, n as nat, flags & 1 != 0, flags & 2 != 0);
    }
}

proof fn lemma_slice_keys_flags(s: Seq<u8>, n: nat, has_ninepatch: bool, has_pivot: bool)
    ensures
        spec_count(slice_key_parser(has_ninepatch, has_pivot), s, n) matches Ok((_, ks))
            ==> forall|i: int|
            0 <= i < ks.len() ==> {
                &&& (#[trigger] ks[i]).ninepatch is Some <==> has_ninepatch
                &&& ks[i].pivot is Some <==> has_pivot
            },
    decreases n,
{
    if n > 0 {
        lemma_slice_keys_flags(s, (n - 1) as nat, has_ninepatch, has_pivot);
    }
}

/// A mask's bitmap holds `height` rows of `ceil(width / 8)` bytes.
pub proof fn lemma_mask_bitmap(s: Seq<u8>)
    ensures
        spec_mask_chunk(s) matches Ok((_, m)) ==> m.bitmap.len()
            == crate::parser::chunk::mask::mask_bitmap_size(m.width, m.height),
{
}

/// A layer has a tileset index exactly when it is a tilemap layer (type 2).
pub proof fn lemma_layer_tileset_index(s: Seq<u8>)
    ensures
        spec_layer_chunk(s) matches Ok((_, l)) ==> (l.tileset_index is Some <==> l.layer_type == 2),
{
}

/// A layer's UUID, when it has one, is 16 bytes.
pub proof fn lemma_layer_uuid(s: Seq<u8>)
    ensures
        spec_layer_chunk(s) matches Ok((_, l)) ==> (l.uuid matches Some(u) ==> u.len() == 16),
{
}

/// The image kinds of cel data (raw image, compressed image, compressed tilemap) take
/// all the input that is left; a linked cel reads a single WORD.
pub proof fn lemma_cel_data_rest(s: Seq<u8>)
    ensures
        spec_cel_chunk(s) matches Ok((rest, c)) ==> (!(c.data is Linked) ==> rest.len() == 0),
{
}

/// A properties map holds as many properties as it announces, and a vector as many
/// elements.
pub proof fn lemma_prop_counts(s: Seq<u8>, n: nat, et: u16)
    ensures
        spec_props(s, n) matches Ok((_, ps)) ==> ps.len() == n,
        spec_vec_elems(s, n, et) matches Ok((_, vs)) ==> vs.len() == n,
{
    lemma_props_is_count(s, n);
    lemma_count_len(|r: Seq<u8>| spec_prop(r), s, n);
    lemma_vec_elems_is_count(s, n, et);
    lemma_count_len(|r: Seq<u8>| spec_vec_elem(r, et), s, n);
}

/// A string's characters encode, in UTF-8, to exactly the bytes that follow its
/// length, and there are as many of those bytes as the length says.
pub proof fn lemma_string_bytes(s: Seq<u8>)
    ensures
        spec_string(s) matches Ok((rest, name)) ==> {
            &&& spec_word(s) matches Ok((_, len)) && rest.len() + 2 + len == s.len()
            &&& encode_utf8(name) == s.subrange(2, s.len() - rest.len())
        },
{
    if let Ok((s1, len)) = spec_word(s) {
        if let Ok((_, bytes)) = spec_take(s1, len as nat) {
            if vstd::utf8::valid_utf8(bytes) {
                decode_utf8_encode_utf8(bytes);
                assert(bytes =~= s.subrange(2, 2 + len));
            }
        }
    }
}

/// Each typed chunk body is read from the chunk type the format gives it, and no two
/// kinds of body share a chunk type, so a chunk is read as at most one of them.
pub proof fn lemma_chunk_types()
    ensures
        <OldPalette04Chunk as AsepriteChunkParser<'static>>::spec_chunk_type() == 0x0004,
        <OldPalette11Chunk as AsepriteChunkParser<'static>>::spec_chunk_type() == 0x0011,
        <LayerChunk as AsepriteChunkParser<'static>>::spec_chunk_type() == 0x2004,
        <CelChunk<'static> as AsepriteChunkParser<'static>>::spec_chunk_type() == 0x2005,
        <CelExtraChunk as AsepriteChunkParser<'static>>::spec_chunk_type() == 0x2006,
        <ColorProfileChunk<'static> as AsepriteChunkParser<'static>>::spec_chunk_type() == 0x2007,
        <ExternalFilesChunk as AsepriteChunkParser<'static>>::spec_chunk_type() == 0x2008,
        <MaskChunk<'static> as AsepriteChunkParser<'static>>::spec_chunk_type() == 0x2016,
        <PathChunk as AsepriteChunkParser<'static>>::spec_chunk_type() == 0x2017,
        <TagsChunk as AsepriteChunkParser<'static>>::spec_chunk_type() == 0x2018,
        <PaletteChunk as AsepriteChunkParser<'static>>::spec_chunk_type() == 0x2019,
        <UserDataChunk as AsepriteChunkParser<'static>>::spec_chunk_type() == 0x2020,
        <SliceChunk as AsepriteChunkParser<'static>>::spec_chunk_type() == 0x2022,
        <TilesetChunk<'static> as AsepriteChunkParser<'static>>::spec_chunk_type() == 0x2023,
{
}

/// `a` and `b` have the same length and differ only in the reserved bytes of a cel
/// chunk body: the five after the head's fields, and for a compressed tilemap (cel
/// type 3) the ten after its masks.
pub open spec fn differ_in_cel_reserved(a: Seq<u8>, b: Seq<u8>) -> bool {
    &&& a.len() == b.len()
    &&& forall|i: int|
        0 <= i < a.len() && #[trigger] a[i] != b[i] ==> (11 <= i < 16 || (a.len() >= 9
            && a[7] + 0x100 * a[8] == 3 && 38 <= i < 48))
}

/// The reserved bytes of a cel never influence it: two bodies that differ only there
/// both fail or are read as the same cel with the same input left.
pub proof fn lemma_cel_reserved(a: Seq<u8>, b: Seq<u8>)
    requires
        differ_in_cel_reserved(a, b),
    ensures
        spec_cel_chunk(a) is Ok <==> spec_cel_chunk(b) is Ok,
        spec_cel_chunk(a) is Ok ==> spec_cel_chunk(a) == spec_cel_chunk(b),
{
    assert forall|i: int| 0 <= i < a.len() && !(11 <= i < 48) implies a[i] == b[i] by {
        if a[i] != b[i] {
            assert(11 <= i < 16 || 38 <= i < 48);
        }
    }
    assert forall|i: int| 0 <= i < a.len() && 0 <= i < 11 implies a[i] == b[i] by {
        if a[i] != b[i] {
            assert(11 <= i < 16 || 38 <= i < 48);
        }
    }
    if a.len() >= 16 {
        assert(a.subrange(0, 11) =~= b.subrange(0, 11));
        assert(spec_cel_head(a) is Ok && spec_cel_head(b) is Ok);
        if let Ok((a1, h)) = spec_cel_head(a) {
            if let Ok((b1, hb)) = spec_cel_head(b) {
                assert(h == hb);
                assert(a1 == a.skip(16) && b1 == b.skip(16));
                let t = h.4;
                assert(t == a[7] + 0x100 * a[8]);
                if t != 3 {
                    assert forall|i: int| 0 <= i < a1.len() implies a1[i] == b1[i] by {
                        if a[16 + i] != b[16 + i] {
                            assert(11 <= 16 + i < 16 || (a[7] + 0x100 * a[8] == 3 && 38 <= 16 + i
                                < 48));
                        }
                    }
                    assert(a1 =~= b1);
                } else {
                    assert forall|i: int| 0 <= i < a1.len() && !(22 <= i < 32) implies a1[i]
                        == b1[i] by {
                        if a[16 + i] != b[16 + i] {
                            assert(11 <= 16 + i < 16 || (a[7] + 0x100 * a[8] == 3 && 38 <= 16 + i
                                < 48));
                        }
                    }
                    lemma_tilemap_reserved(a1, b1);
                }
            }
        }
    } else {
        assert(spec_cel_head(a) is Err && spec_cel_head(b) is Err);
    }
}

/// Compressed tilemap data that differs only in its ten reserved bytes is read alike.
proof fn lemma_tilemap_reserved(a: Seq<u8>, b: Seq<u8>)
    requires
        a.len() == b.len(),
        forall|i: int| 0 <= i < a.len() && !(22 <= i < 32) ==> a[i] == b[i],
    ensures
        spec_cel_data(a, 3) is Ok <==> spec_cel_data(b, 3) is Ok,
        spec_cel_data(a, 3) is Ok ==> spec_cel_data(a, 3) == spec_cel_data(b, 3),
{
    if a.len() >= 32 {
        assert(a.subrange(0, 22) =~= b.subrange(0, 22));
        assert(a.skip(2).skip(2).skip(2).skip(4).skip(4).skip(4).skip(4).skip(10) =~= b.skip(
            2,
        ).skip(2).skip(2).skip(4).skip(4).skip(4).skip(4).skip(10));
    }
}

/// Reading a chunk as `T`, stated over `T::CHUNK_TYPE`: a chunk of another type fails
/// with `Verify` at its body; a chunk of that type gives what `T` reads from its body,
/// except that a body not read to its end fails with `Eof` at what is left.
pub proof fn lemma_parse_as_by_const<'a, T: AsepriteChunkParser<'a>>(c: SpecAsepriteChunk)
    requires
        T::spec_chunk_type() == T::CHUNK_TYPE,
    ensures
        c.chunk_type != T::CHUNK_TYPE ==> spec_parse_as::<T>(c) == Err::<
            (Seq<u8>, <T as View>::V),
            (Seq<u8>, crate::parser::result::ErrorKind),
        >((c.raw, crate::parser::result::ErrorKind::Verify)),
        c.chunk_type == T::CHUNK_TYPE ==> spec_parse_as::<T>(c) == match T::spec_parse_data(c.raw) {
            Err(e) => Err(e),
            Ok((r, v)) => if r.len() == 0 {
                Ok((r, v))
            } else {
                Err((r, crate::parser::result::ErrorKind::Eof))
            },
        },
{
}

} // verus!
