//! Little-endian numbers, byte runs and length-prefixed strings: the building blocks
//! of every record in the file.
use vstd::prelude::*;
use vstd::slice::{slice_subrange, slice_to_vec};
use vstd::utf8::{decode_utf8, valid_utf8};

use crate::parser::result::{presult_view, ErrorKind, PResult, ParseError, SpecResult};

verus! {

pub type BYTE = u8;

pub type WORD = u16;

pub type DWORD = u32;

pub type SHORT = i16;

pub type LONG = i32;

/// A 16.16 fixed-point number, kept as its raw 32 bits.
pub type FIXED = i32;

pub type LONG64 = i64;

pub type QWORD = u64;

pub type UUID = [u8; 16];

/// A point, in pixels.
#[derive(Debug, Clone, Copy, PartialEq, Eq)]
pub struct Point {
    pub x: LONG,
    pub y: LONG,
}

/// A size, in pixels.
#[derive(Debug, Clone, Copy, PartialEq, Eq)]
pub struct Size {
    pub w: LONG,
    pub h: LONG,
}

/// A rectangle given by its origin and its size.
#[derive(Debug, Clone, Copy, PartialEq, Eq)]
pub struct Rect {
    pub origin: Point,
    pub size: Size,
}

impl View for Point {
    type V = Point;

    open spec fn view(&self) -> Point {
        *self
    }
}

impl View for Size {
    type V = Size;

    open spec fn view(&self) -> Size {
        *self
    }
}

impl View for Rect {
    type V = Rect;

    open spec fn view(&self) -> Rect {
        *self
    }
}

// ---------------------------------------------------------------------------
// Meaning of the primitives over byte sequences
// ---------------------------------------------------------------------------
/// The first `n` bytes of `s`, and what follows them.
pub open spec fn spec_take(s: Seq<u8>, n: nat) -> SpecResult<Seq<u8>> {
    if s.len() < n {
        Err((s, ErrorKind::Eof))
    } else {
        Ok((s.skip(n as int), s.take(n as int)))
    }
}

/// Skips `n` bytes.
pub open spec fn spec_skip(s: Seq<u8>, n: nat) -> SpecResult<()> {
    if s.len() < n {
        Err((s, ErrorKind::Eof))
    } else {
        Ok((s.skip(n as int), ()))
    }
}

/// The unsigned value of two little-endian bytes.
pub open spec fn le16(s: Seq<u8>) -> int {
    s[0] + 0x100 * s[1]
}

/// The unsigned value of four little-endian bytes.
pub open spec fn le32(s: Seq<u8>) -> int {
    s[0] + 0x100 * s[1] + 0x1_0000 * s[2] + 0x100_0000 * s[3]
}

/// The unsigned value of eight little-endian bytes.
pub open spec fn le64(s: Seq<u8>) -> int {
    le32(s) + 0x1_0000_0000 * le32(s.skip(4))
}

/// Two's complement reading of 16 bits.
pub open spec fn i16_of(v: u16) -> i16 {
    if v < 0x8000 {
        v as i16
    } else {
        (v - 0x1_0000) as i16
    }
}

/// Two's complement reading of 32 bits.
pub open spec fn i32_of(v: u32) -> i32 {
    if v < 0x8000_0000 {
        v as i32
    } else {
        (v - 0x1_0000_0000) as i32
    }
}

/// Two's complement reading of 64 bits.
pub open spec fn i64_of(v: u64) -> i64 {
    if v < 0x8000_0000_0000_0000 {
        v as i64
    } else {
        (v - 0x1_0000_0000_0000_0000) as i64
    }
}

/// Two's complement reading of 8 bits.
pub open spec fn i8_of(v: u8) -> i8 {
    if v < 0x80 {
        v as i8
    } else {
        (v - 0x100) as i8
    }
}

pub open spec fn spec_byte(s: Seq<u8>) -> SpecResult<u8> {
    if s.len() < 1 {
        Err((s, ErrorKind::Eof))
    } else {
        Ok((s.skip(1), s[0]))
    }
}

pub open spec fn spec_word(s: Seq<u8>) -> SpecResult<u16> {
    if s.len() < 2 {
        Err((s, ErrorKind::Eof))
    } else {
        Ok((s.skip(2), le16(s) as u16))
    }
}

pub open spec fn spec_short(s: Seq<u8>) -> SpecResult<i16> {
    if s.len() < 2 {
        Err((s, ErrorKind::Eof))
    } else {
        Ok((s.skip(2), i16_of(le16(s) as u16)))
    }
}

pub open spec fn spec_dword(s: Seq<u8>) -> SpecResult<u32> {
    if s.len() < 4 {
        Err((s, ErrorKind::Eof))
    } else {
        Ok((s.skip(4), le32(s) as u32))
    }
}

pub open spec fn spec_long(s: Seq<u8>) -> SpecResult<i32> {
    if s.len() < 4 {
        Err((s, ErrorKind::Eof))
    } else {
        Ok((s.skip(4), i32_of(le32(s) as u32)))
    }
}

pub open spec fn spec_qword(s: Seq<u8>) -> SpecResult<u64> {
    if s.len() < 8 {
        Err((s, ErrorKind::Eof))
    } else {
        Ok((s.skip(8), le64(s) as u64))
    }
}

pub open spec fn spec_long64(s: Seq<u8>) -> SpecResult<i64> {
    if s.len() < 8 {
        Err((s, ErrorKind::Eof))
    } else {
        Ok((s.skip(8), i64_of(le64(s) as u64)))
    }
}

pub open spec fn spec_uuid(s: Seq<u8>) -> SpecResult<Seq<u8>> {
    spec_take(s, 16)
}

/// A string: its byte length as a WORD, then that many bytes of UTF-8. Bytes that
/// are not UTF-8 fail with `Verify` at the input that follows them.
pub open spec fn spec_string(s: Seq<u8>) -> SpecResult<Seq<char>> {
    match spec_word(s) {
        Err(e) => Err(e),
        Ok((s1, n)) => match spec_take(s1, n as nat) {
            Err(e) => Err(e),
            Ok((s2, bytes)) => if valid_utf8(bytes) {
                Ok((s2, decode_utf8(bytes)))
            } else {
                Err((s2, ErrorKind::Verify))
            },
        },
    }
}

/// A WORD that must equal `magic`; any other value fails with `Verify` at the WORD.
pub open spec fn spec_magic_word(s: Seq<u8>, magic: u16) -> SpecResult<u16> {
    match spec_word(s) {
        Err(e) => Err(e),
        Ok((r, m)) => if m == magic {
            Ok((r, m))
        } else {
            Err((s, ErrorKind::Verify))
        },
    }
}

pub open spec fn spec_point(s: Seq<u8>) -> SpecResult<Point> {
    match spec_long(s) {
        Err(e) => Err(e),
        Ok((s1, x)) => match spec_long(s1) {
            Err(e) => Err(e),
            Ok((s2, y)) => Ok((s2, Point { x, y })),
        },
    }
}

pub open spec fn spec_size(s: Seq<u8>) -> SpecResult<Size> {
    match spec_long(s) {
        Err(e) => Err(e),
        Ok((s1, w)) => match spec_long(s1) {
            Err(e) => Err(e),
            Ok((s2, h)) => Ok((s2, Size { w, h })),
        },
    }
}

pub open spec fn spec_rect(s: Seq<u8>) -> SpecResult<Rect> {
    match spec_point(s) {
        Err(e) => Err(e),
        Ok((s1, origin)) => match spec_size(s1) {
            Err(e) => Err(e),
            Ok((s2, size)) => Ok((s2, Rect { origin, size })),
        },
    }
}

// ---------------------------------------------------------------------------
// Parsers
// ---------------------------------------------------------------------------
fn eof<'a, T>(input: &'a [u8]) -> (res: PResult<'a, T>)
    ensures
        res matches Err(e) && e.input@ == input@ && e.code == ErrorKind::Eof,
{
    Err(ParseError { input, code: ErrorKind::Eof })
}

/// The first `count` bytes of the input.
pub fn take<'a>(input: &'a [u8], count: usize) -> (res: PResult<'a, &'a [u8]>)
    ensures
        presult_view_bytes(res) == spec_take(input@, count as nat),
{
    if input.len() < count {
        eof(input)
    } else {
        Ok((slice_subrange(input, count, input.len()), slice_subrange(input, 0, count)))
    }
}

/// The model of a parse whose value is a byte slice.
pub open spec fn presult_view_bytes<'a>(r: PResult<'a, &'a [u8]>) -> SpecResult<Seq<u8>> {
    match r {
        Ok((rest, v)) => Ok((rest@, v@)),
        Err(e) => Err((e.input@, e.code)),
    }
}

pub fn parse_byte(input: &[u8]) -> (res: PResult<'_, BYTE>)
    ensures
        presult_view(res) == spec_byte(input@),
{
    if input.len() < 1 {
        eof(input)
    } else {
        Ok((slice_subrange(input, 1, input.len()), input[0]))
    }
}

pub fn parse_word(input: &[u8]) -> (res: PResult<'_, WORD>)
    ensures
        presult_view(res) == spec_word(input@),
{
    if input.len() < 2 {
        eof(input)
    } else {
        let v = input[0] as u16 + (input[1] as u16) * 0x100;
        Ok((slice_subrange(input, 2, input.len()), v))
    }
}

fn u16_to_i16(v: u16) -> (r: i16)
    ensures
        r == i16_of(v),
{
    if v < 0x8000 {
        v as i16
    } else {
        ((v - 0x8000) as i16) + i16::MIN
    }
}

/// Two's complement reading of 32 bits.
pub fn dword_to_long(v: u32) -> (r: i32)
    ensures
        r == i32_of(v),
{
    if v < 0x8000_0000 {
        v as i32
    } else {
        ((v - 0x8000_0000) as i32) + i32::MIN
    }
}

fn u64_to_i64(v: u64) -> (r: i64)
    ensures
        r == i64_of(v),
{
    if v < 0x8000_0000_0000_0000 {
        v as i64
    } else {
        ((v - 0x8000_0000_0000_0000) as i64) + i64::MIN
    }
}

/// Two's complement reading of a byte.
pub fn byte_to_i8(v: u8) -> (r: i8)
    ensures
        r == i8_of(v),
{
    if v < 0x80 {
        v as i8
    } else {
        ((v - 0x80) as i8) + i8::MIN
    }
}

pub fn parse_short(input: &[u8]) -> (res: PResult<'_, SHORT>)
    ensures
        presult_view(res) == spec_short(input@),
{
    if input.len() < 2 {
        eof(input)
    } else {
        let v = input[0] as u16 + (input[1] as u16) * 0x100;
        Ok((slice_subrange(input, 2, input.len()), u16_to_i16(v)))
    }
}

fn read_le32(input: &[u8]) -> (v: u32)
    requires
        input@.len() >= 4,
    ensures
        v == le32(input@),
{
    input[0] as u32 + (input[1] as u32) * 0x100 + (input[2] as u32) * 0x1_0000 + (input[3] as u32)
        * 0x100_0000
}

pub fn parse_dword(input: &[u8]) -> (res: PResult<'_, DWORD>)
    ensures
        presult_view(res) == spec_dword(input@),
{
    if input.len() < 4 {
        eof(input)
    } else {
        let v = read_le32(input);
        Ok((slice_subrange(input, 4, input.len()), v))
    }
}

pub fn parse_long(input: &[u8]) -> (res: PResult<'_, LONG>)
    ensures
        presult_view(res) == spec_long(input@),
{
    if input.len() < 4 {
        eof(input)
    } else {
        let v = read_le32(input);
        Ok((slice_subrange(input, 4, input.len()), dword_to_long(v)))
    }
}

fn read_le64(input: &[u8]) -> (v: u64)
    requires
        input@.len() >= 8,
    ensures
        v == le64(input@),
{
    let lo = read_le32(input);
    let hi_bytes = slice_subrange(input, 4, input.len());
    assert(hi_bytes@ =~= input@.skip(4));
    let hi = read_le32(hi_bytes);
    lo as u64 + (hi as u64) * 0x1_0000_0000
}

pub fn parse_long64(input: &[u8]) -> (res: PResult<'_, LONG64>)
    ensures
        presult_view(res) == spec_long64(input@),
{
    if input.len() < 8 {
        eof(input)
    } else {
        let v = read_le64(input);
        Ok((slice_subrange(input, 8, input.len()), u64_to_i64(v)))
    }
}

pub fn parse_qword(input: &[u8]) -> (res: PResult<'_, QWORD>)
    ensures
        presult_view(res) == spec_qword(input@),
{
    if input.len() < 8 {
        eof(input)
    } else {
        let v = read_le64(input);
        Ok((slice_subrange(input, 8, input.len()), v))
    }
}

/// Skips `count` bytes.
pub fn skip_bytes(input: &[u8], count: usize) -> (res: PResult<'_, ()>)
    ensures
        presult_view(res) == spec_skip(input@, count as nat),
{
    let (input, _) = take(input, count)?;
    Ok((input, ()))
}

pub fn parse_uuid(input: &[u8]) -> (res: PResult<'_, UUID>)
    ensures
        presult_view(res) == spec_uuid(input@),
{
    let (input, b) = take(input, 16)?;
    let uuid: [u8; 16] = [
        b[0],
        b[1],
        b[2],
        b[3],
        b[4],
        b[5],
        b[6],
        b[7],
        b[8],
        b[9],
        b[10],
        b[11],
        b[12],
        b[13],
        b[14],
        b[15],
    ];
    assert(uuid@ =~= b@);
    Ok((input, uuid))
}

/// `String::from_utf8`: the bytes decoded as UTF-8, or `None` where they are not UTF-8.
#[verifier::external_body]
fn string_from_utf8(bytes: Vec<u8>) -> (res: Option<String>)
    ensures
        res is Some <==> valid_utf8(bytes@),
        res matches Some(s) ==> s@ == decode_utf8(bytes@),
{
    String::from_utf8(bytes).ok()
}

pub fn parse_string(input: &[u8]) -> (res: PResult<'_, String>)
    ensures
        presult_view(res) == spec_string(input@),
{
    let (input, len) = parse_word(input)?;
    let (input, bytes) = take(input, len as usize)?;
    match string_from_utf8(slice_to_vec(bytes)) {
        Some(s) => Ok((input, s)),
        None => Err(ParseError { input, code: ErrorKind::Verify }),
    }
}

/// A WORD that must equal `MAGIC`.
pub fn parse_magic_word<const MAGIC: u16>(input: &[u8]) -> (res: PResult<'_, WORD>)
    ensures
        presult_view(res) == spec_magic_word(input@, MAGIC),
{
    let (rest, m) = parse_word(input)?;
    if m == MAGIC {
        Ok((rest, m))
    } else {
        Err(ParseError { input, code: ErrorKind::Verify })
    }
}

pub fn parse_point(input: &[u8]) -> (res: PResult<'_, Point>)
    ensures
        presult_view(res) == spec_point(input@),
{
    let (input, x) = parse_long(input)?;
    let (input, y) = parse_long(input)?;
    Ok((input, Point { x, y }))
}

pub fn parse_size(input: &[u8]) -> (res: PResult<'_, Size>)
    ensures
        presult_view(res) == spec_size(input@),
{
    let (input, w) = parse_long(input)?;
    let (input, h) = parse_long(input)?;
    Ok((input, Size { w, h }))
}

pub fn parse_rect(input: &[u8]) -> (res: PResult<'_, Rect>)
    ensures
        presult_view(res) == spec_rect(input@),
{
    let (input, origin) = parse_point(input)?;
    let (input, size) = parse_size(input)?;
    Ok((input, Rect { origin, size }))
}

} // verus!
