//! User data chunks (0x2020): text, a color, and maps of typed properties.
use vstd::prelude::*;

use crate::parser::chunk::AsepriteChunkParser;
use crate::parser::primitives::{
    byte_to_i8, i8_of, parse_byte, parse_dword, parse_long, parse_long64, parse_point,
    parse_qword, parse_rect, parse_short, parse_size, parse_string, parse_uuid, parse_word,
    spec_byte, spec_dword, spec_long, spec_long64, spec_point, spec_qword, spec_rect,
    spec_short, spec_size, spec_string, spec_uuid, spec_word, BYTE, DWORD, FIXED, LONG, LONG64,
    Point, QWORD, Rect, SHORT, Size, UUID, WORD,
};
use crate::parser::result::{
    lemma_count_err, presult_map, presult_view, spec_count, ErrorKind, PResult, ParseError, SpecResult,
};

verus! {

/// A typed property value. Floating-point values are kept as their IEEE-754 bits
/// (little-endian in the file).
#[derive(Debug, PartialEq, Eq)]
pub enum PropValue {
    Bool(bool),
    I8(i8),
    U8(BYTE),
    I16(SHORT),
    U16(WORD),
    I32(LONG),
    U32(DWORD),
    I64(LONG64),
    U64(QWORD),
    Fixed(FIXED),
    /// The bits of an `f32`.
    Float(u32),
    /// The bits of an `f64`.
    Double(u64),
    String(String),
    Point(Point),
    Size(Size),
    Rect(Rect),
    Vector(Vec<PropValue>),
    /// A nested map of named properties.
    Properties(Vec<(String, PropValue)>),
    Uuid(UUID),
}

/// The model of a property value.
pub enum SpecPropValue {
    Bool(bool),
    I8(i8),
    U8(u8),
    I16(i16),
    U16(u16),
    I32(i32),
    U32(u32),
    I64(i64),
    U64(u64),
    Fixed(i32),
    Float(u32),
    Double(u64),
    String(Seq<char>),
    Point(Point),
    Size(Size),
    Rect(Rect),
    Vector(Seq<SpecPropValue>),
    Properties(Seq<(Seq<char>, SpecPropValue)>),
    Uuid(Seq<u8>),
}

pub open spec fn prop_value_view(p: PropValue) -> SpecPropValue
    decreases p,
{
    match p {
        PropValue::Bool(v) => SpecPropValue::Bool(v),
        PropValue::I8(v) => SpecPropValue::I8(v),
        PropValue::U8(v) => SpecPropValue::U8(v),
        PropValue::I16(v) => SpecPropValue::I16(v),
        PropValue::U16(v) => SpecPropValue::U16(v),
        PropValue::I32(v) => SpecPropValue::I32(v),
        PropValue::U32(v) => SpecPropValue::U32(v),
        PropValue::I64(v) => SpecPropValue::I64(v),
        PropValue::U64(v) => SpecPropValue::U64(v),
        PropValue::Fixed(v) => SpecPropValue::Fixed(v),
        PropValue::Float(v) => SpecPropValue::Float(v),
        PropValue::Double(v) => SpecPropValue::Double(v),
        PropValue::String(v) => SpecPropValue::String(v@),
        PropValue::Point(v) => SpecPropValue::Point(v),
        PropValue::Size(v) => SpecPropValue::Size(v),
        PropValue::Rect(v) => SpecPropValue::Rect(v),
        PropValue::Vector(v) => SpecPropValue::Vector(prop_values_view(v@)),
        PropValue::Properties(v) => SpecPropValue::Properties(props_view(v@)),
        PropValue::Uuid(v) => SpecPropValue::Uuid(v@),
    }
}

/// The models of a run of property values.
pub open spec fn prop_values_view(s: Seq<PropValue>) -> Seq<SpecPropValue>
    decreases s,
{
    if s.len() == 0 {
        Seq::empty()
    } else {
        prop_values_view(s.drop_last()).push(prop_value_view(s.last()))
    }
}

/// The models of a run of named properties.
pub open spec fn props_view(s: Seq<(String, PropValue)>) -> Seq<(Seq<char>, SpecPropValue)>
    decreases s,
{
    if s.len() == 0 {
        Seq::empty()
    } else {
        props_view(s.drop_last()).push((s.last().0@, prop_value_view(s.last().1)))
    }
}

impl View for PropValue {
    type V = SpecPropValue;

    open spec fn view(&self) -> SpecPropValue {
        prop_value_view(*self)
    }
}

#[derive(Debug, PartialEq, Eq)]
pub struct PropertiesMap {
    pub key: DWORD,
    pub props: Vec<(String, PropValue)>,
}

/// The model of a properties map.
pub struct SpecPropertiesMap {
    pub key: u32,
    pub props: Seq<(Seq<char>, SpecPropValue)>,
}

impl View for PropertiesMap {
    type V = SpecPropertiesMap;

    open spec fn view(&self) -> SpecPropertiesMap {
        SpecPropertiesMap { key: self.key, props: props_view(self.props@) }
    }
}

#[derive(Debug, PartialEq, Eq)]
pub struct UserDataChunk {
    pub text: Option<String>,
    pub color: Option<(BYTE, BYTE, BYTE, BYTE)>,
    pub maps: Vec<PropertiesMap>,
}

/// The model of a user data chunk.
pub struct SpecUserDataChunk {
    pub text: Option<Seq<char>>,
    pub color: Option<(u8, u8, u8, u8)>,
    pub maps: Seq<SpecPropertiesMap>,
}

pub open spec fn maps_view(s: Seq<PropertiesMap>) -> Seq<SpecPropertiesMap> {
    s.map_values(|m: PropertiesMap| m@)
}

impl View for UserDataChunk {
    type V = SpecUserDataChunk;

    open spec fn view(&self) -> SpecUserDataChunk {
        SpecUserDataChunk {
            text: match self.text {
                Some(t) => Some(t@),
                None => None,
            },
            color: self.color,
            maps: maps_view(self.maps@),
        }
    }
}

/// A value that is read by one primitive and wrapped.
pub open spec fn wrap<V>(r: SpecResult<V>, f: spec_fn(V) -> SpecPropValue) -> SpecResult<SpecPropValue> {
    match r {
        Err(e) => Err(e),
        Ok((s1, v)) => Ok((s1, f(v))),
    }
}

/// A property value of type `t`. Types 0x0001..=0x0013 are known; any other fails
/// with `Verify` at the value.
pub open spec fn spec_prop_value(s: Seq<u8>, t: u16) -> SpecResult<SpecPropValue>
    decreases s.len(), 0nat,
{
    if t == 0x0001 {
        wrap(spec_byte(s), |b: u8| SpecPropValue::Bool(b != 0))
    } else if t == 0x0002 {
        wrap(spec_byte(s), |b: u8| SpecPropValue::I8(i8_of(b)))
    } else if t == 0x0003 {
        wrap(spec_byte(s), |b: u8| SpecPropValue::U8(b))
    } else if t == 0x0004 {
        wrap(spec_short(s), |v: i16| SpecPropValue::I16(v))
    } else if t == 0x0005 {
        wrap(spec_word(s), |v: u16| SpecPropValue::U16(v))
    } else if t == 0x0006 {
        wrap(spec_long(s), |v: i32| SpecPropValue::I32(v))
    } else if t == 0x0007 {
        wrap(spec_dword(s), |v: u32| SpecPropValue::U32(v))
    } else if t == 0x0008 {
        wrap(spec_long64(s), |v: i64| SpecPropValue::I64(v))
    } else if t == 0x0009 {
        wrap(spec_qword(s), |v: u64| SpecPropValue::U64(v))
    } else if t == 0x000A {
        wrap(spec_long(s), |v: i32| SpecPropValue::Fixed(v))
    } else if t == 0x000B {
        wrap(spec_dword(s), |v: u32| SpecPropValue::Float(v))
    } else if t == 0x000C {
        wrap(spec_qword(s), |v: u64| SpecPropValue::Double(v))
    } else if t == 0x000D {
        wrap(spec_string(s), |v: Seq<char>| SpecPropValue::String(v))
    } else if t == 0x000E {
        wrap(spec_point(s), |v: Point| SpecPropValue::Point(v))
    } else if t == 0x000F {
        wrap(spec_size(s), |v: Size| SpecPropValue::Size(v))
    } else if t == 0x0010 {
        wrap(spec_rect(s), |v: Rect| SpecPropValue::Rect(v))
    } else if t == 0x0011 {
        match spec_dword(s) {
            Err(e) => Err(e),
            Ok((s1, n)) => match spec_word(s1) {
                Err(e) => Err(e),
                Ok((s2, et)) => match spec_vec_elems(s2, n as nat, et) {
                    Err(e) => Err(e),
                    Ok((s3, vs)) => Ok((s3, SpecPropValue::Vector(vs))),
                },
            },
        }
    } else if t == 0x0012 {
        match spec_dword(s) {
            Err(e) => Err(e),
            Ok((s1, n)) => match spec_props(s1, n as nat) {
                Err(e) => Err(e),
                Ok((s2, ps)) => Ok((s2, SpecPropValue::Properties(ps))),
            },
        }
    } else if t == 0x0013 {
        wrap(spec_uuid(s), |v: Seq<u8>| SpecPropValue::Uuid(v))
    } else {
        Err((s, ErrorKind::Verify))
    }
}

/// One element of a vector whose element type is `et`: when `et` is 0 each element
/// carries its own type as a WORD before its value.
pub open spec fn spec_vec_elem(s: Seq<u8>, et: u16) -> SpecResult<SpecPropValue>
    decreases s.len(), 1nat,
{
    if et == 0 {
        match spec_word(s) {
            Err(e) => Err(e),
            Ok((s1, t)) => spec_prop_value(s1, t),
        }
    } else {
        spec_prop_value(s, et)
    }
}

/// `n` vector elements in a row. (The length test never fails, as every element
/// consumes input; it bounds the recursion.)
pub open spec fn spec_vec_elems(s: Seq<u8>, n: nat, et: u16) -> SpecResult<Seq<SpecPropValue>>
    decreases s.len(), n + 1,
{
    if n == 0 {
        Ok((s, Seq::empty()))
    } else {
        match spec_vec_elems(s, (n - 1) as nat, et) {
            Err(e) => Err(e),
            Ok((r, vs)) => if r.len() <= s.len() {
                match spec_vec_elem(r, et) {
                    Err(e) => Err(e),
                    Ok((r2, v)) => Ok((r2, vs.push(v))),
                }
            } else {
                Err((r, ErrorKind::Verify))
            },
        }
    }
}

/// A named property: its name, its type as a WORD, its value.
pub open spec fn spec_prop(s: Seq<u8>) -> SpecResult<(Seq<char>, SpecPropValue)>
    decreases s.len(), 0nat,
{
    match spec_string(s) {
        Err(e) => Err(e),
        Ok((s1, name)) => match spec_word(s1) {
            Err(e) => Err(e),
            Ok((s2, t)) => match spec_prop_value(s2, t) {
                Err(e) => Err(e),
                Ok((s3, v)) => Ok((s3, (name, v))),
            },
        },
    }
}

/// `n` named properties in a row. (The length test never fails; it bounds the
/// recursion.)
pub open spec fn spec_props(s: Seq<u8>, n: nat) -> SpecResult<Seq<(Seq<char>, SpecPropValue)>>
    decreases s.len(), n + 1,
{
    if n == 0 {
        Ok((s, Seq::empty()))
    } else {
        match spec_props(s, (n - 1) as nat) {
            Err(e) => Err(e),
            Ok((r, ps)) => if r.len() <= s.len() {
                match spec_prop(r) {
                    Err(e) => Err(e),
                    Ok((r2, p)) => Ok((r2, ps.push(p))),
                }
            } else {
                Err((r, ErrorKind::Verify))
            },
        }
    }
}

/// A properties map: its key, the number of properties, the properties.
pub open spec fn spec_property_map(s: Seq<u8>) -> SpecResult<SpecPropertiesMap> {
    match spec_dword(s) {
        Err(e) => Err(e),
        Ok((s1, key)) => match spec_dword(s1) {
            Err(e) => Err(e),
            Ok((s2, n)) => match spec_props(s2, n as nat) {
                Err(e) => Err(e),
                Ok((s3, props)) => Ok((s3, SpecPropertiesMap { key, props })),
            },
        },
    }
}

pub open spec fn property_map_parser() -> spec_fn(Seq<u8>) -> SpecResult<SpecPropertiesMap> {
    |s: Seq<u8>| spec_property_map(s)
}

/// The maps part of a user data chunk: a DWORD size that is not used, the number of
/// maps, the maps.
pub open spec fn spec_user_data_maps(s: Seq<u8>) -> SpecResult<Seq<SpecPropertiesMap>> {
    match spec_dword(s) {
        Err(e) => Err(e),
        Ok((s1, _size)) => match spec_dword(s1) {
            Err(e) => Err(e),
            Ok((s2, n)) => spec_count(property_map_parser(), s2, n as nat),
        },
    }
}

/// The color of a user data chunk: red, green, blue, alpha.
pub open spec fn spec_rgba(s: Seq<u8>) -> SpecResult<(u8, u8, u8, u8)> {
    match spec_byte(s) {
        Err(e) => Err(e),
        Ok((s1, r)) => match spec_byte(s1) {
            Err(e) => Err(e),
            Ok((s2, g)) => match spec_byte(s2) {
                Err(e) => Err(e),
                Ok((s3, b)) => match spec_byte(s3) {
                    Err(e) => Err(e),
                    Ok((s4, a)) => Ok((s4, (r, g, b, a))),
                },
            },
        },
    }
}

/// A user data chunk: flags; the text when bit 1 is set, the color when bit 2 is set,
/// the property maps when bit 4 is set.
pub open spec fn spec_user_data_chunk(s: Seq<u8>) -> SpecResult<SpecUserDataChunk> {
    match spec_dword(s) {
        Err(e) => Err(e),
        Ok((s1, flags)) => {
            let text_r: SpecResult<Option<Seq<char>>> = if flags & 1 != 0 {
                match spec_string(s1) {
                    Err(e) => Err(e),
                    Ok((r, t)) => Ok((r, Some(t))),
                }
            } else {
                Ok((s1, None))
            };
            match text_r {
                Err(e) => Err(e),
                Ok((s2, text)) => {
                    let color_r: SpecResult<Option<(u8, u8, u8, u8)>> = if flags & 2 != 0 {
                        match spec_rgba(s2) {
                            Err(e) => Err(e),
                            Ok((r, c)) => Ok((r, Some(c))),
                        }
                    } else {
                        Ok((s2, None))
                    };
                    match color_r {
                        Err(e) => Err(e),
                        Ok((s3, color)) => {
                            let maps_r: SpecResult<Seq<SpecPropertiesMap>> = if flags & 4 != 0 {
                                spec_user_data_maps(s3)
                            } else {
                                Ok((s3, Seq::empty()))
                            };
                            match maps_r {
                                Err(e) => Err(e),
                                Ok((s4, maps)) => Ok((s4, SpecUserDataChunk { text, color, maps })),
                            }
                        },
                    }
                },
            }
        },
    }
}

proof fn lemma_vec_elems_err(s: Seq<u8>, i: nat, n: nat, et: u16)
    requires
        i <= n,
        spec_vec_elems(s, i, et) is Err,
    ensures
        spec_vec_elems(s, n, et) == spec_vec_elems(s, i, et),
    decreases n - i,
{
    if i < n {
        lemma_vec_elems_err(s, i, (n - 1) as nat, et);
    }
}

proof fn lemma_props_err(s: Seq<u8>, i: nat, n: nat)
    requires
        i <= n,
        spec_props(s, i) is Err,
    ensures
        spec_props(s, n) == spec_props(s, i),
    decreases n - i,
{
    if i < n {
        lemma_props_err(s, i, (n - 1) as nat);
    }
}

fn parse_prop_value(input: &[u8], prop_type: WORD) -> (res: PResult<'_, PropValue>)
    ensures
        presult_view(res) == spec_prop_value(input@, prop_type),
        res matches Ok((r, _)) ==> r@.len() < input@.len(),
    decreases input@.len(), 0nat,
{
    match prop_type {
        0x0001 => {
            let (i, b) = parse_byte(input)?;
            Ok((i, PropValue::Bool(b != 0)))
        },
        0x0002 => {
            let (i, b) = parse_byte(input)?;
            Ok((i, PropValue::I8(byte_to_i8(b))))
        },
        0x0003 => {
            let (i, b) = parse_byte(input)?;
            Ok((i, PropValue::U8(b)))
        },
        0x0004 => {
            let (i, v) = parse_short(input)?;
            Ok((i, PropValue::I16(v)))
        },
        0x0005 => {
            let (i, v) = parse_word(input)?;
            Ok((i, PropValue::U16(v)))
        },
        0x0006 => {
            let (i, v) = parse_long(input)?;
            Ok((i, PropValue::I32(v)))
        },
        0x0007 => {
            let (i, v) = parse_dword(input)?;
            Ok((i, PropValue::U32(v)))
        },
        0x0008 => {
            let (i, v) = parse_long64(input)?;
            Ok((i, PropValue::I64(v)))
        },
        0x0009 => {
            let (i, v) = parse_qword(input)?;
            Ok((i, PropValue::U64(v)))
        },
        0x000A => {
            let (i, v) = parse_long(input)?;
            Ok((i, PropValue::Fixed(v)))
        },
        0x000B => {
            let (i, v) = parse_dword(input)?;
            Ok((i, PropValue::Float(v)))
        },
        0x000C => {
            let (i, v) = parse_qword(input)?;
            Ok((i, PropValue::Double(v)))
        },
        0x000D => {
            let (i, v) = parse_string(input)?;
            Ok((i, PropValue::String(v)))
        },
        0x000E => {
            let (i, v) = parse_point(input)?;
            Ok((i, PropValue::Point(v)))
        },
        0x000F => {
            let (i, v) = parse_size(input)?;
            Ok((i, PropValue::Size(v)))
        },
        0x0010 => {
            let (i, v) = parse_rect(input)?;
            Ok((i, PropValue::Rect(v)))
        },
        0x0011 => {
            let (after_count, num_elements) = parse_dword(input)?;
            let (start, element_type) = parse_word(after_count)?;
            let mut rest = start;
            let mut elements: Vec<PropValue> = Vec::new();
            let mut i: u32 = 0;
            assert(prop_values_view(elements@) =~= Seq::empty());
            while i < num_elements
                invariant
                    i <= num_elements,
                    prop_type == 0x0011,
                    spec_dword(input@) == Ok::<_, (Seq<u8>, ErrorKind)>((after_count@, num_elements)),
                    spec_word(after_count@) == Ok::<_, (Seq<u8>, ErrorKind)>((start@, element_type)),
                    start@.len() < input@.len(),
                    rest@.len() <= start@.len(),
                    spec_vec_elems(start@, i as nat, element_type) == Ok::<_, (Seq<u8>, ErrorKind)>(
                        (rest@, prop_values_view(elements@)),
                    ),
                decreases num_elements - i,
            {
                match parse_vec_elem(rest, element_type) {
                    Ok((r, v)) => {
                        proof {
                            assert(elements@.push(v).drop_last() =~= elements@);
                        }
                        elements.push(v);
                        rest = r;
                        i = i + 1;
                    },
                    Err(e) => {
                        proof {
                            lemma_vec_elems_err(start@, (i + 1) as nat, num_elements as nat, element_type);
                        }
                        return Err(e);
                    },
                }
            }
            Ok((rest, PropValue::Vector(elements)))
        },
        0x0012 => {
            let (i, num_props) = parse_dword(input)?;
            let (i, props) = parse_props(i, num_props)?;
            Ok((i, PropValue::Properties(props)))
        },
        0x0013 => {
            let (i, v) = parse_uuid(input)?;
            Ok((i, PropValue::Uuid(v)))
        },
        _ => Err(ParseError { input, code: ErrorKind::Verify }),
    }
}

fn parse_vec_elem(input: &[u8], element_type: WORD) -> (res: PResult<'_, PropValue>)
    ensures
        presult_view(res) == spec_vec_elem(input@, element_type),
        res matches Ok((r, _)) ==> r@.len() < input@.len(),
    decreases input@.len(), 1nat,
{
    if element_type == 0 {
        let (i, t) = parse_word(input)?;
        parse_prop_value(i, t)
    } else {
        parse_prop_value(input, element_type)
    }
}

fn parse_prop(input: &[u8]) -> (res: PResult<'_, (String, PropValue)>)
    ensures
        presult_view(res) == spec_prop(input@),
        res matches Ok((r, _)) ==> r@.len() < input@.len(),
    decreases input@.len(), 0nat,
{
    let (input, name) = parse_string(input)?;
    let (input, prop_type) = parse_word(input)?;
    let (input, value) = parse_prop_value(input, prop_type)?;
    Ok((input, (name, value)))
}

fn parse_props(input: &[u8], num_props: DWORD) -> (res: PResult<'_, Vec<(String, PropValue)>>)
    ensures
        presult_map(res, |v: Vec<(String, PropValue)>| props_view(v@)) == spec_props(
            input@,
            num_props as nat,
        ),
        res matches Ok((r, _)) ==> r@.len() <= input@.len(),
    decreases input@.len(), num_props + 1,
{
    let mut rest = input;
    let mut props: Vec<(String, PropValue)> = Vec::new();
    let mut i: u32 = 0;
    assert(props_view(props@) =~= Seq::empty());
    while i < num_props
        invariant
            i <= num_props,
            rest@.len() <= input@.len(),
            spec_props(input@, i as nat) == Ok::<_, (Seq<u8>, ErrorKind)>((rest@, props_view(props@))),
        decreases num_props - i,
    {
        match parse_prop(rest) {
            Ok((r, p)) => {
                proof {
                    assert(props@.push(p).drop_last() =~= props@);
                }
                props.push(p);
                rest = r;
                i = i + 1;
            },
            Err(e) => {
                proof {
                    lemma_props_err(input@, (i + 1) as nat, num_props as nat);
                }
                return Err(e);
            },
        }
    }
    Ok((rest, props))
}

fn parse_property_map(input: &[u8]) -> (res: PResult<'_, PropertiesMap>)
    ensures
        presult_view(res) == spec_property_map(input@),
{
    let (input, key) = parse_dword(input)?;
    let (input, num_props) = parse_dword(input)?;
    let (input, props) = parse_props(input, num_props)?;
    Ok((input, PropertiesMap { key, props }))
}

fn parse_user_data_maps(input: &[u8]) -> (res: PResult<'_, Vec<PropertiesMap>>)
    ensures
        presult_map(res, |v: Vec<PropertiesMap>| maps_view(v@)) == spec_user_data_maps(input@),
{
    let (after_size, _size) = parse_dword(input)?;
    let (start, num_maps) = parse_dword(after_size)?;
    let mut rest = start;
    let mut maps: Vec<PropertiesMap> = Vec::new();
    let mut i: u32 = 0;
    assert(maps_view(maps@) =~= Seq::empty());
    while i < num_maps
        invariant
            i <= num_maps,
            spec_dword(input@) == Ok::<_, (Seq<u8>, ErrorKind)>((after_size@, _size)),
            spec_dword(after_size@) == Ok::<_, (Seq<u8>, ErrorKind)>((start@, num_maps)),
            spec_count(property_map_parser(), start@, i as nat) == Ok::<_, (Seq<u8>, ErrorKind)>(
                (rest@, maps_view(maps@)),
            ),
        decreases num_maps - i,
    {
        match parse_property_map(rest) {
            Ok((r, m)) => {
                proof {
                    assert(maps_view(maps@.push(m)) =~= maps_view(maps@).push(m@));
                }
                maps.push(m);
                rest = r;
                i = i + 1;
            },
            Err(e) => {
                proof {
                    assert(property_map_parser()(rest@) == spec_property_map(rest@));
                    lemma_count_err(property_map_parser(), start@, (i + 1) as nat, num_maps as nat);
                }
                return Err(e);
            },
        }
    }
    Ok((rest, maps))
}

fn parse_rgba(input: &[u8]) -> (res: PResult<'_, (u8, u8, u8, u8)>)
    ensures
        presult_view(res) == spec_rgba(input@),
{
    let (i, r) = parse_byte(input)?;
    let (i, g) = parse_byte(i)?;
    let (i, b) = parse_byte(i)?;
    let (i, a) = parse_byte(i)?;
    Ok((i, (r, g, b, a)))
}

impl<'a> AsepriteChunkParser<'a> for UserDataChunk {
    const CHUNK_TYPE: WORD = 0x2020;

    open spec fn spec_chunk_type() -> WORD {
        0x2020
    }

    fn chunk_type() -> (t: WORD) {
        Self::CHUNK_TYPE
    }

    open spec fn spec_parse_data(input: Seq<u8>) -> SpecResult<SpecUserDataChunk> {
        spec_user_data_chunk(input)
    }

    fn parse_data(input: &'a [u8]) -> (res: PResult<'a, Self>) {
        let (input, flags) = parse_dword(input)?;
        let (input, text) = if flags & 1 != 0 {
            let (i, t) = parse_string(input)?;
            (i, Some(t))
        } else {
            (input, None)
        };
        let (input, color) = if flags & 2 != 0 {
            let (i, c) = parse_rgba(input)?;
            (i, Some(c))
        } else {
            (input, None)
        };
        let (input, maps) = if flags & 4 != 0 {
            parse_user_data_maps(input)?
        } else {
            let maps: Vec<PropertiesMap> = Vec::new();
            assert(maps_view(maps@) =~= Seq::empty());
            (input, maps)
        };
        Ok((input, UserDataChunk { text, color, maps }))
    }
}

} // verus!
