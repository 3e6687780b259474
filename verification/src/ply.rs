//! A parser for the PLY triangle-mesh interchange format: a self-describing
//! text header (elements, counts, typed properties) followed by payload
//! records. The header is always text. Binary payloads of either byte order
//! are decoded byte-exactly, with single-precision fields carried as their
//! raw bit patterns; text payloads are decoded up to their coordinate
//! tokens, which only the host's float parser can finish.
use crate::tokens::{copy_range, parse_u32, spec_parse_u32, spec_tokens, split_tokens};
use vstd::prelude::*;

verus! {

// --- header keywords ---------------------------------------------------------
/// "ply"
pub const KW_PLY: [u8; 3] = [112, 108, 121];

/// "format"
pub const KW_FORMAT: [u8; 6] = [102, 111, 114, 109, 97, 116];

/// "ascii"
pub const KW_ASCII: [u8; 5] = [97, 115, 99, 105, 105];

/// "binary_little_endian"
pub const KW_BLE: [u8; 20] = [
    98,
    105,
    110,
    97,
    114,
    121,
    95,
    108,
    105,
    116,
    116,
    108,
    101,
    95,
    101,
    110,
    100,
    105,
    97,
    110,
];

/// "binary_big_endian"
pub const KW_BBE: [u8; 17] = [
    98,
    105,
    110,
    97,
    114,
    121,
    95,
    98,
    105,
    103,
    95,
    101,
    110,
    100,
    105,
    97,
    110,
];

/// "1.0"
pub const KW_V10: [u8; 3] = [49, 46, 48];

/// "comment"
pub const KW_COMMENT: [u8; 7] = [99, 111, 109, 109, 101, 110, 116];

/// "obj_info"
pub const KW_OBJ_INFO: [u8; 8] = [111, 98, 106, 95, 105, 110, 102, 111];

/// "element"
pub const KW_ELEMENT: [u8; 7] = [101, 108, 101, 109, 101, 110, 116];

/// "property"
pub const KW_PROPERTY: [u8; 8] = [112, 114, 111, 112, 101, 114, 116, 121];

/// "list"
pub const KW_LIST: [u8; 4] = [108, 105, 115, 116];

/// "end_header"
pub const KW_END_HEADER: [u8; 10] = [101, 110, 100, 95, 104, 101, 97, 100, 101, 114];

/// "vertex"
pub const KW_VERTEX: [u8; 6] = [118, 101, 114, 116, 101, 120];

/// "face"
pub const KW_FACE: [u8; 4] = [102, 97, 99, 101];

/// "vertex_indices"
pub const KW_VERTEX_INDICES: [u8; 14] = [
    118,
    101,
    114,
    116,
    101,
    120,
    95,
    105,
    110,
    100,
    105,
    99,
    101,
    115,
];

/// "x"
pub const KW_X: [u8; 1] = [120];

/// "y"
pub const KW_Y: [u8; 1] = [121];

/// "z"
pub const KW_Z: [u8; 1] = [122];

/// "nx"
pub const KW_NX: [u8; 2] = [110, 120];

/// "ny"
pub const KW_NY: [u8; 2] = [110, 121];

/// "nz"
pub const KW_NZ: [u8; 2] = [110, 122];

/// "red"
pub const KW_RED: [u8; 3] = [114, 101, 100];

/// "green"
pub const KW_GREEN: [u8; 5] = [103, 114, 101, 101, 110];

/// "blue"
pub const KW_BLUE: [u8; 4] = [98, 108, 117, 101];

/// "char"
pub const KW_CHAR: [u8; 4] = [99, 104, 97, 114];

/// "uchar"
pub const KW_UCHAR: [u8; 5] = [117, 99, 104, 97, 114];

/// "short"
pub const KW_SHORT: [u8; 5] = [115, 104, 111, 114, 116];

/// "ushort"
pub const KW_USHORT: [u8; 6] = [117, 115, 104, 111, 114, 116];

/// "int"
pub const KW_INT: [u8; 3] = [105, 110, 116];

/// "uint"
pub const KW_UINT: [u8; 4] = [117, 105, 110, 116];

/// "float"
pub const KW_FLOAT: [u8; 5] = [102, 108, 111, 97, 116];

/// "double"
pub const KW_DOUBLE: [u8; 6] = [100, 111, 117, 98, 108, 101];

/// "int8"
pub const KW_INT8: [u8; 4] = [105, 110, 116, 56];

/// "uint8"
pub const KW_UINT8: [u8; 5] = [117, 105, 110, 116, 56];

/// "int16"
pub const KW_INT16: [u8; 5] = [105, 110, 116, 49, 54];

/// "uint16"
pub const KW_UINT16: [u8; 6] = [117, 105, 110, 116, 49, 54];

/// "int32"
pub const KW_INT32: [u8; 5] = [105, 110, 116, 51, 50];

/// "uint32"
pub const KW_UINT32: [u8; 6] = [117, 105, 110, 116, 51, 50];

/// "float32"
pub const KW_FLOAT32: [u8; 7] = [102, 108, 111, 97, 116, 51, 50];

/// "float64"
pub const KW_FLOAT64: [u8; 7] = [102, 108, 111, 97, 116, 54, 52];

/// Whether token `t` is exactly the keyword `kw`.
pub fn tok_is(t: &Vec<u8>, kw: &[u8]) -> (r: bool)
    ensures
        r == (t@ == kw@),
{
    if t.len() != kw.len() {
        return false;
    }
    let mut i: usize = 0;
    while i < t.len()
        invariant
            i <= t@.len(),
            t@.len() == kw@.len(),
            forall|k: int| 0 <= k < i ==> t@[k] == kw@[k],
        decreases t@.len() - i,
    {
        if t[i] != kw[i] {
            return false;
        }
        i += 1;
    }
    proof {
        assert(t@ =~= kw@);
    }
    true
}

// --- the property type system ------------------------------------------------
/// The scalar property types the format declares, by their header keywords
/// (with the sized aliases, `int8` through `float64`, folded in).
#[derive(Clone, Copy, PartialEq, Eq, Debug)]
pub enum ScalarType {
    Char,
    UChar,
    Short,
    UShort,
    Int,
    UInt,
    Float,
    Double,
}

impl ScalarType {
    /// The payload width of this scalar in a binary encoding, in bytes.
    pub open spec fn spec_size(self) -> nat {
        match self {
            ScalarType::Char => 1,
            ScalarType::UChar => 1,
            ScalarType::Short => 2,
            ScalarType::UShort => 2,
            ScalarType::Int => 4,
            ScalarType::UInt => 4,
            ScalarType::Float => 4,
            ScalarType::Double => 8,
        }
    }

    pub fn size(&self) -> (r: usize)
        ensures
            r == self.spec_size(),
    {
        match self {
            ScalarType::Char => 1,
            ScalarType::UChar => 1,
            ScalarType::Short => 2,
            ScalarType::UShort => 2,
            ScalarType::Int => 4,
            ScalarType::UInt => 4,
            ScalarType::Float => 4,
            ScalarType::Double => 8,
        }
    }

    /// Whether this scalar can serve as a list length.
    pub open spec fn spec_is_integer(self) -> bool {
        !(self is Float || self is Double)
    }
}

/// The scalar type a header token names, if any.
pub open spec fn spec_scalar_type(s: Seq<u8>) -> Option<ScalarType> {
    if s == KW_CHAR@ || s == KW_INT8@ {
        Some(ScalarType::Char)
    } else if s == KW_UCHAR@ || s == KW_UINT8@ {
        Some(ScalarType::UChar)
    } else if s == KW_SHORT@ || s == KW_INT16@ {
        Some(ScalarType::Short)
    } else if s == KW_USHORT@ || s == KW_UINT16@ {
        Some(ScalarType::UShort)
    } else if s == KW_INT@ || s == KW_INT32@ {
        Some(ScalarType::Int)
    } else if s == KW_UINT@ || s == KW_UINT32@ {
        Some(ScalarType::UInt)
    } else if s == KW_FLOAT@ || s == KW_FLOAT32@ {
        Some(ScalarType::Float)
    } else if s == KW_DOUBLE@ || s == KW_FLOAT64@ {
        Some(ScalarType::Double)
    } else {
        None
    }
}

pub fn scalar_type_of(t: &Vec<u8>) -> (r: Option<ScalarType>)
    ensures
        r == spec_scalar_type(t@),
{
    if tok_is(t, &KW_CHAR) || tok_is(t, &KW_INT8) {
        Some(ScalarType::Char)
    } else if tok_is(t, &KW_UCHAR) || tok_is(t, &KW_UINT8) {
        Some(ScalarType::UChar)
    } else if tok_is(t, &KW_SHORT) || tok_is(t, &KW_INT16) {
        Some(ScalarType::Short)
    } else if tok_is(t, &KW_USHORT) || tok_is(t, &KW_UINT16) {
        Some(ScalarType::UShort)
    } else if tok_is(t, &KW_INT) || tok_is(t, &KW_INT32) {
        Some(ScalarType::Int)
    } else if tok_is(t, &KW_UINT) || tok_is(t, &KW_UINT32) {
        Some(ScalarType::UInt)
    } else if tok_is(t, &KW_FLOAT) || tok_is(t, &KW_FLOAT32) {
        Some(ScalarType::Float)
    } else if tok_is(t, &KW_DOUBLE) || tok_is(t, &KW_FLOAT64) {
        Some(ScalarType::Double)
    } else {
        None
    }
}

/// A declared property: a lone scalar, or a length-prefixed list
/// (length type, item type).
#[derive(Clone, Copy, PartialEq, Eq, Debug)]
pub enum PropType {
    Scalar(ScalarType),
    List(ScalarType, ScalarType),
}

/// One property declaration of an element.
pub struct Property {
    pub name: Vec<u8>,
    pub ty: PropType,
}

/// One element declaration: its name, how many payload records it has, and
/// its ordered properties.
pub struct Element {
    pub name: Vec<u8>,
    pub count: u32,
    pub props: Vec<Property>,
}

/// The three payload encodings the format line can declare.
#[derive(Clone, Copy, PartialEq, Eq, Debug)]
pub enum Format {
    Ascii,
    BinaryLittleEndian,
    BinaryBigEndian,
}

/// The parsed header: payload encoding plus the element declarations in
/// payload order.
pub struct Header {
    pub format: Format,
    pub elements: Vec<Element>,
}

/// Why a document was rejected.
#[derive(Clone, Copy, PartialEq, Eq, Debug)]
pub enum ParseError {
    /// The document does not open with the magic line.
    BadMagic,
    /// The format line is missing, duplicated, or names an unknown encoding
    /// or version.
    BadFormatLine,
    /// A header line fits no declaration form, or declares a property
    /// outside any element or twice.
    BadHeaderLine,
    /// An element count, a list length, or a numeric text field is not a
    /// well-formed non-negative number that fits.
    BadCount,
    /// The header ends without `end_header`.
    MissingEndHeader,
    /// No `vertex` element is declared.
    MissingVertexElement,
    /// No `face` element is declared.
    MissingFaceElement,
    /// A required vertex or face property is absent or declared at an
    /// unexpected type.
    AttributeTypeMismatch,
    /// The declarations use the format in a way this decoder does not take:
    /// a list inside a fixed-stride element, a second list among the face
    /// properties, a non-integer list length type, a face element that
    /// precedes the vertex element, or an implausibly wide record.
    UnsupportedSchema,
    /// The payload ends before the declared records do.
    TruncatedPayload,
    /// A face names a vertex that the vertex element does not have, one
    /// beyond the 16-bit index range of the draw path, or (in a text
    /// payload) one that is not a number.
    IndexOutOfRange,
    /// The document's payload is text-encoded: parse it with
    /// `AsciiGeometry::parse`, whose coordinate tokens the host's float
    /// parser then decodes.
    AsciiPayload,
    /// The document's payload is binary: parse it with `PlyMesh::parse`.
    BinaryPayload,
}

// --- binary scalar fields ----------------------------------------------------
/// The value of the 2-byte unsigned field at `off`.
pub open spec fn u16_at(s: Seq<u8>, off: int, le: bool) -> int {
    if le {
        s[off] + 256 * s[off + 1]
    } else {
        s[off + 1] + 256 * s[off]
    }
}

/// The value of the 4-byte unsigned field at `off`.
pub open spec fn u32_at(s: Seq<u8>, off: int, le: bool) -> int {
    if le {
        s[off] + 256 * (s[off + 1] + 256 * (s[off + 2] + 256 * s[off + 3]))
    } else {
        s[off + 3] + 256 * (s[off + 2] + 256 * (s[off + 1] + 256 * s[off]))
    }
}

pub fn read_u16(s: &[u8], off: usize, le: bool) -> (r: u16)
    requires
        off + 2 <= s@.len(),
    ensures
        r as int == u16_at(s@, off as int, le),
{
    let n: usize = s.len();
    assert(off + 2 <= n);
    let (b0, b1) = if le {
        (s[off], s[off + 1])
    } else {
        (s[off + 1], s[off])
    };
    b0 as u16 + 256 * (b1 as u16)
}

pub fn read_u32(s: &[u8], off: usize, le: bool) -> (r: u32)
    requires
        off + 4 <= s@.len(),
    ensures
        r as int == u32_at(s@, off as int, le),
{
    let n: usize = s.len();
    assert(off + 4 <= n);
    let (b0, b1, b2, b3) = if le {
        (s[off], s[off + 1], s[off + 2], s[off + 3])
    } else {
        (s[off + 3], s[off + 2], s[off + 1], s[off])
    };
    b0 as u32 + 256 * (b1 as u32 + 256 * (b2 as u32 + 256 * (b3 as u32)))
}

/// The list length encoded at `off` by a scalar of type `ty`: its unsigned
/// value, or `None` when the field is negative under a signed type (or `ty`
/// is no integer type).
pub open spec fn spec_count_at(s: Seq<u8>, off: int, ty: ScalarType, le: bool) -> Option<int> {
    match ty {
        ScalarType::UChar => Some(s[off] as int),
        ScalarType::Char => if s[off] < 128 {
            Some(s[off] as int)
        } else {
            None
        },
        ScalarType::UShort => Some(u16_at(s, off, le)),
        ScalarType::Short => if u16_at(s, off, le) < 32768 {
            Some(u16_at(s, off, le))
        } else {
            None
        },
        ScalarType::UInt => Some(u32_at(s, off, le)),
        ScalarType::Int => if u32_at(s, off, le) < 0x8000_0000 {
            Some(u32_at(s, off, le))
        } else {
            None
        },
        ScalarType::Float => None,
        ScalarType::Double => None,
    }
}

pub fn read_count(s: &[u8], off: usize, ty: ScalarType, le: bool) -> (r: Option<u32>)
    requires
        off + ty.spec_size() <= s@.len(),
    ensures
        match r {
            Some(c) => spec_count_at(s@, off as int, ty, le) == Some(c as int),
            None => spec_count_at(s@, off as int, ty, le) is None,
        },
{
    match ty {
        ScalarType::UChar => Some(s[off] as u32),
        ScalarType::Char => {
            let b = s[off];
            if b < 128 {
                Some(b as u32)
            } else {
                None
            }
        },
        ScalarType::UShort => Some(read_u16(s, off, le) as u32),
        ScalarType::Short => {
            let v = read_u16(s, off, le);
            if v < 32768 {
                Some(v as u32)
            } else {
                None
            }
        },
        ScalarType::UInt => Some(read_u32(s, off, le)),
        ScalarType::Int => {
            let v = read_u32(s, off, le);
            if v < 0x8000_0000 {
                Some(v)
            } else {
                None
            }
        },
        ScalarType::Float => None,
        ScalarType::Double => None,
    }
}

} // verus!

verus! {

// --- fixed-stride vertex records ----------------------------------------------
/// Byte offsets, within one fixed-stride vertex record, of the nine fields the
/// mesh keeps: the position triple, the normal triple (4-byte floats), and the
/// color triple (single bytes).
#[derive(Clone, Copy, Debug)]
pub struct VertexLayout {
    pub stride: usize,
    pub x: usize,
    pub y: usize,
    pub z: usize,
    pub nx: usize,
    pub ny: usize,
    pub nz: usize,
    pub red: usize,
    pub green: usize,
    pub blue: usize,
}

impl VertexLayout {
    /// Every field lies inside the record, and the record is of a plausible
    /// width (the layout builder caps it, which keeps later offset arithmetic
    /// comfortably inside machine bounds).
    pub open spec fn wf(self) -> bool {
        &&& self.x + 4 <= self.stride
        &&& self.y + 4 <= self.stride
        &&& self.z + 4 <= self.stride
        &&& self.nx + 4 <= self.stride
        &&& self.ny + 4 <= self.stride
        &&& self.nz + 4 <= self.stride
        &&& self.red + 1 <= self.stride
        &&& self.green + 1 <= self.stride
        &&& self.blue + 1 <= self.stride
        &&& self.stride <= 0x1000_0008
    }
}

/// Computes the record layout of a vertex element: walks the declared
/// properties in order, records the offsets of `x`,`y`,`z` and `nx`,`ny`,`nz`
/// (each required at type `float`) and of `red`,`green`,`blue` (required at
/// type `uchar`), and skips any other scalar by its width. A list property
/// has no fixed width, so a vertex element holding one is not taken.
#[verifier::rlimit(80)]
pub fn vertex_layout(props: &Vec<Property>) -> (r: Result<VertexLayout, ParseError>)
    ensures
        r == spec_vertex_layout(prop_views(props@)),
        r matches Ok(l) ==> l.wf(),
{
    let mut off: usize = 0;
    let mut x: Option<usize> = None;
    let mut y: Option<usize> = None;
    let mut z: Option<usize> = None;
    let mut nx: Option<usize> = None;
    let mut ny: Option<usize> = None;
    let mut nz: Option<usize> = None;
    let mut red: Option<usize> = None;
    let mut green: Option<usize> = None;
    let mut blue: Option<usize> = None;
    let mut i: usize = 0;
    proof {
        assert(prop_views(props@).skip(0) =~= prop_views(props@));
    }
    while i < props.len()
        invariant
            i <= props@.len(),
            spec_vertex_layout(prop_views(props@)) == spec_vertex_layout_walk(
                prop_views(props@).skip(i as int),
                off,
                x,
                y,
                z,
                nx,
                ny,
                nz,
                red,
                green,
                blue,
            ),
            off <= 0x1000_0008,
            x matches Some(o) ==> o + 4 <= off,
            y matches Some(o) ==> o + 4 <= off,
            z matches Some(o) ==> o + 4 <= off,
            nx matches Some(o) ==> o + 4 <= off,
            ny matches Some(o) ==> o + 4 <= off,
            nz matches Some(o) ==> o + 4 <= off,
            red matches Some(o) ==> o + 1 <= off,
            green matches Some(o) ==> o + 1 <= off,
            blue matches Some(o) ==> o + 1 <= off,
        decreases props@.len() - i,
    {
        let ghost pv = prop_views(props@).skip(i as int);
        let ghost off0 = off;
        let ghost x0 = x;
        let ghost y0 = y;
        let ghost z0 = z;
        let ghost nx0 = nx;
        let ghost ny0 = ny;
        let ghost nz0 = nz;
        let ghost red0 = red;
        let ghost green0 = green;
        let ghost blue0 = blue;
        proof {
            assert(pv.len() == props@.len() - i);
            assert(prop_views(props@)[i as int] == props@[i as int]@);
            assert(pv[0] == props@[i as int]@);
        }
        if off > 0x1000_0000 {
            return Err(ParseError::UnsupportedSchema);
        }
        let p = &props[i];
        match p.ty {
            PropType::List(_, _) => {
                return Err(ParseError::UnsupportedSchema);
            },
            PropType::Scalar(st) => {
                let sz = st.size();
                let is_float = matches!(st, ScalarType::Float);
                let is_uchar = matches!(st, ScalarType::UChar);
                if tok_is(&p.name, &KW_X) {
                    if !is_float {
                        return Err(ParseError::AttributeTypeMismatch);
                    }
                    if x.is_some() {
                        return Err(ParseError::BadHeaderLine);
                    }
                    x = Some(off);
                } else if tok_is(&p.name, &KW_Y) {
                    if !is_float {
                        return Err(ParseError::AttributeTypeMismatch);
                    }
                    if y.is_some() {
                        return Err(ParseError::BadHeaderLine);
                    }
                    y = Some(off);
                } else if tok_is(&p.name, &KW_Z) {
                    if !is_float {
                        return Err(ParseError::AttributeTypeMismatch);
                    }
                    if z.is_some() {
                        return Err(ParseError::BadHeaderLine);
                    }
                    z = Some(off);
                } else if tok_is(&p.name, &KW_NX) {
                    if !is_float {
                        return Err(ParseError::AttributeTypeMismatch);
                    }
                    if nx.is_some() {
                        return Err(ParseError::BadHeaderLine);
                    }
                    nx = Some(off);
                } else if tok_is(&p.name, &KW_NY) {
                    if !is_float {
                        return Err(ParseError::AttributeTypeMismatch);
                    }
                    if ny.is_some() {
                        return Err(ParseError::BadHeaderLine);
                    }
                    ny = Some(off);
                } else if tok_is(&p.name, &KW_NZ) {
                    if !is_float {
                        return Err(ParseError::AttributeTypeMismatch);
                    }
                    if nz.is_some() {
                        return Err(ParseError::BadHeaderLine);
                    }
                    nz = Some(off);
                } else if tok_is(&p.name, &KW_RED) {
                    if !is_uchar {
                        return Err(ParseError::AttributeTypeMismatch);
                    }
                    if red.is_some() {
                        return Err(ParseError::BadHeaderLine);
                    }
                    red = Some(off);
                } else if tok_is(&p.name, &KW_GREEN) {
                    if !is_uchar {
                        return Err(ParseError::AttributeTypeMismatch);
                    }
                    if green.is_some() {
                        return Err(ParseError::BadHeaderLine);
                    }
                    green = Some(off);
                } else if tok_is(&p.name, &KW_BLUE) {
                    if !is_uchar {
                        return Err(ParseError::AttributeTypeMismatch);
                    }
                    if blue.is_some() {
                        return Err(ParseError::BadHeaderLine);
                    }
                    blue = Some(off);
                }
                off = off + sz;
            },
        }
        proof {
            assert(pv.drop_first() =~= prop_views(props@).skip(i as int + 1));
            assert(spec_vertex_layout_walk(
                pv,
                off0,
                x0,
                y0,
                z0,
                nx0,
                ny0,
                nz0,
                red0,
                green0,
                blue0,
            ) == spec_vertex_layout_walk(
                prop_views(props@).skip(i as int + 1),
                off,
                x,
                y,
                z,
                nx,
                ny,
                nz,
                red,
                green,
                blue,
            ));
        }
        i += 1;
    }
    proof {
        assert(prop_views(props@).skip(i as int).len() == 0);
    }
    match (x, y, z, nx, ny, nz, red, green, blue) {
        (
            Some(x),
            Some(y),
            Some(z),
            Some(nx),
            Some(ny),
            Some(nz),
            Some(red),
            Some(green),
            Some(blue),
        ) => Ok(
            VertexLayout { stride: off, x, y, z, nx, ny, nz, red, green, blue },
        ),
        _ => Err(ParseError::AttributeTypeMismatch),
    }
}

// --- face records --------------------------------------------------------------
/// The shape of one face record: fixed-width scalars before the index list,
/// the type of the list length field, and fixed-width scalars after it.
#[derive(Clone, Copy, Debug)]
pub struct FaceLayout {
    pub pre: usize,
    pub count_ty: ScalarType,
    pub post: usize,
}

impl FaceLayout {
    pub open spec fn wf(self) -> bool {
        &&& self.pre <= 0x1000_0008
        &&& self.post <= 0x1000_0008
        &&& self.count_ty.spec_is_integer()
    }
}

/// Computes the record shape of a face element: exactly one list property
/// named `vertex_indices` with `uint` items and an integer length type;
/// scalars around it are skipped by width. A second list cannot be skipped at
/// a fixed offset, so it is not taken.
pub fn face_layout(props: &Vec<Property>) -> (r: Result<FaceLayout, ParseError>)
    ensures
        r == spec_face_layout(prop_views(props@)),
        r matches Ok(l) ==> l.wf(),
{
    let mut pre: usize = 0;
    let mut post: usize = 0;
    let mut found: Option<ScalarType> = None;
    let mut i: usize = 0;
    proof {
        assert(prop_views(props@).skip(0) =~= prop_views(props@));
    }
    while i < props.len()
        invariant
            i <= props@.len(),
            spec_face_layout(prop_views(props@)) == spec_face_layout_walk(
                prop_views(props@).skip(i as int),
                pre,
                post,
                found,
            ),
            pre <= 0x1000_0008,
            post <= 0x1000_0008,
            found matches Some(ct) ==> ct.spec_is_integer(),
        decreases props@.len() - i,
    {
        let ghost pv = prop_views(props@).skip(i as int);
        let ghost pre0 = pre;
        let ghost post0 = post;
        let ghost found0 = found;
        proof {
            assert(pv.len() == props@.len() - i);
            assert(prop_views(props@)[i as int] == props@[i as int]@);
            assert(pv[0] == props@[i as int]@);
        }
        let p = &props[i];
        match p.ty {
            PropType::Scalar(st) => {
                let sz = st.size();
                if found.is_none() {
                    if pre > 0x1000_0000 {
                        return Err(ParseError::UnsupportedSchema);
                    }
                    pre = pre + sz;
                } else {
                    if post > 0x1000_0000 {
                        return Err(ParseError::UnsupportedSchema);
                    }
                    post = post + sz;
                }
            },
            PropType::List(ct, it) => {
                if tok_is(&p.name, &KW_VERTEX_INDICES) {
                    if found.is_some() {
                        return Err(ParseError::BadHeaderLine);
                    }
                    if !matches!(it, ScalarType::UInt) {
                        return Err(ParseError::AttributeTypeMismatch);
                    }
                    if matches!(ct, ScalarType::Float | ScalarType::Double) {
                        return Err(ParseError::UnsupportedSchema);
                    }
                    found = Some(ct);
                } else {
                    return Err(ParseError::UnsupportedSchema);
                }
            },
        }
        proof {
            assert(pv.drop_first() =~= prop_views(props@).skip(i as int + 1));
            assert(spec_face_layout_walk(pv, pre0, post0, found0) == spec_face_layout_walk(
                prop_views(props@).skip(i as int + 1),
                pre,
                post,
                found,
            ));
        }
        i += 1;
    }
    proof {
        assert(prop_views(props@).skip(i as int).len() == 0);
    }
    match found {
        Some(ct) => Ok(FaceLayout { pre, count_ty: ct, post }),
        None => Err(ParseError::AttributeTypeMismatch),
    }
}

} // verus!

verus! {

use vstd::arithmetic::mul::{lemma_mul_inequality, lemma_mul_is_distributive_add,
    lemma_mul_is_commutative, lemma_mul_upper_bound};

// --- color normalization -------------------------------------------------------
/// Entry b is the single-precision bit pattern of b divided by 255: the
/// rule that maps an unsigned-byte color channel into the unit interval.
pub const UNORM8: [u32; 256] = [
    0x00000000,
    0x3B808081,
    0x3C008081,
    0x3C40C0C1,
    0x3C808081,
    0x3CA0A0A1,
    0x3CC0C0C1,
    0x3CE0E0E1,
    0x3D008081,
    0x3D109091,
    0x3D20A0A1,
    0x3D30B0B1,
    0x3D40C0C1,
    0x3D50D0D1,
    0x3D60E0E1,
    0x3D70F0F1,
    0x3D808081,
    0x3D888889,
    0x3D909091,
    0x3D989899,
    0x3DA0A0A1,
    0x3DA8A8A9,
    0x3DB0B0B1,
    0x3DB8B8B9,
    0x3DC0C0C1,
    0x3DC8C8C9,
    0x3DD0D0D1,
    0x3DD8D8D9,
    0x3DE0E0E1,
    0x3DE8E8E9,
    0x3DF0F0F1,
    0x3DF8F8F9,
    0x3E008081,
    0x3E048485,
    0x3E088889,
    0x3E0C8C8D,
    0x3E109091,
    0x3E149495,
    0x3E189899,
    0x3E1C9C9D,
    0x3E20A0A1,
    0x3E24A4A5,
    0x3E28A8A9,
    0x3E2CACAD,
    0x3E30B0B1,
    0x3E34B4B5,
    0x3E38B8B9,
    0x3E3CBCBD,
    0x3E40C0C1,
    0x3E44C4C5,
    0x3E48C8C9,
    0x3E4CCCCD,
    0x3E50D0D1,
    0x3E54D4D5,
    0x3E58D8D9,
    0x3E5CDCDD,
    0x3E60E0E1,
    0x3E64E4E5,
    0x3E68E8E9,
    0x3E6CECED,
    0x3E70F0F1,
    0x3E74F4F5,
    0x3E78F8F9,
    0x3E7CFCFD,
    0x3E808081,
    0x3E828283,
    0x3E848485,
    0x3E868687,
    0x3E888889,
    0x3E8A8A8B,
    0x3E8C8C8D,
    0x3E8E8E8F,
    0x3E909091,
    0x3E929293,
    0x3E949495,
    0x3E969697,
    0x3E989899,
    0x3E9A9A9B,
    0x3E9C9C9D,
    0x3E9E9E9F,
    0x3EA0A0A1,
    0x3EA2A2A3,
    0x3EA4A4A5,
    0x3EA6A6A7,
    0x3EA8A8A9,
    0x3EAAAAAB,
    0x3EACACAD,
    0x3EAEAEAF,
    0x3EB0B0B1,
    0x3EB2B2B3,
    0x3EB4B4B5,
    0x3EB6B6B7,
    0x3EB8B8B9,
    0x3EBABABB,
    0x3EBCBCBD,
    0x3EBEBEBF,
    0x3EC0C0C1,
    0x3EC2C2C3,
    0x3EC4C4C5,
    0x3EC6C6C7,
    0x3EC8C8C9,
    0x3ECACACB,
    0x3ECCCCCD,
    0x3ECECECF,
    0x3ED0D0D1,
    0x3ED2D2D3,
    0x3ED4D4D5,
    0x3ED6D6D7,
    0x3ED8D8D9,
    0x3EDADADB,
    0x3EDCDCDD,
    0x3EDEDEDF,
    0x3EE0E0E1,
    0x3EE2E2E3,
    0x3EE4E4E5,
    0x3EE6E6E7,
    0x3EE8E8E9,
    0x3EEAEAEB,
    0x3EECECED,
    0x3EEEEEEF,
    0x3EF0F0F1,
    0x3EF2F2F3,
    0x3EF4F4F5,
    0x3EF6F6F7,
    0x3EF8F8F9,
    0x3EFAFAFB,
    0x3EFCFCFD,
    0x3EFEFEFF,
    0x3F008081,
    0x3F018182,
    0x3F028283,
    0x3F038384,
    0x3F048485,
    0x3F058586,
    0x3F068687,
    0x3F078788,
    0x3F088889,
    0x3F09898A,
    0x3F0A8A8B,
    0x3F0B8B8C,
    0x3F0C8C8D,
    0x3F0D8D8E,
    0x3F0E8E8F,
    0x3F0F8F90,
    0x3F109091,
    0x3F119192,
    0x3F129293,
    0x3F139394,
    0x3F149495,
    0x3F159596,
    0x3F169697,
    0x3F179798,
    0x3F189899,
    0x3F19999A,
    0x3F1A9A9B,
    0x3F1B9B9C,
    0x3F1C9C9D,
    0x3F1D9D9E,
    0x3F1E9E9F,
    0x3F1F9FA0,
    0x3F20A0A1,
    0x3F21A1A2,
    0x3F22A2A3,
    0x3F23A3A4,
    0x3F24A4A5,
    0x3F25A5A6,
    0x3F26A6A7,
    0x3F27A7A8,
    0x3F28A8A9,
    0x3F29A9AA,
    0x3F2AAAAB,
    0x3F2BABAC,
    0x3F2CACAD,
    0x3F2DADAE,
    0x3F2EAEAF,
    0x3F2FAFB0,
    0x3F30B0B1,
    0x3F31B1B2,
    0x3F32B2B3,
    0x3F33B3B4,
    0x3F34B4B5,
    0x3F35B5B6,
    0x3F36B6B7,
    0x3F37B7B8,
    0x3F38B8B9,
    0x3F39B9BA,
    0x3F3ABABB,
    0x3F3BBBBC,
    0x3F3CBCBD,
    0x3F3DBDBE,
    0x3F3EBEBF,
    0x3F3FBFC0,
    0x3F40C0C1,
    0x3F41C1C2,
    0x3F42C2C3,
    0x3F43C3C4,
    0x3F44C4C5,
    0x3F45C5C6,
    0x3F46C6C7,
    0x3F47C7C8,
    0x3F48C8C9,
    0x3F49C9CA,
    0x3F4ACACB,
    0x3F4BCBCC,
    0x3F4CCCCD,
    0x3F4DCDCE,
    0x3F4ECECF,
    0x3F4FCFD0,
    0x3F50D0D1,
    0x3F51D1D2,
    0x3F52D2D3,
    0x3F53D3D4,
    0x3F54D4D5,
    0x3F55D5D6,
    0x3F56D6D7,
    0x3F57D7D8,
    0x3F58D8D9,
    0x3F59D9DA,
    0x3F5ADADB,
    0x3F5BDBDC,
    0x3F5CDCDD,
    0x3F5DDDDE,
    0x3F5EDEDF,
    0x3F5FDFE0,
    0x3F60E0E1,
    0x3F61E1E2,
    0x3F62E2E3,
    0x3F63E3E4,
    0x3F64E4E5,
    0x3F65E5E6,
    0x3F66E6E7,
    0x3F67E7E8,
    0x3F68E8E9,
    0x3F69E9EA,
    0x3F6AEAEB,
    0x3F6BEBEC,
    0x3F6CECED,
    0x3F6DEDEE,
    0x3F6EEEEF,
    0x3F6FEFF0,
    0x3F70F0F1,
    0x3F71F1F2,
    0x3F72F2F3,
    0x3F73F3F4,
    0x3F74F4F5,
    0x3F75F5F6,
    0x3F76F6F7,
    0x3F77F7F8,
    0x3F78F8F9,
    0x3F79F9FA,
    0x3F7AFAFB,
    0x3F7BFBFC,
    0x3F7CFCFD,
    0x3F7DFDFE,
    0x3F7EFEFF,
    0x3F800000,
];

/// The bit pattern of channel byte `b` normalized into the unit interval.
pub open spec fn spec_unorm(b: u8) -> u32 {
    UNORM8[b as int]
}

pub fn unorm(b: u8) -> (r: u32)
    ensures
        r == spec_unorm(b),
{
    UNORM8[b as usize]
}

} // verus!

verus! {

// --- payload decoding ------------------------------------------------------------
/// Record `i`, starting at byte `ro`, was extracted faithfully: the three
/// position and three normal fields landed in `pos`/`nor` as the raw bit
/// patterns at their layout offsets, and the three color bytes landed in
/// `col` normalized.
pub open spec fn vertex_record_ok(
    s: Seq<u8>,
    ro: int,
    lay: VertexLayout,
    le: bool,
    pos: Seq<u32>,
    nor: Seq<u32>,
    col: Seq<u32>,
    i: int,
) -> bool {
    &&& pos[3 * i] == u32_at(s, ro + lay.x, le)
    &&& pos[3 * i + 1] == u32_at(s, ro + lay.y, le)
    &&& pos[3 * i + 2] == u32_at(s, ro + lay.z, le)
    &&& nor[3 * i] == u32_at(s, ro + lay.nx, le)
    &&& nor[3 * i + 1] == u32_at(s, ro + lay.ny, le)
    &&& nor[3 * i + 2] == u32_at(s, ro + lay.nz, le)
    &&& col[3 * i] == spec_unorm(s[ro + lay.red])
    &&& col[3 * i + 1] == spec_unorm(s[ro + lay.green])
    &&& col[3 * i + 2] == spec_unorm(s[ro + lay.blue])
}

/// Decodes the `nv` fixed-stride vertex records that start at `base` into the
/// three parallel attribute arrays. Fails exactly when the payload is shorter
/// than the records it declares.
pub fn decode_vertices(bytes: &[u8], base: usize, nv: u32, lay: &VertexLayout, le: bool) -> (r:
    Result<(Vec<u32>, Vec<u32>, Vec<u32>), ParseError>)
    requires
        lay.wf(),
        base <= bytes@.len(),
    ensures
        match r {
            Ok(out) => {
                &&& base + nv * lay.stride <= bytes@.len()
                &&& spec_vertex_data(bytes@, base as int, nv as int, *lay, le) == Ok::<
                    (Seq<u32>, Seq<u32>, Seq<u32>),
                    ParseError,
                >((out.0@, out.1@, out.2@))
                &&& out.0@.len() == 3 * nv
                &&& out.1@.len() == 3 * nv
                &&& out.2@.len() == 3 * nv
                &&& forall|i: int|
                    0 <= i < nv ==> #[trigger] vertex_record_ok(
                        bytes@,
                        base + i * lay.stride,
                        *lay,
                        le,
                        out.0@,
                        out.1@,
                        out.2@,
                        i,
                    )
            },
            Err(e) => {
                &&& e == ParseError::TruncatedPayload
                &&& base + nv * lay.stride > bytes@.len()
                &&& spec_vertex_data(bytes@, base as int, nv as int, *lay, le) == Err::<
                    (Seq<u32>, Seq<u32>, Seq<u32>),
                    ParseError,
                >(e)
            },
        },
{
    let n: usize = bytes.len();
    let stride: usize = lay.stride;
    proof {
        lemma_mul_upper_bound(nv as int, 0xFFFF_FFFF, stride as int, 0x1000_0008);
    }
    let need: u64 = (nv as u64) * (stride as u64);
    if need > ((n - base) as u64) {
        return Err(ParseError::TruncatedPayload);
    }
    let mut pos: Vec<u32> = Vec::new();
    let mut nor: Vec<u32> = Vec::new();
    let mut col: Vec<u32> = Vec::new();
    let mut i: usize = 0;
    while i < nv as usize
        invariant
            i <= nv,
            n == bytes@.len(),
            stride == lay.stride,
            lay.wf(),
            base + (nv as int) * (stride as int) <= n,
            pos@.len() == 3 * i,
            nor@.len() == 3 * i,
            col@.len() == 3 * i,
            forall|k: int|
                0 <= k < i ==> #[trigger] vertex_record_ok(
                    bytes@,
                    base + k * (stride as int),
                    *lay,
                    le,
                    pos@,
                    nor@,
                    col@,
                    k,
                ),
        decreases nv - i,
    {
        proof {
            lemma_mul_inequality(i as int, nv as int, stride as int);
            lemma_mul_inequality(i as int + 1, nv as int, stride as int);
            lemma_mul_is_commutative(i as int, stride as int);
            lemma_mul_is_commutative(i as int + 1, stride as int);
            lemma_mul_is_commutative(nv as int, stride as int);
            lemma_mul_is_distributive_add(stride as int, i as int, 1);
        }
        let ro: usize = base + i * stride;
        assert(ro + stride <= n);
        let px = read_u32(bytes, ro + lay.x, le);
        let py = read_u32(bytes, ro + lay.y, le);
        let pz = read_u32(bytes, ro + lay.z, le);
        let qx = read_u32(bytes, ro + lay.nx, le);
        let qy = read_u32(bytes, ro + lay.ny, le);
        let qz = read_u32(bytes, ro + lay.nz, le);
        let cr = unorm(bytes[ro + lay.red]);
        let cg = unorm(bytes[ro + lay.green]);
        let cb = unorm(bytes[ro + lay.blue]);
        let ghost pos0 = pos@;
        let ghost nor0 = nor@;
        let ghost col0 = col@;
        pos.push(px);
        pos.push(py);
        pos.push(pz);
        nor.push(qx);
        nor.push(qy);
        nor.push(qz);
        col.push(cr);
        col.push(cg);
        col.push(cb);
        proof {
            assert(pos@ =~= pos0 + seq![px, py, pz]);
            assert(nor@ =~= nor0 + seq![qx, qy, qz]);
            assert(col@ =~= col0 + seq![cr, cg, cb]);
            assert forall|k: int|
                0 <= k < i + 1 implies #[trigger] vertex_record_ok(
                bytes@,
                base + k * (stride as int),
                *lay,
                le,
                pos@,
                nor@,
                col@,
                k,
            ) by {
                if k < i {
                    assert(vertex_record_ok(
                        bytes@,
                        base + k * (stride as int),
                        *lay,
                        le,
                        pos0,
                        nor0,
                        col0,
                        k,
                    ));
                    assert(3 * k + 2 < pos0.len());
                } else {
                    assert(pos@[3 * k] == px);
                    assert(pos@[3 * k + 1] == py);
                    assert(pos@[3 * k + 2] == pz);
                    assert(nor@[3 * k] == qx);
                    assert(nor@[3 * k + 1] == qy);
                    assert(nor@[3 * k + 2] == qz);
                    assert(col@[3 * k] == cr);
                    assert(col@[3 * k + 1] == cg);
                    assert(col@[3 * k + 2] == cb);
                }
            }
        }
        i += 1;
    }
    proof {
        lemma_mul_is_commutative(nv as int, stride as int);
        assert forall|k: int| 0 <= k < 3 * (nv as int) implies pos@[k] == spec_positions(
            bytes@,
            base as int,
            nv as int,
            *lay,
            le,
        )[k] && nor@[k] == spec_normals(bytes@, base as int, nv as int, *lay, le)[k] && col@[k]
            == spec_colors(bytes@, base as int, nv as int, *lay, le)[k] by {
            let vi = k / 3;
            let vr = k % 3;
            lemma_fundamental_div_mod(k, 3);
            lemma_mod_bound(k, 3);
            assert(0 <= vi < nv);
            assert(vertex_record_ok(
                bytes@,
                base + vi * (stride as int),
                *lay,
                le,
                pos@,
                nor@,
                col@,
                vi,
            ));
        }
        assert(pos@ =~= spec_positions(bytes@, base as int, nv as int, *lay, le));
        assert(nor@ =~= spec_normals(bytes@, base as int, nv as int, *lay, le));
        assert(col@ =~= spec_colors(bytes@, base as int, nv as int, *lay, le));
    }
    Ok((pos, nor, col))
}

/// What appending a prefix does to a decode result: the prefix goes in front
/// of the decoded indices; an error stays as it is.
pub open spec fn spec_append(pre: Seq<u16>, r: Result<(Seq<u16>, int), ParseError>) -> Result<
    (Seq<u16>, int),
    ParseError,
> {
    match r {
        Ok(p) => Ok((pre + p.0, p.1)),
        Err(e) => Err(e),
    }
}

/// The meaning of `k` face records starting at `off`: each record is `pre`
/// skipped bytes, a list length, that many 4-byte unsigned indices, and
/// `post` skipped bytes. The indices flatten in order into one sequence. A
/// record whose bytes run out truncates the payload; a negative length is a
/// bad count; an index at or beyond `nv` (or beyond the 16-bit draw range)
/// is out of range.
pub open spec fn spec_faces(
    s: Seq<u8>,
    off: int,
    k: nat,
    lay: FaceLayout,
    nv: int,
    le: bool,
) -> Result<(Seq<u16>, int), ParseError>
    decreases k,
{
    if k == 0 {
        Ok((seq![], off))
    } else {
        let coff = off + lay.pre;
        let csz = lay.count_ty.spec_size();
        if coff + csz > s.len() {
            Err(ParseError::TruncatedPayload)
        } else {
            match spec_count_at(s, coff, lay.count_ty, le) {
                None => Err(ParseError::BadCount),
                Some(c) => {
                    let ibase = coff + csz;
                    if ibase + 4 * c + lay.post > s.len() {
                        Err(ParseError::TruncatedPayload)
                    } else if exists|j: int|
                        0 <= j < c && !(#[trigger] u32_at(s, ibase + 4 * j, le) < nv && u32_at(
                            s,
                            ibase + 4 * j,
                            le,
                        ) <= 0xFFFF) {
                        Err(ParseError::IndexOutOfRange)
                    } else {
                        let idxs = Seq::new(c as nat, |j: int| u32_at(s, ibase + 4 * j, le) as u16);
                        spec_append(idxs, spec_faces(s, ibase + 4 * c + lay.post, (k - 1) as nat, lay, nv, le))
                    }
                },
            }
        }
    }
}

/// Decodes the `nf` face records that start at `off0`, flattening every
/// record's index list, in record order, into one sequence; returns it with
/// the offset just past the last record. The result is exactly what
/// `spec_faces` assigns to the payload, and every returned index is below
/// `nv`.
#[verifier::rlimit(60)]
pub fn decode_faces(bytes: &[u8], off0: usize, nf: u32, lay: &FaceLayout, nv: u32, le: bool) -> (r:
    Result<(Vec<u16>, usize), ParseError>)
    requires
        lay.wf(),
        off0 <= bytes@.len(),
    ensures
        match r {
            Ok(p) => {
                &&& spec_faces(bytes@, off0 as int, nf as nat, *lay, nv as int, le) == Ok::<
                    (Seq<u16>, int),
                    ParseError,
                >((p.0@, p.1 as int))
                &&& p.1 <= bytes@.len()
                &&& forall|t: int| 0 <= t < p.0@.len() ==> (p.0@[t] as int) < nv
            },
            Err(e) => spec_faces(bytes@, off0 as int, nf as nat, *lay, nv as int, le) == Err::<
                (Seq<u16>, int),
                ParseError,
            >(e),
        },
{
    let n: usize = bytes.len();
    let mut acc: Vec<u16> = Vec::new();
    let mut off: usize = off0;
    let mut i: u32 = 0;
    proof {
        let r0 = spec_faces(bytes@, off0 as int, nf as nat, *lay, nv as int, le);
        match r0 {
            Ok(p) => {
                assert(Seq::<u16>::empty() + p.0 =~= p.0);
            },
            Err(_) => {},
        }
    }
    while i < nf
        invariant
            i <= nf,
            n == bytes@.len(),
            off <= n,
            lay.wf(),
            forall|t: int| 0 <= t < acc@.len() ==> (acc@[t] as int) < nv,
            spec_faces(bytes@, off0 as int, nf as nat, *lay, nv as int, le) == spec_append(
                acc@,
                spec_faces(bytes@, off as int, (nf - i) as nat, *lay, nv as int, le),
            ),
        decreases nf - i,
    {
        let ghost k = (nf - i) as nat;
        let csz = lay.count_ty.size();
        if lay.pre > n - off {
            proof {
                assert(spec_faces(bytes@, off as int, k, *lay, nv as int, le) == Err::<
                    (Seq<u16>, int),
                    ParseError,
                >(ParseError::TruncatedPayload));
            }
            return Err(ParseError::TruncatedPayload);
        }
        let coff = off + lay.pre;
        if csz > n - coff {
            proof {
                assert(spec_faces(bytes@, off as int, k, *lay, nv as int, le) == Err::<
                    (Seq<u16>, int),
                    ParseError,
                >(ParseError::TruncatedPayload));
            }
            return Err(ParseError::TruncatedPayload);
        }
        let c = match read_count(bytes, coff, lay.count_ty, le) {
            Some(c) => c,
            None => {
                proof {
                    assert(spec_faces(bytes@, off as int, k, *lay, nv as int, le) == Err::<
                        (Seq<u16>, int),
                        ParseError,
                    >(ParseError::BadCount));
                }
                return Err(ParseError::BadCount);
            },
        };
        let ibase = coff + csz;
        let rem: u64 = (n - ibase) as u64;
        if (lay.post as u64) > rem || 4 * (c as u64) > rem - (lay.post as u64) {
            proof {
                assert(ibase + 4 * (c as int) + lay.post > n);
                assert(spec_faces(bytes@, off as int, k, *lay, nv as int, le) == Err::<
                    (Seq<u16>, int),
                    ParseError,
                >(ParseError::TruncatedPayload));
            }
            return Err(ParseError::TruncatedPayload);
        }
        assert(ibase + 4 * (c as int) + lay.post <= n);
        let ghost acc0 = acc@;
        let mut j: u32 = 0;
        while j < c
            invariant
                j <= c,
                n == bytes@.len(),
                lay.wf(),
                off <= n,
                i < nf,
                k == (nf - i) as nat,
                coff == off + lay.pre,
                ibase == coff + lay.count_ty.spec_size(),
                coff + lay.count_ty.spec_size() <= n,
                spec_count_at(bytes@, coff as int, lay.count_ty, le) == Some(c as int),
                spec_faces(bytes@, off0 as int, nf as nat, *lay, nv as int, le) == spec_append(
                    acc0,
                    spec_faces(bytes@, off as int, k, *lay, nv as int, le),
                ),
                ibase + 4 * (c as int) + lay.post <= n,
                acc@ == acc0 + Seq::new(
                    j as nat,
                    |jj: int| u32_at(bytes@, ibase + 4 * jj, le) as u16,
                ),
                forall|jj: int|
                    0 <= jj < j ==> #[trigger] u32_at(bytes@, ibase + 4 * jj, le) < nv && u32_at(
                        bytes@,
                        ibase + 4 * jj,
                        le,
                    ) <= 0xFFFF,
                forall|t: int| 0 <= t < acc0.len() ==> (acc0[t] as int) < nv,
                nv as int <= 0x1_0000_0000,
            decreases c - j,
        {
            let v = read_u32(bytes, ibase + 4 * (j as usize), le);
            if v >= nv || v > 0xFFFF {
                proof {
                    let bad = j as int;
                    assert(!(#[trigger] u32_at(bytes@, ibase + 4 * bad, le) < nv && u32_at(
                        bytes@,
                        ibase + 4 * bad,
                        le,
                    ) <= 0xFFFF));
                    assert(exists|jx: int|
                        0 <= jx < c && !(#[trigger] u32_at(bytes@, ibase + 4 * jx, le) < nv
                            && u32_at(bytes@, ibase + 4 * jx, le) <= 0xFFFF));
                    assert(spec_faces(bytes@, off as int, k, *lay, nv as int, le) == Err::<
                        (Seq<u16>, int),
                        ParseError,
                    >(ParseError::IndexOutOfRange));
                }
                return Err(ParseError::IndexOutOfRange);
            }
            acc.push(v as u16);
            proof {
                assert(acc@ =~= acc0 + Seq::new(
                    j as nat + 1,
                    |jj: int| u32_at(bytes@, ibase + 4 * jj, le) as u16,
                ));
            }
            j += 1;
        }
        let ghost idxs = Seq::new(c as nat, |jj: int| u32_at(bytes@, ibase + 4 * jj, le) as u16);
        proof {
            assert(acc@ =~= acc0 + idxs);
            let rest = spec_faces(
                bytes@,
                ibase + 4 * (c as int) + lay.post,
                (nf - i - 1) as nat,
                *lay,
                nv as int,
                le,
            );
            assert(spec_faces(bytes@, off as int, (nf - i) as nat, *lay, nv as int, le)
                == spec_append(idxs, rest));
            match rest {
                Ok(p) => {
                    assert((acc0 + idxs) + p.0 =~= acc0 + (idxs + p.0));
                },
                Err(_) => {},
            }
        }
        off = ibase + 4 * (c as usize) + lay.post;
        i += 1;
    }
    proof {
        assert(acc@ + Seq::<u16>::empty() =~= acc@);
    }
    Ok((acc, off))
}

} // verus!

verus! {

use vstd::arithmetic::div_mod::lemma_mod_multiples_basic;

/// Clones a byte vector.
fn clone_bytes(v: &Vec<u8>) -> (r: Vec<u8>)
    ensures
        r@ == v@,
{
    let r = copy_range(v.as_slice(), 0, v.len());
    proof {
        assert(v@.subrange(0, v@.len() as int) =~= v@);
    }
    r
}

/// The position of the first line feed at or after `from`, or the end of the
/// bytes when the last line has none.
fn line_end(s: &[u8], from: usize) -> (r: usize)
    requires
        from <= s@.len(),
    ensures
        from <= r <= s@.len(),
        forall|k: int| from <= k < r ==> s@[k] != 10,
        r < s@.len() ==> s@[r as int] == 10,
        r as int == from + line_len(s@.skip(from as int)),
{
    let n = s.len();
    let mut e = from;
    while e < n
        invariant
            from <= e <= n == s@.len(),
            forall|k: int| from <= k < e ==> s@[k] != 10,
        decreases n - e,
    {
        if s[e] == 10 {
            proof {
                lemma_line_at(s@, from as int, e as int);
            }
            return e;
        }
        e += 1;
    }
    proof {
        lemma_line_at(s@, from as int, e as int);
    }
    e
}

/// Shifts `lemma_line_len_at` to a line starting at `from`.
proof fn lemma_line_at(s: Seq<u8>, from: int, e: int)
    requires
        0 <= from <= e <= s.len(),
        forall|k: int| from <= k < e ==> s[k] != 10,
        e < s.len() ==> s[e] == 10,
    ensures
        line_len(s.skip(from)) == e - from,
{
    let t = s.skip(from);
    assert forall|k: int| 0 <= k < e - from implies t[k] != 10 by {
        assert(t[k] == s[from + k]);
    }
    if e < s.len() {
        assert(t[e - from] == s[e]);
    }
    lemma_line_len_at(t, e - from);
}

/// Parses the header: the magic line, the format line, and the element and
/// property declarations, up to and including `end_header`. Returns the
/// declarations in order together with the offset where the payload begins.
/// Lines of `comment` and `obj_info` are skipped wherever they appear.
pub(crate) fn parse_header(bytes: &[u8]) -> (r: Result<(Header, usize), ParseError>)
    ensures
        match r {
            Ok(p) => spec_parse_header(bytes@) == Ok::<(HeaderV, int), ParseError>(
                (p.0@, p.1 as int),
            ),
            Err(e) => spec_parse_header(bytes@) == Err::<(HeaderV, int), ParseError>(e),
        },
        r matches Ok(p) ==> p.1 <= bytes@.len(),
{
    let n = bytes.len();
    // the magic line
    let e0 = line_end(bytes, 0);
    proof {
        assert(bytes@.skip(0) =~= bytes@);
    }
    let l0 = copy_range(bytes, 0, e0);
    let t0 = split_tokens(l0.as_slice());
    let ghost tv0 = t0@.map_values(|t: Vec<u8>| t@);
    proof {
        assert(tv0 == spec_tokens(bytes@.subrange(0, line_len(bytes@) as int)));
        if t0@.len() >= 1 {
            assert(tv0[0] == t0@[0]@);
        }
    }
    if !(t0.len() == 1 && tok_is(&t0[0], &KW_PLY)) {
        return Err(ParseError::BadMagic);
    }
    if e0 == n {
        return Err(ParseError::MissingEndHeader);
    }
    let mut off: usize = e0 + 1;
    let mut fmt: Option<Format> = None;
    let mut elements: Vec<Element> = Vec::new();
    let mut have_cur: bool = false;
    let mut cur_name: Vec<u8> = Vec::new();
    let mut cur_count: u32 = 0;
    let mut cur_props: Vec<Property> = Vec::new();
    proof {
        assert(element_views(elements@) =~= Seq::<ElementV>::empty());
    }
    while off < n
        invariant
            off <= n == bytes@.len(),
            spec_parse_header(bytes@) == spec_header_lines(
                bytes@,
                off as int,
                fmt,
                element_views(elements@),
                if have_cur {
                    Some(
                        ElementV {
                            name: cur_name@,
                            count: cur_count,
                            props: prop_views(cur_props@),
                        },
                    )
                } else {
                    None
                },
            ),
        decreases n - off,
    {
        let ghost off0 = off as int;
        let ghost fmt0 = fmt;
        let ghost els0 = element_views(elements@);
        let ghost cur0: Option<ElementV> = if have_cur {
            Some(ElementV { name: cur_name@, count: cur_count, props: prop_views(cur_props@) })
        } else {
            None
        };
        let e = line_end(bytes, off);
        let line = copy_range(bytes, off, e);
        let toks = split_tokens(line.as_slice());
        let next = if e < n {
            e + 1
        } else {
            e
        };
        let ghost tv = toks@.map_values(|t: Vec<u8>| t@);
        proof {
            assert(tv == spec_tokens(bytes@.subrange(off0, off0 + line_len(bytes@.skip(off0)))));
            if toks@.len() >= 1 {
                assert(tv[0] == toks@[0]@);
            }
            if toks@.len() >= 3 {
                assert(tv[1] == toks@[1]@);
                assert(tv[2] == toks@[2]@);
            }
            if toks@.len() >= 5 {
                assert(tv[3] == toks@[3]@);
                assert(tv[4] == toks@[4]@);
            }
        }
        if toks.len() == 0 {
            proof {
                assert(spec_header_lines(bytes@, off0, fmt0, els0, cur0) == spec_header_lines(
                    bytes@,
                    next as int,
                    fmt0,
                    els0,
                    cur0,
                ));
            }
            off = next;
        } else if tok_is(&toks[0], &KW_COMMENT) || tok_is(&toks[0], &KW_OBJ_INFO) {
            proof {
                assert(spec_header_lines(bytes@, off0, fmt0, els0, cur0) == spec_header_lines(
                    bytes@,
                    next as int,
                    fmt0,
                    els0,
                    cur0,
                ));
            }
            off = next;
        } else if tok_is(&toks[0], &KW_FORMAT) {
            if fmt.is_some() || toks.len() != 3 || !tok_is(&toks[2], &KW_V10) {
                return Err(ParseError::BadFormatLine);
            }
            if tok_is(&toks[1], &KW_ASCII) {
                fmt = Some(Format::Ascii);
            } else if tok_is(&toks[1], &KW_BLE) {
                fmt = Some(Format::BinaryLittleEndian);
            } else if tok_is(&toks[1], &KW_BBE) {
                fmt = Some(Format::BinaryBigEndian);
            } else {
                return Err(ParseError::BadFormatLine);
            }
            proof {
                assert(spec_header_lines(bytes@, off0, fmt0, els0, cur0) == spec_header_lines(
                    bytes@,
                    next as int,
                    fmt,
                    els0,
                    cur0,
                ));
            }
            off = next;
        } else if tok_is(&toks[0], &KW_ELEMENT) {
            if toks.len() != 3 {
                return Err(ParseError::BadHeaderLine);
            }
            let count = match parse_u32(toks[2].as_slice()) {
                Some(c) => c,
                None => {
                    return Err(ParseError::BadCount);
                },
            };
            if have_cur {
                let done = Element { name: cur_name, count: cur_count, props: cur_props };
                proof {
                    assert(done@ == cur0.unwrap());
                }
                let ghost els_before = elements@;
                elements.push(done);
                proof {
                    assert(element_views(elements@) =~= element_views(els_before).push(
                        cur0.unwrap(),
                    ));
                }
            }
            cur_name = clone_bytes(&toks[1]);
            cur_count = count;
            cur_props = Vec::new();
            have_cur = true;
            proof {
                assert(prop_views(cur_props@) =~= Seq::<PropertyV>::empty());
                assert(spec_header_lines(bytes@, off0, fmt0, els0, cur0) == spec_header_lines(
                    bytes@,
                    next as int,
                    fmt0,
                    element_views(elements@),
                    Some(
                        ElementV {
                            name: cur_name@,
                            count: cur_count,
                            props: prop_views(cur_props@),
                        },
                    ),
                ));
            }
            off = next;
        } else if tok_is(&toks[0], &KW_PROPERTY) {
            if !have_cur {
                return Err(ParseError::BadHeaderLine);
            }
            if toks.len() == 3 {
                let st = match scalar_type_of(&toks[1]) {
                    Some(st) => st,
                    None => {
                        return Err(ParseError::BadHeaderLine);
                    },
                };
                let name = clone_bytes(&toks[2]);
                let ghost props_before = prop_views(cur_props@);
                cur_props.push(Property { name, ty: PropType::Scalar(st) });
                proof {
                    assert(prop_views(cur_props@) =~= props_before.push(
                        PropertyV { name: tv[2], ty: PropType::Scalar(st) },
                    ));
                }
            } else if toks.len() == 5 && tok_is(&toks[1], &KW_LIST) {
                let ct = match scalar_type_of(&toks[2]) {
                    Some(st) => st,
                    None => {
                        return Err(ParseError::BadHeaderLine);
                    },
                };
                let it = match scalar_type_of(&toks[3]) {
                    Some(st) => st,
                    None => {
                        return Err(ParseError::BadHeaderLine);
                    },
                };
                let name = clone_bytes(&toks[4]);
                let ghost props_before = prop_views(cur_props@);
                cur_props.push(Property { name, ty: PropType::List(ct, it) });
                proof {
                    assert(prop_views(cur_props@) =~= props_before.push(
                        PropertyV { name: tv[4], ty: PropType::List(ct, it) },
                    ));
                }
            } else {
                return Err(ParseError::BadHeaderLine);
            }
            proof {
                assert(spec_header_lines(bytes@, off0, fmt0, els0, cur0) == spec_header_lines(
                    bytes@,
                    next as int,
                    fmt0,
                    els0,
                    Some(
                        ElementV {
                            name: cur_name@,
                            count: cur_count,
                            props: prop_views(cur_props@),
                        },
                    ),
                ));
            }
            off = next;
        } else if tok_is(&toks[0], &KW_END_HEADER) {
            if have_cur {
                let done = Element { name: cur_name, count: cur_count, props: cur_props };
                proof {
                    assert(done@ == cur0.unwrap());
                }
                let ghost els_before = elements@;
                elements.push(done);
                proof {
                    assert(element_views(elements@) =~= element_views(els_before).push(
                        cur0.unwrap(),
                    ));
                }
            }
            let format = match fmt {
                Some(f) => f,
                None => {
                    return Err(ParseError::BadFormatLine);
                },
            };
            proof {
                assert(spec_header_lines(bytes@, off0, fmt0, els0, cur0) == Ok::<
                    (HeaderV, int),
                    ParseError,
                >((HeaderV { format, elements: element_views(elements@) }, next as int)));
            }
            return Ok((Header { format, elements }, next));
        } else {
            return Err(ParseError::BadHeaderLine);
        }
    }
    Err(ParseError::MissingEndHeader)
}

/// The total width of one record of an element that holds only scalars; an
/// element with a list property has no fixed width.
fn element_stride(props: &Vec<Property>) -> (r: Result<usize, ParseError>)
    ensures
        r == spec_element_stride(prop_views(props@)),
        r matches Ok(st) ==> st <= 0x1000_0010,
{
    let mut stride: usize = 0;
    let mut i: usize = 0;
    proof {
        assert(prop_views(props@).skip(0) =~= prop_views(props@));
    }
    while i < props.len()
        invariant
            i <= props@.len(),
            spec_element_stride(prop_views(props@)) == spec_element_stride_walk(
                prop_views(props@).skip(i as int),
                stride,
            ),
            stride <= 0x1000_0010,
        decreases props@.len() - i,
    {
        let ghost pv = prop_views(props@).skip(i as int);
        let ghost stride0 = stride;
        proof {
            assert(pv.len() == props@.len() - i);
            assert(prop_views(props@)[i as int] == props@[i as int]@);
            assert(pv[0] == props@[i as int]@);
        }
        if stride > 0x1000_0008 {
            return Err(ParseError::UnsupportedSchema);
        }
        match props[i].ty {
            PropType::Scalar(st) => {
                stride = stride + st.size();
            },
            PropType::List(_, _) => {
                return Err(ParseError::UnsupportedSchema);
            },
        }
        proof {
            assert(pv.drop_first() =~= prop_views(props@).skip(i as int + 1));
            assert(spec_element_stride_walk(pv, stride0) == spec_element_stride_walk(
                prop_views(props@).skip(i as int + 1),
                stride,
            ));
        }
        i += 1;
    }
    proof {
        assert(prop_views(props@).skip(i as int).len() == 0);
    }
    Ok(stride)
}

/// A triangle mesh read from a document: three parallel per-vertex attribute
/// arrays, flattened by component, and a flat triangle index list. Position
/// and normal components are single-precision bit patterns; colors are the
/// channel bytes normalized into the unit interval, also as bit patterns.
#[derive(PartialEq, Eq, Debug)]
pub struct PlyMesh {
    pub vertices: Vec<u32>,
    pub normals: Vec<u32>,
    pub colors: Vec<u32>,
    pub indices: Vec<u16>,
}

impl PlyMesh {
    /// The mesh invariant: the three attribute arrays pair up triple for
    /// triple, and every face index names a vertex that exists.
    pub open spec fn wf(&self) -> bool {
        &&& self.vertices@.len() % 3 == 0
        &&& self.normals@.len() == self.vertices@.len()
        &&& self.colors@.len() == self.vertices@.len()
        &&& forall|i: int|
            0 <= i < self.indices@.len() ==> 3 * ((#[trigger] self.indices@[i]) as int)
                < self.vertices@.len()
    }

    /// Parses a whole document: header, then every element's payload records
    /// in declaration order. The first `vertex` element fills the attribute
    /// arrays; the first `face` element fills the index list; any other
    /// all-scalar element is skipped by its width. A document without a
    /// `vertex` or `face` element is rejected, as is one whose payload is
    /// short, whose required properties are missing or retyped, or whose
    /// face indices do not name existing vertices — so a parsed mesh always
    /// carries its invariant.
    pub fn parse(bytes: &[u8]) -> (r: Result<PlyMesh, ParseError>)
        ensures
            match r {
                Ok(m) => spec_parse_mesh(bytes@) == Ok::<MeshV, ParseError>(
                    MeshV {
                        vertices: m.vertices@,
                        normals: m.normals@,
                        colors: m.colors@,
                        indices: m.indices@,
                    },
                ),
                Err(e) => spec_parse_mesh(bytes@) == Err::<MeshV, ParseError>(e),
            },
            r matches Ok(m) ==> m.wf(),
    {
        let n = bytes.len();
        let (header, start) = match parse_header(bytes) {
            Ok(p) => p,
            Err(e) => {
                return Err(e);
            },
        };
        let le = match header.format {
            Format::BinaryLittleEndian => true,
            Format::BinaryBigEndian => false,
            Format::Ascii => {
                return Err(ParseError::AsciiPayload);
            },
        };
        let ghost els = element_views(header.elements@);
        let mut off: usize = start;
        let mut vdata: Option<(Vec<u32>, Vec<u32>, Vec<u32>)> = None;
        let mut nv: u32 = 0;
        let mut indices: Option<Vec<u16>> = None;
        let mut ei: usize = 0;
        proof {
            assert(els.skip(0) =~= els);
        }
        while ei < header.elements.len()
            invariant
                ei <= header.elements@.len(),
                off <= n == bytes@.len(),
                els == element_views(header.elements@),
                spec_parse_mesh(bytes@) == spec_element_walk(
                    bytes@,
                    els.skip(ei as int),
                    off as int,
                    le,
                    vdata_view(vdata),
                    nv,
                    idx_view(indices),
                ),
                vdata matches Some(t) ==> t.0@.len() == 3 * (nv as int) && t.1@.len() == 3 * (
                nv as int) && t.2@.len() == 3 * (nv as int),
                indices matches Some(v) ==> (vdata is Some && forall|t: int|
                    0 <= t < v@.len() ==> ((#[trigger] v@[t]) as int) < nv),
            decreases header.elements@.len() - ei,
        {
            let ghost off0 = off as int;
            let ghost vd0 = vdata_view(vdata);
            let ghost id0 = idx_view(indices);
            let ghost tail = els.skip(ei as int);
            let el = &header.elements[ei];
            proof {
                assert(els[ei as int] == header.elements@[ei as int]@);
                assert(tail[0] == els[ei as int]);
                assert(tail.drop_first() =~= els.skip(ei as int + 1));
                assert(tail.len() == els.len() - ei);
                assert(tail[0].props == prop_views(el.props@));
            }
            if tok_is(&el.name, &KW_VERTEX) && vdata.is_none() {
                let lay = match vertex_layout(&el.props) {
                    Ok(l) => l,
                    Err(e) => {
                        proof {
                            assert(spec_element_walk(bytes@, tail, off0, le, vd0, nv, id0)
                                == Err::<MeshV, ParseError>(e));
                        }
                        return Err(e);
                    },
                };
                match decode_vertices(bytes, off, el.count, &lay, le) {
                    Ok(t) => {
                        proof {
                            assert(spec_element_walk(bytes@, tail, off0, le, vd0, nv, id0)
                                == spec_element_walk(
                                bytes@,
                                els.skip(ei as int + 1),
                                off0 + (el.count as int) * lay.stride,
                                le,
                                Some((t.0@, t.1@, t.2@)),
                                el.count,
                                id0,
                            ));
                        }
                        nv = el.count;
                        vdata = Some(t);
                        off = off + (el.count as usize) * lay.stride;
                    },
                    Err(e) => {
                        proof {
                            assert(spec_element_walk(bytes@, tail, off0, le, vd0, nv, id0)
                                == Err::<MeshV, ParseError>(e));
                        }
                        return Err(e);
                    },
                }
            } else if tok_is(&el.name, &KW_FACE) && indices.is_none() {
                if vdata.is_none() {
                    // indices cannot be checked before the vertices are known
                    proof {
                        assert(spec_element_walk(bytes@, tail, off0, le, vd0, nv, id0)
                            == Err::<MeshV, ParseError>(ParseError::UnsupportedSchema));
                    }
                    return Err(ParseError::UnsupportedSchema);
                }
                let flay = match face_layout(&el.props) {
                    Ok(l) => l,
                    Err(e) => {
                        proof {
                            assert(spec_element_walk(bytes@, tail, off0, le, vd0, nv, id0)
                                == Err::<MeshV, ParseError>(e));
                        }
                        return Err(e);
                    },
                };
                match decode_faces(bytes, off, el.count, &flay, nv, le) {
                    Ok(p) => {
                        proof {
                            assert(spec_element_walk(bytes@, tail, off0, le, vd0, nv, id0)
                                == spec_element_walk(
                                bytes@,
                                els.skip(ei as int + 1),
                                p.1 as int,
                                le,
                                vd0,
                                nv,
                                Some(p.0@),
                            ));
                        }
                        indices = Some(p.0);
                        off = p.1;
                    },
                    Err(e) => {
                        proof {
                            assert(spec_element_walk(bytes@, tail, off0, le, vd0, nv, id0)
                                == Err::<MeshV, ParseError>(e));
                        }
                        return Err(e);
                    },
                }
            } else {
                let stride = match element_stride(&el.props) {
                    Ok(s) => s,
                    Err(e) => {
                        proof {
                            assert(spec_element_walk(bytes@, tail, off0, le, vd0, nv, id0)
                                == Err::<MeshV, ParseError>(e));
                        }
                        return Err(e);
                    },
                };
                proof {
                    lemma_mul_upper_bound(el.count as int, 0xFFFF_FFFF, stride as int, 0x1000_0010);
                }
                let need: u64 = (el.count as u64) * (stride as u64);
                if need > ((n - off) as u64) {
                    proof {
                        assert(spec_element_walk(bytes@, tail, off0, le, vd0, nv, id0)
                            == Err::<MeshV, ParseError>(ParseError::TruncatedPayload));
                    }
                    return Err(ParseError::TruncatedPayload);
                }
                proof {
                    assert(spec_element_walk(bytes@, tail, off0, le, vd0, nv, id0)
                        == spec_element_walk(
                        bytes@,
                        els.skip(ei as int + 1),
                        off0 + (el.count as int) * stride,
                        le,
                        vd0,
                        nv,
                        id0,
                    ));
                }
                off = off + (el.count as usize) * stride;
            }
            ei += 1;
        }
        proof {
            assert(els.len() == header.elements@.len());
            assert(els.skip(ei as int).len() == 0);
        }
        match (vdata, indices) {
            (Some(t), Some(idx)) => {
                proof {
                    lemma_mod_multiples_basic(nv as int, 3);
                }
                Ok(PlyMesh { vertices: t.0, normals: t.1, colors: t.2, indices: idx })
            },
            (None, _) => Err(ParseError::MissingVertexElement),
            (_, None) => Err(ParseError::MissingFaceElement),
        }
    }
}

} // verus!

verus! {

// --- text payloads ---------------------------------------------------------------
// A text payload is one whitespace-separated token stream; records follow each
// other in it without any fixed byte width. Coordinate tokens are decimal
// float literals, which only the host's float parser can turn into bit
// patterns, so the text path splits in two: a verified decode that checks the
// stream's shape, extracts the integer fields exactly and captures the
// coordinate tokens, and `PlyMesh::from_ascii`, which merges in the bit
// patterns the host decoded from those tokens.

/// Positions, within one text vertex record's run of tokens, of the nine kept
/// fields; `nprops` tokens make up one record.
#[derive(Clone, Copy, Debug)]
pub struct TokenLayout {
    pub nprops: usize,
    pub x: usize,
    pub y: usize,
    pub z: usize,
    pub nx: usize,
    pub ny: usize,
    pub nz: usize,
    pub red: usize,
    pub green: usize,
    pub blue: usize,
}

impl TokenLayout {
    pub open spec fn wf(self) -> bool {
        &&& self.x < self.nprops
        &&& self.y < self.nprops
        &&& self.z < self.nprops
        &&& self.nx < self.nprops
        &&& self.ny < self.nprops
        &&& self.nz < self.nprops
        &&& self.red < self.nprops
        &&& self.green < self.nprops
        &&& self.blue < self.nprops
        &&& self.nprops <= 0x1000_0000
    }
}

/// The token positions of a text vertex element's fields: one token per
/// scalar property, with the same type requirements as the binary layout.
#[verifier::rlimit(80)]
pub fn ascii_vertex_layout(props: &Vec<Property>) -> (r: Result<TokenLayout, ParseError>)
    ensures
        r == spec_ascii_vertex_layout(prop_views(props@)),
        r matches Ok(l) ==> l.wf(),
{
    let mut off: usize = 0;
    let mut x: Option<usize> = None;
    let mut y: Option<usize> = None;
    let mut z: Option<usize> = None;
    let mut nx: Option<usize> = None;
    let mut ny: Option<usize> = None;
    let mut nz: Option<usize> = None;
    let mut red: Option<usize> = None;
    let mut green: Option<usize> = None;
    let mut blue: Option<usize> = None;
    let mut i: usize = 0;
    proof {
        assert(prop_views(props@).skip(0) =~= prop_views(props@));
    }
    while i < props.len()
        invariant
            i <= props@.len(),
            spec_ascii_vertex_layout(prop_views(props@)) == spec_ascii_vertex_layout_walk(
                prop_views(props@).skip(i as int),
                off,
                x,
                y,
                z,
                nx,
                ny,
                nz,
                red,
                green,
                blue,
            ),
            off <= 0x1000_0000,
            x matches Some(o) ==> o < off,
            y matches Some(o) ==> o < off,
            z matches Some(o) ==> o < off,
            nx matches Some(o) ==> o < off,
            ny matches Some(o) ==> o < off,
            nz matches Some(o) ==> o < off,
            red matches Some(o) ==> o < off,
            green matches Some(o) ==> o < off,
            blue matches Some(o) ==> o < off,
        decreases props@.len() - i,
    {
        let ghost pv = prop_views(props@).skip(i as int);
        let ghost off0 = off;
        let ghost x0 = x;
        let ghost y0 = y;
        let ghost z0 = z;
        let ghost nx0 = nx;
        let ghost ny0 = ny;
        let ghost nz0 = nz;
        let ghost red0 = red;
        let ghost green0 = green;
        let ghost blue0 = blue;
        proof {
            assert(pv.len() == props@.len() - i);
            assert(prop_views(props@)[i as int] == props@[i as int]@);
            assert(pv[0] == props@[i as int]@);
        }
        if off >= 0x1000_0000 {
            return Err(ParseError::UnsupportedSchema);
        }
        let p = &props[i];
        match p.ty {
            PropType::List(_, _) => {
                return Err(ParseError::UnsupportedSchema);
            },
            PropType::Scalar(st) => {
                let is_float = matches!(st, ScalarType::Float);
                let is_uchar = matches!(st, ScalarType::UChar);
                if tok_is(&p.name, &KW_X) {
                    if !is_float {
                        return Err(ParseError::AttributeTypeMismatch);
                    }
                    if x.is_some() {
                        return Err(ParseError::BadHeaderLine);
                    }
                    x = Some(off);
                } else if tok_is(&p.name, &KW_Y) {
                    if !is_float {
                        return Err(ParseError::AttributeTypeMismatch);
                    }
                    if y.is_some() {
                        return Err(ParseError::BadHeaderLine);
                    }
                    y = Some(off);
                } else if tok_is(&p.name, &KW_Z) {
                    if !is_float {
                        return Err(ParseError::AttributeTypeMismatch);
                    }
                    if z.is_some() {
                        return Err(ParseError::BadHeaderLine);
                    }
                    z = Some(off);
                } else if tok_is(&p.name, &KW_NX) {
                    if !is_float {
                        return Err(ParseError::AttributeTypeMismatch);
                    }
                    if nx.is_some() {
                        return Err(ParseError::BadHeaderLine);
                    }
                    nx = Some(off);
                } else if tok_is(&p.name, &KW_NY) {
                    if !is_float {
                        return Err(ParseError::AttributeTypeMismatch);
                    }
                    if ny.is_some() {
                        return Err(ParseError::BadHeaderLine);
                    }
                    ny = Some(off);
                } else if tok_is(&p.name, &KW_NZ) {
                    if !is_float {
                        return Err(ParseError::AttributeTypeMismatch);
                    }
                    if nz.is_some() {
                        return Err(ParseError::BadHeaderLine);
                    }
                    nz = Some(off);
                } else if tok_is(&p.name, &KW_RED) {
                    if !is_uchar {
                        return Err(ParseError::AttributeTypeMismatch);
                    }
                    if red.is_some() {
                        return Err(ParseError::BadHeaderLine);
                    }
                    red = Some(off);
                } else if tok_is(&p.name, &KW_GREEN) {
                    if !is_uchar {
                        return Err(ParseError::AttributeTypeMismatch);
                    }
                    if green.is_some() {
                        return Err(ParseError::BadHeaderLine);
                    }
                    green = Some(off);
                } else if tok_is(&p.name, &KW_BLUE) {
                    if !is_uchar {
                        return Err(ParseError::AttributeTypeMismatch);
                    }
                    if blue.is_some() {
                        return Err(ParseError::BadHeaderLine);
                    }
                    blue = Some(off);
                }
                off = off + 1;
            },
        }
        proof {
            assert(pv.drop_first() =~= prop_views(props@).skip(i as int + 1));
            assert(spec_ascii_vertex_layout_walk(
                pv,
                off0,
                x0,
                y0,
                z0,
                nx0,
                ny0,
                nz0,
                red0,
                green0,
                blue0,
            ) == spec_ascii_vertex_layout_walk(
                prop_views(props@).skip(i as int + 1),
                off,
                x,
                y,
                z,
                nx,
                ny,
                nz,
                red,
                green,
                blue,
            ));
        }
        i += 1;
    }
    proof {
        assert(prop_views(props@).skip(i as int).len() == 0);
    }
    match (x, y, z, nx, ny, nz, red, green, blue) {
        (
            Some(x),
            Some(y),
            Some(z),
            Some(nx),
            Some(ny),
            Some(nz),
            Some(red),
            Some(green),
            Some(blue),
        ) => Ok(
            TokenLayout { nprops: off, x, y, z, nx, ny, nz, red, green, blue },
        ),
        _ => Err(ParseError::AttributeTypeMismatch),
    }
}

/// The value of a text color channel token: a decimal number up to 255.
pub open spec fn spec_ascii_channel(t: Seq<u8>) -> Option<u8> {
    match spec_parse_u32(t) {
        Some(v) => if v <= 255 {
            Some(v as u8)
        } else {
            None
        },
        None => None,
    }
}

/// Record `i` of a text vertex element was extracted faithfully: the six
/// coordinate tokens were captured verbatim and the three channel tokens
/// parsed and normalized.
pub open spec fn ascii_vertex_record_ok(
    tv: Seq<Seq<u8>>,
    ro: int,
    lay: TokenLayout,
    pt: Seq<Seq<u8>>,
    nt: Seq<Seq<u8>>,
    col: Seq<u32>,
    i: int,
) -> bool {
    &&& pt[3 * i] == tv[ro + lay.x]
    &&& pt[3 * i + 1] == tv[ro + lay.y]
    &&& pt[3 * i + 2] == tv[ro + lay.z]
    &&& nt[3 * i] == tv[ro + lay.nx]
    &&& nt[3 * i + 1] == tv[ro + lay.ny]
    &&& nt[3 * i + 2] == tv[ro + lay.nz]
    &&& spec_ascii_channel(tv[ro + lay.red]) is Some
    &&& spec_ascii_channel(tv[ro + lay.green]) is Some
    &&& spec_ascii_channel(tv[ro + lay.blue]) is Some
    &&& col[3 * i] == spec_unorm(spec_ascii_channel(tv[ro + lay.red]).unwrap())
    &&& col[3 * i + 1] == spec_unorm(spec_ascii_channel(tv[ro + lay.green]).unwrap())
    &&& col[3 * i + 2] == spec_unorm(spec_ascii_channel(tv[ro + lay.blue]).unwrap())
}

/// `ascii_vertex_record_ok` over the views of the token vectors; a form whose
/// application can serve as a quantifier trigger.
pub open spec fn ascii_vertex_record_of(
    toks: Seq<Vec<u8>>,
    ro: int,
    lay: TokenLayout,
    pt: Seq<Vec<u8>>,
    nt: Seq<Vec<u8>>,
    col: Seq<u32>,
    i: int,
) -> bool {
    ascii_vertex_record_ok(
        toks.map_values(|t: Vec<u8>| t@),
        ro,
        lay,
        pt.map_values(|t: Vec<u8>| t@),
        nt.map_values(|t: Vec<u8>| t@),
        col,
        i,
    )
}

/// Decodes the `nv` text vertex records that start at token `tbase`: captures
/// the coordinate tokens verbatim (the host decodes them to bit patterns
/// later) and parses and normalizes the color channels.
#[verifier::rlimit(60)]
pub fn decode_ascii_vertices(
    toks: &Vec<Vec<u8>>,
    tbase: usize,
    nv: u32,
    lay: &TokenLayout,
) -> (r: Result<(Vec<Vec<u8>>, Vec<Vec<u8>>, Vec<u32>), ParseError>)
    requires
        lay.wf(),
        tbase <= toks@.len(),
    ensures
        match r {
            Ok(out) => {
                &&& tbase + nv * lay.nprops <= toks@.len()
                &&& spec_ascii_vertex_data(
                    toks@.map_values(|t: Vec<u8>| t@),
                    tbase as int,
                    nv as int,
                    *lay,
                ) == Ok::<(Seq<Seq<u8>>, Seq<Seq<u8>>, Seq<u32>), ParseError>(
                    (
                        out.0@.map_values(|t: Vec<u8>| t@),
                        out.1@.map_values(|t: Vec<u8>| t@),
                        out.2@,
                    ),
                )
                &&& out.0@.len() == 3 * nv
                &&& out.1@.len() == 3 * nv
                &&& out.2@.len() == 3 * nv
                &&& forall|i: int|
                    0 <= i < nv ==> #[trigger] ascii_vertex_record_of(
                        toks@,
                        tbase + i * lay.nprops,
                        *lay,
                        out.0@,
                        out.1@,
                        out.2@,
                        i,
                    )
            },
            Err(e) => spec_ascii_vertex_data(
                toks@.map_values(|t: Vec<u8>| t@),
                tbase as int,
                nv as int,
                *lay,
            ) == Err::<(Seq<Seq<u8>>, Seq<Seq<u8>>, Seq<u32>), ParseError>(e),
        },
{
    let n: usize = toks.len();
    let nprops: usize = lay.nprops;
    proof {
        lemma_mul_upper_bound(nv as int, 0xFFFF_FFFF, nprops as int, 0x1000_0000);
    }
    let ghost tv = toks@.map_values(|t: Vec<u8>| t@);
    proof {
        assert(tv.len() == toks@.len());
    }
    let need: u64 = (nv as u64) * (nprops as u64);
    if need > ((n - tbase) as u64) {
        return Err(ParseError::TruncatedPayload);
    }
    let mut pt: Vec<Vec<u8>> = Vec::new();
    let mut nt: Vec<Vec<u8>> = Vec::new();
    let mut col: Vec<u32> = Vec::new();
    let mut i: usize = 0;
    while i < nv as usize
        invariant
            i <= nv,
            n == toks@.len(),
            nprops == lay.nprops,
            lay.wf(),
            tbase + (nv as int) * (nprops as int) <= n,
            tv == toks@.map_values(|t: Vec<u8>| t@),
            pt@.len() == 3 * i,
            nt@.len() == 3 * i,
            col@.len() == 3 * i,
            forall|k: int|
                0 <= k < i ==> #[trigger] ascii_vertex_record_of(
                    toks@,
                    tbase + k * (nprops as int),
                    *lay,
                    pt@,
                    nt@,
                    col@,
                    k,
                ),
        decreases nv - i,
    {
        proof {
            lemma_mul_inequality(i as int, nv as int, nprops as int);
            lemma_mul_inequality(i as int + 1, nv as int, nprops as int);
            lemma_mul_is_commutative(i as int, nprops as int);
            lemma_mul_is_commutative(i as int + 1, nprops as int);
            lemma_mul_is_commutative(nv as int, nprops as int);
            lemma_mul_is_distributive_add(nprops as int, i as int, 1);
        }
        let ro: usize = tbase + i * nprops;
        assert(ro + nprops <= n);
        let px = clone_bytes(&toks[ro + lay.x]);
        let py = clone_bytes(&toks[ro + lay.y]);
        let pz = clone_bytes(&toks[ro + lay.z]);
        let qx = clone_bytes(&toks[ro + lay.nx]);
        let qy = clone_bytes(&toks[ro + lay.ny]);
        let qz = clone_bytes(&toks[ro + lay.nz]);
        let ghost ro0 = ro as int;
        proof {
            assert(tv[ro0 + lay.red] == toks@[ro0 + lay.red]@);
            assert(tv[ro0 + lay.green] == toks@[ro0 + lay.green]@);
            assert(tv[ro0 + lay.blue] == toks@[ro0 + lay.blue]@);
        }
        let cr = match ascii_channel(&toks[ro + lay.red]) {
            Some(b) => b,
            None => {
                proof {
                    assert(!ascii_channels_ok(tv, tbase + (i as int) * (nprops as int), *lay));
                    assert(spec_ascii_vertex_data(tv, tbase as int, nv as int, *lay) == Err::<
                        (Seq<Seq<u8>>, Seq<Seq<u8>>, Seq<u32>),
                        ParseError,
                    >(ParseError::BadCount));
                }
                return Err(ParseError::BadCount);
            },
        };
        let cg = match ascii_channel(&toks[ro + lay.green]) {
            Some(b) => b,
            None => {
                proof {
                    assert(!ascii_channels_ok(tv, tbase + (i as int) * (nprops as int), *lay));
                    assert(spec_ascii_vertex_data(tv, tbase as int, nv as int, *lay) == Err::<
                        (Seq<Seq<u8>>, Seq<Seq<u8>>, Seq<u32>),
                        ParseError,
                    >(ParseError::BadCount));
                }
                return Err(ParseError::BadCount);
            },
        };
        let cb = match ascii_channel(&toks[ro + lay.blue]) {
            Some(b) => b,
            None => {
                proof {
                    assert(!ascii_channels_ok(tv, tbase + (i as int) * (nprops as int), *lay));
                    assert(spec_ascii_vertex_data(tv, tbase as int, nv as int, *lay) == Err::<
                        (Seq<Seq<u8>>, Seq<Seq<u8>>, Seq<u32>),
                        ParseError,
                    >(ParseError::BadCount));
                }
                return Err(ParseError::BadCount);
            },
        };
        let ghost old_pt = pt@;
        let ghost old_nt = nt@;
        let ghost pt0 = pt@.map_values(|t: Vec<u8>| t@);
        let ghost nt0 = nt@.map_values(|t: Vec<u8>| t@);
        let ghost col0 = col@;
        let ghost pxv = px@;
        let ghost pyv = py@;
        let ghost pzv = pz@;
        let ghost qxv = qx@;
        let ghost qyv = qy@;
        let ghost qzv = qz@;
        pt.push(px);
        pt.push(py);
        pt.push(pz);
        nt.push(qx);
        nt.push(qy);
        nt.push(qz);
        col.push(unorm(cr));
        col.push(unorm(cg));
        col.push(unorm(cb));
        proof {
            assert(pt@.map_values(|t: Vec<u8>| t@) =~= pt0 + seq![pxv, pyv, pzv]);
            assert(nt@.map_values(|t: Vec<u8>| t@) =~= nt0 + seq![qxv, qyv, qzv]);
            assert(col@ =~= col0 + seq![spec_unorm(cr), spec_unorm(cg), spec_unorm(cb)]);
            assert forall|k: int|
                0 <= k < i + 1 implies #[trigger] ascii_vertex_record_of(
                toks@,
                tbase + k * (nprops as int),
                *lay,
                pt@,
                nt@,
                col@,
                k,
            ) by {
                if k < i {
                    assert(ascii_vertex_record_of(
                        toks@,
                        tbase + k * (nprops as int),
                        *lay,
                        old_pt,
                        old_nt,
                        col0,
                        k,
                    ));
                    assert(3 * k + 2 < pt0.len());
                } else {
                    assert(tv[ro + lay.x] == pxv);
                    assert(tv[ro + lay.y] == pyv);
                    assert(tv[ro + lay.z] == pzv);
                    assert(tv[ro + lay.nx] == qxv);
                    assert(tv[ro + lay.ny] == qyv);
                    assert(tv[ro + lay.nz] == qzv);
                }
            }
        }
        i += 1;
    }
    proof {
        lemma_mul_is_commutative(nv as int, nprops as int);
        let ptm = pt@.map_values(|t: Vec<u8>| t@);
        let ntm = nt@.map_values(|t: Vec<u8>| t@);
        assert forall|ii: int|
            0 <= ii < nv implies #[trigger] ascii_channels_ok(
            tv,
            tbase + ii * (nprops as int),
            *lay,
        ) by {
            assert(ascii_vertex_record_of(toks@, tbase + ii * (nprops as int), *lay, pt@, nt@, col@, ii));
        }
        assert forall|k: int|
            0 <= k < 3 * (nv as int) implies ptm[k] == spec_position_tokens(
            tv,
            tbase as int,
            nv as int,
            *lay,
        )[k] && ntm[k] == spec_normal_tokens(tv, tbase as int, nv as int, *lay)[k] && col@[k]
            == spec_ascii_color_values(tv, tbase as int, nv as int, *lay)[k] by {
            let vi = k / 3;
            let vr = k % 3;
            lemma_fundamental_div_mod(k, 3);
            lemma_mod_bound(k, 3);
            assert(0 <= vi < nv);
            assert(ascii_vertex_record_of(
                toks@,
                tbase + vi * (nprops as int),
                *lay,
                pt@,
                nt@,
                col@,
                vi,
            ));
        }
        assert forall|k: int|
            0 <= k < 3 * (nv as int) implies col@[k] == spec_ascii_color_values(
            tv,
            tbase as int,
            nv as int,
            *lay,
        )[k] by {
            let vi = k / 3;
            lemma_fundamental_div_mod(k, 3);
            lemma_mod_bound(k, 3);
            assert(0 <= vi < nv);
            assert(ascii_vertex_record_of(
                toks@,
                tbase + vi * (nprops as int),
                *lay,
                pt@,
                nt@,
                col@,
                vi,
            ));
        }
        assert(ptm =~= spec_position_tokens(tv, tbase as int, nv as int, *lay));
        assert(ntm =~= spec_normal_tokens(tv, tbase as int, nv as int, *lay));
        assert(col@ =~= spec_ascii_color_values(tv, tbase as int, nv as int, *lay));
    }
    Ok((pt, nt, col))
}

/// Reads a text color channel: a decimal number up to 255.
fn ascii_channel(t: &Vec<u8>) -> (r: Option<u8>)
    ensures
        r == spec_ascii_channel(t@),
{
    match parse_u32(t.as_slice()) {
        Some(v) => if v <= 255 {
            Some(v as u8)
        } else {
            None
        },
        None => None,
    }
}

/// The value of a text face index token: a decimal number that names an
/// existing vertex within the 16-bit draw range.
pub open spec fn spec_ascii_index(t: Seq<u8>, nv: int) -> Option<u16> {
    match spec_parse_u32(t) {
        Some(v) => if v < nv && v <= 0xFFFF {
            Some(v as u16)
        } else {
            None
        },
        None => None,
    }
}

/// The meaning of `k` text face records starting at token `ti`: each record
/// is `pre` skipped tokens, a list length, that many index tokens, and `post`
/// skipped tokens, flattening in order into one sequence.
pub open spec fn spec_ascii_faces(
    tv: Seq<Seq<u8>>,
    ti: int,
    k: nat,
    pre: int,
    post: int,
    nv: int,
) -> Result<(Seq<u16>, int), ParseError>
    decreases k,
{
    if k == 0 {
        Ok((seq![], ti))
    } else {
        let coff = ti + pre;
        if coff + 1 > tv.len() {
            Err(ParseError::TruncatedPayload)
        } else {
            match spec_parse_u32(tv[coff]) {
                None => Err(ParseError::BadCount),
                Some(c) => {
                    let ibase = coff + 1;
                    if ibase + c + post > tv.len() {
                        Err(ParseError::TruncatedPayload)
                    } else if exists|j: int|
                        0 <= j < c && (#[trigger] spec_ascii_index(tv[ibase + j], nv)) is None {
                        Err(ParseError::IndexOutOfRange)
                    } else {
                        let idxs = Seq::new(c as nat, |j: int| spec_ascii_index(tv[ibase + j], nv).unwrap());
                        spec_append(idxs, spec_ascii_faces(tv, ibase + c + post, (k - 1) as nat, pre, post, nv))
                    }
                },
            }
        }
    }
}

/// Decodes the `nf` text face records that start at token `ti0`, flattening
/// every record's index list in order; the result is exactly what
/// `spec_ascii_faces` assigns to the token stream, and every returned index
/// is below `nv`.
#[verifier::rlimit(60)]
pub fn decode_ascii_faces(
    toks: &Vec<Vec<u8>>,
    ti0: usize,
    nf: u32,
    pre: usize,
    post: usize,
    nv: u32,
) -> (r: Result<(Vec<u16>, usize), ParseError>)
    requires
        ti0 <= toks@.len(),
        pre <= 0x1000_0000,
        post <= 0x1000_0000,
    ensures
        match r {
            Ok(p) => {
                &&& spec_ascii_faces(
                    toks@.map_values(|t: Vec<u8>| t@),
                    ti0 as int,
                    nf as nat,
                    pre as int,
                    post as int,
                    nv as int,
                ) == Ok::<(Seq<u16>, int), ParseError>((p.0@, p.1 as int))
                &&& p.1 <= toks@.len()
                &&& forall|t: int| 0 <= t < p.0@.len() ==> (p.0@[t] as int) < nv
            },
            Err(e) => spec_ascii_faces(
                toks@.map_values(|t: Vec<u8>| t@),
                ti0 as int,
                nf as nat,
                pre as int,
                post as int,
                nv as int,
            ) == Err::<(Seq<u16>, int), ParseError>(e),
        },
{
    let n: usize = toks.len();
    let ghost tv = toks@.map_values(|t: Vec<u8>| t@);
    let mut acc: Vec<u16> = Vec::new();
    let mut ti: usize = ti0;
    let mut i: u32 = 0;
    proof {
        let r0 = spec_ascii_faces(tv, ti0 as int, nf as nat, pre as int, post as int, nv as int);
        match r0 {
            Ok(p) => {
                assert(Seq::<u16>::empty() + p.0 =~= p.0);
            },
            Err(_) => {},
        }
    }
    while i < nf
        invariant
            i <= nf,
            n == toks@.len(),
            tv == toks@.map_values(|t: Vec<u8>| t@),
            ti <= n,
            pre <= 0x1000_0000,
            post <= 0x1000_0000,
            forall|t: int| 0 <= t < acc@.len() ==> (acc@[t] as int) < nv,
            spec_ascii_faces(tv, ti0 as int, nf as nat, pre as int, post as int, nv as int)
                == spec_append(
                acc@,
                spec_ascii_faces(tv, ti as int, (nf - i) as nat, pre as int, post as int, nv as int),
            ),
        decreases nf - i,
    {
        let ghost k = (nf - i) as nat;
        if pre > n - ti {
            proof {
                assert(spec_ascii_faces(tv, ti as int, k, pre as int, post as int, nv as int)
                    == Err::<(Seq<u16>, int), ParseError>(ParseError::TruncatedPayload));
            }
            return Err(ParseError::TruncatedPayload);
        }
        let coff = ti + pre;
        if coff >= n {
            proof {
                assert(spec_ascii_faces(tv, ti as int, k, pre as int, post as int, nv as int)
                    == Err::<(Seq<u16>, int), ParseError>(ParseError::TruncatedPayload));
            }
            return Err(ParseError::TruncatedPayload);
        }
        let c = match parse_u32(toks[coff].as_slice()) {
            Some(c) => c,
            None => {
                proof {
                    assert(tv[coff as int] == toks@[coff as int]@);
                    assert(spec_ascii_faces(tv, ti as int, k, pre as int, post as int, nv as int)
                        == Err::<(Seq<u16>, int), ParseError>(ParseError::BadCount));
                }
                return Err(ParseError::BadCount);
            },
        };
        let ibase = coff + 1;
        let rem: u64 = (n - ibase) as u64;
        if (post as u64) > rem || (c as u64) > rem - (post as u64) {
            proof {
                assert(ibase + (c as int) + post > n);
                assert(spec_ascii_faces(tv, ti as int, k, pre as int, post as int, nv as int)
                    == Err::<(Seq<u16>, int), ParseError>(ParseError::TruncatedPayload));
            }
            return Err(ParseError::TruncatedPayload);
        }
        assert(ibase + (c as int) + post <= n);
        let ghost acc0 = acc@;
        let mut j: u32 = 0;
        while j < c
            invariant
                j <= c,
                n == toks@.len(),
                tv == toks@.map_values(|t: Vec<u8>| t@),
                i < nf,
                k == (nf - i) as nat,
                ti <= n,
                pre <= 0x1000_0000,
                post <= 0x1000_0000,
                coff == ti + pre,
                coff < n,
                ibase == coff + 1,
                spec_parse_u32(tv[coff as int]) == Some(c),
                ibase + (c as int) + post <= n,
                spec_ascii_faces(tv, ti0 as int, nf as nat, pre as int, post as int, nv as int)
                    == spec_append(
                    acc0,
                    spec_ascii_faces(tv, ti as int, k, pre as int, post as int, nv as int),
                ),
                acc@ == acc0 + Seq::new(j as nat, |jj: int| spec_ascii_index(tv[ibase + jj], nv as int).unwrap()),
                forall|jj: int|
                    0 <= jj < j ==> (#[trigger] spec_ascii_index(tv[ibase + jj], nv as int)) is Some,
                forall|t: int| 0 <= t < acc0.len() ==> (acc0[t] as int) < nv,
                forall|t: int| 0 <= t < acc@.len() ==> (acc@[t] as int) < nv,
            decreases c - j,
        {
            let ghost jj = j as int;
            let tok = &toks[ibase + j as usize];
            proof {
                assert(tv[ibase + jj] == tok@);
            }
            let v = match parse_u32(tok.as_slice()) {
                Some(v) => v,
                None => {
                    proof {
                        assert(spec_ascii_index(tv[ibase + jj], nv as int) is None);
                        assert(spec_ascii_faces(tv, ti as int, k, pre as int, post as int, nv as int)
                            == Err::<(Seq<u16>, int), ParseError>(ParseError::IndexOutOfRange));
                    }
                    return Err(ParseError::IndexOutOfRange);
                },
            };
            if v >= nv || v > 0xFFFF {
                proof {
                    assert(spec_ascii_index(tv[ibase + jj], nv as int) is None);
                    assert(spec_ascii_faces(tv, ti as int, k, pre as int, post as int, nv as int)
                        == Err::<(Seq<u16>, int), ParseError>(ParseError::IndexOutOfRange));
                }
                return Err(ParseError::IndexOutOfRange);
            }
            proof {
                assert(spec_ascii_index(tv[ibase + jj], nv as int) == Some(v as u16));
            }
            acc.push(v as u16);
            proof {
                assert(acc@ =~= acc0 + Seq::new(
                    j as nat + 1,
                    |jx: int| spec_ascii_index(tv[ibase + jx], nv as int).unwrap(),
                ));
            }
            j += 1;
        }
        let ghost idxs = Seq::new(c as nat, |jx: int| spec_ascii_index(tv[ibase + jx], nv as int).unwrap());
        proof {
            assert(acc@ =~= acc0 + idxs);
            let rest = spec_ascii_faces(
                tv,
                ibase + (c as int) + post,
                (nf - i - 1) as nat,
                pre as int,
                post as int,
                nv as int,
            );
            assert(spec_ascii_faces(tv, ti as int, k, pre as int, post as int, nv as int)
                == spec_append(idxs, rest));
            match rest {
                Ok(p) => {
                    assert((acc0 + idxs) + p.0 =~= acc0 + (idxs + p.0));
                },
                Err(_) => {},
            }
        }
        ti = ibase + (c as usize) + post;
        i += 1;
    }
    proof {
        assert(acc@ + Seq::<u16>::empty() =~= acc@);
    }
    Ok((acc, ti))
}

} // verus!

verus! {

use vstd::arithmetic::div_mod::lemma_mod_multiples_basic as lemma_triples;

/// The token shape of one text face record: scalars to skip before the index
/// list, and after it.
pub fn ascii_face_layout(props: &Vec<Property>) -> (r: Result<(usize, usize), ParseError>)
    ensures
        r == spec_ascii_face_layout(prop_views(props@)),
        r matches Ok(l) ==> l.0 <= 0x1000_0000 && l.1 <= 0x1000_0000,
{
    let mut pre: usize = 0;
    let mut post: usize = 0;
    let mut found: bool = false;
    let mut i: usize = 0;
    proof {
        assert(prop_views(props@).skip(0) =~= prop_views(props@));
    }
    while i < props.len()
        invariant
            i <= props@.len(),
            spec_ascii_face_layout(prop_views(props@)) == spec_ascii_face_layout_walk(
                prop_views(props@).skip(i as int),
                pre,
                post,
                found,
            ),
            pre <= 0x1000_0000,
            post <= 0x1000_0000,
        decreases props@.len() - i,
    {
        let ghost pv = prop_views(props@).skip(i as int);
        let ghost pre0 = pre;
        let ghost post0 = post;
        let ghost found0 = found;
        proof {
            assert(pv.len() == props@.len() - i);
            assert(prop_views(props@)[i as int] == props@[i as int]@);
            assert(pv[0] == props@[i as int]@);
        }
        let p = &props[i];
        match p.ty {
            PropType::Scalar(_) => {
                if !found {
                    if pre >= 0x1000_0000 {
                        return Err(ParseError::UnsupportedSchema);
                    }
                    pre = pre + 1;
                } else {
                    if post >= 0x1000_0000 {
                        return Err(ParseError::UnsupportedSchema);
                    }
                    post = post + 1;
                }
            },
            PropType::List(ct, it) => {
                if tok_is(&p.name, &KW_VERTEX_INDICES) {
                    if found {
                        return Err(ParseError::BadHeaderLine);
                    }
                    if !matches!(it, ScalarType::UInt) {
                        return Err(ParseError::AttributeTypeMismatch);
                    }
                    if matches!(ct, ScalarType::Float | ScalarType::Double) {
                        return Err(ParseError::UnsupportedSchema);
                    }
                    found = true;
                } else {
                    return Err(ParseError::UnsupportedSchema);
                }
            },
        }
        proof {
            assert(pv.drop_first() =~= prop_views(props@).skip(i as int + 1));
            assert(spec_ascii_face_layout_walk(pv, pre0, post0, found0)
                == spec_ascii_face_layout_walk(
                prop_views(props@).skip(i as int + 1),
                pre,
                post,
                found,
            ));
        }
        i += 1;
    }
    proof {
        assert(prop_views(props@).skip(i as int).len() == 0);
    }
    if found {
        Ok((pre, post))
    } else {
        Err(ParseError::AttributeTypeMismatch)
    }
}

/// How many tokens one record of an all-scalar text element spans.
fn element_token_count(props: &Vec<Property>) -> (r: Result<usize, ParseError>)
    ensures
        r == spec_element_token_count(prop_views(props@)),
        r matches Ok(c) ==> c <= 0x1000_0000,
{
    let mut count: usize = 0;
    let mut i: usize = 0;
    proof {
        assert(prop_views(props@).skip(0) =~= prop_views(props@));
    }
    while i < props.len()
        invariant
            i <= props@.len(),
            spec_element_token_count(prop_views(props@)) == spec_element_token_count_walk(
                prop_views(props@).skip(i as int),
                count,
            ),
            count <= 0x1000_0000,
        decreases props@.len() - i,
    {
        let ghost pv = prop_views(props@).skip(i as int);
        let ghost count0 = count;
        proof {
            assert(pv.len() == props@.len() - i);
            assert(prop_views(props@)[i as int] == props@[i as int]@);
            assert(pv[0] == props@[i as int]@);
        }
        match props[i].ty {
            PropType::Scalar(_) => {
                if count >= 0x1000_0000 {
                    return Err(ParseError::UnsupportedSchema);
                }
                count = count + 1;
            },
            PropType::List(_, _) => {
                return Err(ParseError::UnsupportedSchema);
            },
        }
        proof {
            assert(pv.drop_first() =~= prop_views(props@).skip(i as int + 1));
            assert(spec_element_token_count_walk(pv, count0) == spec_element_token_count_walk(
                prop_views(props@).skip(i as int + 1),
                count,
            ));
        }
        i += 1;
    }
    proof {
        assert(prop_views(props@).skip(i as int).len() == 0);
    }
    Ok(count)
}

/// A text document, decoded as far as the verified core can take it: colors
/// normalized and faces flattened and checked exactly as in the binary path,
/// and the coordinate fields captured as their decimal tokens, verbatim and
/// in order, for the host's float parser. Three position and three normal
/// tokens pair up with each color triple.
#[derive(PartialEq, Eq, Debug)]
pub struct AsciiGeometry {
    pub position_tokens: Vec<Vec<u8>>,
    pub normal_tokens: Vec<Vec<u8>>,
    pub colors: Vec<u32>,
    pub indices: Vec<u16>,
}

impl AsciiGeometry {
    /// The same invariant a mesh carries, with token triples in place of
    /// decoded triples.
    pub open spec fn wf(&self) -> bool {
        &&& self.position_tokens@.len() % 3 == 0
        &&& self.normal_tokens@.len() == self.position_tokens@.len()
        &&& self.colors@.len() == self.position_tokens@.len()
        &&& forall|i: int|
            0 <= i < self.indices@.len() ==> 3 * ((#[trigger] self.indices@[i]) as int)
                < self.position_tokens@.len()
    }

    /// Parses a text-encoded document: the header as always, then the one
    /// whitespace-separated token stream of the payload, element by element
    /// in declaration order, with the same tolerances and rejections as the
    /// binary path.
    pub fn parse(bytes: &[u8]) -> (r: Result<AsciiGeometry, ParseError>)
        ensures
            match r {
                Ok(g) => spec_parse_ascii(bytes@) == Ok::<AsciiGeomV, ParseError>(
                    AsciiGeomV {
                        position_tokens: g.position_tokens@.map_values(|t: Vec<u8>| t@),
                        normal_tokens: g.normal_tokens@.map_values(|t: Vec<u8>| t@),
                        colors: g.colors@,
                        indices: g.indices@,
                    },
                ),
                Err(e) => spec_parse_ascii(bytes@) == Err::<AsciiGeomV, ParseError>(e),
            },
            r matches Ok(g) ==> g.wf(),
    {
        let (header, start) = match parse_header(bytes) {
            Ok(p) => p,
            Err(e) => {
                return Err(e);
            },
        };
        match header.format {
            Format::Ascii => {},
            _ => {
                return Err(ParseError::BinaryPayload);
            },
        }
        let tail = copy_range(bytes, start, bytes.len());
        let toks = split_tokens(tail.as_slice());
        let n = toks.len();
        let ghost tv = toks@.map_values(|t: Vec<u8>| t@);
        let ghost els = element_views(header.elements@);
        proof {
            assert(bytes@.subrange(start as int, bytes@.len() as int) =~= bytes@.skip(
                start as int,
            ));
            assert(tv == spec_tokens(bytes@.skip(start as int)));
            assert(tv.len() == toks@.len());
            assert(els.skip(0) =~= els);
        }
        let mut ti: usize = 0;
        let mut vdata: Option<(Vec<Vec<u8>>, Vec<Vec<u8>>, Vec<u32>)> = None;
        let mut nv: u32 = 0;
        let mut indices: Option<Vec<u16>> = None;
        let mut ei: usize = 0;
        while ei < header.elements.len()
            invariant
                ei <= header.elements@.len(),
                ti <= n == toks@.len(),
                tv == toks@.map_values(|t: Vec<u8>| t@),
                els == element_views(header.elements@),
                spec_parse_ascii(bytes@) == spec_ascii_walk(
                    tv,
                    els.skip(ei as int),
                    ti as int,
                    avdata_view(vdata),
                    nv,
                    idx_view(indices),
                ),
                vdata matches Some(t) ==> t.0@.len() == 3 * (nv as int) && t.1@.len() == 3 * (
                nv as int) && t.2@.len() == 3 * (nv as int),
                indices matches Some(v) ==> (vdata is Some && forall|t: int|
                    0 <= t < v@.len() ==> ((#[trigger] v@[t]) as int) < nv),
            decreases header.elements@.len() - ei,
        {
            let ghost ti0 = ti as int;
            let ghost vd0 = avdata_view(vdata);
            let ghost id0 = idx_view(indices);
            let ghost etail = els.skip(ei as int);
            let el = &header.elements[ei];
            proof {
                assert(els[ei as int] == header.elements@[ei as int]@);
                assert(etail[0] == els[ei as int]);
                assert(etail.drop_first() =~= els.skip(ei as int + 1));
                assert(etail.len() == els.len() - ei);
                assert(etail[0].props == prop_views(el.props@));
            }
            if tok_is(&el.name, &KW_VERTEX) && vdata.is_none() {
                let lay = match ascii_vertex_layout(&el.props) {
                    Ok(l) => l,
                    Err(e) => {
                        proof {
                            assert(spec_ascii_walk(tv, etail, ti0, vd0, nv, id0) == Err::<
                                AsciiGeomV,
                                ParseError,
                            >(e));
                        }
                        return Err(e);
                    },
                };
                match decode_ascii_vertices(&toks, ti, el.count, &lay) {
                    Ok(t) => {
                        proof {
                            assert(spec_ascii_walk(tv, etail, ti0, vd0, nv, id0)
                                == spec_ascii_walk(
                                tv,
                                els.skip(ei as int + 1),
                                ti0 + (el.count as int) * lay.nprops,
                                Some(
                                    (
                                        t.0@.map_values(|x: Vec<u8>| x@),
                                        t.1@.map_values(|x: Vec<u8>| x@),
                                        t.2@,
                                    ),
                                ),
                                el.count,
                                id0,
                            ));
                        }
                        nv = el.count;
                        vdata = Some(t);
                        ti = ti + (el.count as usize) * lay.nprops;
                    },
                    Err(e) => {
                        proof {
                            assert(spec_ascii_walk(tv, etail, ti0, vd0, nv, id0) == Err::<
                                AsciiGeomV,
                                ParseError,
                            >(e));
                        }
                        return Err(e);
                    },
                }
            } else if tok_is(&el.name, &KW_FACE) && indices.is_none() {
                if vdata.is_none() {
                    // indices cannot be checked before the vertices are known
                    proof {
                        assert(spec_ascii_walk(tv, etail, ti0, vd0, nv, id0) == Err::<
                            AsciiGeomV,
                            ParseError,
                        >(ParseError::UnsupportedSchema));
                    }
                    return Err(ParseError::UnsupportedSchema);
                }
                let (pre, post) = match ascii_face_layout(&el.props) {
                    Ok(l) => l,
                    Err(e) => {
                        proof {
                            assert(spec_ascii_walk(tv, etail, ti0, vd0, nv, id0) == Err::<
                                AsciiGeomV,
                                ParseError,
                            >(e));
                        }
                        return Err(e);
                    },
                };
                match decode_ascii_faces(&toks, ti, el.count, pre, post, nv) {
                    Ok(p) => {
                        proof {
                            assert(spec_ascii_walk(tv, etail, ti0, vd0, nv, id0)
                                == spec_ascii_walk(
                                tv,
                                els.skip(ei as int + 1),
                                p.1 as int,
                                vd0,
                                nv,
                                Some(p.0@),
                            ));
                        }
                        indices = Some(p.0);
                        ti = p.1;
                    },
                    Err(e) => {
                        proof {
                            assert(spec_ascii_walk(tv, etail, ti0, vd0, nv, id0) == Err::<
                                AsciiGeomV,
                                ParseError,
                            >(e));
                        }
                        return Err(e);
                    },
                }
            } else {
                let count = match element_token_count(&el.props) {
                    Ok(c) => c,
                    Err(e) => {
                        proof {
                            assert(spec_ascii_walk(tv, etail, ti0, vd0, nv, id0) == Err::<
                                AsciiGeomV,
                                ParseError,
                            >(e));
                        }
                        return Err(e);
                    },
                };
                proof {
                    lemma_mul_upper_bound(el.count as int, 0xFFFF_FFFF, count as int, 0x1000_0000);
                }
                let need: u64 = (el.count as u64) * (count as u64);
                if need > ((n - ti) as u64) {
                    proof {
                        assert(spec_ascii_walk(tv, etail, ti0, vd0, nv, id0) == Err::<
                            AsciiGeomV,
                            ParseError,
                        >(ParseError::TruncatedPayload));
                    }
                    return Err(ParseError::TruncatedPayload);
                }
                proof {
                    assert(spec_ascii_walk(tv, etail, ti0, vd0, nv, id0) == spec_ascii_walk(
                        tv,
                        els.skip(ei as int + 1),
                        ti0 + (el.count as int) * count,
                        vd0,
                        nv,
                        id0,
                    ));
                }
                ti = ti + (el.count as usize) * count;
            }
            ei += 1;
        }
        proof {
            assert(els.len() == header.elements@.len());
            assert(els.skip(ei as int).len() == 0);
        }
        match (vdata, indices) {
            (Some(t), Some(idx)) => {
                proof {
                    lemma_triples(nv as int, 3);
                }
                Ok(
                    AsciiGeometry {
                        position_tokens: t.0,
                        normal_tokens: t.1,
                        colors: t.2,
                        indices: idx,
                    },
                )
            },
            (None, _) => Err(ParseError::MissingVertexElement),
            (_, None) => Err(ParseError::MissingFaceElement),
        }
    }
}

impl PlyMesh {
    /// Merges the coordinate bit patterns the host decoded from a text
    /// document's tokens into the finished mesh. Succeeds exactly when the
    /// two bit arrays pair up one to one with the captured token arrays; the
    /// result keeps the document's colors and indices verbatim and carries
    /// the mesh invariant.
    pub fn from_ascii(geo: AsciiGeometry, position_bits: Vec<u32>, normal_bits: Vec<u32>) -> (r:
        Result<PlyMesh, ParseError>)
        requires
            geo.wf(),
        ensures
            r is Ok <==> (position_bits@.len() == geo.position_tokens@.len() && normal_bits@.len()
                == geo.normal_tokens@.len()),
            r matches Ok(m) ==> m.wf() && m.vertices@ == position_bits@ && m.normals@
                == normal_bits@ && m.colors@ == geo.colors@ && m.indices@ == geo.indices@,
            r is Err ==> r == Err::<PlyMesh, ParseError>(ParseError::AttributeTypeMismatch),
    {
        if position_bits.len() != geo.position_tokens.len() || normal_bits.len()
            != geo.normal_tokens.len() {
            return Err(ParseError::AttributeTypeMismatch);
        }
        Ok(
            PlyMesh {
                vertices: position_bits,
                normals: normal_bits,
                colors: geo.colors,
                indices: geo.indices,
            },
        )
    }
}

} // verus!

verus! {

// --- the reference grammar of property declarations --------------------------
// Every layout builder's contract states that its whole result — the offsets
// on success and the rejection otherwise — equals a reference walk over the
// declared properties, so a layout is fixed by the header alone.

/// The ghost picture of one property declaration.
pub struct PropertyV {
    pub name: Seq<u8>,
    pub ty: PropType,
}

impl View for Property {
    type V = PropertyV;

    open spec fn view(&self) -> PropertyV {
        PropertyV { name: self.name@, ty: self.ty }
    }
}

/// The ghost pictures of a property list.
pub open spec fn prop_views(props: Seq<Property>) -> Seq<PropertyV> {
    props.map_values(|p: Property| p@)
}

/// Claims one required field at the running offset: rejected when its
/// declared type is wrong or when its name repeats.
pub open spec fn spec_claim(slot: Option<usize>, type_ok: bool, off: usize) -> Result<
    Option<usize>,
    ParseError,
> {
    if !type_ok {
        Err(ParseError::AttributeTypeMismatch)
    } else if slot is Some {
        Err(ParseError::BadHeaderLine)
    } else {
        Ok(Some(off))
    }
}

/// The reference walk behind `vertex_layout`. The running offset accumulates
/// the widths of the properties already passed; each of the nine required
/// names claims the offset where it stands (`x`..`nz` at `float`, the colors
/// at `uchar`); any other scalar is skipped by its width. A list property, or
/// an implausibly wide record, rejects the element; so does a missing or
/// repeated required name, once the walk runs out of properties.
pub open spec fn spec_vertex_layout_walk(
    props: Seq<PropertyV>,
    off: usize,
    x: Option<usize>,
    y: Option<usize>,
    z: Option<usize>,
    nx: Option<usize>,
    ny: Option<usize>,
    nz: Option<usize>,
    red: Option<usize>,
    green: Option<usize>,
    blue: Option<usize>,
) -> Result<VertexLayout, ParseError>
    decreases props.len(),
{
    if props.len() == 0 {
        if x is Some && y is Some && z is Some && nx is Some && ny is Some && nz is Some
            && red is Some && green is Some && blue is Some {
            Ok(
                VertexLayout {
                    stride: off,
                    x: x.unwrap(),
                    y: y.unwrap(),
                    z: z.unwrap(),
                    nx: nx.unwrap(),
                    ny: ny.unwrap(),
                    nz: nz.unwrap(),
                    red: red.unwrap(),
                    green: green.unwrap(),
                    blue: blue.unwrap(),
                },
            )
        } else {
            Err(ParseError::AttributeTypeMismatch)
        }
    } else if off > 0x1000_0000 {
        Err(ParseError::UnsupportedSchema)
    } else {
        let p = props[0];
        let rest = props.drop_first();
        match p.ty {
            PropType::List(_, _) => Err(ParseError::UnsupportedSchema),
            PropType::Scalar(st) => {
                let off2 = (off + st.spec_size()) as usize;
                if p.name == KW_X@ {
                    match spec_claim(x, st is Float, off) {
                        Err(e) => Err(e),
                        Ok(s) => spec_vertex_layout_walk(
                            rest,
                            off2,
                            s,
                            y,
                            z,
                            nx,
                            ny,
                            nz,
                            red,
                            green,
                            blue,
                        ),
                    }
                } else if p.name == KW_Y@ {
                    match spec_claim(y, st is Float, off) {
                        Err(e) => Err(e),
                        Ok(s) => spec_vertex_layout_walk(
                            rest,
                            off2,
                            x,
                            s,
                            z,
                            nx,
                            ny,
                            nz,
                            red,
                            green,
                            blue,
                        ),
                    }
                } else if p.name == KW_Z@ {
                    match spec_claim(z, st is Float, off) {
                        Err(e) => Err(e),
                        Ok(s) => spec_vertex_layout_walk(
                            rest,
                            off2,
                            x,
                            y,
                            s,
                            nx,
                            ny,
                            nz,
                            red,
                            green,
                            blue,
                        ),
                    }
                } else if p.name == KW_NX@ {
                    match spec_claim(nx, st is Float, off) {
                        Err(e) => Err(e),
                        Ok(s) => spec_vertex_layout_walk(
                            rest,
                            off2,
                            x,
                            y,
                            z,
                            s,
                            ny,
                            nz,
                            red,
                            green,
                            blue,
                        ),
                    }
                } else if p.name == KW_NY@ {
                    match spec_claim(ny, st is Float, off) {
                        Err(e) => Err(e),
                        Ok(s) => spec_vertex_layout_walk(
                            rest,
                            off2,
                            x,
                            y,
                            z,
                            nx,
                            s,
                            nz,
                            red,
                            green,
                            blue,
                        ),
                    }
                } else if p.name == KW_NZ@ {
                    match spec_claim(nz, st is Float, off) {
                        Err(e) => Err(e),
                        Ok(s) => spec_vertex_layout_walk(
                            rest,
                            off2,
                            x,
                            y,
                            z,
                            nx,
                            ny,
                            s,
                            red,
                            green,
                            blue,
                        ),
                    }
                } else if p.name == KW_RED@ {
                    match spec_claim(red, st is UChar, off) {
                        Err(e) => Err(e),
                        Ok(s) => spec_vertex_layout_walk(
                            rest,
                            off2,
                            x,
                            y,
                            z,
                            nx,
                            ny,
                            nz,
                            s,
                            green,
                            blue,
                        ),
                    }
                } else if p.name == KW_GREEN@ {
                    match spec_claim(green, st is UChar, off) {
                        Err(e) => Err(e),
                        Ok(s) => spec_vertex_layout_walk(
                            rest,
                            off2,
                            x,
                            y,
                            z,
                            nx,
                            ny,
                            nz,
                            red,
                            s,
                            blue,
                        ),
                    }
                } else if p.name == KW_BLUE@ {
                    match spec_claim(blue, st is UChar, off) {
                        Err(e) => Err(e),
                        Ok(s) => spec_vertex_layout_walk(
                            rest,
                            off2,
                            x,
                            y,
                            z,
                            nx,
                            ny,
                            nz,
                            red,
                            green,
                            s,
                        ),
                    }
                } else {
                    spec_vertex_layout_walk(rest, off2, x, y, z, nx, ny, nz, red, green, blue)
                }
            },
        }
    }
}

/// The layout that a vertex element's property declarations determine.
pub open spec fn spec_vertex_layout(props: Seq<PropertyV>) -> Result<VertexLayout, ParseError> {
    spec_vertex_layout_walk(props, 0, None, None, None, None, None, None, None, None, None)
}

} // verus!

verus! {

/// The reference walk behind `face_layout`: scalar widths accumulate into
/// `pre` until the index list is seen and into `post` after it; exactly one
/// list is taken, named `vertex_indices`, with `uint` items and an integer
/// length type.
pub open spec fn spec_face_layout_walk(
    props: Seq<PropertyV>,
    pre: usize,
    post: usize,
    found: Option<ScalarType>,
) -> Result<FaceLayout, ParseError>
    decreases props.len(),
{
    if props.len() == 0 {
        match found {
            Some(ct) => Ok(FaceLayout { pre, count_ty: ct, post }),
            None => Err(ParseError::AttributeTypeMismatch),
        }
    } else {
        let p = props[0];
        let rest = props.drop_first();
        match p.ty {
            PropType::Scalar(st) => if found is None {
                if pre > 0x1000_0000 {
                    Err(ParseError::UnsupportedSchema)
                } else {
                    spec_face_layout_walk(rest, (pre + st.spec_size()) as usize, post, found)
                }
            } else {
                if post > 0x1000_0000 {
                    Err(ParseError::UnsupportedSchema)
                } else {
                    spec_face_layout_walk(rest, pre, (post + st.spec_size()) as usize, found)
                }
            },
            PropType::List(ct, it) => if p.name == KW_VERTEX_INDICES@ {
                if found is Some {
                    Err(ParseError::BadHeaderLine)
                } else if !(it is UInt) {
                    Err(ParseError::AttributeTypeMismatch)
                } else if ct is Float || ct is Double {
                    Err(ParseError::UnsupportedSchema)
                } else {
                    spec_face_layout_walk(rest, pre, post, Some(ct))
                }
            } else {
                Err(ParseError::UnsupportedSchema)
            },
        }
    }
}

/// The record shape that a face element's property declarations determine.
pub open spec fn spec_face_layout(props: Seq<PropertyV>) -> Result<FaceLayout, ParseError> {
    spec_face_layout_walk(props, 0, 0, None)
}

/// The reference walk behind `ascii_vertex_layout`: as the vertex walk, but
/// every scalar is one token wide, so offsets are token positions.
pub open spec fn spec_ascii_vertex_layout_walk(
    props: Seq<PropertyV>,
    off: usize,
    x: Option<usize>,
    y: Option<usize>,
    z: Option<usize>,
    nx: Option<usize>,
    ny: Option<usize>,
    nz: Option<usize>,
    red: Option<usize>,
    green: Option<usize>,
    blue: Option<usize>,
) -> Result<TokenLayout, ParseError>
    decreases props.len(),
{
    if props.len() == 0 {
        if x is Some && y is Some && z is Some && nx is Some && ny is Some && nz is Some
            && red is Some && green is Some && blue is Some {
            Ok(
                TokenLayout {
                    nprops: off,
                    x: x.unwrap(),
                    y: y.unwrap(),
                    z: z.unwrap(),
                    nx: nx.unwrap(),
                    ny: ny.unwrap(),
                    nz: nz.unwrap(),
                    red: red.unwrap(),
                    green: green.unwrap(),
                    blue: blue.unwrap(),
                },
            )
        } else {
            Err(ParseError::AttributeTypeMismatch)
        }
    } else if off >= 0x1000_0000 {
        Err(ParseError::UnsupportedSchema)
    } else {
        let p = props[0];
        let rest = props.drop_first();
        match p.ty {
            PropType::List(_, _) => Err(ParseError::UnsupportedSchema),
            PropType::Scalar(st) => {
                let off2 = (off + 1) as usize;
                if p.name == KW_X@ {
                    match spec_claim(x, st is Float, off) {
                        Err(e) => Err(e),
                        Ok(s) => spec_ascii_vertex_layout_walk(rest, off2, s, y, z, nx, ny, nz, red, green, blue),
                    }
                } else if p.name == KW_Y@ {
                    match spec_claim(y, st is Float, off) {
                        Err(e) => Err(e),
                        Ok(s) => spec_ascii_vertex_layout_walk(rest, off2, x, s, z, nx, ny, nz, red, green, blue),
                    }
                } else if p.name == KW_Z@ {
                    match spec_claim(z, st is Float, off) {
                        Err(e) => Err(e),
                        Ok(s) => spec_ascii_vertex_layout_walk(rest, off2, x, y, s, nx, ny, nz, red, green, blue),
                    }
                } else if p.name == KW_NX@ {
                    match spec_claim(nx, st is Float, off) {
                        Err(e) => Err(e),
                        Ok(s) => spec_ascii_vertex_layout_walk(rest, off2, x, y, z, s, ny, nz, red, green, blue),
                    }
                } else if p.name == KW_NY@ {
                    match spec_claim(ny, st is Float, off) {
                        Err(e) => Err(e),
                        Ok(s) => spec_ascii_vertex_layout_walk(rest, off2, x, y, z, nx, s, nz, red, green, blue),
                    }
                } else if p.name == KW_NZ@ {
                    match spec_claim(nz, st is Float, off) {
                        Err(e) => Err(e),
                        Ok(s) => spec_ascii_vertex_layout_walk(rest, off2, x, y, z, nx, ny, s, red, green, blue),
                    }
                } else if p.name == KW_RED@ {
                    match spec_claim(red, st is UChar, off) {
                        Err(e) => Err(e),
                        Ok(s) => spec_ascii_vertex_layout_walk(rest, off2, x, y, z, nx, ny, nz, s, green, blue),
                    }
                } else if p.name == KW_GREEN@ {
                    match spec_claim(green, st is UChar, off) {
                        Err(e) => Err(e),
                        Ok(s) => spec_ascii_vertex_layout_walk(rest, off2, x, y, z, nx, ny, nz, red, s, blue),
                    }
                } else if p.name == KW_BLUE@ {
                    match spec_claim(blue, st is UChar, off) {
                        Err(e) => Err(e),
                        Ok(s) => spec_ascii_vertex_layout_walk(rest, off2, x, y, z, nx, ny, nz, red, green, s),
                    }
                } else {
                    spec_ascii_vertex_layout_walk(rest, off2, x, y, z, nx, ny, nz, red, green, blue)
                }
            },
        }
    }
}

/// The token layout that a text vertex element's declarations determine.
pub open spec fn spec_ascii_vertex_layout(props: Seq<PropertyV>) -> Result<
    TokenLayout,
    ParseError,
> {
    spec_ascii_vertex_layout_walk(props, 0, None, None, None, None, None, None, None, None, None)
}

/// The reference walk behind `ascii_face_layout`: token counts accumulate
/// around the one `vertex_indices` list.
pub open spec fn spec_ascii_face_layout_walk(
    props: Seq<PropertyV>,
    pre: usize,
    post: usize,
    found: bool,
) -> Result<(usize, usize), ParseError>
    decreases props.len(),
{
    if props.len() == 0 {
        if found {
            Ok((pre, post))
        } else {
            Err(ParseError::AttributeTypeMismatch)
        }
    } else {
        let p = props[0];
        let rest = props.drop_first();
        match p.ty {
            PropType::Scalar(_) => if !found {
                if pre >= 0x1000_0000 {
                    Err(ParseError::UnsupportedSchema)
                } else {
                    spec_ascii_face_layout_walk(rest, (pre + 1) as usize, post, found)
                }
            } else {
                if post >= 0x1000_0000 {
                    Err(ParseError::UnsupportedSchema)
                } else {
                    spec_ascii_face_layout_walk(rest, pre, (post + 1) as usize, found)
                }
            },
            PropType::List(ct, it) => if p.name == KW_VERTEX_INDICES@ {
                if found {
                    Err(ParseError::BadHeaderLine)
                } else if !(it is UInt) {
                    Err(ParseError::AttributeTypeMismatch)
                } else if ct is Float || ct is Double {
                    Err(ParseError::UnsupportedSchema)
                } else {
                    spec_ascii_face_layout_walk(rest, pre, post, true)
                }
            } else {
                Err(ParseError::UnsupportedSchema)
            },
        }
    }
}

/// The token shape that a text face element's declarations determine.
pub open spec fn spec_ascii_face_layout(props: Seq<PropertyV>) -> Result<
    (usize, usize),
    ParseError,
> {
    spec_ascii_face_layout_walk(props, 0, 0, false)
}

/// The reference walk behind `element_stride`: the summed widths of an
/// all-scalar element's properties.
pub open spec fn spec_element_stride_walk(props: Seq<PropertyV>, stride: usize) -> Result<
    usize,
    ParseError,
>
    decreases props.len(),
{
    if props.len() == 0 {
        Ok(stride)
    } else if stride > 0x1000_0008 {
        Err(ParseError::UnsupportedSchema)
    } else {
        match props[0].ty {
            PropType::Scalar(st) => spec_element_stride_walk(
                props.drop_first(),
                (stride + st.spec_size()) as usize,
            ),
            PropType::List(_, _) => Err(ParseError::UnsupportedSchema),
        }
    }
}

/// The record width that an element's declarations determine.
pub open spec fn spec_element_stride(props: Seq<PropertyV>) -> Result<usize, ParseError> {
    spec_element_stride_walk(props, 0)
}

/// The reference walk behind `element_token_count`: one token per scalar.
pub open spec fn spec_element_token_count_walk(props: Seq<PropertyV>, count: usize) -> Result<
    usize,
    ParseError,
>
    decreases props.len(),
{
    if props.len() == 0 {
        Ok(count)
    } else {
        match props[0].ty {
            PropType::Scalar(_) => if count >= 0x1000_0000 {
                Err(ParseError::UnsupportedSchema)
            } else {
                spec_element_token_count_walk(props.drop_first(), (count + 1) as usize)
            },
            PropType::List(_, _) => Err(ParseError::UnsupportedSchema),
        }
    }
}

/// The record token count that an element's declarations determine.
pub open spec fn spec_element_token_count(props: Seq<PropertyV>) -> Result<usize, ParseError> {
    spec_element_token_count_walk(props, 0)
}

} // verus!

verus! {

// --- the reference grammar of the header --------------------------------------

/// The ghost picture of one element declaration.
pub struct ElementV {
    pub name: Seq<u8>,
    pub count: u32,
    pub props: Seq<PropertyV>,
}

impl View for Element {
    type V = ElementV;

    open spec fn view(&self) -> ElementV {
        ElementV { name: self.name@, count: self.count, props: prop_views(self.props@) }
    }
}

/// The ghost pictures of an element list.
pub open spec fn element_views(els: Seq<Element>) -> Seq<ElementV> {
    els.map_values(|e: Element| e@)
}

/// The ghost picture of a parsed header.
pub struct HeaderV {
    pub format: Format,
    pub elements: Seq<ElementV>,
}

impl View for Header {
    type V = HeaderV;

    open spec fn view(&self) -> HeaderV {
        HeaderV { format: self.format, elements: element_views(self.elements@) }
    }
}

/// How many bytes the line at the head of `s` spans: the count of leading
/// bytes before the first line feed.
pub open spec fn line_len(s: Seq<u8>) -> nat
    decreases s.len(),
{
    if s.len() == 0 || s[0] == 10 {
        0
    } else {
        (1 + line_len(s.drop_first())) as nat
    }
}

/// A line never runs past the end of the bytes.
proof fn lemma_line_len_le(s: Seq<u8>)
    ensures
        line_len(s) <= s.len(),
    decreases s.len(),
{
    if s.len() != 0 && s[0] != 10 {
        lemma_line_len_le(s.drop_first());
    }
}

/// `line_len` finds exactly the first line feed: if the first `m` bytes are
/// not line feeds and byte `m` is one (or the sequence ends), the head line
/// spans `m` bytes.
proof fn lemma_line_len_at(s: Seq<u8>, m: int)
    requires
        0 <= m <= s.len(),
        forall|k: int| 0 <= k < m ==> s[k] != 10,
        m == s.len() || s[m] == 10,
    ensures
        line_len(s) == m,
    decreases m,
{
    if m > 0 {
        let t = s.drop_first();
        assert forall|k: int| 0 <= k < m - 1 implies t[k] != 10 by {
            assert(t[k] == s[k + 1]);
        }
        if m < s.len() {
            assert(t[m - 1] == s[m]);
        }
        lemma_line_len_at(t, m - 1);
    }
}

/// The meaning of the header lines from `off` on, given the format and
/// element declarations already read (`cur` is the element whose properties
/// are still arriving). One line per step: blank, `comment` and `obj_info`
/// lines pass; `format`, `element` and `property` lines extend the state;
/// `end_header` closes the header and yields it with the payload offset; a
/// line fitting no form, a repeated or unknown format, an unreadable count or
/// type, or a property outside any element rejects the document, as does
/// running out of bytes before `end_header`.
pub open spec fn spec_header_lines(
    s: Seq<u8>,
    off: int,
    fmt: Option<Format>,
    elements: Seq<ElementV>,
    cur: Option<ElementV>,
) -> Result<(HeaderV, int), ParseError>
    decreases s.len() - off,
    via spec_header_lines_decreases
{
    if !(0 <= off < s.len()) {
        Err(ParseError::MissingEndHeader)
    } else {
        let e = off + line_len(s.skip(off));
        let toks = spec_tokens(s.subrange(off, e));
        let next = if e < s.len() {
            e + 1
        } else {
            e
        };
        if toks.len() == 0 {
            spec_header_lines(s, next, fmt, elements, cur)
        } else if toks[0] == KW_COMMENT@ || toks[0] == KW_OBJ_INFO@ {
            spec_header_lines(s, next, fmt, elements, cur)
        } else if toks[0] == KW_FORMAT@ {
            if fmt is Some || toks.len() != 3 || toks[2] != KW_V10@ {
                Err(ParseError::BadFormatLine)
            } else if toks[1] == KW_ASCII@ {
                spec_header_lines(s, next, Some(Format::Ascii), elements, cur)
            } else if toks[1] == KW_BLE@ {
                spec_header_lines(s, next, Some(Format::BinaryLittleEndian), elements, cur)
            } else if toks[1] == KW_BBE@ {
                spec_header_lines(s, next, Some(Format::BinaryBigEndian), elements, cur)
            } else {
                Err(ParseError::BadFormatLine)
            }
        } else if toks[0] == KW_ELEMENT@ {
            if toks.len() != 3 {
                Err(ParseError::BadHeaderLine)
            } else {
                match spec_parse_u32(toks[2]) {
                    None => Err(ParseError::BadCount),
                    Some(count) => {
                        let els2 = match cur {
                            Some(c) => elements.push(c),
                            None => elements,
                        };
                        spec_header_lines(
                            s,
                            next,
                            fmt,
                            els2,
                            Some(ElementV { name: toks[1], count, props: seq![] }),
                        )
                    },
                }
            }
        } else if toks[0] == KW_PROPERTY@ {
            match cur {
                None => Err(ParseError::BadHeaderLine),
                Some(c) => {
                    if toks.len() == 3 {
                        match spec_scalar_type(toks[1]) {
                            None => Err(ParseError::BadHeaderLine),
                            Some(st) => spec_header_lines(
                                s,
                                next,
                                fmt,
                                elements,
                                Some(
                                    ElementV {
                                        name: c.name,
                                        count: c.count,
                                        props: c.props.push(
                                            PropertyV { name: toks[2], ty: PropType::Scalar(st) },
                                        ),
                                    },
                                ),
                            ),
                        }
                    } else if toks.len() == 5 && toks[1] == KW_LIST@ {
                        match (spec_scalar_type(toks[2]), spec_scalar_type(toks[3])) {
                            (Some(ct), Some(it)) => spec_header_lines(
                                s,
                                next,
                                fmt,
                                elements,
                                Some(
                                    ElementV {
                                        name: c.name,
                                        count: c.count,
                                        props: c.props.push(
                                            PropertyV {
                                                name: toks[4],
                                                ty: PropType::List(ct, it),
                                            },
                                        ),
                                    },
                                ),
                            ),
                            _ => Err(ParseError::BadHeaderLine),
                        }
                    } else {
                        Err(ParseError::BadHeaderLine)
                    }
                },
            }
        } else if toks[0] == KW_END_HEADER@ {
            let els2 = match cur {
                Some(c) => elements.push(c),
                None => elements,
            };
            match fmt {
                Some(f) => Ok((HeaderV { format: f, elements: els2 }, next)),
                None => Err(ParseError::BadFormatLine),
            }
        } else {
            Err(ParseError::BadHeaderLine)
        }
    }
}

#[via_fn]
proof fn spec_header_lines_decreases(
    s: Seq<u8>,
    off: int,
    fmt: Option<Format>,
    elements: Seq<ElementV>,
    cur: Option<ElementV>,
) {
    if 0 <= off < s.len() {
        let t = s.skip(off);
        lemma_line_len_le(t);
        if line_len(t) == 0 {
            assert(t[0] == 10);
            assert(t[0] == s[off]);
        }
    }
}

/// The meaning of a whole header: the magic line, then the declaration lines.
pub open spec fn spec_parse_header(s: Seq<u8>) -> Result<(HeaderV, int), ParseError> {
    let e0 = line_len(s) as int;
    let t0 = spec_tokens(s.subrange(0, e0));
    if !(t0.len() == 1 && t0[0] == KW_PLY@) {
        Err(ParseError::BadMagic)
    } else if e0 == s.len() {
        Err(ParseError::MissingEndHeader)
    } else {
        spec_header_lines(s, e0 + 1, None, seq![], None)
    }
}

} // verus!

verus! {

use vstd::arithmetic::div_mod::{lemma_fundamental_div_mod, lemma_mod_bound};

// --- the reference meaning of a whole document ---------------------------------
// The two parse entry points state that their whole result equals a reference
// walk over the parsed header's elements, so a parsed mesh — or the rejection
// — is a function of the document bytes alone.

/// Which position field of a record component `r` of a triple names.
pub open spec fn coord_off(lay: VertexLayout, r: int) -> int {
    if r == 0 {
        lay.x as int
    } else if r == 1 {
        lay.y as int
    } else {
        lay.z as int
    }
}

/// Which normal field of a record component `r` of a triple names.
pub open spec fn normal_off(lay: VertexLayout, r: int) -> int {
    if r == 0 {
        lay.nx as int
    } else if r == 1 {
        lay.ny as int
    } else {
        lay.nz as int
    }
}

/// Which color byte of a record component `r` of a triple names.
pub open spec fn color_off(lay: VertexLayout, r: int) -> int {
    if r == 0 {
        lay.red as int
    } else if r == 1 {
        lay.green as int
    } else {
        lay.blue as int
    }
}

/// The flattened position components of `nv` records starting at `base`.
pub open spec fn spec_positions(s: Seq<u8>, base: int, nv: int, lay: VertexLayout, le: bool) -> Seq<
    u32,
> {
    Seq::new((3 * nv) as nat, |k: int| u32_at(s, base + (k / 3) * lay.stride + coord_off(lay, k % 3), le) as u32)
}

/// The flattened normal components of `nv` records starting at `base`.
pub open spec fn spec_normals(s: Seq<u8>, base: int, nv: int, lay: VertexLayout, le: bool) -> Seq<
    u32,
> {
    Seq::new((3 * nv) as nat, |k: int| u32_at(s, base + (k / 3) * lay.stride + normal_off(lay, k % 3), le) as u32)
}

/// The flattened, normalized color components of `nv` records at `base`.
pub open spec fn spec_colors(s: Seq<u8>, base: int, nv: int, lay: VertexLayout, le: bool) -> Seq<
    u32,
> {
    Seq::new((3 * nv) as nat, |k: int| spec_unorm(s[base + (k / 3) * lay.stride + color_off(lay, k % 3)]))
}

/// The three attribute arrays that a vertex element's payload determines, or
/// the rejection of a payload too short for its records.
pub open spec fn spec_vertex_data(s: Seq<u8>, base: int, nv: int, lay: VertexLayout, le: bool) -> Result<
    (Seq<u32>, Seq<u32>, Seq<u32>),
    ParseError,
> {
    if base + nv * lay.stride > s.len() {
        Err(ParseError::TruncatedPayload)
    } else {
        Ok(
            (
                spec_positions(s, base, nv, lay, le),
                spec_normals(s, base, nv, lay, le),
                spec_colors(s, base, nv, lay, le),
            ),
        )
    }
}

/// The ghost picture of the vertex data gathered so far in a walk.
pub open spec fn vdata_view(v: Option<(Vec<u32>, Vec<u32>, Vec<u32>)>) -> Option<
    (Seq<u32>, Seq<u32>, Seq<u32>),
> {
    match v {
        Some(t) => Some((t.0@, t.1@, t.2@)),
        None => None,
    }
}

/// The ghost picture of the index data gathered so far in a walk.
pub open spec fn idx_view(v: Option<Vec<u16>>) -> Option<Seq<u16>> {
    match v {
        Some(t) => Some(t@),
        None => None,
    }
}

/// The ghost picture of a decoded mesh.
pub struct MeshV {
    pub vertices: Seq<u32>,
    pub normals: Seq<u32>,
    pub colors: Seq<u32>,
    pub indices: Seq<u16>,
}

/// The meaning of a binary payload, element by element in declaration order:
/// the first `vertex` element yields the attribute arrays, the first `face`
/// element yields the flattened index list, any other all-scalar element is
/// skipped by its width; what each step yields or rejects comes from the
/// reference layout and decode functions.
pub open spec fn spec_element_walk(
    s: Seq<u8>,
    els: Seq<ElementV>,
    off: int,
    le: bool,
    vdata: Option<(Seq<u32>, Seq<u32>, Seq<u32>)>,
    nv: u32,
    indices: Option<Seq<u16>>,
) -> Result<MeshV, ParseError>
    decreases els.len(),
{
    if els.len() == 0 {
        match (vdata, indices) {
            (Some(t), Some(idx)) => Ok(
                MeshV { vertices: t.0, normals: t.1, colors: t.2, indices: idx },
            ),
            (None, _) => Err(ParseError::MissingVertexElement),
            (_, None) => Err(ParseError::MissingFaceElement),
        }
    } else {
        let el = els[0];
        let rest = els.drop_first();
        if el.name == KW_VERTEX@ && vdata is None {
            match spec_vertex_layout(el.props) {
                Err(e) => Err(e),
                Ok(lay) => match spec_vertex_data(s, off, el.count as int, lay, le) {
                    Err(e) => Err(e),
                    Ok(t) => spec_element_walk(
                        s,
                        rest,
                        off + (el.count as int) * lay.stride,
                        le,
                        Some(t),
                        el.count,
                        indices,
                    ),
                },
            }
        } else if el.name == KW_FACE@ && indices is None {
            if vdata is None {
                Err(ParseError::UnsupportedSchema)
            } else {
                match spec_face_layout(el.props) {
                    Err(e) => Err(e),
                    Ok(flay) => match spec_faces(s, off, el.count as nat, flay, nv as int, le) {
                        Err(e) => Err(e),
                        Ok(p) => spec_element_walk(s, rest, p.1, le, vdata, nv, Some(p.0)),
                    },
                }
            }
        } else {
            match spec_element_stride(el.props) {
                Err(e) => Err(e),
                Ok(stride) => if off + (el.count as int) * stride > s.len() {
                    Err(ParseError::TruncatedPayload)
                } else {
                    spec_element_walk(
                        s,
                        rest,
                        off + (el.count as int) * stride,
                        le,
                        vdata,
                        nv,
                        indices,
                    )
                },
            }
        }
    }
}

/// The meaning of a whole binary document: header, then its elements'
/// payloads; a text document is referred to the text entry point.
pub open spec fn spec_parse_mesh(s: Seq<u8>) -> Result<MeshV, ParseError> {
    match spec_parse_header(s) {
        Err(e) => Err(e),
        Ok(p) => match p.0.format {
            Format::Ascii => Err(ParseError::AsciiPayload),
            Format::BinaryLittleEndian => spec_element_walk(s, p.0.elements, p.1, true, None, 0, None),
            Format::BinaryBigEndian => spec_element_walk(s, p.0.elements, p.1, false, None, 0, None),
        },
    }
}

} // verus!

verus! {

// --- the reference meaning of a text document -----------------------------------

/// Which position token of a record component `r` of a triple names.
pub open spec fn tok_coord_off(lay: TokenLayout, r: int) -> int {
    if r == 0 {
        lay.x as int
    } else if r == 1 {
        lay.y as int
    } else {
        lay.z as int
    }
}

/// Which normal token of a record component `r` of a triple names.
pub open spec fn tok_normal_off(lay: TokenLayout, r: int) -> int {
    if r == 0 {
        lay.nx as int
    } else if r == 1 {
        lay.ny as int
    } else {
        lay.nz as int
    }
}

/// Which color token of a record component `r` of a triple names.
pub open spec fn tok_color_off(lay: TokenLayout, r: int) -> int {
    if r == 0 {
        lay.red as int
    } else if r == 1 {
        lay.green as int
    } else {
        lay.blue as int
    }
}

/// The flattened position tokens of `nv` text records starting at `tbase`.
pub open spec fn spec_position_tokens(tv: Seq<Seq<u8>>, tbase: int, nv: int, lay: TokenLayout) -> Seq<
    Seq<u8>,
> {
    Seq::new((3 * nv) as nat, |k: int| tv[tbase + (k / 3) * lay.nprops + tok_coord_off(lay, k % 3)])
}

/// The flattened normal tokens of `nv` text records starting at `tbase`.
pub open spec fn spec_normal_tokens(tv: Seq<Seq<u8>>, tbase: int, nv: int, lay: TokenLayout) -> Seq<
    Seq<u8>,
> {
    Seq::new((3 * nv) as nat, |k: int| tv[tbase + (k / 3) * lay.nprops + tok_normal_off(lay, k % 3)])
}

/// The flattened, normalized color values of `nv` text records at `tbase`.
pub open spec fn spec_ascii_color_values(
    tv: Seq<Seq<u8>>,
    tbase: int,
    nv: int,
    lay: TokenLayout,
) -> Seq<u32> {
    Seq::new(
        (3 * nv) as nat,
        |k: int| spec_unorm(
            spec_ascii_channel(tv[tbase + (k / 3) * lay.nprops + tok_color_off(lay, k % 3)]).unwrap(),
        ),
    )
}

/// Whether a text record's three color tokens are readable channel bytes.
pub open spec fn ascii_channels_ok(tv: Seq<Seq<u8>>, ro: int, lay: TokenLayout) -> bool {
    &&& spec_ascii_channel(tv[ro + lay.red]) is Some
    &&& spec_ascii_channel(tv[ro + lay.green]) is Some
    &&& spec_ascii_channel(tv[ro + lay.blue]) is Some
}

/// The captured tokens and decoded colors that a text vertex element's
/// records determine, or the rejection: a stream too short for the records,
/// or some color token that is not a channel byte.
pub open spec fn spec_ascii_vertex_data(tv: Seq<Seq<u8>>, tbase: int, nv: int, lay: TokenLayout) -> Result<
    (Seq<Seq<u8>>, Seq<Seq<u8>>, Seq<u32>),
    ParseError,
> {
    if tbase + nv * lay.nprops > tv.len() {
        Err(ParseError::TruncatedPayload)
    } else if exists|i: int|
        0 <= i < nv && !(#[trigger] ascii_channels_ok(tv, tbase + i * lay.nprops, lay)) {
        Err(ParseError::BadCount)
    } else {
        Ok(
            (
                spec_position_tokens(tv, tbase, nv, lay),
                spec_normal_tokens(tv, tbase, nv, lay),
                spec_ascii_color_values(tv, tbase, nv, lay),
            ),
        )
    }
}

/// The ghost picture of a decoded text document.
pub struct AsciiGeomV {
    pub position_tokens: Seq<Seq<u8>>,
    pub normal_tokens: Seq<Seq<u8>>,
    pub colors: Seq<u32>,
    pub indices: Seq<u16>,
}

/// The ghost picture of the vertex data gathered so far in a text walk.
pub open spec fn avdata_view(v: Option<(Vec<Vec<u8>>, Vec<Vec<u8>>, Vec<u32>)>) -> Option<
    (Seq<Seq<u8>>, Seq<Seq<u8>>, Seq<u32>),
> {
    match v {
        Some(t) => Some(
            (t.0@.map_values(|x: Vec<u8>| x@), t.1@.map_values(|x: Vec<u8>| x@), t.2@),
        ),
        None => None,
    }
}

/// The meaning of a text payload's token stream, element by element in
/// declaration order, with the same structure as the binary walk.
pub open spec fn spec_ascii_walk(
    tv: Seq<Seq<u8>>,
    els: Seq<ElementV>,
    ti: int,
    vdata: Option<(Seq<Seq<u8>>, Seq<Seq<u8>>, Seq<u32>)>,
    nv: u32,
    indices: Option<Seq<u16>>,
) -> Result<AsciiGeomV, ParseError>
    decreases els.len(),
{
    if els.len() == 0 {
        match (vdata, indices) {
            (Some(t), Some(idx)) => Ok(
                AsciiGeomV {
                    position_tokens: t.0,
                    normal_tokens: t.1,
                    colors: t.2,
                    indices: idx,
                },
            ),
            (None, _) => Err(ParseError::MissingVertexElement),
            (_, None) => Err(ParseError::MissingFaceElement),
        }
    } else {
        let el = els[0];
        let rest = els.drop_first();
        if el.name == KW_VERTEX@ && vdata is None {
            match spec_ascii_vertex_layout(el.props) {
                Err(e) => Err(e),
                Ok(lay) => match spec_ascii_vertex_data(tv, ti, el.count as int, lay) {
                    Err(e) => Err(e),
                    Ok(t) => spec_ascii_walk(
                        tv,
                        rest,
                        ti + (el.count as int) * lay.nprops,
                        Some(t),
                        el.count,
                        indices,
                    ),
                },
            }
        } else if el.name == KW_FACE@ && indices is None {
            if vdata is None {
                Err(ParseError::UnsupportedSchema)
            } else {
                match spec_ascii_face_layout(el.props) {
                    Err(e) => Err(e),
                    Ok(l) => match spec_ascii_faces(
                        tv,
                        ti,
                        el.count as nat,
                        l.0 as int,
                        l.1 as int,
                        nv as int,
                    ) {
                        Err(e) => Err(e),
                        Ok(p) => spec_ascii_walk(tv, rest, p.1, vdata, nv, Some(p.0)),
                    },
                }
            }
        } else {
            match spec_element_token_count(el.props) {
                Err(e) => Err(e),
                Ok(cnt) => if ti + (el.count as int) * cnt > tv.len() {
                    Err(ParseError::TruncatedPayload)
                } else {
                    spec_ascii_walk(tv, rest, ti + (el.count as int) * cnt, vdata, nv, indices)
                },
            }
        }
    }
}

/// The meaning of a whole text document: header, then the payload's one
/// token stream; a binary document is referred to the binary entry point.
pub open spec fn spec_parse_ascii(s: Seq<u8>) -> Result<AsciiGeomV, ParseError> {
    match spec_parse_header(s) {
        Err(e) => Err(e),
        Ok(p) => match p.0.format {
            Format::Ascii => spec_ascii_walk(spec_tokens(s.skip(p.1)), p.0.elements, 0, None, 0, None),
            Format::BinaryLittleEndian => Err(ParseError::BinaryPayload),
            Format::BinaryBigEndian => Err(ParseError::BinaryPayload),
        },
    }
}

} // verus!
