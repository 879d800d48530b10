//! Metadata tag atoms: the typed payloads of a container's user-data list
//! and the byte-level parsing rules for them.

use vstd::prelude::*;
use vstd::string::StringExecFns;

verus! {

/// The well-known data types a metadata tag atom's payload may carry.
#[derive(Copy, Clone, PartialEq, Eq, Structural, Debug)]
pub enum DataType {
    AffineTransformF64,
    Bmp,
    DimensionsF32,
    Float32,
    Float64,
    Jpeg,
    NoType,
    Png,
    PointF32,
    QuickTimeMetadata,
    RectF32,
    ShiftJis,
    SignedInt16,
    SignedInt32,
    SignedInt64,
    SignedInt8,
    SignedIntVariable,
    UnsignedInt16,
    UnsignedInt32,
    UnsignedInt64,
    UnsignedInt8,
    UnsignedIntVariable,
    Utf16,
    Utf16Sort,
    Utf8,
    Utf8Sort,
    /// A data type code this reader does not know.
    Unknown(u32),
}

/// The data type a well-known type code denotes.
pub open spec fn data_type_of(value: u32) -> DataType {
    if value == 0 {
        DataType::NoType
    } else if value == 1 {
        DataType::Utf8
    } else if value == 2 {
        DataType::Utf16
    } else if value == 3 {
        DataType::ShiftJis
    } else if value == 4 {
        DataType::Utf8Sort
    } else if value == 5 {
        DataType::Utf16Sort
    } else if value == 13 {
        DataType::Jpeg
    } else if value == 14 {
        DataType::Png
    } else if value == 21 {
        DataType::SignedIntVariable
    } else if value == 22 {
        DataType::UnsignedIntVariable
    } else if value == 23 {
        DataType::Float32
    } else if value == 24 {
        DataType::Float64
    } else if value == 27 {
        DataType::Bmp
    } else if value == 28 {
        DataType::QuickTimeMetadata
    } else if value == 65 {
        DataType::SignedInt8
    } else if value == 66 {
        DataType::SignedInt16
    } else if value == 67 {
        DataType::SignedInt32
    } else if value == 70 {
        DataType::PointF32
    } else if value == 71 {
        DataType::DimensionsF32
    } else if value == 72 {
        DataType::RectF32
    } else if value == 74 {
        DataType::SignedInt64
    } else if value == 75 {
        DataType::UnsignedInt8
    } else if value == 76 {
        DataType::UnsignedInt16
    } else if value == 77 {
        DataType::UnsignedInt32
    } else if value == 78 {
        DataType::UnsignedInt64
    } else if value == 79 {
        DataType::AffineTransformF64
    } else {
        DataType::Unknown(value)
    }
}

impl From<u32> for DataType {
    /// Decodes a data type code.
    fn from(value: u32) -> (r: DataType) {
        if value == 0 {
            DataType::NoType
        } else if value == 1 {
            DataType::Utf8
        } else if value == 2 {
            DataType::Utf16
        } else if value == 3 {
            DataType::ShiftJis
        } else if value == 4 {
            DataType::Utf8Sort
        } else if value == 5 {
            DataType::Utf16Sort
        } else if value == 13 {
            DataType::Jpeg
        } else if value == 14 {
            DataType::Png
        } else if value == 21 {
            DataType::SignedIntVariable
        } else if value == 22 {
            DataType::UnsignedIntVariable
        } else if value == 23 {
            DataType::Float32
        } else if value == 24 {
            DataType::Float64
        } else if value == 27 {
            DataType::Bmp
        } else if value == 28 {
            DataType::QuickTimeMetadata
        } else if value == 65 {
            DataType::SignedInt8
        } else if value == 66 {
            DataType::SignedInt16
        } else if value == 67 {
            DataType::SignedInt32
        } else if value == 70 {
            DataType::PointF32
        } else if value == 71 {
            DataType::DimensionsF32
        } else if value == 72 {
            DataType::RectF32
        } else if value == 74 {
            DataType::SignedInt64
        } else if value == 75 {
            DataType::UnsignedInt8
        } else if value == 76 {
            DataType::UnsignedInt16
        } else if value == 77 {
            DataType::UnsignedInt32
        } else if value == 78 {
            DataType::UnsignedInt64
        } else if value == 79 {
            DataType::AffineTransformF64
        } else {
            DataType::Unknown(value)
        }
    }
}

impl vstd::std_specs::convert::FromSpecImpl<u32> for DataType {
    open spec fn obeys_from_spec() -> bool {
        true
    }

    open spec fn from_spec(value: u32) -> DataType {
        data_type_of(value)
    }
}

/// The errors the metadata atom parsers report.
#[derive(Copy, Clone, PartialEq, Eq, Structural, Debug)]
pub enum MetaError {
    /// The atom payload is shorter than its fixed leader.
    Truncated,
    /// The data atom's version is not the one known version, zero.
    InvalidVersion,
}

/// The unsigned value big-endian bytes encode.
pub open spec fn be_value(s: Seq<u8>) -> nat
    decreases s.len(),
{
    if s.len() == 0 {
        0
    } else {
        be_value(s.drop_last()) * 0x100 + s.last() as nat
    }
}

/// 256 to the power `n`.
pub open spec fn pow256(n: nat) -> nat
    decreases n,
{
    if n == 0 {
        1
    } else {
        0x100 * pow256((n - 1) as nat)
    }
}

/// The signed reading of an unsigned `len`-byte value: the value itself in
/// the lower half of the range, the value less `256^len` in the upper.
pub open spec fn sign_extended(v: nat, len: nat) -> int {
    if 2 * v < pow256(len) {
        v as int
    } else {
        v - pow256(len)
    }
}

/// Parses a variable sized big-endian signed integer, which may be between
/// 1 and 4 bytes; any other length yields nothing.
pub fn parse_var_signed_int(data: &[u8]) -> (r: Option<i32>)
    ensures
        r is Some <==> 1 <= data@.len() <= 4,
        r matches Some(v) ==> v == sign_extended(be_value(data@), data@.len()),
{
    let len: usize = data.len();
    if len == 0 || len > 4 {
        return None;
    }
    let mut acc: u32 = 0;
    let mut i: usize = 0;
    while i < len
        invariant
            i <= len,
            len == data@.len(),
            1 <= len <= 4,
            acc as nat == be_value(data@.take(i as int)),
            (acc as nat) < pow256(i as nat),
        decreases len - i,
    {
        proof {
            assert(data@.take(i + 1).drop_last() =~= data@.take(i as int));
            assert(pow256((i + 1) as nat) == 0x100 * pow256(i as nat));
            assert(pow256(i as nat) <= pow256(3)) by {
                reveal_with_fuel(pow256, 5);
            }
        }
        let b: u8 = *vstd::slice::slice_index_get(data, i);
        acc = acc * 0x100 + b as u32;
        i = i + 1;
    }
    proof {
        assert(data@.take(len as int) =~= data@);
        reveal_with_fuel(pow256, 5);
    }
    let m: u64 = if len == 1 {
        0x100
    } else if len == 2 {
        0x10000
    } else if len == 3 {
        0x1000000
    } else {
        0x100000000
    };
    if (acc as u64) < m / 2 {
        Some(acc as i32)
    } else {
        Some(((acc as i64) - (m as i64)) as i32)
    }
}

/// A metadata tag data atom: one typed payload of a tag.
#[derive(Debug)]
pub struct MetaTagDataAtom {
    /// Tag data.
    pub data: Vec<u8>,
    /// The data type contained in `data`.
    pub data_type: DataType,
}

impl MetaTagDataAtom {
    /// Reads a data atom from its payload bytes: a one-byte version that
    /// must be zero, a three-byte big-endian data type code, four bytes of
    /// country and language codes that are ignored, and the data itself.
    pub fn read(payload: &[u8]) -> (r: Result<MetaTagDataAtom, MetaError>)
        ensures
            r is Ok <==> payload@.len() >= 8 && payload@[0] == 0,
            r matches Ok(a) ==> a.data_type == data_type_of(
                be_value(payload@.subrange(1, 4)) as u32,
            ) && a.data@ == payload@.skip(8),
            payload@.len() < 8 ==> r == Result::<MetaTagDataAtom, MetaError>::Err(
                MetaError::Truncated,
            ),
            payload@.len() >= 8 && payload@[0] != 0 ==> r == Result::<
                MetaTagDataAtom,
                MetaError,
            >::Err(MetaError::InvalidVersion),
    {
        let n: usize = payload.len();
        if n < 8 {
            return Err(MetaError::Truncated);
        }
        let version: u8 = *vstd::slice::slice_index_get(payload, 0);
        if version != 0 {
            return Err(MetaError::InvalidVersion);
        }
        let b1: u8 = *vstd::slice::slice_index_get(payload, 1);
        let b2: u8 = *vstd::slice::slice_index_get(payload, 2);
        let b3: u8 = *vstd::slice::slice_index_get(payload, 3);
        let flags: u32 = (b1 as u32) * 0x10000 + (b2 as u32) * 0x100 + (b3 as u32);
        proof {
            let f = payload@.subrange(1, 4);
            let s2 = payload@.subrange(1, 3);
            let s1 = payload@.subrange(1, 2);
            let s0 = payload@.subrange(1, 1);
            assert(f.drop_last() =~= s2);
            assert(s2.drop_last() =~= s1);
            assert(s1.drop_last() =~= s0);
            assert(be_value(s0) == 0);
            assert(s1.last() == b1);
            assert(be_value(s1) == b1 as nat);
            assert(s2.last() == b2);
            assert(be_value(s2) == (b1 as nat) * 0x100 + b2 as nat);
            assert(f.last() == b3);
            assert(be_value(f) == (b1 as nat) * 0x10000 + (b2 as nat) * 0x100 + b3 as nat);
        }
        let data_type = DataType::from(flags);
        let mut data: Vec<u8> = Vec::new();
        let mut i: usize = 8;
        while i < n
            invariant
                8 <= i <= n,
                n == payload@.len(),
                data@ =~= payload@.subrange(8, i as int),
            decreases n - i,
        {
            data.push(*vstd::slice::slice_index_get(payload, i));
            proof {
                assert(payload@.subrange(8, i as int).push(payload@[i as int]) =~= payload@.subrange(
                    8,
                    i + 1,
                ));
            }
            i = i + 1;
        }
        proof {
            assert(payload@.subrange(8, n as int) =~= payload@.skip(8));
        }
        Ok(MetaTagDataAtom { data, data_type })
    }
}

/// The characters a byte sequence decodes to under lossy UTF-8 decoding:
/// invalid sequences become replacement characters. The result depends on
/// the bytes alone.
pub uninterp spec fn utf8_lossy_of(s: Seq<u8>) -> Seq<char>;

/// Relies on `String::from_utf8_lossy`: it decodes UTF-8, replacing
/// invalid sequences with U+FFFD, and the result is a function of the
/// bytes alone. An empty input decodes to an empty string.
#[verifier::external_body]
fn utf8_lossy(bytes: &[u8]) -> (r: String)
    ensures
        r@ == utf8_lossy_of(bytes@),
        bytes@.len() == 0 ==> r@.len() == 0,
{
    String::from_utf8_lossy(bytes).to_string()
}

/// A metadata tag name or namespace atom. For a namespace atom the value
/// is the key namespace; for a name atom it is the key name.
#[derive(Debug)]
pub struct MetaTagNamespaceAtom {
    /// The namespace or name this atom carries.
    pub value: String,
}

impl MetaTagNamespaceAtom {
    /// Reads a name or namespace atom from its payload bytes: a four-byte
    /// version-and-flags leader, then the value, decoded as UTF-8 with
    /// invalid sequences replaced rather than rejected, so that metadata
    /// never stops a demuxer from working.
    pub fn read(payload: &[u8]) -> (r: Result<MetaTagNamespaceAtom, MetaError>)
        ensures
            r is Ok <==> payload@.len() >= 4,
            r matches Ok(a) ==> a.value@ == utf8_lossy_of(payload@.skip(4)),
            payload@.len() < 4 ==> r == Result::<MetaTagNamespaceAtom, MetaError>::Err(
                MetaError::Truncated,
            ),
    {
        let n: usize = payload.len();
        if n < 4 {
            return Err(MetaError::Truncated);
        }
        let rest = vstd::slice::slice_subrange(payload, 4, n);
        proof {
            assert(rest@ =~= payload@.skip(4));
        }
        Ok(MetaTagNamespaceAtom { value: utf8_lossy(rest) })
    }
}

/// A generic metadata tag atom: its values and its optional user-defined
/// key namespace and name.
pub struct MetaTagAtom {
    /// Tag value(s).
    pub values: Vec<MetaTagDataAtom>,
    /// Optional, tag key namespace.
    pub mean: Option<MetaTagNamespaceAtom>,
    /// Optional, tag key name.
    pub name: Option<MetaTagNamespaceAtom>,
}

/// The full key of a tag atom: the namespace and name joined by a colon
/// when either is present, and empty otherwise.
pub open spec fn full_name_sp(atom: MetaTagAtom) -> Seq<char> {
    if atom.mean is Some || atom.name is Some {
        (match atom.mean {
            Some(m) => m.value@,
            None => Seq::empty(),
        }) + seq![':'] + (match atom.name {
            Some(n) => n.value@,
            None => Seq::empty(),
        })
    } else {
        Seq::empty()
    }
}

impl MetaTagAtom {
    /// Gets the tag's full key, joining the optional namespace and name
    /// with a colon; a tag with neither has an empty full key.
    pub fn full_name(&self) -> (r: String)
        ensures
            r@ == full_name_sp(*self),
    {
        let mut full_name = String::new();
        if self.mean.is_some() || self.name.is_some() {
            match &self.mean {
                Some(mean) => {
                    full_name.append(mean.value.as_str());
                },
                None => {},
            }
            full_name.append(":");
            match &self.name {
                Some(name) => {
                    full_name.append(name.value.as_str());
                },
                None => {},
            }
            proof {
                reveal_strlit(":");
                assert(":"@ =~= seq![':']);
                assert(full_name@ =~= full_name_sp(*self));
            }
        }
        full_name
    }
}

} // verus!
verus! {

/// Extracts an m-of-n pair (a track or disk number and its total) from a
/// tag value: such a value is an eight-byte buffer whose fourth and sixth
/// bytes carry the number and the total.
pub fn parse_m_of_n(data: &[u8]) -> (r: Option<(u8, u8)>)
    ensures
        r is Some <==> data@.len() == 8,
        r matches Some(p) ==> p.0 == data@[3] && p.1 == data@[5],
{
    if data.len() == 8 {
        Some((*vstd::slice::slice_index_get(data, 3), *vstd::slice::slice_index_get(data, 5)))
    } else {
        None
    }
}

/// Decides whether a boolean tag value is set: boolean tags are flags, and
/// only a leading byte of exactly one counts as set.
pub fn parse_boolean_flag(data: &[u8]) -> (r: bool)
    ensures
        r <==> data@.len() > 0 && data@[0] == 1,
{
    if data.len() > 0 {
        *vstd::slice::slice_index_get(data, 0) == 1
    } else {
        false
    }
}

/// The media format name a media type tag's code denotes.
pub open spec fn media_format_name_sp(code: u8) -> Seq<char> {
    if code == 0 {
        "Movie"@
    } else if code == 1 {
        "Normal"@
    } else if code == 2 {
        "Audio Book"@
    } else if code == 5 {
        "Whacked Bookmark"@
    } else if code == 6 {
        "Music Video"@
    } else if code == 9 {
        "Short Film"@
    } else if code == 10 {
        "TV Show"@
    } else if code == 11 {
        "Booklet"@
    } else {
        "Unknown"@
    }
}

/// Names the media format a media type tag's code denotes.
pub fn media_format_name(code: u8) -> (r: &'static str)
    ensures
        r@ == media_format_name_sp(code),
{
    if code == 0 {
        "Movie"
    } else if code == 1 {
        "Normal"
    } else if code == 2 {
        "Audio Book"
    } else if code == 5 {
        "Whacked Bookmark"
    } else if code == 6 {
        "Music Video"
    } else if code == 9 {
        "Short Film"
    } else if code == 10 {
        "TV Show"
    } else if code == 11 {
        "Booklet"
    } else {
        "Unknown"
    }
}

} // verus!
