//! The engine's type system: runtime type tags, their storage widths, and
//! the byte-level codecs used by the column row storage.
//!
//! Fixed-width values are stored inline, little-endian; signed integers use
//! an order-preserving biased encoding; floating-point columns carry raw
//! bit patterns (`u32`/`u64`), conversion to a float value being the
//! caller's affair.  Variable-length values (text, blobs) store a
//! [`RawData`] record inline: the location of the value's bytes in the
//! owning column's arena.

use vstd::bytes::*;
use vstd::prelude::*;

verus! {

/// Runtime type tag of a column.
#[derive(Clone, Copy, PartialEq, Eq, Structural, Debug)]
pub enum Type {
    UINT32,
    UINT64,
    INT32,
    INT64,
    FLOAT32,
    FLOAT64,
    BOOLEAN,
    TEXT,
    BLOB,
}

impl Type {
    /// Width in bytes of one stored row of this type.
    pub open spec fn spec_size_of(self) -> nat {
        match self {
            Type::UINT32 => 4,
            Type::UINT64 => 8,
            Type::INT32 => 4,
            Type::INT64 => 8,
            Type::FLOAT32 => 4,
            Type::FLOAT64 => 8,
            Type::BOOLEAN => 1,
            Type::TEXT => 24,
            Type::BLOB => 24,
        }
    }

    /// Variable-length types store their payload in the column's arena.
    pub open spec fn spec_is_varlen(self) -> bool {
        self == Type::TEXT || self == Type::BLOB
    }

    pub open spec fn spec_name(self) -> Seq<char> {
        match self {
            Type::UINT32 => "UINT32"@,
            Type::UINT64 => "UINT64"@,
            Type::INT32 => "INT32"@,
            Type::INT64 => "INT64"@,
            Type::FLOAT32 => "FLOAT32"@,
            Type::FLOAT64 => "FLOAT64"@,
            Type::BOOLEAN => "BOOLEAN"@,
            Type::TEXT => "TEXT"@,
            Type::BLOB => "BLOB"@,
        }
    }

    pub fn name(self) -> (r: &'static str)
        ensures
            r@ == self.spec_name(),
    {
        match self {
            Type::UINT32 => "UINT32",
            Type::UINT64 => "UINT64",
            Type::INT32 => "INT32",
            Type::INT64 => "INT64",
            Type::FLOAT32 => "FLOAT32",
            Type::FLOAT64 => "FLOAT64",
            Type::BOOLEAN => "BOOLEAN",
            Type::TEXT => "TEXT",
            Type::BLOB => "BLOB",
        }
    }

    pub fn size_of(self) -> (s: usize)
        ensures
            s == self.spec_size_of(),
    {
        match self {
            Type::UINT32 => 4,
            Type::UINT64 => 8,
            Type::INT32 => 4,
            Type::INT64 => 8,
            Type::FLOAT32 => 4,
            Type::FLOAT64 => 8,
            Type::BOOLEAN => 1,
            Type::TEXT => 24,
            Type::BLOB => 24,
        }
    }

    pub fn is_varlen(self) -> (b: bool)
        ensures
            b == self.spec_is_varlen(),
    {
        match self {
            Type::TEXT => true,
            Type::BLOB => true,
            _ => false,
        }
    }

    /// Parse a type tag from its name; an unrecognised name is reported
    /// as an `UnknownType` error.
    pub fn from_str(s: &str) -> (r: Result<Type, crate::error::DBError>)
        ensures
            r matches Ok(t) ==> t.spec_name() == s@,
            r matches Err(e) ==> {
                &&& forall|t: Type| #[trigger] t.spec_name() != s@
                &&& (e matches crate::error::DBError::UnknownType(u) && u@ == s@)
            },
    {
        let owned = s.to_owned();
        let r = if owned == String::from_str("UINT32") {
            Ok(Type::UINT32)
        } else if owned == String::from_str("UINT64") {
            Ok(Type::UINT64)
        } else if owned == String::from_str("INT32") {
            Ok(Type::INT32)
        } else if owned == String::from_str("INT64") {
            Ok(Type::INT64)
        } else if owned == String::from_str("FLOAT32") {
            Ok(Type::FLOAT32)
        } else if owned == String::from_str("FLOAT64") {
            Ok(Type::FLOAT64)
        } else if owned == String::from_str("BOOLEAN") {
            Ok(Type::BOOLEAN)
        } else if owned == String::from_str("TEXT") {
            Ok(Type::TEXT)
        } else if owned == String::from_str("BLOB") {
            Ok(Type::BLOB)
        } else {
            Err(crate::error::DBError::UnknownType(owned))
        };
        proof {
            if r is Err {
                assert forall|t: Type| #[trigger] t.spec_name() != s@ by {
                    match t {
                        Type::UINT32 => assert(t.spec_name() != s@),
                        Type::UINT64 => assert(t.spec_name() != s@),
                        Type::INT32 => assert(t.spec_name() != s@),
                        Type::INT64 => assert(t.spec_name() != s@),
                        Type::FLOAT32 => assert(t.spec_name() != s@),
                        Type::FLOAT64 => assert(t.spec_name() != s@),
                        Type::BOOLEAN => assert(t.spec_name() != s@),
                        Type::TEXT => assert(t.spec_name() != s@),
                        Type::BLOB => assert(t.spec_name() != s@),
                    }
                }
            }
        }
        r
    }
}

/// Row record of a variable-length value: the location of its bytes in
/// the owning column's arena, and their count.
#[derive(Clone, Copy, PartialEq, Eq, Structural, Debug)]
pub struct RawData {
    /// Index of the arena chunk holding the bytes.
    pub chunk: usize,
    /// Byte offset of the value inside that chunk.
    pub offset: usize,
    /// Length of the value in bytes.
    pub size: usize,
}

/// The 24-byte inline encoding of a [`RawData`] record.
pub open spec fn spec_raw_to_bytes(r: RawData) -> Seq<u8> {
    spec_u64_to_le_bytes(r.chunk as u64) + spec_u64_to_le_bytes(r.offset as u64)
        + spec_u64_to_le_bytes(r.size as u64)
}

pub open spec fn spec_raw_from_bytes(s: Seq<u8>) -> RawData
    recommends
        s.len() == 24,
{
    RawData {
        chunk: spec_u64_from_le_bytes(s.subrange(0, 8)) as usize,
        offset: spec_u64_from_le_bytes(s.subrange(8, 16)) as usize,
        size: spec_u64_from_le_bytes(s.subrange(16, 24)) as usize,
    }
}

/// Decoding an encoded record gives the record back.
pub proof fn lemma_raw_roundtrip(r: RawData)
    ensures
        spec_raw_to_bytes(r).len() == 24,
        spec_raw_from_bytes(spec_raw_to_bytes(r)) == r,
{
    lemma_auto_spec_u64_to_from_le_bytes();
    let s = spec_raw_to_bytes(r);
    assert(s.subrange(0, 8) =~= spec_u64_to_le_bytes(r.chunk as u64));
    assert(s.subrange(8, 16) =~= spec_u64_to_le_bytes(r.offset as u64));
    assert(s.subrange(16, 24) =~= spec_u64_to_le_bytes(r.size as u64));
}

pub fn raw_to_bytes(r: &RawData) -> (b: Vec<u8>)
    ensures
        b@ == spec_raw_to_bytes(*r),
        b@.len() == 24,
{
    proof {
        lemma_auto_spec_u64_to_from_le_bytes();
    }
    let mut out = u64_to_le_bytes(r.chunk as u64);
    let mut mid = u64_to_le_bytes(r.offset as u64);
    let mut tail = u64_to_le_bytes(r.size as u64);
    out.append(&mut mid);
    out.append(&mut tail);
    out
}

pub fn raw_from_bytes(b: &[u8]) -> (r: RawData)
    requires
        b@.len() == 24,
    ensures
        r == spec_raw_from_bytes(b@),
{
    let chunk = u64_from_le_bytes(&b[0..8]);
    let offset = u64_from_le_bytes(&b[8..16]);
    let size = u64_from_le_bytes(&b[16..24]);
    RawData {
        chunk: #[verifier::truncate] (chunk as usize),
        offset: #[verifier::truncate] (offset as usize),
        size: #[verifier::truncate] (size as usize),
    }
}

/// The biased (order-preserving) inline encoding of an `i32`.
pub open spec fn spec_i32_to_le_bytes(v: i32) -> Seq<u8> {
    spec_u32_to_le_bytes((v + 0x8000_0000) as u32)
}

pub open spec fn spec_i32_from_le_bytes(s: Seq<u8>) -> i32
    recommends
        s.len() == 4,
{
    (spec_u32_from_le_bytes(s) - 0x8000_0000) as i32
}

pub proof fn lemma_i32_roundtrip(v: i32)
    ensures
        spec_i32_to_le_bytes(v).len() == 4,
        spec_i32_from_le_bytes(spec_i32_to_le_bytes(v)) == v,
{
    lemma_auto_spec_u32_to_from_le_bytes();
    let x = (v + 0x8000_0000) as u32;
    assert(x == v + 0x8000_0000);
    assert(spec_u32_to_le_bytes(x).len() == 4);
    assert(spec_u32_from_le_bytes(spec_u32_to_le_bytes(x)) == x);
    assert((x - 0x8000_0000) as i32 == v);
}

pub fn i32_to_le_bytes(v: i32) -> (b: Vec<u8>)
    ensures
        b@ == spec_i32_to_le_bytes(v),
        b@.len() == 4,
{
    proof {
        lemma_auto_spec_u32_to_from_le_bytes();
    }
    u32_to_le_bytes(((v as i64) + 0x8000_0000i64) as u32)
}

pub fn i32_from_le_bytes(b: &[u8]) -> (v: i32)
    requires
        b@.len() == 4,
    ensures
        v == spec_i32_from_le_bytes(b@),
{
    let u = u32_from_le_bytes(b);
    ((u as i64) - 0x8000_0000i64) as i32
}

/// The biased (order-preserving) inline encoding of an `i64`.
pub open spec fn spec_i64_to_le_bytes(v: i64) -> Seq<u8> {
    spec_u64_to_le_bytes((v + 0x8000_0000_0000_0000) as u64)
}

pub open spec fn spec_i64_from_le_bytes(s: Seq<u8>) -> i64
    recommends
        s.len() == 8,
{
    (spec_u64_from_le_bytes(s) - 0x8000_0000_0000_0000) as i64
}

pub proof fn lemma_i64_roundtrip(v: i64)
    ensures
        spec_i64_to_le_bytes(v).len() == 8,
        spec_i64_from_le_bytes(spec_i64_to_le_bytes(v)) == v,
{
    lemma_auto_spec_u64_to_from_le_bytes();
}

pub fn i64_to_le_bytes(v: i64) -> (b: Vec<u8>)
    ensures
        b@ == spec_i64_to_le_bytes(v),
        b@.len() == 8,
{
    proof {
        lemma_auto_spec_u64_to_from_le_bytes();
    }
    let shifted: u64 = if v >= 0 {
        (v as u64) + 0x8000_0000_0000_0000u64
    } else {
        ((v + 0x4000_0000_0000_0000i64) + 0x4000_0000_0000_0000i64) as u64
    };
    u64_to_le_bytes(shifted)
}

pub fn i64_from_le_bytes(b: &[u8]) -> (v: i64)
    requires
        b@.len() == 8,
    ensures
        v == spec_i64_from_le_bytes(b@),
{
    let u = u64_from_le_bytes(b);
    if u >= 0x8000_0000_0000_0000u64 {
        (u - 0x8000_0000_0000_0000u64) as i64
    } else {
        ((u as i64) - 0x4000_0000_0000_0000i64) - 0x4000_0000_0000_0000i64
    }
}

/// The 1-byte inline encoding of a `bool`.
pub open spec fn spec_bool_to_le_bytes(v: bool) -> Seq<u8> {
    seq![if v { 1u8 } else { 0u8 }]
}

pub open spec fn spec_bool_from_le_bytes(s: Seq<u8>) -> bool
    recommends
        s.len() == 1,
{
    s[0] != 0
}

pub proof fn lemma_bool_roundtrip(v: bool)
    ensures
        spec_bool_to_le_bytes(v).len() == 1,
        spec_bool_from_le_bytes(spec_bool_to_le_bytes(v)) == v,
{
}

pub fn bool_to_le_bytes(v: bool) -> (b: Vec<u8>)
    ensures
        b@ == spec_bool_to_le_bytes(v),
        b@.len() == 1,
{
    let mut out: Vec<u8> = Vec::new();
    out.push(if v { 1u8 } else { 0u8 });
    proof {
        assert(out@ =~= spec_bool_to_le_bytes(v));
    }
    out
}

pub fn bool_from_le_bytes(b: &[u8]) -> (v: bool)
    requires
        b@.len() == 1,
    ensures
        v == spec_bool_from_le_bytes(b@),
{
    b[0] != 0
}

/// Higher-level metadata about a storable type: its runtime tag, its inline
/// representation, and the decoding of one stored row.
pub trait ValueInfo {
    /// The native representation of one stored row.
    type Store;

    /// The runtime tag this type token stands for.
    spec fn spec_dtype() -> Type;

    /// The value stored in one inline row window.
    spec fn spec_decode(s: Seq<u8>) -> Self::Store;

    /// The inline row window storing a value.
    spec fn spec_encode(v: Self::Store) -> Seq<u8>;

    /// Decoding an encoded value gives the value back, and the encoding
    /// fills one row window exactly.
    proof fn codec_roundtrip(v: Self::Store)
        ensures
            Self::spec_encode(v).len() == Self::spec_dtype().spec_size_of(),
            Self::spec_decode(Self::spec_encode(v)) == v,
    ;

    fn dtype() -> (t: Type)
        ensures
            t == Self::spec_dtype(),
    ;

    fn decode(b: &[u8]) -> (v: Self::Store)
        requires
            b@.len() == Self::spec_dtype().spec_size_of(),
        ensures
            v == Self::spec_decode(b@),
    ;

    fn encode(v: &Self::Store) -> (b: Vec<u8>)
        ensures
            b@ == Self::spec_encode(*v),
            b@.len() == Self::spec_dtype().spec_size_of(),
    ;
}

/// Type token for `Type::UINT32`.
pub struct UInt32;

/// Type token for `Type::UINT64`.
pub struct UInt64;

/// Type token for `Type::INT32`.
pub struct Int32;

/// Type token for `Type::INT64`.
pub struct Int64;

/// Type token for `Type::FLOAT32`; rows decode to raw bit patterns.
pub struct Float32;

/// Type token for `Type::FLOAT64`; rows decode to raw bit patterns.
pub struct Float64;

/// Type token for `Type::BOOLEAN`.
pub struct Boolean;

/// Type token for `Type::TEXT`; rows decode to arena records.
pub struct Text;

/// Type token for `Type::BLOB`; rows decode to arena records.
pub struct Blob;

impl ValueInfo for UInt32 {
    type Store = u32;

    open spec fn spec_dtype() -> Type {
        Type::UINT32
    }

    open spec fn spec_decode(s: Seq<u8>) -> u32 {
        spec_u32_from_le_bytes(s)
    }

    open spec fn spec_encode(v: u32) -> Seq<u8> {
        spec_u32_to_le_bytes(v)
    }

    proof fn codec_roundtrip(v: u32) {
        lemma_auto_spec_u32_to_from_le_bytes();
        assert(spec_u32_to_le_bytes(v).len() == 4);
    }

    fn dtype() -> Type {
        Type::UINT32
    }

    fn decode(b: &[u8]) -> u32 {
        u32_from_le_bytes(b)
    }

    fn encode(v: &u32) -> Vec<u8> {
        u32_to_le_bytes(*v)
    }
}

impl ValueInfo for UInt64 {
    type Store = u64;

    open spec fn spec_dtype() -> Type {
        Type::UINT64
    }

    open spec fn spec_decode(s: Seq<u8>) -> u64 {
        spec_u64_from_le_bytes(s)
    }

    open spec fn spec_encode(v: u64) -> Seq<u8> {
        spec_u64_to_le_bytes(v)
    }

    proof fn codec_roundtrip(v: u64) {
        lemma_auto_spec_u64_to_from_le_bytes();
        assert(spec_u64_to_le_bytes(v).len() == 8);
    }

    fn dtype() -> Type {
        Type::UINT64
    }

    fn decode(b: &[u8]) -> u64 {
        u64_from_le_bytes(b)
    }

    fn encode(v: &u64) -> Vec<u8> {
        u64_to_le_bytes(*v)
    }
}

impl ValueInfo for Int32 {
    type Store = i32;

    open spec fn spec_dtype() -> Type {
        Type::INT32
    }

    open spec fn spec_decode(s: Seq<u8>) -> i32 {
        spec_i32_from_le_bytes(s)
    }

    open spec fn spec_encode(v: i32) -> Seq<u8> {
        spec_i32_to_le_bytes(v)
    }

    proof fn codec_roundtrip(v: i32) {
        lemma_i32_roundtrip(v);
    }

    fn dtype() -> Type {
        Type::INT32
    }

    fn decode(b: &[u8]) -> i32 {
        i32_from_le_bytes(b)
    }

    fn encode(v: &i32) -> Vec<u8> {
        i32_to_le_bytes(*v)
    }
}

impl ValueInfo for Int64 {
    type Store = i64;

    open spec fn spec_dtype() -> Type {
        Type::INT64
    }

    open spec fn spec_decode(s: Seq<u8>) -> i64 {
        spec_i64_from_le_bytes(s)
    }

    open spec fn spec_encode(v: i64) -> Seq<u8> {
        spec_i64_to_le_bytes(v)
    }

    proof fn codec_roundtrip(v: i64) {
        lemma_i64_roundtrip(v);
    }

    fn dtype() -> Type {
        Type::INT64
    }

    fn decode(b: &[u8]) -> i64 {
        i64_from_le_bytes(b)
    }

    fn encode(v: &i64) -> Vec<u8> {
        i64_to_le_bytes(*v)
    }
}

impl ValueInfo for Float32 {
    type Store = u32;

    open spec fn spec_dtype() -> Type {
        Type::FLOAT32
    }

    open spec fn spec_decode(s: Seq<u8>) -> u32 {
        spec_u32_from_le_bytes(s)
    }

    open spec fn spec_encode(v: u32) -> Seq<u8> {
        spec_u32_to_le_bytes(v)
    }

    proof fn codec_roundtrip(v: u32) {
        lemma_auto_spec_u32_to_from_le_bytes();
        assert(spec_u32_to_le_bytes(v).len() == 4);
    }

    fn dtype() -> Type {
        Type::FLOAT32
    }

    fn decode(b: &[u8]) -> u32 {
        u32_from_le_bytes(b)
    }

    fn encode(v: &u32) -> Vec<u8> {
        u32_to_le_bytes(*v)
    }
}

impl ValueInfo for Float64 {
    type Store = u64;

    open spec fn spec_dtype() -> Type {
        Type::FLOAT64
    }

    open spec fn spec_decode(s: Seq<u8>) -> u64 {
        spec_u64_from_le_bytes(s)
    }

    open spec fn spec_encode(v: u64) -> Seq<u8> {
        spec_u64_to_le_bytes(v)
    }

    proof fn codec_roundtrip(v: u64) {
        lemma_auto_spec_u64_to_from_le_bytes();
        assert(spec_u64_to_le_bytes(v).len() == 8);
    }

    fn dtype() -> Type {
        Type::FLOAT64
    }

    fn decode(b: &[u8]) -> u64 {
        u64_from_le_bytes(b)
    }

    fn encode(v: &u64) -> Vec<u8> {
        u64_to_le_bytes(*v)
    }
}

impl ValueInfo for Boolean {
    type Store = bool;

    open spec fn spec_dtype() -> Type {
        Type::BOOLEAN
    }

    open spec fn spec_decode(s: Seq<u8>) -> bool {
        spec_bool_from_le_bytes(s)
    }

    open spec fn spec_encode(v: bool) -> Seq<u8> {
        spec_bool_to_le_bytes(v)
    }

    proof fn codec_roundtrip(v: bool) {
        lemma_bool_roundtrip(v);
    }

    fn dtype() -> Type {
        Type::BOOLEAN
    }

    fn decode(b: &[u8]) -> bool {
        bool_from_le_bytes(b)
    }

    fn encode(v: &bool) -> Vec<u8> {
        bool_to_le_bytes(*v)
    }
}

impl ValueInfo for Text {
    type Store = RawData;

    open spec fn spec_dtype() -> Type {
        Type::TEXT
    }

    open spec fn spec_decode(s: Seq<u8>) -> RawData {
        spec_raw_from_bytes(s)
    }

    open spec fn spec_encode(v: RawData) -> Seq<u8> {
        spec_raw_to_bytes(v)
    }

    proof fn codec_roundtrip(v: RawData) {
        lemma_raw_roundtrip(v);
    }

    fn dtype() -> Type {
        Type::TEXT
    }

    fn decode(b: &[u8]) -> RawData {
        raw_from_bytes(b)
    }

    fn encode(v: &RawData) -> Vec<u8> {
        raw_to_bytes(v)
    }
}

impl ValueInfo for Blob {
    type Store = RawData;

    open spec fn spec_dtype() -> Type {
        Type::BLOB
    }

    open spec fn spec_decode(s: Seq<u8>) -> RawData {
        spec_raw_from_bytes(s)
    }

    open spec fn spec_encode(v: RawData) -> Seq<u8> {
        spec_raw_to_bytes(v)
    }

    proof fn codec_roundtrip(v: RawData) {
        lemma_raw_roundtrip(v);
    }

    fn dtype() -> Type {
        Type::BLOB
    }

    fn decode(b: &[u8]) -> RawData {
        raw_from_bytes(b)
    }

    fn encode(v: &RawData) -> Vec<u8> {
        raw_to_bytes(v)
    }
}

} // verus!
