//! The value model: an application-facing `PrismaValue` that keeps full type
//! fidelity, and `CanonicalValue`, this crate's image of the query engine's own
//! scalar representation at the conversion boundary.
//!
//! The engine's representation differs from the exposed one in three places:
//! integers are 64-bit wide (the exposed form narrows to 32 bits), JSON
//! documents are carried as their source text (the exposed form carries the
//! parsed document), and floating-point numbers are decimal on the engine's
//! side.  Floating-point values appear here only as their IEEE-754 bit
//! patterns; the adaptation between the engine's decimal type and a double is
//! a boundary concern of the surrounding (unverified) glue code.
use vstd::prelude::*;

verus! {

broadcast use vstd::seq::group_seq_axioms, vstd::std_specs::vec::group_vec_axioms;

/// An instant with a fixed UTC offset, held as plain values: seconds and
/// nanoseconds since the Unix epoch, and the offset east of UTC in seconds.
#[derive(Clone, Copy, Debug, PartialEq, Eq, Structural)]
pub struct DateTimeValue {
    pub secs: i64,
    pub nanos: u32,
    pub offset_secs: i32,
}

impl DateTimeValue {
    /// A well-formed instant keeps its nanosecond part below one second and
    /// its offset strictly within one day of UTC.
    pub open spec fn wf(self) -> bool {
        self.nanos < 1_000_000_000 && -86_400 < self.offset_secs < 86_400
    }
}

/// Why a single conversion call was refused or aborted.
#[derive(Clone, Copy, Debug, PartialEq, Eq, Structural)]
pub enum ConvertError {
    /// A non-finite double (NaN or an infinity) has no decimal form and is
    /// rejected rather than silently coerced.
    NonFiniteFloat,
    /// Embedded JSON text from the engine was not well-formed: a violated
    /// producer invariant, surfaced as a fault rather than masked.
    InvalidJsonText,
}

/// Every primitive or structured value a database field can hold.
///
/// `Object` is a sequence, not a mapping: insertion order and duplicate keys
/// are significant and must survive every transformation unchanged.
/// `Float` carries the IEEE-754 bit pattern of a 64-bit double.
#[derive(Debug, PartialEq)]
pub enum PrismaValue {
    String(String),
    Boolean(bool),
    Enum(String),
    Int(i32),
    Uuid(u128),
    List(Vec<PrismaValue>),
    Json(serde_json::Value),
    Xml(String),
    Object(Vec<(String, PrismaValue)>),
    Null,
    DateTime(DateTimeValue),
    Float(u64),
    BigInt(i64),
    Bytes(Vec<u8>),
}

/// The engine's scalar representation, as seen at this boundary: integers are
/// 64-bit, JSON documents are source text, and `Float` again carries the bit
/// pattern of the double that the engine's decimal maps to here.
#[derive(Debug, PartialEq)]
pub enum CanonicalValue {
    String(String),
    Boolean(bool),
    Enum(String),
    Int(i64),
    Uuid(u128),
    List(Vec<CanonicalValue>),
    Json(String),
    Xml(String),
    Object(Vec<(String, CanonicalValue)>),
    Null,
    DateTime(DateTimeValue),
    Float(u64),
    BigInt(i64),
    Bytes(Vec<u8>),
}

/// Structural equality of two exposed values, comparing text and byte
/// payloads by their contents.
pub open spec fn value_eq(a: PrismaValue, b: PrismaValue) -> bool
    decreases a,
{
    match (a, b) {
        (PrismaValue::String(x), PrismaValue::String(y)) => x@ == y@,
        (PrismaValue::Boolean(x), PrismaValue::Boolean(y)) => x == y,
        (PrismaValue::Enum(x), PrismaValue::Enum(y)) => x@ == y@,
        (PrismaValue::Int(x), PrismaValue::Int(y)) => x == y,
        (PrismaValue::Uuid(x), PrismaValue::Uuid(y)) => x == y,
        (PrismaValue::List(xs), PrismaValue::List(ys)) => {
            &&& xs@.len() == ys@.len()
            &&& forall|i: int| 0 <= i < xs@.len() ==> value_eq(#[trigger] xs@[i], ys@[i])
        },
        (PrismaValue::Json(x), PrismaValue::Json(y)) => x == y,
        (PrismaValue::Xml(x), PrismaValue::Xml(y)) => x@ == y@,
        (PrismaValue::Object(xs), PrismaValue::Object(ys)) => {
            &&& xs@.len() == ys@.len()
            &&& forall|i: int|
                0 <= i < xs@.len() ==> (#[trigger] xs@[i]).0@ == ys@[i].0@ && value_eq(
                    xs@[i].1,
                    ys@[i].1,
                )
        },
        (PrismaValue::Null, PrismaValue::Null) => true,
        (PrismaValue::DateTime(x), PrismaValue::DateTime(y)) => x == y,
        (PrismaValue::Float(x), PrismaValue::Float(y)) => x == y,
        (PrismaValue::BigInt(x), PrismaValue::BigInt(y)) => x == y,
        (PrismaValue::Bytes(x), PrismaValue::Bytes(y)) => x@ == y@,
        _ => false,
    }
}

/// Structural equality of two canonical values.
pub open spec fn canonical_eq(a: CanonicalValue, b: CanonicalValue) -> bool
    decreases a,
{
    match (a, b) {
        (CanonicalValue::String(x), CanonicalValue::String(y)) => x@ == y@,
        (CanonicalValue::Boolean(x), CanonicalValue::Boolean(y)) => x == y,
        (CanonicalValue::Enum(x), CanonicalValue::Enum(y)) => x@ == y@,
        (CanonicalValue::Int(x), CanonicalValue::Int(y)) => x == y,
        (CanonicalValue::Uuid(x), CanonicalValue::Uuid(y)) => x == y,
        (CanonicalValue::List(xs), CanonicalValue::List(ys)) => {
            &&& xs@.len() == ys@.len()
            &&& forall|i: int| 0 <= i < xs@.len() ==> canonical_eq(#[trigger] xs@[i], ys@[i])
        },
        (CanonicalValue::Json(x), CanonicalValue::Json(y)) => x@ == y@,
        (CanonicalValue::Xml(x), CanonicalValue::Xml(y)) => x@ == y@,
        (CanonicalValue::Object(xs), CanonicalValue::Object(ys)) => {
            &&& xs@.len() == ys@.len()
            &&& forall|i: int|
                0 <= i < xs@.len() ==> (#[trigger] xs@[i]).0@ == ys@[i].0@ && canonical_eq(
                    xs@[i].1,
                    ys@[i].1,
                )
        },
        (CanonicalValue::Null, CanonicalValue::Null) => true,
        (CanonicalValue::DateTime(x), CanonicalValue::DateTime(y)) => x == y,
        (CanonicalValue::Float(x), CanonicalValue::Float(y)) => x == y,
        (CanonicalValue::BigInt(x), CanonicalValue::BigInt(y)) => x == y,
        (CanonicalValue::Bytes(x), CanonicalValue::Bytes(y)) => x@ == y@,
        _ => false,
    }
}

/// A value that contains no `Float` and no `Json` anywhere: the variants whose
/// conversion is exact in both directions.
pub open spec fn value_plain(v: PrismaValue) -> bool
    decreases v,
{
    match v {
        PrismaValue::Float(_) => false,
        PrismaValue::Json(_) => false,
        PrismaValue::List(xs) => forall|i: int| 0 <= i < xs@.len() ==> value_plain(#[trigger] xs@[i]),
        PrismaValue::Object(xs) => forall|i: int|
            0 <= i < xs@.len() ==> value_plain((#[trigger] xs@[i]).1),
        _ => true,
    }
}

/// A canonical value that contains no `Float` and no `Json` anywhere.
pub open spec fn canonical_plain(c: CanonicalValue) -> bool
    decreases c,
{
    match c {
        CanonicalValue::Float(_) => false,
        CanonicalValue::Json(_) => false,
        CanonicalValue::List(xs) => forall|i: int|
            0 <= i < xs@.len() ==> canonical_plain(#[trigger] xs@[i]),
        CanonicalValue::Object(xs) => forall|i: int|
            0 <= i < xs@.len() ==> canonical_plain((#[trigger] xs@[i]).1),
        _ => true,
    }
}

/// Every integer in the canonical value fits a 32-bit signed integer, so
/// narrowing loses nothing.
pub open spec fn canonical_ints_fit(c: CanonicalValue) -> bool
    decreases c,
{
    match c {
        CanonicalValue::Int(x) => -0x8000_0000 <= x <= 0x7fff_ffff,
        CanonicalValue::List(xs) => forall|i: int|
            0 <= i < xs@.len() ==> canonical_ints_fit(#[trigger] xs@[i]),
        CanonicalValue::Object(xs) => forall|i: int|
            0 <= i < xs@.len() ==> canonical_ints_fit((#[trigger] xs@[i]).1),
        _ => true,
    }
}

} // verus!

