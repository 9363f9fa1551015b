//! Total, deterministic conversion between the engine's canonical values and
//! the exposed `PrismaValue`, in both directions.
//!
//! Narrowing the engine's 64-bit integer to 32 bits uses two's-complement
//! truncation — the policy is explicit here, not an accident of a cast.
//! A double is widened and narrowed by its bit pattern, exactly.  JSON text
//! from the engine is parsed, and malformed text is a fault (the producer
//! guarantees well-formedness); a parsed document is serialized back to text.
//! Non-finite doubles have no decimal form and are rejected.
use vstd::prelude::*;

use crate::json::{json_doc_of, json_text_of, json_text_valid, json_value_to_text, parse_json_text};
use crate::value::{
    canonical_eq, canonical_ints_fit, canonical_plain, value_eq, value_plain, CanonicalValue,
    ConvertError, PrismaValue,
};

verus! {

broadcast use vstd::seq::group_seq_axioms, vstd::std_specs::vec::group_vec_axioms;

/// The explicit narrowing policy: keep the low 32 bits, two's complement.
pub open spec fn truncate_i64(x: i64) -> i32 {
    x as i32
}

/// A 64-bit double is finite exactly when its exponent field is not all ones
/// (all ones encodes the infinities and NaNs).
pub open spec fn finite_double(bits: u64) -> bool {
    (bits >> 52) & 0x7ff != 0x7ff
}

/// How a decoded value relates to the canonical value it came from: exact and
/// structural everywhere; integers narrow by `truncate_i64`, and a JSON leaf
/// becomes the one document its well-formed source text parses into.
pub open spec fn decodes_to(c: CanonicalValue, v: PrismaValue) -> bool
    decreases c,
{
    match (c, v) {
        (CanonicalValue::String(x), PrismaValue::String(y)) => y@ == x@,
        (CanonicalValue::Boolean(x), PrismaValue::Boolean(y)) => y == x,
        (CanonicalValue::Enum(x), PrismaValue::Enum(y)) => y@ == x@,
        (CanonicalValue::Int(x), PrismaValue::Int(y)) => y == truncate_i64(x),
        (CanonicalValue::Uuid(x), PrismaValue::Uuid(y)) => y == x,
        (CanonicalValue::List(xs), PrismaValue::List(ys)) => {
            &&& ys@.len() == xs@.len()
            &&& forall|i: int| 0 <= i < xs@.len() ==> decodes_to(#[trigger] xs@[i], ys@[i])
        },
        (CanonicalValue::Json(s), PrismaValue::Json(doc)) => json_text_valid(s@) && doc
            == json_doc_of(s@),
        (CanonicalValue::Xml(x), PrismaValue::Xml(y)) => y@ == x@,
        (CanonicalValue::Object(xs), PrismaValue::Object(ys)) => {
            &&& ys@.len() == xs@.len()
            &&& forall|i: int|
                0 <= i < xs@.len() ==> ys@[i].0@ == (#[trigger] xs@[i]).0@ && decodes_to(
                    xs@[i].1,
                    ys@[i].1,
                )
        },
        (CanonicalValue::Null, PrismaValue::Null) => true,
        (CanonicalValue::DateTime(x), PrismaValue::DateTime(y)) => y == x,
        (CanonicalValue::Float(x), PrismaValue::Float(y)) => y == x,
        (CanonicalValue::BigInt(x), PrismaValue::BigInt(y)) => y == x,
        (CanonicalValue::Bytes(x), PrismaValue::Bytes(y)) => y@ == x@,
        _ => false,
    }
}

/// Decoding succeeds exactly when every embedded JSON text is well-formed.
pub open spec fn decode_ok(c: CanonicalValue) -> bool
    decreases c,
{
    match c {
        CanonicalValue::Json(s) => json_text_valid(s@),
        CanonicalValue::List(xs) => forall|i: int|
            0 <= i < xs@.len() ==> decode_ok(#[trigger] xs@[i]),
        CanonicalValue::Object(xs) => forall|i: int|
            0 <= i < xs@.len() ==> decode_ok((#[trigger] xs@[i]).1),
        _ => true,
    }
}

/// How an encoded canonical value relates to the exposed value it came from:
/// exact and structural everywhere; integers widen losslessly, a finite
/// double keeps its bit pattern, and a JSON leaf becomes the one text the
/// serializer writes for the document — which need not stay within the
/// parser's nesting limit, but parses back to the same document where it
/// does.
pub open spec fn encodes_to(v: PrismaValue, c: CanonicalValue) -> bool
    decreases v,
{
    match (v, c) {
        (PrismaValue::String(x), CanonicalValue::String(y)) => y@ == x@,
        (PrismaValue::Boolean(x), CanonicalValue::Boolean(y)) => y == x,
        (PrismaValue::Enum(x), CanonicalValue::Enum(y)) => y@ == x@,
        (PrismaValue::Int(x), CanonicalValue::Int(y)) => y == x as i64,
        (PrismaValue::Uuid(x), CanonicalValue::Uuid(y)) => y == x,
        (PrismaValue::List(xs), CanonicalValue::List(ys)) => {
            &&& ys@.len() == xs@.len()
            &&& forall|i: int| 0 <= i < xs@.len() ==> encodes_to(#[trigger] xs@[i], ys@[i])
        },
        (PrismaValue::Json(doc), CanonicalValue::Json(s)) => s@ == json_text_of(doc) && (
        json_text_valid(s@) ==> json_doc_of(s@) == doc),
        (PrismaValue::Xml(x), CanonicalValue::Xml(y)) => y@ == x@,
        (PrismaValue::Object(xs), CanonicalValue::Object(ys)) => {
            &&& ys@.len() == xs@.len()
            &&& forall|i: int|
                0 <= i < xs@.len() ==> ys@[i].0@ == (#[trigger] xs@[i]).0@ && encodes_to(
                    xs@[i].1,
                    ys@[i].1,
                )
        },
        (PrismaValue::Null, CanonicalValue::Null) => true,
        (PrismaValue::DateTime(x), CanonicalValue::DateTime(y)) => y == x,
        (PrismaValue::Float(x), CanonicalValue::Float(y)) => finite_double(x) && y == x,
        (PrismaValue::BigInt(x), CanonicalValue::BigInt(y)) => y == x,
        (PrismaValue::Bytes(x), CanonicalValue::Bytes(y)) => y@ == x@,
        _ => false,
    }
}

/// Encoding succeeds exactly when every double in the value is finite.
pub open spec fn encode_ok(v: PrismaValue) -> bool
    decreases v,
{
    match v {
        PrismaValue::Float(bits) => finite_double(bits),
        PrismaValue::List(xs) => forall|i: int| 0 <= i < xs@.len() ==> encode_ok(#[trigger] xs@[i]),
        PrismaValue::Object(xs) => forall|i: int|
            0 <= i < xs@.len() ==> encode_ok((#[trigger] xs@[i]).1),
        _ => true,
    }
}

/// A value without `Float` or `Json` always encodes: nothing in it can be
/// rejected.
pub proof fn lemma_plain_value_encode_ok(v: PrismaValue)
    requires
        value_plain(v),
    ensures
        encode_ok(v),
    decreases v,
{
    match v {
        PrismaValue::List(xs) => {
            assert forall|i: int| 0 <= i < xs@.len() implies encode_ok(#[trigger] xs@[i]) by {
                lemma_plain_value_encode_ok(xs@[i]);
            }
        },
        PrismaValue::Object(xs) => {
            assert forall|i: int| 0 <= i < xs@.len() implies encode_ok((#[trigger] xs@[i]).1) by {
                lemma_plain_value_encode_ok(xs@[i].1);
            }
        },
        _ => {},
    }
}

/// A canonical value without `Float` or `Json` always decodes: nothing in it
/// can be a fault.
pub proof fn lemma_plain_canonical_decode_ok(c: CanonicalValue)
    requires
        canonical_plain(c),
    ensures
        decode_ok(c),
    decreases c,
{
    match c {
        CanonicalValue::List(xs) => {
            assert forall|i: int| 0 <= i < xs@.len() implies decode_ok(#[trigger] xs@[i]) by {
                lemma_plain_canonical_decode_ok(xs@[i]);
            }
        },
        CanonicalValue::Object(xs) => {
            assert forall|i: int| 0 <= i < xs@.len() implies decode_ok((#[trigger] xs@[i]).1) by {
                lemma_plain_canonical_decode_ok(xs@[i].1);
            }
        },
        _ => {},
    }
}

/// Round-trip exactness, outward: a value without `Float` or `Json` that is
/// encoded to the canonical representation and decoded again comes back
/// structurally unchanged.
pub proof fn lemma_value_round_trip(v: PrismaValue, c: CanonicalValue, v2: PrismaValue)
    requires
        value_plain(v),
        encodes_to(v, c),
        decodes_to(c, v2),
    ensures
        value_eq(v2, v),
    decreases v,
{
    match v {
        PrismaValue::Int(x) => {
            assert(x as i64 as i32 == x);
        },
        PrismaValue::List(xs) => {
            let cs = c->List_0;
            let ys = v2->List_0;
            assert forall|i: int|
                0 <= i < ys@.len() implies value_eq(#[trigger] ys@[i], xs@[i]) by {
                lemma_value_round_trip(xs@[i], cs@[i], ys@[i]);
            }
            assert(value_eq(v2, v));
        },
        PrismaValue::Object(xs) => {
            let cs = c->Object_0;
            let ys = v2->Object_0;
            assert forall|i: int|
                0 <= i < ys@.len() implies (#[trigger] ys@[i]).0@ == xs@[i].0@ && value_eq(
                ys@[i].1,
                xs@[i].1,
            ) by {
                lemma_value_round_trip(xs@[i].1, cs@[i].1, ys@[i].1);
            }
            assert(value_eq(v2, v));
        },
        _ => {},
    }
}

/// Round-trip exactness, inward: a canonical value without `Float` or `Json`,
/// all of whose integers fit 32 bits, that is decoded and encoded again comes
/// back structurally unchanged.
pub proof fn lemma_canonical_round_trip(c: CanonicalValue, v: PrismaValue, c2: CanonicalValue)
    requires
        canonical_plain(c),
        canonical_ints_fit(c),
        decodes_to(c, v),
        encodes_to(v, c2),
    ensures
        canonical_eq(c2, c),
    decreases c,
{
    match c {
        CanonicalValue::Int(x) => {
            assert(x as i32 as i64 == x) by (bit_vector)
                requires
                    -0x8000_0000 <= x <= 0x7fff_ffff,
            ;
        },
        CanonicalValue::List(xs) => {
            let ys = v->List_0;
            let cs = c2->List_0;
            assert forall|i: int|
                0 <= i < cs@.len() implies canonical_eq(#[trigger] cs@[i], xs@[i]) by {
                lemma_canonical_round_trip(xs@[i], ys@[i], cs@[i]);
            }
            assert(canonical_eq(c2, c));
        },
        CanonicalValue::Object(xs) => {
            let ys = v->Object_0;
            let cs = c2->Object_0;
            assert forall|i: int|
                0 <= i < cs@.len() implies (#[trigger] cs@[i]).0@ == xs@[i].0@ && canonical_eq(
                cs@[i].1,
                xs@[i].1,
            ) by {
                lemma_canonical_round_trip(xs@[i].1, ys@[i].1, cs@[i].1);
            }
            assert(canonical_eq(c2, c));
        },
        _ => {},
    }
}

/// A finite double survives the round trip through the canonical
/// representation with its bit pattern exactly intact; the lossy part of the
/// engine's decimal adaptation lies outside this model.
pub proof fn lemma_finite_float_round_trip(bits: u64, c: CanonicalValue, v2: PrismaValue)
    requires
        finite_double(bits),
        encodes_to(PrismaValue::Float(bits), c),
        decodes_to(c, v2),
    ensures
        v2 == PrismaValue::Float(bits),
{
}

/// A JSON document whose serialized text decodes at all decodes to the very
/// same document: the round trip loses nothing whenever it completes.
pub proof fn lemma_json_round_trip(doc: serde_json::Value, c: CanonicalValue, v2: PrismaValue)
    requires
        encodes_to(PrismaValue::Json(doc), c),
        decodes_to(c, v2),
    ensures
        v2 == PrismaValue::Json(doc),
{
}

impl PrismaValue {
    /// Decode a canonical value into the exposed representation.
    ///
    /// Fails exactly on a violated producer invariant: embedded JSON text
    /// that is not well-formed.
    #[verifier::loop_isolation(false)]
    pub fn from_canonical(c: &CanonicalValue) -> (r: Result<PrismaValue, ConvertError>)
        ensures
            r matches Ok(v) ==> decodes_to(*c, v),
            r is Ok <==> decode_ok(*c),
            r is Err ==> r == Err::<PrismaValue, ConvertError>(ConvertError::InvalidJsonText),
        decreases *c,
    {
        match c {
            CanonicalValue::String(x) => Ok(PrismaValue::String(x.clone())),
            CanonicalValue::Boolean(x) => Ok(PrismaValue::Boolean(*x)),
            CanonicalValue::Enum(x) => Ok(PrismaValue::Enum(x.clone())),
            CanonicalValue::Int(x) => Ok(
                PrismaValue::Int(
                    #[verifier::truncate]
                    (*x as i32),
                ),
            ),
            CanonicalValue::Uuid(x) => Ok(PrismaValue::Uuid(*x)),
            CanonicalValue::List(xs) => {
                let mut out: Vec<PrismaValue> = Vec::new();
                let mut i: usize = 0;
                while i < xs.len()
                    invariant
                        i <= xs@.len(),
                        out@.len() == i,
                        forall|k: int|
                            0 <= k < i ==> decodes_to(#[trigger] xs@[k], out@[k]) && decode_ok(
                                xs@[k],
                            ),
                    decreases xs@.len() - i,
                {
                    match PrismaValue::from_canonical(&xs[i]) {
                        Ok(v) => out.push(v),
                        Err(e) => {
                            return Err(e);
                        },
                    }
                    i += 1;
                }
                Ok(PrismaValue::List(out))
            },
            CanonicalValue::Json(s) => match parse_json_text(s.as_str()) {
                Some(doc) => Ok(PrismaValue::Json(doc)),
                None => Err(ConvertError::InvalidJsonText),
            },
            CanonicalValue::Xml(x) => Ok(PrismaValue::Xml(x.clone())),
            CanonicalValue::Object(xs) => {
                let mut out: Vec<(String, PrismaValue)> = Vec::new();
                let mut i: usize = 0;
                while i < xs.len()
                    invariant
                        i <= xs@.len(),
                        out@.len() == i,
                        forall|k: int|
                            0 <= k < i ==> out@[k].0@ == (#[trigger] xs@[k]).0@ && decodes_to(
                                xs@[k].1,
                                out@[k].1,
                            ) && decode_ok(xs@[k].1),
                    decreases xs@.len() - i,
                {
                    let (key, child) = &xs[i];
                    match PrismaValue::from_canonical(child) {
                        Ok(v) => out.push((key.clone(), v)),
                        Err(e) => {
                            return Err(e);
                        },
                    }
                    i += 1;
                }
                Ok(PrismaValue::Object(out))
            },
            CanonicalValue::Null => Ok(PrismaValue::Null),
            CanonicalValue::DateTime(x) => Ok(PrismaValue::DateTime(*x)),
            CanonicalValue::Float(bits) => Ok(PrismaValue::Float(*bits)),
            CanonicalValue::BigInt(x) => Ok(PrismaValue::BigInt(*x)),
            CanonicalValue::Bytes(x) => Ok(PrismaValue::Bytes(x.clone())),
        }
    }

    /// Encode an exposed value back into the canonical representation.
    ///
    /// Fails exactly on a non-finite double, which has no decimal form.
    #[verifier::loop_isolation(false)]
    pub fn into_canonical(&self) -> (r: Result<CanonicalValue, ConvertError>)
        ensures
            r matches Ok(c) ==> encodes_to(*self, c),
            r is Ok <==> encode_ok(*self),
            r is Err ==> r == Err::<CanonicalValue, ConvertError>(ConvertError::NonFiniteFloat),
        decreases *self,
    {
        match self {
            PrismaValue::String(x) => Ok(CanonicalValue::String(x.clone())),
            PrismaValue::Boolean(x) => Ok(CanonicalValue::Boolean(*x)),
            PrismaValue::Enum(x) => Ok(CanonicalValue::Enum(x.clone())),
            PrismaValue::Int(x) => Ok(CanonicalValue::Int(*x as i64)),
            PrismaValue::Uuid(x) => Ok(CanonicalValue::Uuid(*x)),
            PrismaValue::List(xs) => {
                let mut out: Vec<CanonicalValue> = Vec::new();
                let mut i: usize = 0;
                while i < xs.len()
                    invariant
                        i <= xs@.len(),
                        out@.len() == i,
                        forall|k: int|
                            0 <= k < i ==> encodes_to(#[trigger] xs@[k], out@[k]) && encode_ok(
                                xs@[k],
                            ),
                    decreases xs@.len() - i,
                {
                    match xs[i].into_canonical() {
                        Ok(cv) => out.push(cv),
                        Err(e) => {
                            return Err(e);
                        },
                    }
                    i += 1;
                }
                Ok(CanonicalValue::List(out))
            },
            PrismaValue::Json(doc) => Ok(CanonicalValue::Json(json_value_to_text(doc))),
            PrismaValue::Xml(x) => Ok(CanonicalValue::Xml(x.clone())),
            PrismaValue::Object(xs) => {
                let mut out: Vec<(String, CanonicalValue)> = Vec::new();
                let mut i: usize = 0;
                while i < xs.len()
                    invariant
                        i <= xs@.len(),
                        out@.len() == i,
                        forall|k: int|
                            0 <= k < i ==> out@[k].0@ == (#[trigger] xs@[k]).0@ && encodes_to(
                                xs@[k].1,
                                out@[k].1,
                            ) && encode_ok(xs@[k].1),
                    decreases xs@.len() - i,
                {
                    let (key, child) = &xs[i];
                    match child.into_canonical() {
                        Ok(cv) => out.push((key.clone(), cv)),
                        Err(e) => {
                            return Err(e);
                        },
                    }
                    i += 1;
                }
                Ok(CanonicalValue::Object(out))
            },
            PrismaValue::Null => Ok(CanonicalValue::Null),
            PrismaValue::DateTime(x) => Ok(CanonicalValue::DateTime(*x)),
            PrismaValue::Float(bits) => {
                if (*bits >> 52) & 0x7ff != 0x7ff {
                    Ok(CanonicalValue::Float(*bits))
                } else {
                    Err(ConvertError::NonFiniteFloat)
                }
            },
            PrismaValue::BigInt(x) => Ok(CanonicalValue::BigInt(*x)),
            PrismaValue::Bytes(x) => Ok(CanonicalValue::Bytes(x.clone())),
        }
    }
}

} // verus!
