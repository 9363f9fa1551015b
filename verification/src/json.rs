//! The boundary to serde_json: parsed JSON documents are carried through this
//! crate as opaque `serde_json::Value`s, and the two calls the conversion
//! logic makes into serde_json live here.
use vstd::prelude::*;

verus! {

#[verifier::external_type_specification]
#[verifier::external_body]
pub struct ExJsonValue(serde_json::Value);

/// Whether serde_json accepts this text as a well-formed JSON document,
/// within the parser's nesting limit.  Acceptance depends on the characters
/// of the text alone.
pub uninterp spec fn json_text_valid(s: Seq<char>) -> bool;

/// The document serde_json parses accepted text into: a function of the
/// characters alone.
pub uninterp spec fn json_doc_of(s: Seq<char>) -> serde_json::Value;

/// The text serde_json writes for a document: a function of the document
/// alone.
pub uninterp spec fn json_text_of(doc: serde_json::Value) -> Seq<char>;

/// Relies on serde_json::from_str::<serde_json::Value>: it returns `Ok`
/// exactly when the input is well-formed JSON text within the parser's
/// nesting limit, and the document it parses is determined by the text.
#[verifier::external_body]
pub(crate) fn parse_json_text(s: &str) -> (r: Option<serde_json::Value>)
    ensures
        r is Some <==> json_text_valid(s@),
        r matches Some(doc) ==> doc == json_doc_of(s@),
{
    serde_json::from_str(s).ok()
}

/// Relies on serde_json::to_string: serializing a self-describing
/// `serde_json::Value`, whose maps are keyed by strings, cannot fail, and the
/// text it writes is determined by the document.  The serializer has no
/// nesting limit while the parser does, so nothing here promises that the
/// text parses back; where the parser does accept this exact text, it
/// reconstructs the same document.
#[verifier::external_body]
pub(crate) fn json_value_to_text(v: &serde_json::Value) -> (r: String)
    ensures
        r@ == json_text_of(*v),
        json_text_valid(r@) ==> json_doc_of(r@) == *v,
{
    serde_json::to_string(v).unwrap()
}

/// Relies on serde_json::Value's `Clone`: a clone is structurally the same
/// document as the original.
pub assume_specification[ <serde_json::Value as Clone>::clone ](v: &serde_json::Value) -> (r:
    serde_json::Value)
    ensures
        r == *v,
;

} // verus!
