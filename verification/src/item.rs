//! Query-result trees: the engine's canonical tree, whose nodes may be shared
//! by reference among several parents, and the exclusively-owned `Item` tree
//! that resolution produces from it.
use std::sync::Arc;
use vstd::prelude::*;

use crate::convert::{decode_ok, decodes_to};
use crate::value::{CanonicalValue, ConvertError, PrismaValue};

verus! {

broadcast use vstd::seq::group_seq_axioms, vstd::std_specs::vec::group_vec_axioms;

/// Pairwise-distinct keys, compared by their text.
pub open spec fn distinct_keys<T>(s: Seq<(String, T)>) -> bool {
    forall|i: int, j: int| 0 <= i < j < s.len() ==> (#[trigger] s[i]).0@ != (#[trigger] s[j]).0@
}

/// An ordered mapping from text keys to resolved items, keys unique within
/// this layer.  It is held in an indexmap::IndexMap, which keeps insertion
/// order; the map is opaque here and is known only through `item_map_entries`.
#[verifier::external_body]
#[derive(Debug, PartialEq)]
pub struct ItemMap {
    entries: indexmap::IndexMap<String, Item>,
}

/// The key-value pairs the map holds, in order.
pub uninterp spec fn item_map_entries(m: ItemMap) -> Seq<(String, Item)>;

/// Relies on indexmap::IndexMap's FromIterator: collecting pairs whose keys
/// are pairwise distinct keeps every pair, in the order given.
#[verifier::external_body]
pub fn item_map_from_vec(entries: Vec<(String, Item)>) -> (r: ItemMap)
    requires
        distinct_keys(entries@),
    ensures
        item_map_entries(r) == entries@,
{
    ItemMap { entries: entries.into_iter().collect() }
}

/// Relies on indexmap::IndexMap's IntoIterator: the pairs come out in
/// insertion order.  This is the reading half of the map's public face, for
/// the serializer that consumes a resolved tree.
#[verifier::external_body]
pub fn item_map_into_entries(m: ItemMap) -> (r: Vec<(String, Item)>)
    ensures
        r@ == item_map_entries(m),
{
    m.entries.into_iter().collect()
}

/// A node of a resolved, exclusively-owned query-result tree.
#[derive(Debug, PartialEq)]
pub enum Item {
    Mapping(ItemMap),
    List(Vec<Item>),
    Value(PrismaValue),
    Json(serde_json::Value),
}

/// A node of the engine's canonical result tree.  `Ref` marks a sub-tree that
/// may be shared by reference among several parents; resolution removes it.
#[derive(Debug, PartialEq)]
pub enum CanonicalItem {
    Mapping(Vec<(String, CanonicalItem)>),
    List(Vec<CanonicalItem>),
    Value(CanonicalValue),
    Json(serde_json::Value),
    Ref(Arc<CanonicalItem>),
}

/// A well-formed canonical tree: every map layer has distinct keys.
pub open spec fn item_wf(c: CanonicalItem) -> bool
    decreases c,
{
    match c {
        CanonicalItem::Mapping(es) => {
            &&& distinct_keys(es@)
            &&& forall|i: int| 0 <= i < es@.len() ==> item_wf((#[trigger] es@[i]).1)
        },
        CanonicalItem::List(es) => forall|i: int| 0 <= i < es@.len() ==> item_wf(#[trigger] es@[i]),
        CanonicalItem::Ref(a) => item_wf(*a),
        _ => true,
    }
}

/// Resolution succeeds exactly when every scalar leaf decodes, that is, when
/// every embedded JSON text in a scalar leaf is well-formed.
pub open spec fn resolve_ok(c: CanonicalItem) -> bool
    decreases c,
{
    match c {
        CanonicalItem::Mapping(es) => forall|i: int|
            0 <= i < es@.len() ==> resolve_ok((#[trigger] es@[i]).1),
        CanonicalItem::List(es) => forall|i: int|
            0 <= i < es@.len() ==> resolve_ok(#[trigger] es@[i]),
        CanonicalItem::Value(cv) => decode_ok(cv),
        CanonicalItem::Json(_) => true,
        CanonicalItem::Ref(a) => resolve_ok(*a),
    }
}

/// How a resolved item relates to the canonical tree it came from: the same
/// shape with every scalar leaf decoded, every JSON leaf passed through, and
/// every shared reference resolved to its referent — so the relation does not
/// depend on how many owners a shared sub-tree had.
pub open spec fn resolves_to(c: CanonicalItem, it: Item) -> bool
    decreases c,
{
    match (c, it) {
        (CanonicalItem::Mapping(es), Item::Mapping(m)) => {
            let ms = item_map_entries(m);
            &&& ms.len() == es@.len()
            &&& forall|i: int|
                0 <= i < es@.len() ==> ms[i].0@ == (#[trigger] es@[i]).0@ && resolves_to(
                    es@[i].1,
                    ms[i].1,
                )
        },
        (CanonicalItem::List(es), Item::List(is)) => {
            &&& is@.len() == es@.len()
            &&& forall|i: int| 0 <= i < es@.len() ==> resolves_to(#[trigger] es@[i], is@[i])
        },
        (CanonicalItem::Value(cv), Item::Value(v)) => decodes_to(cv, v),
        (CanonicalItem::Json(j), Item::Json(j2)) => j2 == j,
        (CanonicalItem::Ref(a), _) => resolves_to(*a, it),
        _ => false,
    }
}

/// A shared node is transparent to resolution: an item resolves a `Ref`
/// exactly when it resolves the referent.  Whether the sub-tree was reclaimed
/// in place or rebuilt beside the other owners can change allocation only,
/// never the result.
pub proof fn lemma_ref_transparent(a: Arc<CanonicalItem>, it: Item)
    ensures
        resolves_to(CanonicalItem::Ref(a), it) <==> resolves_to(*a, it),
        resolve_ok(CanonicalItem::Ref(a)) <==> resolve_ok(*a),
{
}

/// Relies on std::sync::Arc::try_unwrap: when this handle is the only owner
/// the inner value is moved out without copying; otherwise the same handle
/// comes back unchanged.  Which of the two happens depends on the ownership
/// count at the moment of the call.
#[verifier::external_body]
fn arc_try_unwrap(a: Arc<CanonicalItem>) -> (r: Result<CanonicalItem, Arc<CanonicalItem>>)
    ensures
        match r {
            Ok(inner) => inner == a,
            Err(same) => same == a,
        },
{
    Arc::try_unwrap(a)
}

impl Item {
    /// Resolve a canonical result tree into an exclusively-owned item tree.
    ///
    /// Shared sub-trees are reclaimed in place when this holder is the last
    /// owner, and rebuilt without touching the original otherwise; either way
    /// the result relates to the tree by `resolves_to`.  Fails exactly when a
    /// scalar leaf holds malformed JSON text.
    #[verifier::loop_isolation(false)]
    pub fn from_canonical(c: CanonicalItem) -> (r: Result<Item, ConvertError>)
        requires
            item_wf(c),
        ensures
            r matches Ok(it) ==> resolves_to(c, it),
            r is Ok <==> resolve_ok(c),
            r is Err ==> r == Err::<Item, ConvertError>(ConvertError::InvalidJsonText),
        decreases c,
    {
        match c {
            CanonicalItem::Mapping(mut es) => {
                let ghost orig = es@;
                let mut out: Vec<(String, Item)> = Vec::new();
                while es.len() > 0
                    invariant
                        out@.len() + es@.len() == orig.len(),
                        es@ == orig.subrange(out@.len() as int, orig.len() as int),
                        forall|k: int|
                            0 <= k < out@.len() ==> out@[k].0@ == (#[trigger] orig[k]).0@
                                && resolves_to(orig[k].1, out@[k].1) && resolve_ok(orig[k].1),
                    decreases es@.len(),
                {
                    let ghost done = out@.len() as int;
                    let (key, child) = es.remove(0);
                    proof {
                        assert(orig.subrange(done, orig.len() as int)[0] == orig[done]);
                        assert(es@ =~= orig.subrange(done + 1, orig.len() as int));
                    }
                    match Item::from_canonical(child) {
                        Ok(it) => out.push((key, it)),
                        Err(e) => {
                            return Err(e);
                        },
                    }
                }
                proof {
                    assert forall|i: int, j: int|
                        0 <= i < j < out@.len() implies (#[trigger] out@[i]).0@ != (
                    #[trigger] out@[j]).0@ by {
                        assert(out@[i].0@ == orig[i].0@);
                        assert(out@[j].0@ == orig[j].0@);
                        assert(orig[i].0@ != orig[j].0@);
                    }
                }
                Ok(Item::Mapping(item_map_from_vec(out)))
            },
            CanonicalItem::List(mut es) => {
                let ghost orig = es@;
                let mut out: Vec<Item> = Vec::new();
                while es.len() > 0
                    invariant
                        out@.len() + es@.len() == orig.len(),
                        es@ == orig.subrange(out@.len() as int, orig.len() as int),
                        forall|k: int|
                            0 <= k < out@.len() ==> resolves_to(#[trigger] orig[k], out@[k])
                                && resolve_ok(orig[k]),
                    decreases es@.len(),
                {
                    let ghost done = out@.len() as int;
                    let child = es.remove(0);
                    proof {
                        assert(orig.subrange(done, orig.len() as int)[0] == orig[done]);
                        assert(es@ =~= orig.subrange(done + 1, orig.len() as int));
                    }
                    match Item::from_canonical(child) {
                        Ok(it) => out.push(it),
                        Err(e) => {
                            return Err(e);
                        },
                    }
                }
                Ok(Item::List(out))
            },
            CanonicalItem::Value(cv) => match PrismaValue::from_canonical(&cv) {
                Ok(v) => Ok(Item::Value(v)),
                Err(e) => Err(e),
            },
            CanonicalItem::Json(doc) => Ok(Item::Json(doc)),
            CanonicalItem::Ref(a) => match arc_try_unwrap(a) {
                Ok(inner) => Item::from_canonical(inner),
                Err(shared) => Item::resolve_shared(&shared),
            },
        }
    }

    /// Resolve a canonical sub-tree that other holders still own, leaving it
    /// untouched and building the resolved tree beside it.
    #[verifier::loop_isolation(false)]
    fn resolve_shared(c: &CanonicalItem) -> (r: Result<Item, ConvertError>)
        requires
            item_wf(*c),
        ensures
            r matches Ok(it) ==> resolves_to(*c, it),
            r is Ok <==> resolve_ok(*c),
            r is Err ==> r == Err::<Item, ConvertError>(ConvertError::InvalidJsonText),
        decreases *c,
    {
        match c {
            CanonicalItem::Mapping(es) => {
                let mut out: Vec<(String, Item)> = Vec::new();
                let mut i: usize = 0;
                while i < es.len()
                    invariant
                        out@.len() == i <= es@.len(),
                        forall|k: int|
                            0 <= k < i ==> out@[k].0@ == (#[trigger] es@[k]).0@ && resolves_to(
                                es@[k].1,
                                out@[k].1,
                            ) && resolve_ok(es@[k].1),
                    decreases es@.len() - i,
                {
                    let (key, child) = &es[i];
                    match Item::resolve_shared(child) {
                        Ok(it) => out.push((key.clone(), it)),
                        Err(e) => {
                            return Err(e);
                        },
                    }
                    i += 1;
                }
                proof {
                    assert forall|i: int, j: int|
                        0 <= i < j < out@.len() implies (#[trigger] out@[i]).0@ != (
                    #[trigger] out@[j]).0@ by {
                        assert(out@[i].0@ == es@[i].0@);
                        assert(out@[j].0@ == es@[j].0@);
                        assert(es@[i].0@ != es@[j].0@);
                    }
                }
                Ok(Item::Mapping(item_map_from_vec(out)))
            },
            CanonicalItem::List(es) => {
                let mut out: Vec<Item> = Vec::new();
                let mut i: usize = 0;
                while i < es.len()
                    invariant
                        out@.len() == i <= es@.len(),
                        forall|k: int|
                            0 <= k < i ==> resolves_to(#[trigger] es@[k], out@[k]) && resolve_ok(
                                es@[k],
                            ),
                    decreases es@.len() - i,
                {
                    match Item::resolve_shared(&es[i]) {
                        Ok(it) => out.push(it),
                        Err(e) => {
                            return Err(e);
                        },
                    }
                    i += 1;
                }
                Ok(Item::List(out))
            },
            CanonicalItem::Value(cv) => match PrismaValue::from_canonical(cv) {
                Ok(v) => Ok(Item::Value(v)),
                Err(e) => Err(e),
            },
            CanonicalItem::Json(doc) => Ok(Item::Json(doc.clone())),
            CanonicalItem::Ref(a) => Item::resolve_shared(&*a),
        }
    }
}

} // verus!
