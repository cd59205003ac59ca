//! Plutus data of the `pallas` crates: what a value holds, how one is built
//! and taken apart, and its CBOR form.

use pallas_codec::minicbor;
use pallas_codec::utils::MaybeIndefArray;
use pallas_primitives::conway::{BigInt, BoundedBytes, Constr, PlutusData};
use vstd::prelude::*;

verus! {

/// `PlutusData` of `pallas_primitives`.
#[verifier::external_type_specification]
#[verifier::external_body]
pub struct ExPlutusData(PlutusData);

/// The error of `minicbor::decode`.
#[verifier::external_type_specification]
#[verifier::external_body]
pub struct ExCborDecodeError(minicbor::decode::Error);

/// The error of `minicbor::to_vec`.
#[verifier::external_type_specification]
#[verifier::external_body]
#[verifier::reject_recursive_types(E)]
pub struct ExCborEncodeError<E>(minicbor::encode::Error<E>);

/// Everything that a Plutus data value holds, down to whether a list is
/// written with its length or with a terminator.
pub enum PlutusTree {
    Constr { tag: u64, any_constructor: Option<u64>, indefinite: bool, fields: Seq<PlutusTree> },
    Pairs { indefinite: bool, entries: Seq<(PlutusTree, PlutusTree)> },
    Array { indefinite: bool, items: Seq<PlutusTree> },
    Int(int),
    BigUInt(Seq<u8>),
    BigNInt(Seq<u8>),
    Bytes(Seq<u8>),
}

/// What a Plutus data value holds.
pub uninterp spec fn plutus_tree(data: PlutusData) -> PlutusTree;

/// The CBOR bytes that `minicbor::to_vec` gives for a Plutus data value.
pub uninterp spec fn plutus_cbor(tree: PlutusTree) -> Seq<u8>;

/// What `minicbor::decode` reads as Plutus data from the front of some bytes.
pub uninterp spec fn plutus_from_cbor(bytes: Seq<u8>) -> Option<PlutusTree>;

/// What each value of a list holds.
pub open spec fn plutus_trees(data: Seq<PlutusData>) -> Seq<PlutusTree> {
    Seq::new(data.len(), |i: int| plutus_tree(data[i]))
}

/// A constructor application with a compact tag, written with its length.
pub open spec fn constr_tree(tag: u64, fields: Seq<PlutusTree>) -> PlutusTree {
    PlutusTree::Constr { tag, any_constructor: None, indefinite: false, fields }
}

/// A list, written with its length.
pub open spec fn array_tree(items: Seq<PlutusTree>) -> PlutusTree {
    PlutusTree::Array { indefinite: false, items }
}

/// Whether every constructor in `tree` has a tag that Plutus data may carry:
/// a compact one alone, or the general one with its constructor index.
pub open spec fn well_tagged(tree: PlutusTree) -> bool
    decreases tree,
{
    match tree {
        PlutusTree::Constr { tag, any_constructor, fields, .. } => {
            &&& (121 <= tag <= 127 || 1280 <= tag <= 1400) && any_constructor is None
                || tag == 102 && any_constructor is Some
            &&& forall|i: int| 0 <= i < fields.len() ==> well_tagged(#[trigger] fields[i])
        },
        PlutusTree::Pairs { entries, .. } => forall|i: int|
            0 <= i < entries.len() ==> well_tagged((#[trigger] entries[i]).0) && well_tagged(entries[i].1),
        PlutusTree::Array { items, .. } => forall|i: int|
            0 <= i < items.len() ==> well_tagged(#[trigger] items[i]),
        _ => true,
    }
}

/// The outermost layer of a Plutus data value.
pub enum PlutusNode {
    Constr(u64, Vec<PlutusData>),
    Pairs,
    Array(Vec<PlutusData>),
    Int(i128),
    BigUInt,
    BigNInt,
    Bytes(Vec<u8>),
}

impl PlutusNode {
    /// Whether this is the outermost layer of `tree`.
    pub open spec fn opens(self, tree: PlutusTree) -> bool {
        match self {
            PlutusNode::Constr(tag, fields) => tree is Constr && tree->tag == tag && tree->fields
                == plutus_trees(fields@),
            PlutusNode::Pairs => tree is Pairs,
            PlutusNode::Array(items) => tree is Array && tree->items == plutus_trees(items@),
            PlutusNode::Int(value) => tree == PlutusTree::Int(value as int),
            PlutusNode::BigUInt => tree is BigUInt,
            PlutusNode::BigNInt => tree is BigNInt,
            PlutusNode::Bytes(bytes) => tree == PlutusTree::Bytes(bytes@),
        }
    }
}

/// `PlutusData::BigInt` of a `BigInt::Int`: the value holds the integer.
#[verifier::external_body]
pub(crate) fn pd_int(i: i64) -> (data: PlutusData)
    ensures
        plutus_tree(data) == PlutusTree::Int(i as int),
{
    PlutusData::BigInt(BigInt::Int(i.into()))
}

/// `PlutusData::BoundedBytes`: the value holds the bytes.
#[verifier::external_body]
pub(crate) fn pd_bytes(bytes: &[u8]) -> (data: PlutusData)
    ensures
        plutus_tree(data) == PlutusTree::Bytes(bytes@),
{
    PlutusData::BoundedBytes(BoundedBytes::from(bytes.to_vec()))
}

/// `PlutusData::Array` of a `MaybeIndefArray::Def`: the value holds the items
/// in order.
#[verifier::external_body]
pub(crate) fn pd_array(items: Vec<PlutusData>) -> (data: PlutusData)
    ensures
        plutus_tree(data) == array_tree(plutus_trees(items@)),
{
    PlutusData::Array(MaybeIndefArray::Def(items))
}

/// `PlutusData::Constr` without a general constructor index: the value holds
/// the tag and the fields in order.
#[verifier::external_body]
pub(crate) fn pd_constr(tag: u64, fields: Vec<PlutusData>) -> (data: PlutusData)
    ensures
        plutus_tree(data) == constr_tree(tag, plutus_trees(fields@)),
{
    PlutusData::Constr(Constr { tag, any_constructor: None, fields: MaybeIndefArray::Def(fields) })
}

/// The variants of `PlutusData` told apart, with copies of the children.
/// A copy holds what its original holds.
#[verifier::external_body]
pub(crate) fn open_plutus(data: &PlutusData) -> (node: PlutusNode)
    ensures
        node.opens(plutus_tree(*data)),
{
    match data {
        PlutusData::Constr(c) => PlutusNode::Constr(c.tag, c.fields.clone().to_vec()),
        PlutusData::Map(_) => PlutusNode::Pairs,
        PlutusData::Array(items) => PlutusNode::Array(items.clone().to_vec()),
        PlutusData::BigInt(BigInt::Int(i)) => PlutusNode::Int(i128::from(*i)),
        PlutusData::BigInt(BigInt::BigUInt(_)) => PlutusNode::BigUInt,
        PlutusData::BigInt(BigInt::BigNInt(_)) => PlutusNode::BigNInt,
        PlutusData::BoundedBytes(b) => PlutusNode::Bytes(b.to_vec()),
    }
}

/// `minicbor::to_vec` on Plutus data. Writing into a vector cannot fail, and
/// where every constructor tag is one that Plutus data may carry, decoding the
/// bytes gives back what was encoded.
#[verifier::external_body]
pub(crate) fn encode_plutus(data: &PlutusData) -> (encoded: Result<Vec<u8>, minicbor::encode::Error<core::convert::Infallible>>)
    ensures
        encoded is Ok,
        encoded->Ok_0@ == plutus_cbor(plutus_tree(*data)),
        well_tagged(plutus_tree(*data)) ==> plutus_from_cbor(encoded->Ok_0@) == Some(plutus_tree(*data)),
{
    minicbor::to_vec(data)
}

/// `minicbor::decode` to Plutus data.
#[verifier::external_body]
pub(crate) fn decode_plutus(bytes: &[u8]) -> (decoded: Result<PlutusData, minicbor::decode::Error>)
    ensures
        decoded is Ok <==> plutus_from_cbor(bytes@) is Some,
        decoded matches Ok(data) ==> plutus_from_cbor(bytes@) == Some(plutus_tree(data)),
{
    minicbor::decode(bytes)
}

} // verus!
