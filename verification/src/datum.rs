//! The escrow's datum and redeemers as Plutus data.
//!
//! On chain `review_deadline` is a mandatory integer and the constructor
//! always has eight fields: a grant without a deadline carries
//! `NO_DEADLINE_SENTINEL` there instead of a dropped field.

use crate::hexadecimal::{decode_hex, encode_hex};
use crate::plutus::{decode_plutus, encode_plutus, open_plutus, pd_array, pd_bytes, pd_constr, pd_int, PlutusNode};
use pallas_primitives::conway::PlutusData;
use vstd::prelude::*;
use vstd::string::*;

verus! {

use crate::hexadecimal::{hex_bytes, hex_text, is_hex, lemma_hex_round_trip};
use crate::plutus::{array_tree, constr_tree, plutus_cbor, plutus_from_cbor, plutus_tree, plutus_trees, well_tagged, PlutusTree};

/// Stands for "no deadline" in the mandatory on-chain integer: so far out that
/// an expiry can never be claimed.
pub const NO_DEADLINE_SENTINEL: i64 = i64::MAX;

/// State of one grant, as the escrow output carries it.
#[derive(Debug, Clone, PartialEq, Eq)]
pub struct Datum {
    pub reviewer: [u8; 28],
    pub proposer: [u8; 28],
    pub total_locked: i64,
    pub tranche_bps: Vec<i64>,
    pub approved: Vec<bool>,
    pub released_count: i64,
    pub receipt_policy_id: [u8; 28],
    pub review_deadline: Option<i64>,
    /// Set when this was read from a constructor with seven fields, which has
    /// no `review_deadline` at all. The current script cannot spend such a
    /// grant, so listings leave it out. Nothing encoded here ever carries it.
    pub unspendable_legacy_shape: bool,
}

/// What a [`Datum`] holds.
#[verifier::ext_equal]
pub struct DatumView {
    pub reviewer: Seq<u8>,
    pub proposer: Seq<u8>,
    pub total_locked: i64,
    pub tranche_bps: Seq<i64>,
    pub approved: Seq<bool>,
    pub released_count: i64,
    pub receipt_policy_id: Seq<u8>,
    pub review_deadline: Option<i64>,
    pub unspendable_legacy_shape: bool,
}

impl View for Datum {
    type V = DatumView;

    open spec fn view(&self) -> DatumView {
        DatumView {
            reviewer: self.reviewer@,
            proposer: self.proposer@,
            total_locked: self.total_locked,
            tranche_bps: self.tranche_bps@,
            approved: self.approved@,
            released_count: self.released_count,
            receipt_policy_id: self.receipt_policy_id@,
            review_deadline: self.review_deadline,
            unspendable_legacy_shape: self.unspendable_legacy_shape,
        }
    }
}

/// What the escrow is spent for.
#[derive(Debug, Clone, Copy, PartialEq, Eq, Structural)]
pub enum Redeemer {
    ApproveMilestone(i64),
    ReleaseTranche(i64),
    ClaimExpired(i64),
}

/// A field of the datum, as named in errors.
#[derive(Debug, Clone, Copy, PartialEq, Eq, Structural)]
pub enum DatumField {
    Reviewer,
    Proposer,
    TotalLocked,
    TrancheBps,
    Approved,
    ReleasedCount,
    ReceiptPolicyId,
    ReviewDeadline,
}

/// What is wrong with one field of a datum.
#[derive(Debug, Clone, Copy, PartialEq, Eq, Structural)]
pub enum FieldFault {
    NotBytes,
    /// Bytes of another length than 28.
    WrongLength(usize),
    NotInteger,
    /// An integer that 64 signed bits do not hold.
    OutOfRange,
    NotList,
    NotConstr,
    /// A constructor tag that is neither false nor true.
    NotBool(u64),
}

/// Why a datum could not be encoded or decoded.
#[derive(Debug, Clone, Copy, PartialEq, Eq, Structural)]
pub enum DatumError {
    Encode,
    InvalidHex,
    InvalidCbor,
    NotConstr,
    WrongTag(u64),
    /// A number of fields other than seven and eight.
    FieldCount(usize),
    Field(DatumField, FieldFault),
}

/// The datum with its byte fields and lists in hexadecimal and plain numbers,
/// as it is shown to clients.
#[derive(Debug, Clone, PartialEq, Eq)]
pub struct DatumJson {
    pub reviewer: String,
    pub proposer: String,
    pub total_locked: i64,
    pub tranche_bps: Vec<i64>,
    pub approved: Vec<bool>,
    pub released_count: i64,
    pub receipt_policy_id: String,
    pub review_deadline: Option<i64>,
}

/// What a [`DatumJson`] holds.
#[verifier::ext_equal]
pub struct DatumJsonView {
    pub reviewer: Seq<char>,
    pub proposer: Seq<char>,
    pub total_locked: i64,
    pub tranche_bps: Seq<i64>,
    pub approved: Seq<bool>,
    pub released_count: i64,
    pub receipt_policy_id: Seq<char>,
    pub review_deadline: Option<i64>,
}

impl View for DatumJson {
    type V = DatumJsonView;

    open spec fn view(&self) -> DatumJsonView {
        DatumJsonView {
            reviewer: self.reviewer@,
            proposer: self.proposer@,
            total_locked: self.total_locked,
            tranche_bps: self.tranche_bps@,
            approved: self.approved@,
            released_count: self.released_count,
            receipt_policy_id: self.receipt_policy_id@,
            review_deadline: self.review_deadline,
        }
    }
}

/// A boolean, as a constructor without fields.
pub open spec fn bool_tree(b: bool) -> PlutusTree {
    constr_tree(if b { 122 } else { 121 }, seq![])
}

/// Some integers, each as Plutus data.
pub open spec fn int_trees(ints: Seq<i64>) -> Seq<PlutusTree> {
    Seq::new(ints.len(), |i: int| PlutusTree::Int(ints[i] as int))
}

/// Some booleans, each as Plutus data.
pub open spec fn bool_trees(bools: Seq<bool>) -> Seq<PlutusTree> {
    Seq::new(bools.len(), |i: int| bool_tree(bools[i]))
}

impl DatumView {
    /// The Plutus data of this datum: one constructor, always of eight fields.
    pub open spec fn tree(self) -> PlutusTree {
        constr_tree(
            121,
            seq![
                PlutusTree::Bytes(self.reviewer),
                PlutusTree::Bytes(self.proposer),
                PlutusTree::Int(self.total_locked as int),
                array_tree(int_trees(self.tranche_bps)),
                array_tree(bool_trees(self.approved)),
                PlutusTree::Int(self.released_count as int),
                PlutusTree::Bytes(self.receipt_policy_id),
                PlutusTree::Int(
                    match self.review_deadline {
                        Some(deadline) => deadline as int,
                        None => NO_DEADLINE_SENTINEL as int,
                    },
                ),
            ],
        )
    }

    /// What clients are shown of this datum.
    pub open spec fn json(self) -> DatumJsonView {
        DatumJsonView {
            reviewer: hex_text(self.reviewer),
            proposer: hex_text(self.proposer),
            total_locked: self.total_locked,
            tranche_bps: self.tranche_bps,
            approved: self.approved,
            released_count: self.released_count,
            receipt_policy_id: hex_text(self.receipt_policy_id),
            review_deadline: self.review_deadline,
        }
    }

    /// What survives an encoding: a deadline at the sentinel reads back as
    /// none, and nothing reads back as the legacy shape.
    pub open spec fn encoded(self) -> DatumView {
        DatumView {
            review_deadline: if self.review_deadline == Some(NO_DEADLINE_SENTINEL) {
                None
            } else {
                self.review_deadline
            },
            unspendable_legacy_shape: false,
            ..self
        }
    }

    /// Whether the CBOR bytes of this datum are read back as its Plutus data.
    pub open spec fn readable(self) -> bool {
        plutus_from_cbor(plutus_cbor(self.tree())) == Some(self.tree())
    }

    /// Whether the three hashes have the length of a key or policy hash.
    pub open spec fn hashes_sized(self) -> bool {
        self.reviewer.len() == 28 && self.proposer.len() == 28 && self.receipt_policy_id.len() == 28
    }
}

/// The 28 bytes that a value is.
pub open spec fn bytes28_of(tree: PlutusTree) -> Result<Seq<u8>, FieldFault> {
    match tree {
        PlutusTree::Bytes(bytes) => if bytes.len() == 28 {
            Ok(bytes)
        } else {
            Err(FieldFault::WrongLength(bytes.len() as usize))
        },
        _ => Err(FieldFault::NotBytes),
    }
}

/// The 64-bit integer that a value is.
pub open spec fn int_of(tree: PlutusTree) -> Result<i64, FieldFault> {
    match tree {
        PlutusTree::Int(value) => if i64::MIN <= value <= i64::MAX {
            Ok(value as i64)
        } else {
            Err(FieldFault::OutOfRange)
        },
        _ => Err(FieldFault::NotInteger),
    }
}

/// The boolean that a value is: only the tag of its constructor counts.
pub open spec fn bool_of(tree: PlutusTree) -> Result<bool, FieldFault> {
    match tree {
        PlutusTree::Constr { tag, .. } => if tag == 121 {
            Ok(false)
        } else if tag == 122 {
            Ok(true)
        } else {
            Err(FieldFault::NotBool(tag))
        },
        _ => Err(FieldFault::NotConstr),
    }
}

/// The integers that some values are, or the fault of the first that is none.
pub open spec fn ints_of(trees: Seq<PlutusTree>) -> Result<Seq<i64>, FieldFault>
    decreases trees.len(),
{
    if trees.len() == 0 {
        Ok(seq![])
    } else {
        match ints_of(trees.drop_last()) {
            Err(fault) => Err(fault),
            Ok(ints) => match int_of(trees.last()) {
                Err(fault) => Err(fault),
                Ok(value) => Ok(ints.push(value)),
            },
        }
    }
}

/// The booleans that some values are, or the fault of the first that is none.
pub open spec fn bools_of(trees: Seq<PlutusTree>) -> Result<Seq<bool>, FieldFault>
    decreases trees.len(),
{
    if trees.len() == 0 {
        Ok(seq![])
    } else {
        match bools_of(trees.drop_last()) {
            Err(fault) => Err(fault),
            Ok(bools) => match bool_of(trees.last()) {
                Err(fault) => Err(fault),
                Ok(value) => Ok(bools.push(value)),
            },
        }
    }
}

/// The list of integers that a value is.
pub open spec fn int_list_of(tree: PlutusTree) -> Result<Seq<i64>, FieldFault> {
    match tree {
        PlutusTree::Array { items, .. } => ints_of(items),
        _ => Err(FieldFault::NotList),
    }
}

/// The list of booleans that a value is.
pub open spec fn bool_list_of(tree: PlutusTree) -> Result<Seq<bool>, FieldFault> {
    match tree {
        PlutusTree::Array { items, .. } => bools_of(items),
        _ => Err(FieldFault::NotList),
    }
}

/// The datum of the first seven fields and a deadline already read; the first
/// faulty field decides the error.
pub open spec fn datum_of_fields(
    fields: Seq<PlutusTree>,
    review_deadline: Option<i64>,
    unspendable_legacy_shape: bool,
) -> Result<DatumView, DatumError> {
    match (
        bytes28_of(fields[0]),
        bytes28_of(fields[1]),
        int_of(fields[2]),
        int_list_of(fields[3]),
        bool_list_of(fields[4]),
        int_of(fields[5]),
        bytes28_of(fields[6]),
    ) {
        (Err(fault), _, _, _, _, _, _) => Err(DatumError::Field(DatumField::Reviewer, fault)),
        (_, Err(fault), _, _, _, _, _) => Err(DatumError::Field(DatumField::Proposer, fault)),
        (_, _, Err(fault), _, _, _, _) => Err(DatumError::Field(DatumField::TotalLocked, fault)),
        (_, _, _, Err(fault), _, _, _) => Err(DatumError::Field(DatumField::TrancheBps, fault)),
        (_, _, _, _, Err(fault), _, _) => Err(DatumError::Field(DatumField::Approved, fault)),
        (_, _, _, _, _, Err(fault), _) => Err(DatumError::Field(DatumField::ReleasedCount, fault)),
        (_, _, _, _, _, _, Err(fault)) => Err(DatumError::Field(DatumField::ReceiptPolicyId, fault)),
        (
            Ok(reviewer),
            Ok(proposer),
            Ok(total_locked),
            Ok(tranche_bps),
            Ok(approved),
            Ok(released_count),
            Ok(receipt_policy_id),
        ) => Ok(
            DatumView {
                reviewer,
                proposer,
                total_locked,
                tranche_bps,
                approved,
                released_count,
                receipt_policy_id,
                review_deadline,
                unspendable_legacy_shape,
            },
        ),
    }
}

/// The datum that a Plutus data value is: the datum constructor with eight
/// fields, or with the seven of the legacy shape.
pub open spec fn datum_of(tree: PlutusTree) -> Result<DatumView, DatumError> {
    match tree {
        PlutusTree::Constr { tag, fields, .. } => if tag != 121 {
            Err(DatumError::WrongTag(tag))
        } else if fields.len() == 7 {
            datum_of_fields(fields, None, true)
        } else if fields.len() == 8 {
            match int_of(fields[7]) {
                Err(fault) => Err(DatumError::Field(DatumField::ReviewDeadline, fault)),
                Ok(value) => datum_of_fields(
                    fields,
                    if value == NO_DEADLINE_SENTINEL {
                        None
                    } else {
                        Some(value)
                    },
                    false,
                ),
            }
        } else {
            Err(DatumError::FieldCount(fields.len() as usize))
        },
        _ => Err(DatumError::NotConstr),
    }
}

/// `text` without one leading `0x`.
pub open spec fn without_prefix(text: Seq<char>) -> Seq<char> {
    if text.len() >= 2 && text[0] == '0' && text[1] == 'x' {
        text.subrange(2, text.len() as int)
    } else {
        text
    }
}

/// The datum that a text of hexadecimal CBOR is, with or without a leading
/// `0x`.
pub open spec fn inline_datum_of(text: Seq<char>) -> Result<DatumView, DatumError> {
    let digits = without_prefix(text);
    if !is_hex(digits) {
        Err(DatumError::InvalidHex)
    } else {
        match plutus_from_cbor(hex_bytes(digits)) {
            None => Err(DatumError::InvalidCbor),
            Some(tree) => datum_of(tree),
        }
    }
}

/// Whether an outcome with an executable datum is the given one.
pub open spec fn datum_outcome(r: Result<Datum, DatumError>, expected: Result<DatumView, DatumError>) -> bool {
    match r {
        Ok(datum) => expected == Ok::<DatumView, DatumError>(datum@),
        Err(error) => expected == Err::<DatumView, DatumError>(error),
    }
}

/// A boolean as Plutus data.
fn pd_bool(b: bool) -> (data: PlutusData)
    ensures
        plutus_tree(data) == bool_tree(b),
{
    let fields: Vec<PlutusData> = Vec::new();
    let data = pd_constr(if b { 122 } else { 121 }, fields);
    assert(plutus_trees(fields@) =~= seq![]);
    data
}

/// A list of integers as Plutus data.
fn pd_ints(ints: &Vec<i64>) -> (data: PlutusData)
    ensures
        plutus_tree(data) == array_tree(int_trees(ints@)),
{
    let mut items: Vec<PlutusData> = Vec::new();
    for i in 0..ints.len()
        invariant
            items@.len() == i,
            forall|j: int| 0 <= j < i ==> plutus_tree(#[trigger] items@[j]) == PlutusTree::Int(ints@[j] as int),
    {
        items.push(pd_int(ints[i]));
    }
    assert(plutus_trees(items@) =~= int_trees(ints@));
    pd_array(items)
}

/// A list of booleans as Plutus data.
fn pd_bools(bools: &Vec<bool>) -> (data: PlutusData)
    ensures
        plutus_tree(data) == array_tree(bool_trees(bools@)),
{
    let mut items: Vec<PlutusData> = Vec::new();
    for i in 0..bools.len()
        invariant
            items@.len() == i,
            forall|j: int| 0 <= j < i ==> plutus_tree(#[trigger] items@[j]) == bool_tree(bools@[j]),
    {
        items.push(pd_bool(bools[i]));
    }
    assert(plutus_trees(items@) =~= bool_trees(bools@));
    pd_array(items)
}

/// The bytes of a vector as an array of the same length.
pub(crate) fn array28(bytes: &Vec<u8>) -> (array: [u8; 28])
    requires
        bytes@.len() == 28,
    ensures
        array@ == bytes@,
{
    let mut array = [0u8; 28];
    for i in 0..28usize
        invariant
            bytes@.len() == 28,
            forall|j: int| 0 <= j < i ==> array@[j] == bytes@[j],
    {
        array[i] = bytes[i];
    }
    assert(array@ =~= bytes@);
    array
}

/// The 28 bytes that a value is.
fn as_bytes28(data: &PlutusData) -> (bytes: Result<[u8; 28], FieldFault>)
    ensures
        match bytes {
            Ok(array) => bytes28_of(plutus_tree(*data)) == Ok::<Seq<u8>, FieldFault>(array@),
            Err(fault) => bytes28_of(plutus_tree(*data)) == Err::<Seq<u8>, FieldFault>(fault),
        },
{
    match open_plutus(data) {
        PlutusNode::Bytes(bytes) => if bytes.len() == 28 {
            Ok(array28(&bytes))
        } else {
            Err(FieldFault::WrongLength(bytes.len()))
        },
        _ => Err(FieldFault::NotBytes),
    }
}

/// The 64-bit integer that a value is.
fn as_i64(data: &PlutusData) -> (value: Result<i64, FieldFault>)
    ensures
        value == int_of(plutus_tree(*data)),
{
    match open_plutus(data) {
        PlutusNode::Int(value) => if i64::MIN as i128 <= value && value <= i64::MAX as i128 {
            Ok(value as i64)
        } else {
            Err(FieldFault::OutOfRange)
        },
        _ => Err(FieldFault::NotInteger),
    }
}

/// The boolean that a value is.
fn as_bool(data: &PlutusData) -> (value: Result<bool, FieldFault>)
    ensures
        value == bool_of(plutus_tree(*data)),
{
    match open_plutus(data) {
        PlutusNode::Constr(tag, _) => if tag == 121 {
            Ok(false)
        } else if tag == 122 {
            Ok(true)
        } else {
            Err(FieldFault::NotBool(tag))
        },
        _ => Err(FieldFault::NotConstr),
    }
}

/// A fault among the first values is the fault of all of them.
proof fn lemma_first_int_fault(trees: Seq<PlutusTree>, n: int)
    requires
        0 <= n <= trees.len(),
        ints_of(trees.take(n)) is Err,
    ensures
        ints_of(trees) == ints_of(trees.take(n)),
    decreases trees.len() - n,
{
    if n == trees.len() {
        assert(trees.take(n) =~= trees);
    } else {
        assert(trees.take(n + 1).drop_last() =~= trees.take(n));
        lemma_first_int_fault(trees, n + 1);
    }
}

/// A fault among the first values is the fault of all of them.
proof fn lemma_first_bool_fault(trees: Seq<PlutusTree>, n: int)
    requires
        0 <= n <= trees.len(),
        bools_of(trees.take(n)) is Err,
    ensures
        bools_of(trees) == bools_of(trees.take(n)),
    decreases trees.len() - n,
{
    if n == trees.len() {
        assert(trees.take(n) =~= trees);
    } else {
        assert(trees.take(n + 1).drop_last() =~= trees.take(n));
        lemma_first_bool_fault(trees, n + 1);
    }
}

/// The list of integers that a value is.
fn as_int_list(data: &PlutusData) -> (values: Result<Vec<i64>, FieldFault>)
    ensures
        match values {
            Ok(ints) => int_list_of(plutus_tree(*data)) == Ok::<Seq<i64>, FieldFault>(ints@),
            Err(fault) => int_list_of(plutus_tree(*data)) == Err::<Seq<i64>, FieldFault>(fault),
        },
{
    match open_plutus(data) {
        PlutusNode::Array(items) => {
            let ghost trees = plutus_trees(items@);
            let mut ints: Vec<i64> = Vec::new();
            for i in 0..items.len()
                invariant
                    trees == plutus_trees(items@),
                    plutus_tree(*data) is Array,
                    plutus_tree(*data)->items == trees,
                    ints_of(trees.take(i as int)) == Ok::<Seq<i64>, FieldFault>(ints@),
            {
                assert(trees.take(i + 1).drop_last() =~= trees.take(i as int));
                assert(trees.take(i + 1).last() == plutus_tree(items@[i as int]));
                match as_i64(&items[i]) {
                    Ok(value) => ints.push(value),
                    Err(fault) => {
                        proof {
                            lemma_first_int_fault(trees, i + 1);
                        }
                        return Err(fault);
                    },
                }
            }
            assert(trees.take(trees.len() as int) =~= trees);
            Ok(ints)
        },
        _ => Err(FieldFault::NotList),
    }
}

/// The list of booleans that a value is.
fn as_bool_list(data: &PlutusData) -> (values: Result<Vec<bool>, FieldFault>)
    ensures
        match values {
            Ok(bools) => bool_list_of(plutus_tree(*data)) == Ok::<Seq<bool>, FieldFault>(bools@),
            Err(fault) => bool_list_of(plutus_tree(*data)) == Err::<Seq<bool>, FieldFault>(fault),
        },
{
    match open_plutus(data) {
        PlutusNode::Array(items) => {
            let ghost trees = plutus_trees(items@);
            let mut bools: Vec<bool> = Vec::new();
            for i in 0..items.len()
                invariant
                    trees == plutus_trees(items@),
                    plutus_tree(*data) is Array,
                    plutus_tree(*data)->items == trees,
                    bools_of(trees.take(i as int)) == Ok::<Seq<bool>, FieldFault>(bools@),
            {
                assert(trees.take(i + 1).drop_last() =~= trees.take(i as int));
                assert(trees.take(i + 1).last() == plutus_tree(items@[i as int]));
                match as_bool(&items[i]) {
                    Ok(value) => bools.push(value),
                    Err(fault) => {
                        proof {
                            lemma_first_bool_fault(trees, i + 1);
                        }
                        return Err(fault);
                    },
                }
            }
            assert(trees.take(trees.len() as int) =~= trees);
            Ok(bools)
        },
        _ => Err(FieldFault::NotList),
    }
}

/// The first seven fields of a datum, in order.
fn datum_from_fields(
    fields: &Vec<PlutusData>,
    review_deadline: Option<i64>,
    unspendable_legacy_shape: bool,
) -> (datum: Result<Datum, DatumError>)
    requires
        fields@.len() >= 7,
    ensures
        datum_outcome(
            datum,
            datum_of_fields(plutus_trees(fields@), review_deadline, unspendable_legacy_shape),
        ),
{
    let reviewer = match as_bytes28(&fields[0]) {
        Ok(bytes) => bytes,
        Err(fault) => return Err(DatumError::Field(DatumField::Reviewer, fault)),
    };
    let proposer = match as_bytes28(&fields[1]) {
        Ok(bytes) => bytes,
        Err(fault) => return Err(DatumError::Field(DatumField::Proposer, fault)),
    };
    let total_locked: i64 = match as_i64(&fields[2]) {
        Ok(value) => value,
        Err(fault) => return Err(DatumError::Field(DatumField::TotalLocked, fault)),
    };
    let tranche_bps = match as_int_list(&fields[3]) {
        Ok(values) => values,
        Err(fault) => return Err(DatumError::Field(DatumField::TrancheBps, fault)),
    };
    let approved = match as_bool_list(&fields[4]) {
        Ok(values) => values,
        Err(fault) => return Err(DatumError::Field(DatumField::Approved, fault)),
    };
    let released_count: i64 = match as_i64(&fields[5]) {
        Ok(value) => value,
        Err(fault) => return Err(DatumError::Field(DatumField::ReleasedCount, fault)),
    };
    let receipt_policy_id = match as_bytes28(&fields[6]) {
        Ok(bytes) => bytes,
        Err(fault) => return Err(DatumError::Field(DatumField::ReceiptPolicyId, fault)),
    };
    Ok(
        Datum {
            reviewer,
            proposer,
            total_locked,
            tranche_bps,
            approved,
            released_count,
            receipt_policy_id,
            review_deadline,
            unspendable_legacy_shape,
        },
    )
}

impl Datum {
    /// The Plutus data of this datum.
    pub fn to_plutus_data(&self) -> (data: PlutusData)
        ensures
            plutus_tree(data) == self@.tree(),
    {
        let deadline: i64 = match self.review_deadline {
            Some(deadline) => deadline,
            None => NO_DEADLINE_SENTINEL,
        };
        let mut fields: Vec<PlutusData> = Vec::new();
        fields.push(pd_bytes(&self.reviewer));
        fields.push(pd_bytes(&self.proposer));
        fields.push(pd_int(self.total_locked));
        fields.push(pd_ints(&self.tranche_bps));
        fields.push(pd_bools(&self.approved));
        fields.push(pd_int(self.released_count));
        fields.push(pd_bytes(&self.receipt_policy_id));
        fields.push(pd_int(deadline));
        assert(plutus_trees(fields@) =~= self@.tree()->fields);
        pd_constr(121, fields)
    }

    /// The CBOR bytes of this datum. They decode to the same Plutus data.
    pub fn to_cbor(&self) -> (encoded: Result<Vec<u8>, DatumError>)
        ensures
            encoded is Ok,
            encoded->Ok_0@ == plutus_cbor(self@.tree()),
            self@.readable(),
    {
        proof {
            lemma_datum_well_tagged(self@);
        }
        match encode_plutus(&self.to_plutus_data()) {
            Ok(bytes) => Ok(bytes),
            Err(_) => Err(DatumError::Encode),
        }
    }

    /// The datum that a Plutus data value is.
    pub fn from_plutus_data(data: &PlutusData) -> (datum: Result<Self, DatumError>)
        ensures
            datum_outcome(datum, datum_of(plutus_tree(*data))),
    {
        match open_plutus(data) {
            PlutusNode::Constr(tag, fields) => {
                if tag != 121 {
                    return Err(DatumError::WrongTag(tag));
                }
                if fields.len() == 7 {
                    datum_from_fields(&fields, None, true)
                } else if fields.len() == 8 {
                    match as_i64(&fields[7]) {
                        Ok(value) => datum_from_fields(
                            &fields,
                            if value == NO_DEADLINE_SENTINEL {
                                None
                            } else {
                                Some(value)
                            },
                            false,
                        ),
                        Err(fault) => Err(DatumError::Field(DatumField::ReviewDeadline, fault)),
                    }
                } else {
                    Err(DatumError::FieldCount(fields.len()))
                }
            },
            _ => Err(DatumError::NotConstr),
        }
    }

    /// The datum that a text of hexadecimal CBOR is, with or without a
    /// leading `0x`.
    pub fn from_inline_datum_hex(hex_str: &str) -> (datum: Result<Self, DatumError>)
        ensures
            datum_outcome(datum, inline_datum_of(hex_str@)),
    {
        let length = hex_str.unicode_len();
        let digits = if length >= 2 && hex_str.get_char(0) == '0' && hex_str.get_char(1) == 'x' {
            hex_str.substring_char(2, length)
        } else {
            hex_str
        };
        match decode_hex(digits) {
            Ok(bytes) => match decode_plutus(bytes.as_slice()) {
                Ok(data) => Self::from_plutus_data(&data),
                Err(_) => Err(DatumError::InvalidCbor),
            },
            Err(_) => Err(DatumError::InvalidHex),
        }
    }

    /// What clients are shown of this datum.
    pub fn to_json(&self) -> (json: DatumJson)
        ensures
            json@ == self@.json(),
    {
        let json = DatumJson {
            reviewer: encode_hex(&self.reviewer),
            proposer: encode_hex(&self.proposer),
            total_locked: self.total_locked,
            tranche_bps: self.tranche_bps.clone(),
            approved: self.approved.clone(),
            released_count: self.released_count,
            receipt_policy_id: encode_hex(&self.receipt_policy_id),
            review_deadline: self.review_deadline,
        };
        assert(json@ =~= self@.json());
        json
    }

    /// A copy of this datum.
    pub(crate) fn copied(&self) -> (copy: Datum)
        ensures
            copy@ == self@,
    {
        let copy = Datum {
            reviewer: self.reviewer,
            proposer: self.proposer,
            total_locked: self.total_locked,
            tranche_bps: self.tranche_bps.clone(),
            approved: self.approved.clone(),
            released_count: self.released_count,
            receipt_policy_id: self.receipt_policy_id,
            review_deadline: self.review_deadline,
            unspendable_legacy_shape: self.unspendable_legacy_shape,
        };
        assert(copy@ =~= self@);
        copy
    }
}

impl Redeemer {
    /// The milestone that the redeemer is for.
    pub open spec fn milestone(self) -> i64 {
        match self {
            Redeemer::ApproveMilestone(index) => index,
            Redeemer::ReleaseTranche(index) => index,
            Redeemer::ClaimExpired(index) => index,
        }
    }

    /// The Plutus data of a redeemer: one constructor for each action, with
    /// the milestone index as its field.
    pub open spec fn tree(self) -> PlutusTree {
        match self {
            Redeemer::ApproveMilestone(index) => constr_tree(121, seq![PlutusTree::Int(index as int)]),
            Redeemer::ReleaseTranche(index) => constr_tree(122, seq![PlutusTree::Int(index as int)]),
            Redeemer::ClaimExpired(index) => constr_tree(123, seq![PlutusTree::Int(index as int)]),
        }
    }

    /// The Plutus data of this redeemer.
    pub fn to_plutus_data(&self) -> (data: PlutusData)
        ensures
            plutus_tree(data) == self.tree(),
    {
        let (tag, index): (u64, i64) = match self {
            Redeemer::ApproveMilestone(i) => (121, *i),
            Redeemer::ReleaseTranche(i) => (122, *i),
            Redeemer::ClaimExpired(i) => (123, *i),
        };
        let mut fields: Vec<PlutusData> = Vec::new();
        fields.push(pd_int(index));
        assert(plutus_trees(fields@) =~= self.tree()->fields);
        pd_constr(tag, fields)
    }

    /// The CBOR bytes of this redeemer. They decode to the same Plutus data.
    pub fn to_cbor(&self) -> (encoded: Result<Vec<u8>, DatumError>)
        ensures
            encoded is Ok,
            encoded->Ok_0@ == plutus_cbor(self.tree()),
            plutus_from_cbor(encoded->Ok_0@) == Some(self.tree()),
    {
        assert(well_tagged(self.tree()->fields[0]));
        match encode_plutus(&self.to_plutus_data()) {
            Ok(bytes) => Ok(bytes),
            Err(_) => Err(DatumError::Encode),
        }
    }
}

/// The CBOR bytes of a redeemer that carries nothing.
pub fn void_redeemer_cbor() -> (encoded: Result<Vec<u8>, DatumError>)
    ensures
        encoded is Ok,
        encoded->Ok_0@ == plutus_cbor(constr_tree(121, seq![])),
        plutus_from_cbor(encoded->Ok_0@) == Some(constr_tree(121, seq![])),
{
    let fields: Vec<PlutusData> = Vec::new();
    assert(plutus_trees(fields@) =~= seq![]);
    match encode_plutus(&pd_constr(121, fields)) {
        Ok(bytes) => Ok(bytes),
        Err(_) => Err(DatumError::Encode),
    }
}

/// The name of the receipt of one milestone: the ASCII of `Milestone`, then
/// the index as one byte.
pub open spec fn asset_name(index: u8) -> Seq<u8> {
    seq![77u8, 105u8, 108u8, 101u8, 115u8, 116u8, 111u8, 110u8, 101u8, index]
}

/// The name of the receipt of one milestone.
pub fn milestone_asset_name(index: u8) -> (name: Vec<u8>)
    ensures
        name@ == asset_name(index),
{
    let name = vec![77u8, 105u8, 108u8, 101u8, 115u8, 116u8, 111u8, 110u8, 101u8, index];
    assert(name@ =~= asset_name(index));
    name
}

proof fn lemma_datum_well_tagged(datum: DatumView)
    ensures
        well_tagged(datum.tree()),
{
    let fields = datum.tree()->fields;
    assert forall|i: int| 0 <= i < fields.len() implies well_tagged(#[trigger] fields[i]) by {
        if i == 3 {
            let items = int_trees(datum.tranche_bps);
            assert forall|j: int| 0 <= j < items.len() implies well_tagged(#[trigger] items[j]) by {}
        } else if i == 4 {
            let items = bool_trees(datum.approved);
            assert forall|j: int| 0 <= j < items.len() implies well_tagged(#[trigger] items[j]) by {}
        }
    }
}

proof fn lemma_ints_round_trip(ints: Seq<i64>)
    ensures
        ints_of(int_trees(ints)) == Ok::<Seq<i64>, FieldFault>(ints),
    decreases ints.len(),
{
    if ints.len() > 0 {
        lemma_ints_round_trip(ints.drop_last());
        assert(int_trees(ints).drop_last() =~= int_trees(ints.drop_last()));
        assert(ints.drop_last().push(ints.last()) =~= ints);
    } else {
        assert(ints =~= seq![]);
    }
}

proof fn lemma_bools_round_trip(bools: Seq<bool>)
    ensures
        bools_of(bool_trees(bools)) == Ok::<Seq<bool>, FieldFault>(bools),
    decreases bools.len(),
{
    if bools.len() > 0 {
        lemma_bools_round_trip(bools.drop_last());
        assert(bool_trees(bools).drop_last() =~= bool_trees(bools.drop_last()));
        assert(bools.drop_last().push(bools.last()) =~= bools);
    } else {
        assert(bools =~= seq![]);
    }
}

/// Reading the Plutus data of a datum gives the datum back. Only a deadline at
/// the sentinel and the mark of the legacy shape are not kept.
pub proof fn lemma_datum_round_trip(datum: DatumView)
    requires
        datum.hashes_sized(),
    ensures
        datum_of(datum.tree()) == Ok::<DatumView, DatumError>(datum.encoded()),
{
    lemma_ints_round_trip(datum.tranche_bps);
    lemma_bools_round_trip(datum.approved);
}

/// Decoding the hexadecimal text of a datum's CBOR bytes gives the datum back,
/// with and without a leading `0x`. The bytes are those that `Datum::to_cbor`
/// gives.
pub proof fn lemma_inline_datum_round_trip(datum: DatumView, bytes: Seq<u8>)
    requires
        datum.hashes_sized(),
        plutus_from_cbor(bytes) == Some(datum.tree()),
    ensures
        inline_datum_of(hex_text(bytes)) == Ok::<DatumView, DatumError>(datum.encoded()),
        inline_datum_of(seq!['0', 'x'] + hex_text(bytes)) == Ok::<DatumView, DatumError>(datum.encoded()),
{
    let text = hex_text(bytes);
    lemma_hex_round_trip(bytes);
    lemma_datum_round_trip(datum);
    assert(without_prefix(text) == text) by {
        if text.len() >= 2 {
            assert(crate::hexadecimal::digit_value(text[1]) is Some);
        }
    }
    assert(without_prefix(seq!['0', 'x'] + text) =~= text);
}

/// A datum that is encoded has eight fields, the last of which is the deadline
/// or, without one, the sentinel.
pub proof fn lemma_datum_has_eight_fields(datum: DatumView)
    ensures
        datum.tree()->fields.len() == 8,
        datum.review_deadline is None ==> datum.tree()->fields[7] == PlutusTree::Int(i64::MAX as int),
        datum.review_deadline matches Some(deadline) ==> datum.tree()->fields[7] == PlutusTree::Int(deadline as int),
{
}

/// A datum of the legacy shape, which is an encoded one without its last
/// field, reads as one without a deadline and is marked.
pub proof fn lemma_legacy_shape_is_marked(datum: DatumView)
    requires
        datum.hashes_sized(),
    ensures
        datum_of(constr_tree(121, datum.tree()->fields.take(7))) == Ok::<DatumView, DatumError>(
            DatumView { review_deadline: None, unspendable_legacy_shape: true, ..datum },
        ),
{
    lemma_ints_round_trip(datum.tranche_bps);
    lemma_bools_round_trip(datum.approved);
}

/// Only a constructor of seven fields is ever marked as the legacy shape, and
/// every such datum is.
pub proof fn lemma_mark_tells_field_count(tree: PlutusTree)
    requires
        datum_of(tree) is Ok,
    ensures
        tree is Constr,
        (datum_of(tree)->Ok_0).unspendable_legacy_shape <==> tree->fields.len() == 7,
        !(datum_of(tree)->Ok_0).unspendable_legacy_shape <==> tree->fields.len() == 8,
        (datum_of(tree)->Ok_0).hashes_sized(),
{
}

/// Different redeemers have different Plutus data.
pub proof fn lemma_redeemers_differ(a: Redeemer, b: Redeemer)
    requires
        a.tree() == b.tree(),
    ensures
        a == b,
{
    assert(a.tree()->tag == b.tree()->tag);
    assert(a.tree()->fields[0] == PlutusTree::Int(a.milestone() as int));
    assert(b.tree()->fields[0] == PlutusTree::Int(b.milestone() as int));
}

/// Each milestone has a receipt name of its own, short enough for the ledger.
pub proof fn lemma_asset_names_differ(a: u8, b: u8)
    ensures
        asset_name(a).len() == 10,
        asset_name(a) == asset_name(b) <==> a == b,
{
    assert(asset_name(a)[9] == a);
    assert(asset_name(b)[9] == b);
}

/// What is known of a datum is what its fields hold.
pub proof fn lemma_datum_shows_its_fields(datum: Datum)
    ensures
        datum@.reviewer == datum.reviewer@,
        datum@.proposer == datum.proposer@,
        datum@.total_locked == datum.total_locked,
        datum@.tranche_bps == datum.tranche_bps@,
        datum@.approved == datum.approved@,
        datum@.released_count == datum.released_count,
        datum@.receipt_policy_id == datum.receipt_policy_id@,
        datum@.review_deadline == datum.review_deadline,
        datum@.unspendable_legacy_shape == datum.unspendable_legacy_shape,
        datum@.hashes_sized(),
{
}

/// The layout of a datum on the chain: the first constructor, with its fields
/// in order, integers as integers, hashes as bytes, and an approval as the
/// first or the second constructor. Lists are written with their length.
pub proof fn lemma_datum_layout(datum: DatumView)
    ensures
        datum.tree() matches PlutusTree::Constr { tag, any_constructor, indefinite, fields } && {
            &&& tag == 121
            &&& any_constructor is None
            &&& !indefinite
            &&& fields.len() == 8
            &&& fields[0] == PlutusTree::Bytes(datum.reviewer)
            &&& fields[1] == PlutusTree::Bytes(datum.proposer)
            &&& fields[2] == PlutusTree::Int(datum.total_locked as int)
            &&& fields[3] matches PlutusTree::Array { indefinite, items } && !indefinite && items.len()
                == datum.tranche_bps.len() && forall|i: int|
                0 <= i < items.len() ==> #[trigger] items[i] == PlutusTree::Int(datum.tranche_bps[i] as int)
            &&& fields[4] matches PlutusTree::Array { indefinite, items } && !indefinite && items.len()
                == datum.approved.len() && forall|i: int|
                0 <= i < items.len() ==> (#[trigger] items[i] matches PlutusTree::Constr {
                    tag,
                    any_constructor,
                    indefinite,
                    fields,
                } && tag == (if datum.approved[i] {
                    122u64
                } else {
                    121u64
                }) && any_constructor is None && !indefinite && fields.len() == 0)
            &&& fields[5] == PlutusTree::Int(datum.released_count as int)
            &&& fields[6] == PlutusTree::Bytes(datum.receipt_policy_id)
            &&& fields[7] == PlutusTree::Int(
                if datum.review_deadline is Some {
                    datum.review_deadline->0 as int
                } else {
                    0x7fff_ffff_ffff_ffff
                },
            )
        },
{
}

/// Integers are read from a list exactly where each item is one that 64 bits
/// hold, and in their order.
pub proof fn lemma_ints_are_read(trees: Seq<PlutusTree>, ints: Seq<i64>)
    ensures
        ints_of(trees) == Ok::<Seq<i64>, FieldFault>(ints) <==> trees.len() == ints.len() && forall|i: int|
            0 <= i < trees.len() ==> #[trigger] trees[i] == PlutusTree::Int(ints[i] as int),
    decreases trees.len(),
{
    if trees.len() == 0 {
        if ints.len() == 0 {
            assert(ints =~= seq![]);
        }
    } else {
        if ints_of(trees) == Ok::<Seq<i64>, FieldFault>(ints) {
            lemma_ints_are_read(trees.drop_last(), ints.drop_last());
            assert(ints_of(trees.drop_last())->Ok_0 =~= ints.drop_last());
            assert forall|i: int| 0 <= i < trees.len() implies #[trigger] trees[i] == PlutusTree::Int(
                ints[i] as int,
            ) by {
                if i < trees.len() - 1 {
                    assert(trees.drop_last()[i] == trees[i]);
                }
            }
        }
        if trees.len() == ints.len() && forall|i: int|
            0 <= i < trees.len() ==> #[trigger] trees[i] == PlutusTree::Int(ints[i] as int) {
            lemma_ints_are_read(trees.drop_last(), ints.drop_last());
            assert forall|i: int| 0 <= i < trees.len() - 1 implies #[trigger] trees.drop_last()[i]
                == PlutusTree::Int(ints.drop_last()[i] as int) by {
                assert(trees.drop_last()[i] == trees[i]);
            }
            assert(trees.last() == trees[trees.len() - 1]);
            assert(ints.drop_last().push(ints.last()) =~= ints);
        }
    }
}

/// Approvals are read from a list exactly where each item is the first or the
/// second constructor, and in their order.
pub proof fn lemma_bools_are_read(trees: Seq<PlutusTree>, bools: Seq<bool>)
    ensures
        bools_of(trees) == Ok::<Seq<bool>, FieldFault>(bools) <==> trees.len() == bools.len() && forall|i: int|
            0 <= i < trees.len() ==> (#[trigger] trees[i] matches PlutusTree::Constr { tag, .. } && tag == (if bools[i] {
                122u64
            } else {
                121u64
            })),
    decreases trees.len(),
{
    if trees.len() == 0 {
        if bools.len() == 0 {
            assert(bools =~= seq![]);
        }
    } else {
        if bools_of(trees) == Ok::<Seq<bool>, FieldFault>(bools) {
            lemma_bools_are_read(trees.drop_last(), bools.drop_last());
            assert(bools_of(trees.drop_last())->Ok_0 =~= bools.drop_last());
            assert forall|i: int| 0 <= i < trees.len() implies (#[trigger] trees[i] matches PlutusTree::Constr {
                tag,
                ..
            } && tag == (if bools[i] {
                122u64
            } else {
                121u64
            })) by {
                if i < trees.len() - 1 {
                    assert(trees.drop_last()[i] == trees[i]);
                }
            }
        }
        if trees.len() == bools.len() && forall|i: int|
            0 <= i < trees.len() ==> (#[trigger] trees[i] matches PlutusTree::Constr { tag, .. } && tag == (if bools[i] {
                122u64
            } else {
                121u64
            })) {
            lemma_bools_are_read(trees.drop_last(), bools.drop_last());
            assert forall|i: int| 0 <= i < trees.len() - 1 implies (#[trigger] trees.drop_last()[i]
                matches PlutusTree::Constr { tag, .. } && tag == (if bools.drop_last()[i] {
                122u64
            } else {
                121u64
            })) by {
                assert(trees.drop_last()[i] == trees[i]);
            }
            assert(trees.last() == trees[trees.len() - 1]);
            assert(bools.drop_last().push(bools.last()) =~= bools);
        }
    }
}

/// A datum is read exactly from the first constructor with seven or eight
/// fields of the right kinds: three hashes of 28 bytes, integers that 64 bits
/// hold, a list of integers and a list of approvals. It holds what the fields
/// say; an eighth field at the largest integer, and the lack of one, is no
/// deadline, and only the lack of one is marked.
pub proof fn lemma_datum_is_read(tree: PlutusTree, datum: DatumView)
    ensures
        datum_of(tree) == Ok::<DatumView, DatumError>(datum) <==> (tree matches PlutusTree::Constr { tag, fields, .. } && {
            &&& tag == 121
            &&& fields.len() == 7 || fields.len() == 8
            &&& fields[0] == PlutusTree::Bytes(datum.reviewer) && datum.reviewer.len() == 28
            &&& fields[1] == PlutusTree::Bytes(datum.proposer) && datum.proposer.len() == 28
            &&& fields[2] == PlutusTree::Int(datum.total_locked as int)
            &&& fields[3] matches PlutusTree::Array { items, .. } && items.len() == datum.tranche_bps.len() && forall|
                i: int,
            |
                0 <= i < items.len() ==> #[trigger] items[i] == PlutusTree::Int(datum.tranche_bps[i] as int)
            &&& fields[4] matches PlutusTree::Array { items, .. } && items.len() == datum.approved.len() && forall|i: int|
                0 <= i < items.len() ==> (#[trigger] items[i] matches PlutusTree::Constr { tag, .. } && tag == (
                if datum.approved[i] {
                    122u64
                } else {
                    121u64
                }))
            &&& fields[5] == PlutusTree::Int(datum.released_count as int)
            &&& fields[6] == PlutusTree::Bytes(datum.receipt_policy_id) && datum.receipt_policy_id.len() == 28
            &&& datum.unspendable_legacy_shape <==> fields.len() == 7
            &&& fields.len() == 7 ==> datum.review_deadline is None
            &&& fields.len() == 8 ==> fields[7] == PlutusTree::Int(
                if datum.review_deadline is Some {
                    datum.review_deadline->0 as int
                } else {
                    0x7fff_ffff_ffff_ffff
                },
            ) && datum.review_deadline != Some(0x7fff_ffff_ffff_ffffi64)
        }),
{
    if let PlutusTree::Constr { fields, .. } = tree {
        if let PlutusTree::Array { items, .. } = fields[3] {
            lemma_ints_are_read(items, datum.tranche_bps);
        }
        if let PlutusTree::Array { items, .. } = fields[4] {
            lemma_bools_are_read(items, datum.approved);
        }
        if datum_of(tree) == Ok::<DatumView, DatumError>(datum) {
            assert(int_list_of(fields[3]) == Ok::<Seq<i64>, FieldFault>(datum.tranche_bps));
            assert(bool_list_of(fields[4]) == Ok::<Seq<bool>, FieldFault>(datum.approved));
        }
    }
}

/// A text is read as its digits, and so it is with a leading `0x`. What is not
/// hexadecimal, and what is not Plutus data, is told apart.
pub proof fn lemma_inline_datum_is_read(digits: Seq<char>)
    requires
        !(digits.len() >= 2 && digits[0] == '0' && digits[1] == 'x'),
    ensures
        inline_datum_of(seq!['0', 'x'] + digits) == inline_datum_of(digits),
        !is_hex(digits) ==> inline_datum_of(digits) == Err::<DatumView, DatumError>(DatumError::InvalidHex),
        is_hex(digits) && plutus_from_cbor(hex_bytes(digits)) is None ==> inline_datum_of(digits) == Err::<
            DatumView,
            DatumError,
        >(DatumError::InvalidCbor),
        is_hex(digits) && plutus_from_cbor(hex_bytes(digits)) is Some ==> inline_datum_of(digits) == datum_of(
            plutus_from_cbor(hex_bytes(digits))->0,
        ),
{
    let text = seq!['0', 'x'] + digits;
    assert(text.subrange(2, text.len() as int) =~= digits);
}

/// A datum that was read is the one expected, or the error is.
pub proof fn lemma_datum_outcome(read: Result<Datum, DatumError>, expected: Result<DatumView, DatumError>)
    requires
        datum_outcome(read, expected),
    ensures
        match read {
            Ok(datum) => expected == Ok::<DatumView, DatumError>(datum@),
            Err(error) => expected == Err::<DatumView, DatumError>(error),
        },
{
}

/// Other Plutus data is refused by what it is: no constructor, another
/// constructor with its tag, or another number of fields with that number.
pub proof fn lemma_other_data_is_no_datum(tree: PlutusTree)
    ensures
        !(tree is Constr) ==> datum_of(tree) == Err::<DatumView, DatumError>(DatumError::NotConstr),
        tree is Constr && tree->tag != 121 ==> datum_of(tree) == Err::<DatumView, DatumError>(
            DatumError::WrongTag(tree->tag),
        ),
        tree is Constr && tree->tag == 121 && tree->fields.len() != 7 && tree->fields.len() != 8 ==> datum_of(tree)
            == Err::<DatumView, DatumError>(DatumError::FieldCount(tree->fields.len() as usize)),
{
}

/// A datum is shown with its numbers, lists and deadline as they are, and with
/// its hashes as lower-case text that writes them.
pub proof fn lemma_json_shows_the_datum(datum: DatumView)
    ensures
        is_hex(datum.json().reviewer) && hex_bytes(datum.json().reviewer) == datum.reviewer,
        is_hex(datum.json().proposer) && hex_bytes(datum.json().proposer) == datum.proposer,
        is_hex(datum.json().receipt_policy_id) && hex_bytes(datum.json().receipt_policy_id) == datum.receipt_policy_id,
        forall|i: int| 0 <= i < datum.json().reviewer.len() ==> !('A' <= #[trigger] datum.json().reviewer[i] <= 'F'),
        forall|i: int| 0 <= i < datum.json().proposer.len() ==> !('A' <= #[trigger] datum.json().proposer[i] <= 'F'),
        forall|i: int|
            0 <= i < datum.json().receipt_policy_id.len() ==> !('A' <= #[trigger] datum.json().receipt_policy_id[i]
                <= 'F'),
        datum.json().total_locked == datum.total_locked,
        datum.json().tranche_bps == datum.tranche_bps,
        datum.json().approved == datum.approved,
        datum.json().released_count == datum.released_count,
        datum.json().review_deadline == datum.review_deadline,
{
    lemma_hex_round_trip(datum.reviewer);
    lemma_hex_round_trip(datum.proposer);
    lemma_hex_round_trip(datum.receipt_policy_id);
}

/// What is known of a datum that is shown is what its fields hold.
pub proof fn lemma_json_shows_its_fields(json: DatumJson)
    ensures
        json@.reviewer == json.reviewer@,
        json@.proposer == json.proposer@,
        json@.total_locked == json.total_locked,
        json@.tranche_bps == json.tranche_bps@,
        json@.approved == json.approved@,
        json@.released_count == json.released_count,
        json@.receipt_policy_id == json.receipt_policy_id@,
        json@.review_deadline == json.review_deadline,
{
}

/// The layout of a redeemer on the chain: the first constructor approves, the
/// second releases, the third claims, and the one field is the milestone.
pub proof fn lemma_redeemer_layout(redeemer: Redeemer, index: i64)
    ensures
        redeemer == Redeemer::ApproveMilestone(index) ==> redeemer.tree()->tag == 121,
        redeemer == Redeemer::ReleaseTranche(index) ==> redeemer.tree()->tag == 122,
        redeemer == Redeemer::ClaimExpired(index) ==> redeemer.tree()->tag == 123,
        redeemer == Redeemer::ApproveMilestone(index) || redeemer == Redeemer::ReleaseTranche(index) || redeemer
            == Redeemer::ClaimExpired(index) ==> (redeemer.tree() matches PlutusTree::Constr {
            any_constructor,
            indefinite,
            fields,
            ..
        } && any_constructor is None && !indefinite && fields == seq![PlutusTree::Int(index as int)]),
{
}

/// A receipt's name is the word `Milestone` in ASCII, and one byte more: the
/// milestone.
pub proof fn lemma_asset_name_spells_the_milestone(index: u8)
    ensures
        asset_name(index).len() == 10,
        asset_name(index)[9] == index,
        asset_name(index)[0] == 'M' as u8 && asset_name(index)[1] == 'i' as u8 && asset_name(index)[2] == 'l' as u8,
        asset_name(index)[3] == 'e' as u8 && asset_name(index)[4] == 's' as u8 && asset_name(index)[5] == 't' as u8,
        asset_name(index)[6] == 'o' as u8 && asset_name(index)[7] == 'n' as u8 && asset_name(index)[8] == 'e' as u8,
{
}

/// What is wrong with a value is told by what it is: bytes of another length
/// by their length, an integer that 64 bits do not hold by being out of range,
/// a constructor that is no boolean by its tag, and any other value by what it
/// is not.
pub proof fn lemma_value_faults(tree: PlutusTree)
    ensures
        match bytes28_of(tree) {
            Ok(bytes) => tree == PlutusTree::Bytes(bytes) && bytes.len() == 28,
            Err(FieldFault::WrongLength(length)) => tree matches PlutusTree::Bytes(bytes) && bytes.len() != 28 && length
                == bytes.len() as usize,
            Err(fault) => fault == FieldFault::NotBytes && !(tree is Bytes),
        },
        match int_of(tree) {
            Ok(value) => tree == PlutusTree::Int(value as int),
            Err(FieldFault::OutOfRange) => tree matches PlutusTree::Int(value) && (value < -0x8000_0000_0000_0000 || value
                > 0x7fff_ffff_ffff_ffff),
            Err(fault) => fault == FieldFault::NotInteger && !(tree is Int),
        },
        match bool_of(tree) {
            Ok(value) => tree is Constr && tree->tag == (if value {
                122u64
            } else {
                121u64
            }),
            Err(FieldFault::NotBool(tag)) => tree is Constr && tree->tag == tag && tag != 121 && tag != 122,
            Err(fault) => fault == FieldFault::NotConstr && !(tree is Constr),
        },
        !(tree is Array) ==> int_list_of(tree) == Err::<Seq<i64>, FieldFault>(FieldFault::NotList),
        !(tree is Array) ==> bool_list_of(tree) == Err::<Seq<bool>, FieldFault>(FieldFault::NotList),
{
}

/// What is wrong with a list is what is wrong with its first faulty item.
pub proof fn lemma_first_fault_of_a_list(items: Seq<PlutusTree>, place: int, indefinite: bool)
    requires
        0 <= place < items.len(),
    ensures
        (forall|i: int| 0 <= i < place ==> int_of(#[trigger] items[i]) is Ok) && int_of(items[place]) is Err
            ==> int_list_of(PlutusTree::Array { indefinite, items }) == Err::<Seq<i64>, FieldFault>(
            int_of(items[place])->Err_0,
        ),
        (forall|i: int| 0 <= i < place ==> bool_of(#[trigger] items[i]) is Ok) && bool_of(items[place]) is Err
            ==> bool_list_of(PlutusTree::Array { indefinite, items }) == Err::<Seq<bool>, FieldFault>(
            bool_of(items[place])->Err_0,
        ),
{
    assert(items.take(place + 1).drop_last() =~= items.take(place));
    assert(items.take(place + 1).last() == items[place]);
    if (forall|i: int| 0 <= i < place ==> int_of(#[trigger] items[i]) is Ok) && int_of(items[place]) is Err {
        lemma_ints_readable(items.take(place));
        lemma_first_int_fault(items, place + 1);
    }
    if (forall|i: int| 0 <= i < place ==> bool_of(#[trigger] items[i]) is Ok) && bool_of(items[place]) is Err {
        lemma_bools_readable(items.take(place));
        lemma_first_bool_fault(items, place + 1);
    }
}

/// Items that are all integers are read.
proof fn lemma_ints_readable(items: Seq<PlutusTree>)
    requires
        forall|i: int| 0 <= i < items.len() ==> int_of(#[trigger] items[i]) is Ok,
    ensures
        ints_of(items) is Ok,
    decreases items.len(),
{
    if items.len() > 0 {
        assert forall|i: int| 0 <= i < items.drop_last().len() implies int_of(#[trigger] items.drop_last()[i]) is Ok by {
            assert(items.drop_last()[i] == items[i]);
        }
        lemma_ints_readable(items.drop_last());
        assert(int_of(items[items.len() - 1]) is Ok);
    }
}

/// Items that are all booleans are read.
proof fn lemma_bools_readable(items: Seq<PlutusTree>)
    requires
        forall|i: int| 0 <= i < items.len() ==> bool_of(#[trigger] items[i]) is Ok,
    ensures
        bools_of(items) is Ok,
    decreases items.len(),
{
    if items.len() > 0 {
        assert forall|i: int| 0 <= i < items.drop_last().len() implies bool_of(#[trigger] items.drop_last()[i]) is Ok by {
            assert(items.drop_last()[i] == items[i]);
        }
        lemma_bools_readable(items.drop_last());
        assert(bool_of(items[items.len() - 1]) is Ok);
    }
}

/// Of the fields of a datum the deadline counts first, where there is one, and
/// then they count in their order: the first that is faulty is told, with its
/// fault.
pub proof fn lemma_first_faulty_field(tree: PlutusTree)
    requires
        tree is Constr,
        tree->tag == 121,
        tree->fields.len() == 7 || tree->fields.len() == 8,
    ensures
        ({
            let fields = tree->fields;
            let dated = fields.len() == 8 ==> int_of(fields[7]) is Ok;
            match datum_of(tree) {
                Ok(_) => dated,
                Err(DatumError::Field(DatumField::ReviewDeadline, fault)) => fields.len() == 8 && int_of(fields[7])
                    == Err::<i64, FieldFault>(fault),
                Err(DatumError::Field(DatumField::Reviewer, fault)) => dated && bytes28_of(fields[0]) == Err::<
                    Seq<u8>,
                    FieldFault,
                >(fault),
                Err(DatumError::Field(DatumField::Proposer, fault)) => dated && bytes28_of(fields[0]) is Ok && bytes28_of(
                    fields[1],
                ) == Err::<Seq<u8>, FieldFault>(fault),
                Err(DatumError::Field(DatumField::TotalLocked, fault)) => dated && bytes28_of(fields[0]) is Ok
                    && bytes28_of(fields[1]) is Ok && int_of(fields[2]) == Err::<i64, FieldFault>(fault),
                Err(DatumError::Field(DatumField::TrancheBps, fault)) => dated && bytes28_of(fields[0]) is Ok
                    && bytes28_of(fields[1]) is Ok && int_of(fields[2]) is Ok && int_list_of(fields[3]) == Err::<
                    Seq<i64>,
                    FieldFault,
                >(fault),
                Err(DatumError::Field(DatumField::Approved, fault)) => dated && bytes28_of(fields[0]) is Ok && bytes28_of(
                    fields[1],
                ) is Ok && int_of(fields[2]) is Ok && int_list_of(fields[3]) is Ok && bool_list_of(fields[4]) == Err::<
                    Seq<bool>,
                    FieldFault,
                >(fault),
                Err(DatumError::Field(DatumField::ReleasedCount, fault)) => dated && bytes28_of(fields[0]) is Ok
                    && bytes28_of(fields[1]) is Ok && int_of(fields[2]) is Ok && int_list_of(fields[3]) is Ok
                    && bool_list_of(fields[4]) is Ok && int_of(fields[5]) == Err::<i64, FieldFault>(fault),
                Err(DatumError::Field(DatumField::ReceiptPolicyId, fault)) => dated && bytes28_of(fields[0]) is Ok
                    && bytes28_of(fields[1]) is Ok && int_of(fields[2]) is Ok && int_list_of(fields[3]) is Ok
                    && bool_list_of(fields[4]) is Ok && int_of(fields[5]) is Ok && bytes28_of(fields[6]) == Err::<
                    Seq<u8>,
                    FieldFault,
                >(fault),
                Err(_) => false,
            }
        }),
{
}

/// An encoding keeps every field but two: a deadline at the largest integer is
/// lost, and so is the mark of the legacy shape.
pub proof fn lemma_encoding_keeps_the_fields(datum: DatumView)
    ensures
        datum.encoded().reviewer == datum.reviewer,
        datum.encoded().proposer == datum.proposer,
        datum.encoded().total_locked == datum.total_locked,
        datum.encoded().tranche_bps == datum.tranche_bps,
        datum.encoded().approved == datum.approved,
        datum.encoded().released_count == datum.released_count,
        datum.encoded().receipt_policy_id == datum.receipt_policy_id,
        datum.review_deadline != Some(0x7fff_ffff_ffff_ffffi64) ==> datum.encoded().review_deadline
            == datum.review_deadline,
        datum.review_deadline == Some(0x7fff_ffff_ffff_ffffi64) ==> datum.encoded().review_deadline is None,
        !datum.encoded().unspendable_legacy_shape,
{
}

} // verus!
