//! The transaction that creates an escrow: the funds go to the script's
//! address with the grant's first datum. No script runs yet.

use crate::address::{parse_address, payment_key_hash};
use crate::datum::Datum;
use crate::ledger::{
    build_transaction, new_output, new_transaction, stage_fee, stage_input, stage_output, with_inline_datum, TxInput,
};
use crate::tx::{settle_fee, BuildError, FeeDraft, UtxoRef};
use pallas_addresses::Address;
use vstd::prelude::*;

verus! {

use crate::address::{bech32_address, key_hash_of, AddressError};
use crate::datum::{datum_of, lemma_datum_round_trip, DatumView};
use crate::hexadecimal::{hex_bytes, is_hex};
use crate::ledger::{
    conway_tx, may_build, staged, total_lovelace, written_bytes, AssetId, RedeemerPurpose, StagedOutput, StagedRedeemer,
    StagedTx, TxInputView, Walk,
};
use crate::plutus::{plutus_cbor, plutus_from_cbor};
use crate::tx::{built_outcome, lemma_one_walk, lemma_settled, outcome_of, settled, Outcome, UtxoRefView};

/// The basis points of a whole grant.
pub const WHOLE_BPS: i64 = 10_000;

/// A wish to create an escrow.
#[derive(Debug, Clone, PartialEq, Eq)]
pub struct CreateEscrowRequest {
    pub proposer_address: String,
    pub reviewer_address: String,
    pub tranche_bps: Vec<i64>,
    pub total_locked: u64,
    pub fee_input: UtxoRef,
    pub fee_input_lovelace: u64,
    /// The time, in milliseconds since 1970, after which the proposer may
    /// claim a tranche that nobody reviewed.
    pub review_deadline: Option<i64>,
}

/// What a [`CreateEscrowRequest`] holds.
pub struct CreateEscrowView {
    pub proposer_address: Seq<char>,
    pub reviewer_address: Seq<char>,
    pub tranche_bps: Seq<i64>,
    pub total_locked: u64,
    pub fee_input: UtxoRefView,
    pub fee_input_lovelace: u64,
    pub review_deadline: Option<i64>,
}

impl View for CreateEscrowRequest {
    type V = CreateEscrowView;

    open spec fn view(&self) -> CreateEscrowView {
        CreateEscrowView {
            proposer_address: self.proposer_address@,
            reviewer_address: self.reviewer_address@,
            tranche_bps: self.tranche_bps@,
            total_locked: self.total_locked,
            fee_input: self.fee_input@,
            fee_input_lovelace: self.fee_input_lovelace,
            review_deadline: self.review_deadline,
        }
    }
}

/// The sum of some tranches.
pub open spec fn bps_total(bps: Seq<i64>) -> int
    decreases bps.len(),
{
    if bps.len() == 0 {
        0
    } else {
        bps_total(bps.drop_last()) + bps.last()
    }
}

/// Whether every sum of the first few tranches is a 64-bit integer.
pub open spec fn bps_total_in_range(bps: Seq<i64>) -> bool {
    forall|count: int| 0 <= count <= bps.len() ==> i64::MIN <= bps_total(#[trigger] bps.take(count)) <= i64::MAX
}

impl CreateEscrowView {
    /// The grant's first datum: nothing approved, nothing released.
    pub open spec fn datum(self, reviewer: Seq<u8>, proposer: Seq<u8>, receipt_policy_id: Seq<u8>) -> DatumView {
        DatumView {
            reviewer,
            proposer,
            total_locked: self.total_locked as i64,
            tranche_bps: self.tranche_bps,
            approved: Seq::new(self.tranche_bps.len(), |i: int| false),
            released_count: 0,
            receipt_policy_id,
            review_deadline: self.review_deadline,
            unspendable_legacy_shape: false,
        }
    }

    /// The transaction but for its fee, or the first reason against it. `None`
    /// where the tranches cannot be added up.
    pub open spec fn plan(self, escrow_address: Seq<char>, receipt_policy_id: Seq<u8>) -> Option<
        Result<CreatePlanView, BuildError>,
    > {
        if self.tranche_bps.len() == 0 {
            Some(Err(BuildError::NoTranches))
        } else if !bps_total_in_range(self.tranche_bps) {
            None
        } else if bps_total(self.tranche_bps) != WHOLE_BPS {
            Some(Err(BuildError::TranchesNotWhole))
        } else if self.total_locked == 0 {
            Some(Err(BuildError::NothingLocked))
        } else {
            match (
                key_hash_of(self.reviewer_address),
                key_hash_of(self.proposer_address),
                bech32_address(escrow_address),
                bech32_address(self.reviewer_address),
                self.fee_input.input(),
            ) {
                (Err(error), _, _, _, _) => Some(Err(BuildError::Address(error))),
                (_, Err(error), _, _, _) => Some(Err(BuildError::Address(error))),
                (_, _, None, _, _) => Some(Err(BuildError::Address(AddressError::InvalidBech32))),
                (_, _, _, None, _) => Some(Err(BuildError::Address(AddressError::InvalidBech32))),
                (_, _, _, _, None) => Some(Err(BuildError::InvalidTxHash)),
                (Ok(reviewer), Ok(proposer), Some(escrow), Some(change), Some(fee_input)) => Some(
                    Ok(
                        CreatePlanView {
                            fee_input,
                            fee_input_lovelace: self.fee_input_lovelace,
                            escrow_address: escrow,
                            reviewer_address: change,
                            total_locked: self.total_locked,
                            datum: self.datum(reviewer, proposer, receipt_policy_id),
                        },
                    ),
                ),
            }
        }
    }

    /// What comes of building the transaction.
    pub open spec fn outcome(
        self,
        escrow_address: Seq<char>,
        receipt_policy_id: Seq<u8>,
        min_fee_a: u64,
        min_fee_b: u64,
    ) -> Outcome {
        match self.plan(escrow_address, receipt_policy_id) {
            None => None,
            Some(Err(error)) => Some(Err(error)),
            Some(Ok(plan)) => settled(|fee: u64| plan.built(fee), 0, min_fee_a, min_fee_b),
        }
    }
}

/// The transaction that creates an escrow, but for its fee.
struct CreatePlan {
    fee_input: TxInput,
    fee_input_lovelace: u64,
    escrow_address: Address,
    reviewer_address: Address,
    total_locked: u64,
    datum: Datum,
    datum_cbor: Vec<u8>,
}

/// The transaction that creates an escrow, but for its fee.
pub struct CreatePlanView {
    pub fee_input: TxInputView,
    pub fee_input_lovelace: u64,
    pub escrow_address: Address,
    pub reviewer_address: Address,
    pub total_locked: u64,
    pub datum: DatumView,
}

impl View for CreatePlan {
    type V = CreatePlanView;

    closed spec fn view(&self) -> CreatePlanView {
        CreatePlanView {
            fee_input: self.fee_input@,
            fee_input_lovelace: self.fee_input_lovelace,
            escrow_address: self.escrow_address,
            reviewer_address: self.reviewer_address,
            total_locked: self.total_locked,
            datum: self.datum@,
        }
    }
}

impl CreatePlanView {
    /// Whether the fee input pays for the escrow, the fee and some change.
    pub open spec fn covered(self, fee: u64) -> bool {
        self.fee_input_lovelace > self.total_locked + fee
    }

    /// The transaction with `fee`: the escrow's output, and the change to the
    /// funder.
    pub open spec fn tx(self, fee: u64) -> StagedTx {
        StagedTx {
            inputs: seq![self.fee_input],
            outputs: seq![
                StagedOutput::paying(self.escrow_address, self.total_locked).with_datum(plutus_cbor(self.datum.tree())),
                StagedOutput::paying(
                    self.reviewer_address,
                    (self.fee_input_lovelace - self.total_locked - fee) as u64,
                ),
            ],
            fee: Some(fee),
            ..StagedTx::empty()
        }
    }

    /// What comes of building it with `fee`.
    pub open spec fn built(self, fee: u64) -> Outcome {
        if self.total_locked + fee > u64::MAX {
            None
        } else if !self.covered(fee) {
            Some(
                Err(
                    BuildError::NotCovered { available: self.fee_input_lovelace, needed: self.total_locked, fee },
                ),
            )
        } else {
            built_outcome(conway_tx(self.tx(fee), Walk { scripts: seq![], redeemers: seq![] }))
        }
    }
}

impl FeeDraft for CreatePlan {
    closed spec fn ready(&self) -> bool {
        self.datum_cbor@ == plutus_cbor(self.datum@.tree())
    }

    closed spec fn gives(&self, fee: u64, outcome: Outcome) -> bool {
        outcome == self@.built(fee)
    }

    fn assemble(&self, fee: u64) -> (built: Option<Result<Vec<u8>, BuildError>>) {
        let spent: u64 = match self.total_locked.checked_add(fee) {
            Some(spent) => spent,
            None => return None,
        };
        if self.fee_input_lovelace <= spent {
            return Some(
                Err(
                    BuildError::NotCovered { available: self.fee_input_lovelace, needed: self.total_locked, fee },
                ),
            );
        }
        let change: u64 = self.fee_input_lovelace - self.total_locked - fee;
        let escrow_output = with_inline_datum(
            new_output(&self.escrow_address, self.total_locked),
            self.datum_cbor.clone(),
        );
        let tx = stage_input(new_transaction(), &self.fee_input);
        let tx = stage_fee(stage_output(tx, escrow_output), fee);
        let tx = stage_output(tx, new_output(&self.reviewer_address, change));
        assert(staged(tx) =~= self@.tx(fee));
        let bytes = build_transaction(tx);
        proof {
            let walk = Walk { scripts: seq![], redeemers: seq![] };
            assert(walk.scripts.to_set() =~= staged(tx).scripts.dom());
            assert(walk.redeemers.to_set() =~= staged(tx).redeemers.dom());
            lemma_one_walk(self@.tx(fee), walk, written_bytes(bytes));
        }
        match bytes {
            Some(written) => Some(Ok(written)),
            None => Some(Err(BuildError::NotBuilt)),
        }
    }
}

/// The sum of some tranches, where it stays in range.
fn sum_bps(bps: &Vec<i64>) -> (total: Option<i64>)
    ensures
        match total {
            Some(value) => bps_total_in_range(bps@) && value == bps_total(bps@),
            None => !bps_total_in_range(bps@),
        },
{
    let mut total: i64 = 0;
    for i in 0..bps.len()
        invariant
            total == bps_total(bps@.take(i as int)),
            forall|count: int| 0 <= count <= i ==> i64::MIN <= bps_total(#[trigger] bps@.take(count)) <= i64::MAX,
    {
        assert(bps@.take(i + 1).drop_last() =~= bps@.take(i as int));
        match total.checked_add(bps[i]) {
            Some(sum) => total = sum,
            None => {
                assert(bps_total(bps@.take(i + 1)) == total + bps@[i as int]);
                return None;
            },
        }
    }
    assert(bps@.take(bps@.len() as int) =~= bps@);
    Some(total)
}

/// As many approvals as there are tranches, none given.
fn no_approvals(count: usize) -> (approved: Vec<bool>)
    ensures
        approved@ == Seq::new(count as nat, |i: int| false),
{
    let mut approved: Vec<bool> = Vec::new();
    for i in 0..count
        invariant
            approved@.len() == i,
            forall|j: int| 0 <= j < i ==> !approved@[j],
    {
        approved.push(false);
    }
    assert(approved@ =~= Seq::new(count as nat, |i: int| false));
    approved
}

/// The transaction but for its fee.
fn plan(req: &CreateEscrowRequest, escrow_address: &str, receipt_policy_id: &[u8; 28]) -> (planned: Option<Result<CreatePlan, BuildError>>)
    ensures
        match planned {
            Some(Ok(plan)) => plan.ready() && plan@.datum.readable() && req@.plan(escrow_address@, receipt_policy_id@) == Some(
                Ok::<CreatePlanView, BuildError>(plan@),
            ),
            Some(Err(error)) => req@.plan(escrow_address@, receipt_policy_id@) == Some(
                Err::<CreatePlanView, BuildError>(error),
            ),
            None => req@.plan(escrow_address@, receipt_policy_id@) is None,
        },
{
    if req.tranche_bps.len() == 0 {
        return Some(Err(BuildError::NoTranches));
    }
    let total: i64 = match sum_bps(&req.tranche_bps) {
        Some(total) => total,
        None => return None,
    };
    if total != WHOLE_BPS {
        return Some(Err(BuildError::TranchesNotWhole));
    }
    if req.total_locked == 0 {
        return Some(Err(BuildError::NothingLocked));
    }
    let reviewer = match payment_key_hash(&req.reviewer_address) {
        Ok(hash) => hash,
        Err(error) => return Some(Err(BuildError::Address(error))),
    };
    let proposer = match payment_key_hash(&req.proposer_address) {
        Ok(hash) => hash,
        Err(error) => return Some(Err(BuildError::Address(error))),
    };
    let datum = Datum {
        reviewer,
        proposer,
        total_locked: req.total_locked as i64,
        tranche_bps: req.tranche_bps.clone(),
        approved: no_approvals(req.tranche_bps.len()),
        released_count: 0,
        receipt_policy_id: *receipt_policy_id,
        review_deadline: req.review_deadline,
        unspendable_legacy_shape: false,
    };
    assert(datum@ =~= req@.datum(reviewer@, proposer@, receipt_policy_id@));
    let datum_cbor = match datum.to_cbor() {
        Ok(bytes) => bytes,
        Err(error) => return Some(Err(BuildError::Datum(error))),
    };
    let escrow = match parse_address(escrow_address) {
        Ok(address) => address,
        Err(error) => return Some(Err(BuildError::Address(error))),
    };
    let change = match parse_address(&req.reviewer_address) {
        Ok(address) => address,
        Err(error) => return Some(Err(BuildError::Address(error))),
    };
    let fee_input = match req.fee_input.to_input() {
        Ok(input) => input,
        Err(error) => return Some(Err(error)),
    };
    Some(
        Ok(
            CreatePlan {
                fee_input,
                fee_input_lovelace: req.fee_input_lovelace,
                escrow_address: escrow,
                reviewer_address: change,
                total_locked: req.total_locked,
                datum,
                datum_cbor,
            },
        ),
    )
}

/// The transaction's bytes. `None` where an amount leaves its range.
fn attempt(
    req: &CreateEscrowRequest,
    escrow_address: &str,
    receipt_policy_id: &[u8; 28],
    min_fee_a: u64,
    min_fee_b: u64,
) -> (built: Option<Result<Vec<u8>, BuildError>>)
    ensures
        outcome_of(built) == req@.outcome(escrow_address@, receipt_policy_id@, min_fee_a, min_fee_b),
        req@.plan(escrow_address@, receipt_policy_id@) matches Some(Ok(plan)) ==> plan.datum.readable(),
{
    let plan = match plan(req, escrow_address, receipt_policy_id) {
        Some(Ok(plan)) => plan,
        Some(Err(error)) => return Some(Err(error)),
        None => return None,
    };
    let built = settle_fee(&plan, 0, min_fee_a, min_fee_b);
    proof {
        let view = plan@;
        lemma_settled(plan, |fee: u64| view.built(fee), 0, min_fee_a, min_fee_b, outcome_of(built));
    }
    built
}

/// The unsigned transaction that creates the escrow.
pub fn build(
    req: &CreateEscrowRequest,
    escrow_address: &str,
    receipt_policy_id: &[u8; 28],
    min_fee_a: u64,
    min_fee_b: u64,
) -> (built: Result<Vec<u8>, BuildError>)
    requires
        req@.outcome(escrow_address@, receipt_policy_id@, min_fee_a, min_fee_b) is Some,
    ensures
        req@.outcome(escrow_address@, receipt_policy_id@, min_fee_a, min_fee_b) == outcome_of(Some(built)),
        req@.plan(escrow_address@, receipt_policy_id@) matches Some(Ok(plan)) ==> plan.datum.readable(),
{
    match attempt(req, escrow_address, receipt_policy_id, min_fee_a, min_fee_b) {
        Some(built) => built,
        None => Err(BuildError::NotBuilt),
    }
}

/// The unsigned transaction that creates the escrow, or `None` where an amount
/// leaves its range.
pub fn checked_build(
    req: &CreateEscrowRequest,
    escrow_address: &str,
    receipt_policy_id: &[u8; 28],
    min_fee_a: u64,
    min_fee_b: u64,
) -> (built: Option<Result<Vec<u8>, BuildError>>)
    ensures
        outcome_of(built) == req@.outcome(escrow_address@, receipt_policy_id@, min_fee_a, min_fee_b),
        req@.plan(escrow_address@, receipt_policy_id@) matches Some(Ok(plan)) ==> plan.datum.readable(),
{
    match attempt(req, escrow_address, receipt_policy_id, min_fee_a, min_fee_b) {
        Some(_) => Some(build(req, escrow_address, receipt_policy_id, min_fee_a, min_fee_b)),
        None => None,
    }
}

/// What the fee input holds is what the outputs pay and the fee.
pub proof fn lemma_create_conserves_value(plan: CreatePlanView, fee: u64)
    requires
        plan.covered(fee),
    ensures
        plan.tx(fee).total_output() + fee == plan.fee_input_lovelace,
{
    let outputs = plan.tx(fee).outputs;
    assert(outputs.drop_last().drop_last() =~= seq![]);
    assert(total_lovelace(outputs.drop_last().drop_last()) == 0);
    assert(total_lovelace(outputs.drop_last()) == plan.total_locked);
}

/// An escrow that is created pays the whole of what is locked to the escrow's
/// address, under a datum in which nothing is approved or released. The datum
/// is read back from the output.
pub proof fn lemma_created_escrow_is_untouched(
    req: CreateEscrowView,
    escrow_address: Seq<char>,
    receipt_policy_id: Seq<u8>,
    plan: CreatePlanView,
    fee: u64,
)
    requires
        req.plan(escrow_address, receipt_policy_id) == Some(Ok::<CreatePlanView, BuildError>(plan)),
    ensures
        bech32_address(escrow_address) == Some(plan.tx(fee).outputs[0].address),
        plan.tx(fee).outputs[0].lovelace == req.total_locked,
        plan.tx(fee).outputs[0].inline_datum == Some(plutus_cbor(plan.datum.tree())),
        plan.datum.readable() ==> plutus_from_cbor(plan.tx(fee).outputs[0].inline_datum->0) == Some(
            plan.datum.tree(),
        ),
        plan.datum.released_count == 0,
        plan.datum.approved.len() == plan.datum.tranche_bps.len(),
        forall|i: int| 0 <= i < plan.datum.approved.len() ==> !plan.datum.approved[i],
        bps_total(plan.datum.tranche_bps) == WHOLE_BPS,
{
}

/// The sum of tranches adds up: that of two lists after one another is the sum
/// of theirs, and one tranche is its own.
pub proof fn lemma_bps_add_up(first: Seq<i64>, second: Seq<i64>, one: i64)
    ensures
        bps_total(first + second) == bps_total(first) + bps_total(second),
        bps_total(seq![one]) == one,
        bps_total(Seq::<i64>::empty()) == 0,
    decreases second.len(),
{
    assert(seq![one].drop_last() =~= Seq::<i64>::empty());
    reveal_with_fuel(bps_total, 2);
    if second.len() == 0 {
        assert(first + second =~= first);
    } else {
        lemma_bps_add_up(first, second.drop_last(), one);
        assert((first + second).drop_last() =~= first + second.drop_last());
    }
}

/// The first datum of an escrow says what the request says: its deadline, its
/// tranches and its amount, the funder and the proposer whose addresses it
/// gives, and the receipt policy. Nothing is approved and nothing is released.
/// What is read back from the escrow's output says the same.
pub proof fn lemma_created_datum_follows_request(
    req: CreateEscrowRequest,
    escrow_address: Seq<char>,
    receipt_policy_id: Seq<u8>,
    plan: CreatePlanView,
    fee: u64,
)
    requires
        req@.plan(escrow_address, receipt_policy_id) == Some(Ok::<CreatePlanView, BuildError>(plan)),
    ensures
        key_hash_of(req.reviewer_address@) == Ok::<Seq<u8>, AddressError>(plan.datum.reviewer),
        key_hash_of(req.proposer_address@) == Ok::<Seq<u8>, AddressError>(plan.datum.proposer),
        req.total_locked <= 0x7fff_ffff_ffff_ffff ==> plan.datum.total_locked == req.total_locked,
        req.total_locked > 0x7fff_ffff_ffff_ffff ==> plan.datum.total_locked == req.total_locked - 0x1_0000_0000_0000_0000,
        plan.datum.tranche_bps == req.tranche_bps@,
        plan.datum.approved.len() == req.tranche_bps@.len(),
        forall|i: int| 0 <= i < plan.datum.approved.len() ==> !#[trigger] plan.datum.approved[i],
        plan.datum.released_count == 0,
        plan.datum.receipt_policy_id == receipt_policy_id,
        plan.datum.review_deadline == req.review_deadline,
        !plan.datum.unspendable_legacy_shape,
        plan.datum.readable() && plan.datum.hashes_sized() ==> (datum_of(
            plutus_from_cbor(plan.tx(fee).outputs[0].inline_datum->0)->0,
        ) matches Ok(read) && {
            &&& read.reviewer == plan.datum.reviewer
            &&& read.proposer == plan.datum.proposer
            &&& read.total_locked == plan.datum.total_locked
            &&& read.tranche_bps == req.tranche_bps@
            &&& read.approved == plan.datum.approved
            &&& read.released_count == 0
            &&& read.receipt_policy_id == receipt_policy_id
            &&& req.review_deadline != Some(0x7fff_ffff_ffff_ffffi64) ==> read.review_deadline == req.review_deadline
            &&& req.review_deadline == Some(0x7fff_ffff_ffff_ffffi64) ==> read.review_deadline is None
            &&& !read.unspendable_legacy_shape
        }),
{
    let total = req.total_locked;
    assert(total > 0x7fff_ffff_ffff_ffff ==> total as i64 == total - 0x1_0000_0000_0000_0000) by (bit_vector);
    if plan.datum.hashes_sized() {
        lemma_datum_round_trip(plan.datum);
    }
}

/// An escrow is created exactly where there are tranches that add up to the
/// whole, something is locked, and every text that the transaction needs can
/// be read. Otherwise the first of these that fails is told. There is no
/// answer exactly where a sum of the first tranches leaves 64 bits.
pub proof fn lemma_create_refusals(req: CreateEscrowRequest, escrow_address: Seq<char>, receipt_policy_id: Seq<u8>)
    ensures
        ({
            let planned = req@.plan(escrow_address, receipt_policy_id);
            let bps = req.tranche_bps@;
            let summed = forall|count: int|
                0 <= count <= bps.len() ==> -0x8000_0000_0000_0000 <= bps_total(#[trigger] bps.take(count))
                    <= 0x7fff_ffff_ffff_ffff;
            let whole = bps.len() > 0 && summed && bps_total(bps) == 10_000;
            let locked = whole && req.total_locked > 0;
            let parties = locked && key_hash_of(req.reviewer_address@) is Ok && key_hash_of(req.proposer_address@) is Ok;
            let addresses = parties && bech32_address(escrow_address) is Some && bech32_address(
                req.reviewer_address@,
            ) is Some;
            let named = req.fee_input.tx_hash@.len() == 64 && is_hex(req.fee_input.tx_hash@);
            &&& (planned matches Some(Ok(_))) <==> addresses && named
            &&& planned is None <==> bps.len() > 0 && !summed
            &&& planned == Some(Err::<CreatePlanView, BuildError>(BuildError::NoTranches)) <==> bps.len() == 0
            &&& planned == Some(Err::<CreatePlanView, BuildError>(BuildError::TranchesNotWhole)) <==> bps.len() > 0
                && summed && bps_total(bps) != 10_000
            &&& planned == Some(Err::<CreatePlanView, BuildError>(BuildError::NothingLocked)) <==> whole
                && req.total_locked == 0
            &&& planned == Some(Err::<CreatePlanView, BuildError>(BuildError::InvalidTxHash)) <==> addresses && !named
            &&& planned matches Some(Err(BuildError::Address(error))) ==> locked && (key_hash_of(req.reviewer_address@)
                == Err::<Seq<u8>, AddressError>(error) || key_hash_of(req.reviewer_address@) is Ok && key_hash_of(
                req.proposer_address@,
            ) == Err::<Seq<u8>, AddressError>(error) || parties && !addresses && error == AddressError::InvalidBech32)
        }),
{
}

/// The transaction spends the fee input that was named, pays what is locked to
/// the escrow's address, under the datum and with nothing else, and all that
/// the fee leaves to the funder's address, alone. It runs no script.
pub proof fn lemma_create_transaction(
    req: CreateEscrowRequest,
    escrow_address: Seq<char>,
    receipt_policy_id: Seq<u8>,
    plan: CreatePlanView,
    fee: u64,
)
    requires
        req@.plan(escrow_address, receipt_policy_id) == Some(Ok::<CreatePlanView, BuildError>(plan)),
        req.fee_input_lovelace > req.total_locked + fee,
    ensures
        ({
            let tx = plan.tx(fee);
            &&& plan.fee_input_lovelace == req.fee_input_lovelace
            &&& plan.total_locked == req.total_locked
            &&& tx.inputs.len() == 1
            &&& tx.inputs[0].tx_hash == hex_bytes(req.fee_input.tx_hash@)
            &&& tx.inputs[0].output_index == req.fee_input.output_index
            &&& tx.outputs.len() == 2
            &&& bech32_address(escrow_address) == Some(tx.outputs[0].address)
            &&& tx.outputs[0].lovelace == req.total_locked
            &&& tx.outputs[0].inline_datum == Some(plutus_cbor(plan.datum.tree()))
            &&& tx.outputs[0].assets == Map::<AssetId, u64>::empty()
            &&& bech32_address(req.reviewer_address@) == Some(tx.outputs[1].address)
            &&& tx.outputs[1].lovelace == req.fee_input_lovelace - req.total_locked - fee
            &&& tx.outputs[1].inline_datum is None
            &&& tx.outputs[1].assets == Map::<AssetId, u64>::empty()
            &&& tx.fee == Some(fee)
            &&& tx.collateral.len() == 0
            &&& tx.mint == Map::<AssetId, i64>::empty()
            &&& tx.valid_from is None
            &&& tx.signers.len() == 0
            &&& tx.scripts == Map::<Seq<u8>, Seq<u8>>::empty()
            &&& tx.redeemers == Map::<RedeemerPurpose, StagedRedeemer>::empty()
            &&& tx.cost_model is None
        }),
{
}

/// With a fee that the fee input does not cover beside what is locked, nothing
/// is created, with the amounts told; otherwise what comes of it is what the
/// builder makes of the transaction.
pub proof fn lemma_create_assembled(plan: CreatePlanView, fee: u64)
    ensures
        ({
            let available = plan.fee_input_lovelace;
            let needed = plan.total_locked;
            &&& plan.built(fee) is None <==> needed + fee > 0xffff_ffff_ffff_ffff
            &&& needed + fee <= 0xffff_ffff_ffff_ffff && available <= needed + fee ==> plan.built(fee) == Some(
                Err::<Seq<u8>, BuildError>(BuildError::NotCovered { available, needed, fee }),
            )
            &&& available > needed + fee ==> match plan.built(fee) {
                Some(Ok(bytes)) => may_build(plan.tx(fee), Some(bytes)),
                Some(Err(error)) => may_build(plan.tx(fee), None) && error == BuildError::NotBuilt,
                None => false,
            }
        }),
{
    let tx = plan.tx(fee);
    let walk = Walk { scripts: seq![], redeemers: seq![] };
    assert(walk.scripts.to_set() =~= tx.scripts.dom());
    assert(walk.redeemers.to_set() =~= tx.redeemers.dom());
    assert(walk.gives(tx, conway_tx(tx, walk), conway_tx(tx, walk)));
}

/// What comes of a request is why there is no plan, or what comes of settling
/// the fee of the plan's transaction: it is built without a fee, then with the
/// one for its size, and then with the one for the size that it has then. No
/// script is paid for.
pub proof fn lemma_created_by_sizes(
    req: CreateEscrowRequest,
    escrow_address: Seq<char>,
    receipt_policy_id: Seq<u8>,
    min_fee_a: u64,
    min_fee_b: u64,
    plan: CreatePlanView,
    first: Seq<u8>,
    fee: u64,
    second: Seq<u8>,
    last: u64,
)
    ensures
        ({
            let planned = req@.plan(escrow_address, receipt_policy_id);
            let outcome = req@.outcome(escrow_address, receipt_policy_id, min_fee_a, min_fee_b);
            &&& planned is None ==> outcome is None
            &&& planned matches Some(Err(error)) ==> outcome == Some(Err::<Seq<u8>, BuildError>(error))
            &&& planned == Some(Ok::<CreatePlanView, BuildError>(plan)) ==> {
                &&& !(plan.built(0) matches Some(Ok(_))) ==> outcome == plan.built(0)
                &&& {
                    &&& plan.built(0) == Some(Ok::<Seq<u8>, BuildError>(first))
                    &&& first.len() + 108 <= usize::MAX
                    &&& fee == min_fee_a * (first.len() + 108) + min_fee_b
                    &&& plan.built(fee) == Some(Ok::<Seq<u8>, BuildError>(second))
                    &&& second.len() + 108 <= usize::MAX
                    &&& last == min_fee_a * (second.len() + 108) + min_fee_b
                } ==> outcome == plan.built(last)
            }
        }),
{
}

} // verus!
