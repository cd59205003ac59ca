//! The transaction that approves a milestone: the funder signs, the
//! milestone's receipt is minted, and the escrow goes on with the milestone
//! marked as approved.

use crate::address::{parse_address, payment_key_hash, same_hash};
use crate::blockfrost_client::EscrowUtxo;
use crate::config::Config;
use crate::datum::{milestone_asset_name, void_redeemer_cbor, Datum, Redeemer};
use crate::fees::{checked_min_utxo_lovelace, OutputShape, Token};
use crate::hexadecimal::{decode_hex, parse_hash28, parse_hash32};
use crate::ledger::{
    build_transaction, new_output, new_transaction, stage_collateral, stage_cost_model, stage_fee, stage_input,
    stage_mint, stage_mint_redeemer, stage_output, stage_script, stage_signer, stage_spend_redeemer, with_asset,
    with_inline_datum, ExUnits, TxInput,
};
use crate::tx::{BuildError, FeeDraft, UtxoRef};
use pallas_addresses::Address;
use vstd::prelude::*;

verus! {

use crate::address::{bech32_address, key_hash_of, AddressError};
use crate::blockfrost_client::EscrowUtxoView;
use crate::config::ConfigView;
use crate::datum::{asset_name, DatumView};
use crate::fees::{
    lemma_least_lovelace_suffices, min_utxo, OutputShapeView, CANDIDATES, FIRST_CANDIDATE_LOVELACE,
    FeeError, OUTPUT_OVERHEAD_BYTES,
};
use crate::hexadecimal::{hex_bytes, is_hex, is_hex_of};
use crate::ledger::{
    may_build, output_cbor, plutus_v3_hash, staged, total_lovelace, written_bytes, AssetId, RedeemerPurpose, StagedOutput,
    StagedRedeemer, StagedTx, TxInputView,
};
use crate::plutus::{constr_tree, plutus_cbor, plutus_from_cbor, PlutusTree};
use crate::tx::{built_outcome, outcome_of, Outcome, UtxoRefView};

/// A wish to approve a milestone.
#[derive(Debug, Clone, PartialEq, Eq)]
pub struct ApproveMilestoneRequest {
    pub milestone_index: u8,
    pub reviewer_address: String,
    pub tx_hash: String,
    pub output_index: u64,
    pub fee_input: UtxoRef,
    pub fee_input_lovelace: u64,
    pub collateral: UtxoRef,
}

/// What an [`ApproveMilestoneRequest`] holds.
pub struct ApproveMilestoneView {
    pub milestone_index: u8,
    pub reviewer_address: Seq<char>,
    pub tx_hash: Seq<char>,
    pub output_index: u64,
    pub fee_input: UtxoRefView,
    pub fee_input_lovelace: u64,
    pub collateral: UtxoRefView,
}

impl View for ApproveMilestoneRequest {
    type V = ApproveMilestoneView;

    open spec fn view(&self) -> ApproveMilestoneView {
        ApproveMilestoneView {
            milestone_index: self.milestone_index,
            reviewer_address: self.reviewer_address@,
            tx_hash: self.tx_hash@,
            output_index: self.output_index,
            fee_input: self.fee_input@,
            fee_input_lovelace: self.fee_input_lovelace,
            collateral: self.collateral@,
        }
    }
}

impl DatumView {
    /// This state with one more milestone approved.
    pub open spec fn with_approval(self, index: int) -> DatumView {
        DatumView { approved: self.approved.update(index, true), ..self }
    }
}

impl ApproveMilestoneView {
    /// The transaction but for prices, budgets and its fee, or the first
    /// reason against it.
    pub open spec fn plan(self, config: ConfigView, escrow: EscrowUtxoView) -> Result<ApprovePlanView, BuildError> {
        let index = self.milestone_index as int;
        if index >= escrow.datum.tranche_bps.len() {
            Err(BuildError::MilestoneOutOfRange)
        } else if escrow.datum.approved[index] {
            Err(BuildError::AlreadyApproved)
        } else {
            match key_hash_of(self.reviewer_address) {
                Err(error) => Err(BuildError::Address(error)),
                Ok(reviewer) => if reviewer != escrow.datum.reviewer {
                    Err(BuildError::ReviewerMismatch)
                } else if !is_hex_of(config.receipt_policy_id, 28) {
                    Err(BuildError::InvalidPolicyId)
                } else {
                    match (
                        UtxoRefView { tx_hash: escrow.tx_hash, output_index: escrow.output_index }.input(),
                        self.fee_input.input(),
                        self.collateral.input(),
                        bech32_address(config.escrow_address),
                        bech32_address(self.reviewer_address),
                    ) {
                        (None, _, _, _, _) => Err(BuildError::InvalidTxHash),
                        (_, None, _, _, _) => Err(BuildError::InvalidTxHash),
                        (_, _, None, _, _) => Err(BuildError::InvalidTxHash),
                        (_, _, _, None, _) => Err(BuildError::Address(AddressError::InvalidBech32)),
                        (_, _, _, _, None) => Err(BuildError::Address(AddressError::InvalidBech32)),
                        (Some(escrow_input), Some(fee_input), Some(collateral), Some(escrow_address), Some(change)) =>
                            if !is_hex(config.escrow_compiled_code) {
                            Err(BuildError::InvalidEscrowCode)
                        } else if !is_hex(config.receipt_compiled_code) {
                            Err(BuildError::InvalidReceiptCode)
                        } else {
                            Ok(
                                ApprovePlanView {
                                    milestone_index: self.milestone_index,
                                    escrow_input,
                                    escrow_lovelace: escrow.lovelace,
                                    fee_input,
                                    fee_input_lovelace: self.fee_input_lovelace,
                                    collateral,
                                    reviewer,
                                    escrow_address,
                                    reviewer_address: change,
                                    datum: escrow.datum.with_approval(index),
                                    receipt_policy: hex_bytes(config.receipt_policy_id),
                                    escrow_script: hex_bytes(config.escrow_compiled_code),
                                    receipt_script: hex_bytes(config.receipt_compiled_code),
                                },
                            )
                        },
                    }
                },
            }
        }
    }
}

/// The transaction that approves a milestone, but for prices, budgets and its
/// fee.
pub struct ApprovePlan {
    milestone_index: u8,
    escrow_input: TxInput,
    escrow_lovelace: u64,
    fee_input: TxInput,
    fee_input_lovelace: u64,
    collateral: TxInput,
    reviewer: [u8; 28],
    escrow_address: Address,
    reviewer_address: Address,
    datum: Datum,
    datum_cbor: Vec<u8>,
    redeemer_cbor: Vec<u8>,
    mint_redeemer_cbor: Vec<u8>,
    receipt_policy: [u8; 28],
    escrow_script: Vec<u8>,
    receipt_script: Vec<u8>,
}

/// What an [`ApprovePlan`] holds.
#[verifier::ext_equal]
pub struct ApprovePlanView {
    pub milestone_index: u8,
    pub escrow_input: TxInputView,
    pub escrow_lovelace: u64,
    pub fee_input: TxInputView,
    pub fee_input_lovelace: u64,
    pub collateral: TxInputView,
    pub reviewer: Seq<u8>,
    pub escrow_address: Address,
    pub reviewer_address: Address,
    pub datum: DatumView,
    pub receipt_policy: Seq<u8>,
    pub escrow_script: Seq<u8>,
    pub receipt_script: Seq<u8>,
}

impl View for ApprovePlan {
    type V = ApprovePlanView;

    closed spec fn view(&self) -> ApprovePlanView {
        ApprovePlanView {
            milestone_index: self.milestone_index,
            escrow_input: self.escrow_input@,
            escrow_lovelace: self.escrow_lovelace,
            fee_input: self.fee_input@,
            fee_input_lovelace: self.fee_input_lovelace,
            collateral: self.collateral@,
            reviewer: self.reviewer@,
            escrow_address: self.escrow_address,
            reviewer_address: self.reviewer_address,
            datum: self.datum@,
            receipt_policy: self.receipt_policy@,
            escrow_script: self.escrow_script@,
            receipt_script: self.receipt_script@,
        }
    }
}

impl ApprovePlan {
    /// Whether the encoded parts are those of the plan.
    pub closed spec fn wf(self) -> bool {
        &&& self.datum_cbor@ == plutus_cbor(self.datum@.tree())
        &&& self.redeemer_cbor@ == plutus_cbor(Redeemer::ApproveMilestone(self.milestone_index as i64).tree())
        &&& self.mint_redeemer_cbor@ == plutus_cbor(constr_tree(121, seq![]))
    }
}

/// The plan for a request.
pub fn prepare(req: &ApproveMilestoneRequest, config: &Config, escrow: &EscrowUtxo) -> (plan: Result<ApprovePlan, BuildError>)
    requires
        req.milestone_index < escrow.datum.tranche_bps@.len() ==> req.milestone_index < escrow.datum.approved@.len(),
    ensures
        match plan {
            Ok(made) => made.wf() && made@.datum.readable() && req@.plan(config@, escrow@) == Ok::<ApprovePlanView, BuildError>(made@),
            Err(error) => req@.plan(config@, escrow@) == Err::<ApprovePlanView, BuildError>(error),
        },
{
    let index: usize = req.milestone_index as usize;
    if index >= escrow.datum.tranche_bps.len() {
        return Err(BuildError::MilestoneOutOfRange);
    }
    if escrow.datum.approved[index] {
        return Err(BuildError::AlreadyApproved);
    }
    let reviewer = match payment_key_hash(&req.reviewer_address) {
        Ok(hash) => hash,
        Err(error) => return Err(BuildError::Address(error)),
    };
    if !same_hash(&reviewer, &escrow.datum.reviewer) {
        return Err(BuildError::ReviewerMismatch);
    }
    let mut datum = escrow.datum.copied();
    datum.approved.set(index, true);
    assert(datum@ =~= escrow@.datum.with_approval(index as int));
    let datum_cbor = match datum.to_cbor() {
        Ok(bytes) => bytes,
        Err(error) => return Err(BuildError::Datum(error)),
    };
    let redeemer_cbor = match Redeemer::ApproveMilestone(req.milestone_index as i64).to_cbor() {
        Ok(bytes) => bytes,
        Err(error) => return Err(BuildError::Datum(error)),
    };
    let mint_redeemer_cbor = match void_redeemer_cbor() {
        Ok(bytes) => bytes,
        Err(error) => return Err(BuildError::Datum(error)),
    };
    let receipt_policy = match parse_hash28(&config.receipt_policy_id) {
        Ok(hash) => hash,
        Err(_) => return Err(BuildError::InvalidPolicyId),
    };
    let escrow_input = match parse_hash32(&escrow.tx_hash) {
        Ok(tx_hash) => TxInput { tx_hash, output_index: escrow.output_index },
        Err(_) => return Err(BuildError::InvalidTxHash),
    };
    let fee_input = match req.fee_input.to_input() {
        Ok(input) => input,
        Err(error) => return Err(error),
    };
    let collateral = match req.collateral.to_input() {
        Ok(input) => input,
        Err(error) => return Err(error),
    };
    let escrow_address = match parse_address(&config.escrow_address) {
        Ok(address) => address,
        Err(error) => return Err(BuildError::Address(error)),
    };
    let reviewer_address = match parse_address(&req.reviewer_address) {
        Ok(address) => address,
        Err(error) => return Err(BuildError::Address(error)),
    };
    let escrow_script = match decode_hex(&config.escrow_compiled_code) {
        Ok(bytes) => bytes,
        Err(_) => return Err(BuildError::InvalidEscrowCode),
    };
    let receipt_script = match decode_hex(&config.receipt_compiled_code) {
        Ok(bytes) => bytes,
        Err(_) => return Err(BuildError::InvalidReceiptCode),
    };
    Ok(
        ApprovePlan {
            milestone_index: req.milestone_index,
            escrow_input,
            escrow_lovelace: escrow.lovelace,
            fee_input,
            fee_input_lovelace: req.fee_input_lovelace,
            collateral,
            reviewer,
            escrow_address,
            reviewer_address,
            datum,
            datum_cbor,
            redeemer_cbor,
            mint_redeemer_cbor,
            receipt_policy,
            escrow_script,
            receipt_script,
        },
    )
}

/// The values that the outputs to the funder must at least carry.
#[derive(Debug, Clone, Copy, PartialEq, Eq, Structural)]
pub struct ApprovePrices {
    /// What the output with the receipt carries.
    pub receipt_lovelace: u64,
    /// The least change that is paid out.
    pub change_floor: u64,
}

impl ApprovePlanView {
    /// The receipt that is minted.
    pub open spec fn receipt(self) -> AssetId {
        AssetId { policy: self.receipt_policy, name: asset_name(self.milestone_index) }
    }

    /// What the outputs to the funder must at least carry, or why the fee
    /// input cannot be used. `None` where a price leaves its range.
    pub open spec fn prices(self, coins_per_utxo_byte: u64) -> Option<Result<ApprovePrices, BuildError>> {
        match min_utxo(
            OutputShapeView { address: self.reviewer_address, token: Some((self.receipt(), 1)) },
            coins_per_utxo_byte,
        ) {
            None => None,
            Some(Err(error)) => Some(Err(BuildError::MinUtxo(error))),
            Some(Ok(receipt)) => if self.fee_input_lovelace <= receipt {
                Some(Err(BuildError::ReceiptNotCovered { available: self.fee_input_lovelace, receipt }))
            } else {
                match min_utxo(
                    OutputShapeView { address: self.reviewer_address, token: None },
                    coins_per_utxo_byte,
                ) {
                    None => None,
                    Some(Err(error)) => Some(Err(BuildError::MinUtxo(error))),
                    Some(Ok(floor)) => Some(Ok(ApprovePrices { receipt_lovelace: receipt, change_floor: floor })),
                }
            },
        }
    }
}

impl ApprovePlan {
    /// What the outputs to the funder must at least carry. `None` where a
    /// price leaves its range.
    pub fn price(&self, coins_per_utxo_byte: u64) -> (prices: Option<Result<ApprovePrices, BuildError>>)
        ensures
            prices == self@.prices(coins_per_utxo_byte),
    {
        let receipt_shape = OutputShape {
            address: &self.reviewer_address,
            token: Some(
                Token { policy: self.receipt_policy, name: milestone_asset_name(self.milestone_index), quantity: 1 },
            ),
        };
        let receipt: u64 = match checked_min_utxo_lovelace(&receipt_shape, coins_per_utxo_byte) {
            None => return None,
            Some(Err(error)) => return Some(Err(BuildError::MinUtxo(error))),
            Some(Ok(least)) => least,
        };
        if self.fee_input_lovelace <= receipt {
            return Some(Err(BuildError::ReceiptNotCovered { available: self.fee_input_lovelace, receipt }));
        }
        let change_shape = OutputShape { address: &self.reviewer_address, token: None };
        match checked_min_utxo_lovelace(&change_shape, coins_per_utxo_byte) {
            None => None,
            Some(Err(error)) => Some(Err(BuildError::MinUtxo(error))),
            Some(Ok(floor)) => Some(Ok(ApprovePrices { receipt_lovelace: receipt, change_floor: floor })),
        }
    }
}

/// The budget that a script has until its own is known.
pub fn placeholder_ex_units() -> (units: ExUnits)
    ensures
        units == (ExUnits { mem: 14_000_000, steps: 10_000_000_000 }),
{
    ExUnits { mem: 14_000_000, steps: 10_000_000_000 }
}

/// The transaction that approves a milestone, but for its fee.
pub struct ApproveDraft<'a> {
    plan: &'a ApprovePlan,
    prices: ApprovePrices,
    cost_model: &'a Vec<i64>,
    spend: ExUnits,
    mint: ExUnits,
}

/// What an [`ApproveDraft`] holds.
pub struct ApproveDraftView {
    pub plan: ApprovePlanView,
    pub prices: ApprovePrices,
    pub cost_model: Seq<i64>,
    pub spend: ExUnits,
    pub mint: ExUnits,
}

impl<'a> View for ApproveDraft<'a> {
    type V = ApproveDraftView;

    closed spec fn view(&self) -> ApproveDraftView {
        ApproveDraftView {
            plan: self.plan@,
            prices: self.prices,
            cost_model: self.cost_model@,
            spend: self.spend,
            mint: self.mint,
        }
    }
}

impl ApproveDraftView {
    /// Whether the fee input pays for the receipt's output, the fee and some
    /// change.
    pub open spec fn covered(self, fee: u64) -> bool {
        self.plan.fee_input_lovelace > self.prices.receipt_lovelace + fee
    }

    /// What is left of the fee input.
    pub open spec fn left(self, fee: u64) -> int {
        self.plan.fee_input_lovelace - self.prices.receipt_lovelace - fee
    }

    /// Whether what is left is enough to be paid out.
    pub open spec fn pays_change(self, fee: u64) -> bool {
        self.left(fee) >= self.prices.change_floor
    }

    /// The fee with what is left and not paid out.
    pub open spec fn full_fee(self, fee: u64) -> u64 {
        if self.pays_change(fee) {
            fee
        } else {
            (fee + self.left(fee)) as u64
        }
    }

    /// The escrow that goes on, the receipt to the funder, and the change.
    pub open spec fn outputs(self, fee: u64) -> Seq<StagedOutput> {
        let fixed = seq![
            StagedOutput::paying(self.plan.escrow_address, self.plan.escrow_lovelace).with_datum(
                plutus_cbor(self.plan.datum.tree()),
            ),
            StagedOutput::paying(self.plan.reviewer_address, self.prices.receipt_lovelace).with_token(
                self.plan.receipt(),
                1,
            ),
        ];
        if self.pays_change(fee) {
            fixed.push(StagedOutput::paying(self.plan.reviewer_address, self.left(fee) as u64))
        } else {
            fixed
        }
    }

    /// The transaction with `fee`.
    pub open spec fn tx(self, fee: u64) -> StagedTx {
        StagedTx {
            inputs: seq![self.plan.escrow_input, self.plan.fee_input],
            collateral: seq![self.plan.collateral],
            outputs: self.outputs(fee),
            fee: Some(self.full_fee(fee)),
            mint: Map::<AssetId, i64>::empty().insert(self.plan.receipt(), 1),
            signers: seq![self.plan.reviewer],
            scripts: Map::<Seq<u8>, Seq<u8>>::empty().insert(
                plutus_v3_hash(self.plan.escrow_script),
                self.plan.escrow_script,
            ).insert(plutus_v3_hash(self.plan.receipt_script), self.plan.receipt_script),
            redeemers: Map::<RedeemerPurpose, StagedRedeemer>::empty().insert(
                RedeemerPurpose::Spend(self.plan.escrow_input),
                StagedRedeemer {
                    data: plutus_cbor(Redeemer::ApproveMilestone(self.plan.milestone_index as i64).tree()),
                    ex_units: self.spend,
                },
            ).insert(
                RedeemerPurpose::Mint(self.plan.receipt_policy),
                StagedRedeemer { data: plutus_cbor(constr_tree(121, seq![])), ex_units: self.mint },
            ),
            cost_model: Some(self.cost_model),
            ..StagedTx::empty()
        }
    }

    /// Whether `outcome` may come of building it with `fee`.
    pub open spec fn gives(self, fee: u64, outcome: Outcome) -> bool {
        if self.prices.receipt_lovelace + fee > u64::MAX {
            outcome is None
        } else if !self.covered(fee) {
            outcome == Some(
                Err::<Seq<u8>, BuildError>(
                    BuildError::NotCovered {
                        available: self.plan.fee_input_lovelace,
                        needed: self.prices.receipt_lovelace,
                        fee,
                    },
                ),
            )
        } else {
            exists|bytes: Option<Seq<u8>>| #[trigger]
                may_build(self.tx(fee), bytes) && outcome == built_outcome(bytes)
        }
    }
}

impl ApprovePlan {
    /// The transaction with prices and budgets, but for its fee.
    pub fn draft<'a>(
        &'a self,
        prices: ApprovePrices,
        cost_model: &'a Vec<i64>,
        spend: ExUnits,
        mint: ExUnits,
    ) -> (draft: ApproveDraft<'a>)
        requires
            self.wf(),
        ensures
            draft.ready(),
            draft@ == (ApproveDraftView { plan: self@, prices, cost_model: cost_model@, spend, mint }),
    {
        ApproveDraft { plan: self, prices, cost_model, spend, mint }
    }
}

impl<'a> FeeDraft for ApproveDraft<'a> {
    closed spec fn ready(&self) -> bool {
        self.plan.wf()
    }

    open spec fn gives(&self, fee: u64, outcome: Outcome) -> bool {
        self@.gives(fee, outcome)
    }

    fn assemble(&self, fee: u64) -> (built: Option<Result<Vec<u8>, BuildError>>) {
        let plan = self.plan;
        let receipt_lovelace: u64 = self.prices.receipt_lovelace;
        let spent: u64 = match receipt_lovelace.checked_add(fee) {
            Some(spent) => spent,
            None => return None,
        };
        if plan.fee_input_lovelace <= spent {
            return Some(
                Err(
                    BuildError::NotCovered { available: plan.fee_input_lovelace, needed: receipt_lovelace, fee },
                ),
            );
        }
        let left: u64 = plan.fee_input_lovelace - receipt_lovelace - fee;
        let pays_change: bool = left >= self.prices.change_floor;
        let full_fee: u64 = if pays_change {
            fee
        } else {
            fee + left
        };
        let receipt_name = milestone_asset_name(plan.milestone_index);
        let cost_model = self.cost_model.clone();
        assert(cost_model@ =~= self.cost_model@);
        let escrow_output = with_inline_datum(
            new_output(&plan.escrow_address, plan.escrow_lovelace),
            plan.datum_cbor.clone(),
        );
        let receipt_output = with_asset(
            new_output(&plan.reviewer_address, receipt_lovelace),
            &plan.receipt_policy,
            milestone_asset_name(plan.milestone_index),
            1,
        );
        let tx = stage_input(new_transaction(), &plan.escrow_input);
        let tx = stage_input(tx, &plan.fee_input);
        let tx = stage_collateral(tx, &plan.collateral);
        let tx = stage_signer(tx, &plan.reviewer);
        let tx = stage_output(tx, escrow_output);
        let tx = stage_output(tx, receipt_output);
        let tx = stage_mint(tx, &plan.receipt_policy, receipt_name, 1);
        let tx = stage_script(tx, plan.escrow_script.clone());
        let tx = stage_script(tx, plan.receipt_script.clone());
        let tx = stage_spend_redeemer(tx, &plan.escrow_input, plan.redeemer_cbor.clone(), self.spend);
        let tx = stage_mint_redeemer(tx, &plan.receipt_policy, plan.mint_redeemer_cbor.clone(), self.mint);
        let tx = stage_cost_model(tx, cost_model);
        let tx = stage_fee(tx, full_fee);
        let tx = if pays_change {
            stage_output(tx, new_output(&plan.reviewer_address, left))
        } else {
            tx
        };
        assert(staged(tx).outputs =~= self@.outputs(fee));
        assert(staged(tx) =~= self@.tx(fee));
        let bytes = build_transaction(tx);
        assert(may_build(self@.tx(fee), written_bytes(bytes)));
        match bytes {
            Some(written) => Some(Ok(written)),
            None => Some(Err(BuildError::NotBuilt)),
        }
    }
}

/// What the inputs hold is what the outputs pay and the fee; the fee is at
/// least the one asked for.
pub proof fn lemma_approve_conserves_value(draft: ApproveDraftView, fee: u64)
    requires
        draft.covered(fee),
    ensures
        draft.tx(fee).fee == Some(draft.full_fee(fee)),
        draft.full_fee(fee) >= fee,
        draft.tx(fee).total_output() + draft.full_fee(fee) == draft.plan.escrow_lovelace
            + draft.plan.fee_input_lovelace,
{
    let outputs = draft.outputs(fee);
    let fixed = outputs.take(2);
    assert(fixed.drop_last().drop_last() =~= seq![]);
    assert(total_lovelace(fixed.drop_last().drop_last()) == 0);
    assert(total_lovelace(fixed.drop_last()) == draft.plan.escrow_lovelace);
    assert(total_lovelace(fixed) == draft.plan.escrow_lovelace + draft.prices.receipt_lovelace);
    if draft.pays_change(fee) {
        assert(outputs.drop_last() =~= fixed);
    } else {
        assert(outputs =~= fixed);
    }
}

/// An approval leaves the escrow's funds where they are, at the escrow's
/// address, and changes nothing in its state but the one approval. It mints
/// one receipt, which goes to the funder, and the funder signs. The state is
/// read back from the output.
pub proof fn lemma_approve_only_approves(
    req: ApproveMilestoneView,
    config: ConfigView,
    escrow: EscrowUtxoView,
    draft: ApproveDraftView,
    fee: u64,
)
    requires
        req.milestone_index < escrow.datum.approved.len(),
        req.plan(config, escrow) == Ok::<ApprovePlanView, BuildError>(draft.plan),
        draft.covered(fee),
    ensures
        draft.tx(fee).outputs[0].lovelace == escrow.lovelace,
        bech32_address(config.escrow_address) == Some(draft.tx(fee).outputs[0].address),
        draft.tx(fee).outputs[0].inline_datum == Some(plutus_cbor(draft.plan.datum.tree())),
        draft.plan.datum.readable() ==> plutus_from_cbor(draft.tx(fee).outputs[0].inline_datum->0) == Some(
            draft.plan.datum.tree(),
        ),
        draft.plan.datum == escrow.datum.with_approval(req.milestone_index as int),
        !escrow.datum.approved[req.milestone_index as int],
        draft.plan.datum.approved[req.milestone_index as int],
        forall|i: int|
            0 <= i < escrow.datum.approved.len() && i != req.milestone_index ==> #[trigger] draft.plan.datum.approved[i]
                == escrow.datum.approved[i],
        draft.plan.datum.grant_id() == escrow.datum.grant_id(),
        draft.tx(fee).mint.dom() == set![draft.plan.receipt()],
        draft.tx(fee).mint[draft.plan.receipt()] == 1,
        draft.tx(fee).outputs[1].assets.contains_key(draft.plan.receipt()),
        draft.tx(fee).signers == seq![escrow.datum.reviewer],
{
    assert(draft.tx(fee).mint.dom() =~= set![draft.plan.receipt()]);
}

/// With the prices of a plan, the receipt's output carries what the ledger
/// asks of it, and change is paid out only from what an output must carry.
pub proof fn lemma_approve_pays_least_values(
    draft: ApproveDraftView,
    coins_per_utxo_byte: u64,
    fee: u64,
)
    requires
        draft.plan.prices(coins_per_utxo_byte) == Some(Ok::<ApprovePrices, BuildError>(draft.prices)),
        draft.covered(fee),
    ensures
        draft.tx(fee).outputs[1].lovelace >= FIRST_CANDIDATE_LOVELACE,
        output_cbor(draft.tx(fee).outputs[1]) matches Some(bytes) && coins_per_utxo_byte * (OUTPUT_OVERHEAD_BYTES
            + bytes.len()) <= draft.tx(fee).outputs[1].lovelace,
        draft.tx(fee).outputs.len() == 3 ==> draft.tx(fee).outputs[2].lovelace >= draft.prices.change_floor
            >= FIRST_CANDIDATE_LOVELACE,
{
    let receipt = OutputShapeView { address: draft.plan.reviewer_address, token: Some((draft.plan.receipt(), 1)) };
    let change = OutputShapeView { address: draft.plan.reviewer_address, token: None };
    lemma_least_lovelace_suffices(receipt, coins_per_utxo_byte, FIRST_CANDIDATE_LOVELACE, CANDIDATES as nat);
    lemma_least_lovelace_suffices(change, coins_per_utxo_byte, FIRST_CANDIDATE_LOVELACE, CANDIDATES as nat);
    assert(draft.tx(fee).outputs[1] == receipt.output(draft.prices.receipt_lovelace));
}

/// A plan spends the escrow and the fee input that were named, locks the
/// collateral that was named, and is for the funder of the escrow, whose
/// address the request gives. The state that goes on is the escrow's, with the
/// milestone approved and nothing else touched.
pub proof fn lemma_approve_plan_follows_request(
    req: ApproveMilestoneRequest,
    config: Config,
    escrow: EscrowUtxo,
    plan: ApprovePlanView,
)
    requires
        req.milestone_index < escrow.datum.approved@.len(),
        req@.plan(config@, escrow@) == Ok::<ApprovePlanView, BuildError>(plan),
    ensures
        plan.milestone_index == req.milestone_index,
        plan.escrow_input.tx_hash == hex_bytes(escrow.tx_hash@),
        plan.escrow_input.output_index == escrow.output_index,
        plan.escrow_lovelace == escrow.lovelace,
        plan.fee_input.tx_hash == hex_bytes(req.fee_input.tx_hash@),
        plan.fee_input.output_index == req.fee_input.output_index,
        plan.fee_input_lovelace == req.fee_input_lovelace,
        plan.collateral.tx_hash == hex_bytes(req.collateral.tx_hash@),
        plan.collateral.output_index == req.collateral.output_index,
        plan.reviewer == escrow.datum.reviewer@,
        key_hash_of(req.reviewer_address@) == Ok::<Seq<u8>, AddressError>(escrow.datum.reviewer@),
        bech32_address(config.escrow_address@) == Some(plan.escrow_address),
        bech32_address(req.reviewer_address@) == Some(plan.reviewer_address),
        plan.datum.reviewer == escrow.datum.reviewer@,
        plan.datum.proposer == escrow.datum.proposer@,
        plan.datum.total_locked == escrow.datum.total_locked,
        plan.datum.tranche_bps == escrow.datum.tranche_bps@,
        plan.datum.approved.len() == escrow.datum.approved@.len(),
        forall|i: int|
            0 <= i < plan.datum.approved.len() ==> (#[trigger] plan.datum.approved[i] <==> escrow.datum.approved@[i] || i
                == req.milestone_index),
        plan.datum.released_count == escrow.datum.released_count,
        plan.datum.receipt_policy_id == escrow.datum.receipt_policy_id@,
        plan.datum.review_deadline == escrow.datum.review_deadline,
        plan.datum.unspendable_legacy_shape == escrow.datum.unspendable_legacy_shape,
        plan.receipt_policy == hex_bytes(config.receipt_policy_id@),
        plan.escrow_script == hex_bytes(config.escrow_compiled_code@),
        plan.receipt_script == hex_bytes(config.receipt_compiled_code@),
{
}

/// A plan is made exactly where the milestone is there and not yet approved,
/// the address is the funder's, and every text that the transaction needs can
/// be read. Otherwise the first of these that fails is told.
pub proof fn lemma_approve_refusals(req: ApproveMilestoneRequest, config: Config, escrow: EscrowUtxo)
    ensures
        ({
            let planned = req@.plan(config@, escrow@);
            let open = req.milestone_index < escrow.datum.tranche_bps@.len()
                && !escrow.datum.approved@[req.milestone_index as int];
            let by_funder = key_hash_of(req.reviewer_address@) == Ok::<Seq<u8>, AddressError>(escrow.datum.reviewer@);
            let policy = config.receipt_policy_id@.len() == 56 && is_hex(config.receipt_policy_id@);
            let hashes = escrow.tx_hash@.len() == 64 && is_hex(escrow.tx_hash@) && req.fee_input.tx_hash@.len() == 64
                && is_hex(req.fee_input.tx_hash@) && req.collateral.tx_hash@.len() == 64 && is_hex(
                req.collateral.tx_hash@,
            );
            let addresses = bech32_address(config.escrow_address@) is Some && bech32_address(req.reviewer_address@) is Some;
            &&& planned is Ok <==> open && by_funder && policy && hashes && addresses && is_hex(
                config.escrow_compiled_code@,
            ) && is_hex(config.receipt_compiled_code@)
            &&& planned == Err::<ApprovePlanView, BuildError>(BuildError::MilestoneOutOfRange) <==> req.milestone_index
                >= escrow.datum.tranche_bps@.len()
            &&& planned == Err::<ApprovePlanView, BuildError>(BuildError::AlreadyApproved) <==> req.milestone_index
                < escrow.datum.tranche_bps@.len() && escrow.datum.approved@[req.milestone_index as int]
            &&& planned == Err::<ApprovePlanView, BuildError>(BuildError::ReviewerMismatch) <==> open && key_hash_of(
                req.reviewer_address@,
            ) is Ok && !by_funder
            &&& planned == Err::<ApprovePlanView, BuildError>(BuildError::InvalidPolicyId) <==> open && by_funder
                && !policy
            &&& planned == Err::<ApprovePlanView, BuildError>(BuildError::InvalidTxHash) <==> open && by_funder && policy
                && !hashes
            &&& planned == Err::<ApprovePlanView, BuildError>(BuildError::InvalidEscrowCode) <==> open && by_funder
                && policy && hashes && addresses && !is_hex(config.escrow_compiled_code@)
            &&& planned == Err::<ApprovePlanView, BuildError>(BuildError::InvalidReceiptCode) <==> open && by_funder
                && policy && hashes && addresses && is_hex(config.escrow_compiled_code@) && !is_hex(
                config.receipt_compiled_code@,
            )
            &&& planned matches Err(BuildError::Address(error)) ==> open && (key_hash_of(req.reviewer_address@) == Err::<
                Seq<u8>,
                AddressError,
            >(error) || by_funder && policy && hashes && !addresses && error == AddressError::InvalidBech32)
        }),
{
}

/// An approval pays the escrow's funds back to the escrow's address, the
/// receipt to the address that the request gives, and what is left of the fee
/// input to that same address: all of it, and nothing with it. Where the two
/// addresses differ, no other output reaches the escrow's address. What is
/// left and too little to be paid out goes to the fee.
pub proof fn lemma_approve_pays_the_funder(
    req: ApproveMilestoneRequest,
    config: Config,
    escrow: EscrowUtxo,
    draft: ApproveDraftView,
    fee: u64,
)
    requires
        req@.plan(config@, escrow@) == Ok::<ApprovePlanView, BuildError>(draft.plan),
        req.fee_input_lovelace > draft.prices.receipt_lovelace + fee,
    ensures
        ({
            let outputs = draft.tx(fee).outputs;
            let escrow_address = bech32_address(config.escrow_address@)->0;
            let funder_address = bech32_address(req.reviewer_address@)->0;
            let left = req.fee_input_lovelace - draft.prices.receipt_lovelace - fee;
            &&& outputs.len() == (if left >= draft.prices.change_floor {
                3nat
            } else {
                2nat
            })
            &&& outputs[0].address == escrow_address
            &&& outputs[0].lovelace == escrow.lovelace
            &&& outputs[0].inline_datum == Some(plutus_cbor(draft.plan.datum.tree()))
            &&& outputs[0].assets == Map::<AssetId, u64>::empty()
            &&& outputs[1].address == funder_address
            &&& outputs[1].lovelace == draft.prices.receipt_lovelace
            &&& outputs[1].inline_datum is None
            &&& outputs[1].assets.dom() == set![
                AssetId { policy: hex_bytes(config.receipt_policy_id@), name: asset_name(req.milestone_index) },
            ]
            &&& outputs[1].assets[AssetId {
                policy: hex_bytes(config.receipt_policy_id@),
                name: asset_name(req.milestone_index),
            }] == 1
            &&& outputs.len() == 3 ==> outputs[2].address == funder_address && outputs[2].lovelace == left
                && outputs[2].inline_datum is None && outputs[2].assets == Map::<AssetId, u64>::empty()
            &&& escrow_address != funder_address ==> forall|i: int|
                1 <= i < outputs.len() ==> (#[trigger] outputs[i]).address != escrow_address
            &&& draft.tx(fee).fee == Some(
                if outputs.len() == 3 {
                    fee
                } else {
                    (req.fee_input_lovelace - draft.prices.receipt_lovelace) as u64
                },
            )
        }),
{
    let outputs = draft.tx(fee).outputs;
    let receipt = AssetId { policy: hex_bytes(config.receipt_policy_id@), name: asset_name(req.milestone_index) };
    assert(outputs[1].assets.dom() =~= set![receipt]);
}

/// An approval spends the escrow and the fee input, locks the collateral, and
/// asks for the funder's signature alone. It runs the two scripts of the
/// configuration, each with its own budget: the escrow's with the approval of
/// the milestone, the receipt's with no data. It mints one receipt and nothing
/// else, and holds whenever it is put on the chain.
pub proof fn lemma_approve_runs_both_scripts(
    req: ApproveMilestoneRequest,
    config: Config,
    escrow: EscrowUtxo,
    draft: ApproveDraftView,
    fee: u64,
)
    requires
        req@.plan(config@, escrow@) == Ok::<ApprovePlanView, BuildError>(draft.plan),
    ensures
        ({
            let tx = draft.tx(fee);
            let policy = hex_bytes(config.receipt_policy_id@);
            let receipt = AssetId { policy, name: asset_name(req.milestone_index) };
            let spent = TxInputView { tx_hash: hex_bytes(escrow.tx_hash@), output_index: escrow.output_index };
            let escrow_script = hex_bytes(config.escrow_compiled_code@);
            let receipt_script = hex_bytes(config.receipt_compiled_code@);
            &&& tx.inputs == seq![
                spent,
                TxInputView { tx_hash: hex_bytes(req.fee_input.tx_hash@), output_index: req.fee_input.output_index },
            ]
            &&& tx.collateral == seq![
                TxInputView { tx_hash: hex_bytes(req.collateral.tx_hash@), output_index: req.collateral.output_index },
            ]
            &&& tx.signers == seq![escrow.datum.reviewer@]
            &&& tx.mint.dom() == set![receipt]
            &&& tx.mint[receipt] == 1
            &&& tx.scripts.dom() == set![plutus_v3_hash(escrow_script), plutus_v3_hash(receipt_script)]
            &&& tx.scripts[plutus_v3_hash(receipt_script)] == receipt_script
            &&& plutus_v3_hash(escrow_script) != plutus_v3_hash(receipt_script) ==> tx.scripts[plutus_v3_hash(
                escrow_script,
            )] == escrow_script
            &&& tx.redeemers.dom() == set![RedeemerPurpose::Spend(spent), RedeemerPurpose::Mint(policy)]
            &&& tx.redeemers[RedeemerPurpose::Spend(spent)].data == plutus_cbor(
                PlutusTree::Constr {
                    tag: 121,
                    any_constructor: None,
                    indefinite: false,
                    fields: seq![PlutusTree::Int(req.milestone_index as int)],
                },
            )
            &&& tx.redeemers[RedeemerPurpose::Spend(spent)].ex_units == draft.spend
            &&& tx.redeemers[RedeemerPurpose::Mint(policy)].data == plutus_cbor(
                PlutusTree::Constr { tag: 121, any_constructor: None, indefinite: false, fields: seq![] },
            )
            &&& tx.redeemers[RedeemerPurpose::Mint(policy)].ex_units == draft.mint
            &&& tx.cost_model == Some(draft.cost_model)
            &&& tx.valid_from is None
        }),
{
    let tx = draft.tx(fee);
    let policy = hex_bytes(config.receipt_policy_id@);
    let receipt = AssetId { policy, name: asset_name(req.milestone_index) };
    let spent = TxInputView { tx_hash: hex_bytes(escrow.tx_hash@), output_index: escrow.output_index };
    let escrow_script = hex_bytes(config.escrow_compiled_code@);
    let receipt_script = hex_bytes(config.receipt_compiled_code@);
    assert(tx.mint.dom() =~= set![receipt]);
    assert(tx.scripts.dom() =~= set![plutus_v3_hash(escrow_script), plutus_v3_hash(receipt_script)]);
    assert(tx.redeemers.dom() =~= set![RedeemerPurpose::Spend(spent), RedeemerPurpose::Mint(policy)]);
}

/// The receipt's output carries the least value of an output to the funder
/// with one receipt, and change is paid from the least value of an output to
/// the funder without any. A fee input that is not worth more than the
/// receipt's output is refused, with both amounts told.
pub proof fn lemma_approve_prices(plan: ApprovePlanView, coins_per_utxo_byte: u64, receipt: u64, floor: u64)
    requires
        min_utxo(
            OutputShapeView {
                address: plan.reviewer_address,
                token: Some((AssetId { policy: plan.receipt_policy, name: asset_name(plan.milestone_index) }, 1)),
            },
            coins_per_utxo_byte,
        ) == Some(Ok::<u64, FeeError>(receipt)),
        min_utxo(OutputShapeView { address: plan.reviewer_address, token: None }, coins_per_utxo_byte) == Some(
            Ok::<u64, FeeError>(floor),
        ),
    ensures
        match plan.prices(coins_per_utxo_byte) {
            Some(Ok(prices)) => plan.fee_input_lovelace > receipt && prices.receipt_lovelace == receipt && prices.change_floor
                == floor,
            Some(Err(error)) => plan.fee_input_lovelace <= receipt && error == (BuildError::ReceiptNotCovered {
                available: plan.fee_input_lovelace,
                receipt,
            }),
            None => false,
        },
{
}

/// Prices are known exactly where both least values are and the fee input is
/// worth more than the first; why a least value is not known is passed on.
pub proof fn lemma_approve_unpriced(plan: ApprovePlanView, coins_per_utxo_byte: u64, error: FeeError)
    ensures
        ({
            let receipt = min_utxo(
                OutputShapeView {
                    address: plan.reviewer_address,
                    token: Some((AssetId { policy: plan.receipt_policy, name: asset_name(plan.milestone_index) }, 1)),
                },
                coins_per_utxo_byte,
            );
            let floor = min_utxo(OutputShapeView { address: plan.reviewer_address, token: None }, coins_per_utxo_byte);
            let covered = receipt matches Some(Ok(least)) && plan.fee_input_lovelace > least;
            let prices = plan.prices(coins_per_utxo_byte);
            &&& (prices matches Some(Ok(_))) <==> covered && (floor matches Some(Ok(_)))
            &&& prices is None <==> receipt is None || covered && floor is None
            &&& prices == Some(Err::<ApprovePrices, BuildError>(BuildError::MinUtxo(error))) <==> receipt == Some(
                Err::<u64, FeeError>(error),
            ) || covered && floor == Some(Err::<u64, FeeError>(error))
        }),
{
}

/// With a fee that the fee input does not cover beside the receipt's output,
/// an approval is refused with the amounts told; with one that leaves
/// something, what comes of it is what the builder makes of the transaction.
pub proof fn lemma_approve_assembled(draft: ApproveDraft<'_>, fee: u64, outcome: Outcome)
    requires
        draft.gives(fee, outcome),
    ensures
        ({
            let available = draft@.plan.fee_input_lovelace;
            let needed = draft@.prices.receipt_lovelace;
            &&& needed + fee > u64::MAX <==> outcome is None
            &&& needed + fee <= u64::MAX && available <= needed + fee ==> outcome == Some(
                Err::<Seq<u8>, BuildError>(BuildError::NotCovered { available, needed, fee }),
            )
            &&& available > needed + fee ==> match outcome {
                Some(Ok(bytes)) => may_build(draft@.tx(fee), Some(bytes)),
                Some(Err(error)) => may_build(draft@.tx(fee), None) && error == BuildError::NotBuilt,
                None => false,
            }
        }),
{
}

} // verus!
