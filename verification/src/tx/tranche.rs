//! The transaction that pays out a tranche: the proposer gets the tranche's
//! share, and the escrow goes on with what is left, unless it was the last.

use crate::address::{parse_address, payment_key_hash, same_hash};
use crate::blockfrost_client::EscrowUtxo;
use crate::config::Config;
use crate::datum::{Datum, Redeemer};
use crate::fees::{checked_min_utxo_lovelace, OutputShape};
use crate::hexadecimal::{decode_hex, parse_hash32};
use crate::ledger::{
    build_transaction, new_output, new_transaction, stage_collateral, stage_cost_model, stage_fee, stage_input,
    stage_output, stage_script, stage_spend_redeemer, stage_valid_from, with_inline_datum, ExUnits, TxInput,
};
use crate::tx::{settle_fee, BuildError, FeeDraft, UtxoRef};
use pallas_addresses::Address;
use vstd::prelude::*;

verus! {

use crate::address::{bech32_address, key_hash_of, AddressError};
use crate::blockfrost_client::EscrowUtxoView;
use crate::config::ConfigView;
use crate::datum::DatumView;
use crate::fees::{min_utxo, FeeError, OutputShapeView};
use crate::hexadecimal::{hex_bytes, is_hex};
use crate::ledger::{
    conway_tx, may_build, plutus_v3_hash, staged, AssetId, total_lovelace, written_bytes, RedeemerPurpose, StagedOutput, StagedRedeemer,
    StagedTx, TxInputView, Walk,
};
use crate::plutus::{plutus_cbor, plutus_from_cbor};
use crate::tx::create_escrow::{bps_total, WHOLE_BPS};
use crate::tx::{built_outcome, lemma_one_walk, lemma_settled, outcome_of, settled, Outcome, UtxoRefView};

/// Division that rounds towards zero.
pub open spec fn towards_zero(value: int, divisor: int) -> int {
    if value >= 0 {
        value / divisor
    } else {
        -((-value) / divisor)
    }
}

/// The lovelace of a tranche: its share, in basis points, of what was locked.
/// `None` where the product leaves its range.
pub open spec fn share_of(total_locked: i64, bps: i64) -> Option<u64> {
    if i64::MIN <= total_locked * bps <= i64::MAX {
        Some(towards_zero(total_locked * bps, 10_000) as i64 as u64)
    } else {
        None
    }
}

/// The lovelace of a tranche. `None` where the product leaves its range.
pub fn tranche_share(total_locked: i64, bps: i64) -> (share: Option<u64>)
    ensures
        share == share_of(total_locked, bps),
{
    match total_locked.checked_mul(bps) {
        Some(product) => Some((product / 10_000) as u64),
        None => None,
    }
}

impl DatumView {
    /// This state with one more tranche released.
    pub open spec fn with_release(self) -> DatumView {
        DatumView { released_count: (self.released_count + 1) as i64, ..self }
    }

    /// Whether a tranche is the last one.
    pub open spec fn is_last(self, index: int) -> bool {
        index + 1 == self.tranche_bps.len()
    }
}

/// What a wish to pay out a tranche says.
pub struct TrancheRequest<'a> {
    pub milestone_index: u8,
    pub submitter_address: &'a str,
    pub proposer_address: &'a str,
    pub fee_input: &'a UtxoRef,
    pub fee_input_lovelace: u64,
    pub collateral: &'a UtxoRef,
}

/// What a [`TrancheRequest`] holds.
pub struct TrancheRequestView {
    pub milestone_index: u8,
    pub submitter_address: Seq<char>,
    pub proposer_address: Seq<char>,
    pub fee_input: UtxoRefView,
    pub fee_input_lovelace: u64,
    pub collateral: UtxoRefView,
}

impl<'a> View for TrancheRequest<'a> {
    type V = TrancheRequestView;

    open spec fn view(&self) -> TrancheRequestView {
        TrancheRequestView {
            milestone_index: self.milestone_index,
            submitter_address: self.submitter_address@,
            proposer_address: self.proposer_address@,
            fee_input: self.fee_input@,
            fee_input_lovelace: self.fee_input_lovelace,
            collateral: self.collateral@,
        }
    }
}

impl TrancheRequestView {
    /// Whether the milestone is there and next in turn, or the reason against
    /// it.
    pub open spec fn in_turn(self, datum: DatumView) -> Result<(), BuildError> {
        if self.milestone_index >= datum.tranche_bps.len() {
            Err(BuildError::MilestoneOutOfRange)
        } else if self.milestone_index != datum.released_count {
            Err(BuildError::OutOfSequence)
        } else {
            Ok(())
        }
    }

    /// The transaction but for prices, budgets and its fee, or the first
    /// reason against it, for a milestone that is there. `None` where the
    /// tranche's share leaves its range.
    pub open spec fn plan(
        self,
        redeemer: Redeemer,
        valid_from: Option<u64>,
        config: ConfigView,
        escrow: EscrowUtxoView,
    ) -> Option<Result<TranchePlanView, BuildError>> {
        let index = self.milestone_index as int;
        match key_hash_of(self.proposer_address) {
            Err(error) => Some(Err(BuildError::Address(error))),
            Ok(proposer) => if proposer != escrow.datum.proposer {
                Some(Err(BuildError::ProposerMismatch))
            } else {
                match share_of(escrow.datum.total_locked, escrow.datum.tranche_bps[index]) {
                    None => None,
                    Some(share) => match (
                        UtxoRefView { tx_hash: escrow.tx_hash, output_index: escrow.output_index }.input(),
                        self.fee_input.input(),
                        self.collateral.input(),
                        bech32_address(config.escrow_address),
                        bech32_address(self.submitter_address),
                        bech32_address(self.proposer_address),
                    ) {
                        (None, _, _, _, _, _) => Some(Err(BuildError::InvalidTxHash)),
                        (_, None, _, _, _, _) => Some(Err(BuildError::InvalidTxHash)),
                        (_, _, None, _, _, _) => Some(Err(BuildError::InvalidTxHash)),
                        (_, _, _, None, _, _) => Some(Err(BuildError::Address(AddressError::InvalidBech32))),
                        (_, _, _, _, None, _) => Some(Err(BuildError::Address(AddressError::InvalidBech32))),
                        (_, _, _, _, _, None) => Some(Err(BuildError::Address(AddressError::InvalidBech32))),
                        (
                            Some(escrow_input),
                            Some(fee_input),
                            Some(collateral),
                            Some(escrow_address),
                            Some(submitter_address),
                            Some(proposer_address),
                        ) => if !is_hex(config.escrow_compiled_code) {
                            Some(Err(BuildError::InvalidEscrowCode))
                        } else {
                            Some(
                                Ok(
                                    TranchePlanView {
                                        redeemer,
                                        valid_from,
                                        escrow_input,
                                        escrow_lovelace: escrow.lovelace,
                                        fee_input,
                                        fee_input_lovelace: self.fee_input_lovelace,
                                        collateral,
                                        escrow_address,
                                        submitter_address,
                                        proposer_address,
                                        payout: if escrow.datum.is_last(index) {
                                            escrow.lovelace
                                        } else {
                                            share
                                        },
                                        next: if escrow.datum.is_last(index) {
                                            None
                                        } else {
                                            Some(escrow.datum.with_release())
                                        },
                                        escrow_script: hex_bytes(config.escrow_compiled_code),
                                    },
                                ),
                            )
                        },
                    },
                }
            },
        }
    }
}

/// The transaction that pays out a tranche, but for prices, budgets and its
/// fee.
pub struct TranchePlan {
    redeemer: Redeemer,
    redeemer_cbor: Vec<u8>,
    valid_from: Option<u64>,
    escrow_input: TxInput,
    escrow_lovelace: u64,
    fee_input: TxInput,
    fee_input_lovelace: u64,
    collateral: TxInput,
    escrow_address: Address,
    submitter_address: Address,
    proposer_address: Address,
    payout: u64,
    next: Option<(Datum, Vec<u8>)>,
    escrow_script: Vec<u8>,
}

/// What a [`TranchePlan`] holds.
pub struct TranchePlanView {
    pub redeemer: Redeemer,
    pub valid_from: Option<u64>,
    pub escrow_input: TxInputView,
    pub escrow_lovelace: u64,
    pub fee_input: TxInputView,
    pub fee_input_lovelace: u64,
    pub collateral: TxInputView,
    pub escrow_address: Address,
    pub submitter_address: Address,
    pub proposer_address: Address,
    /// What the proposer gets.
    pub payout: u64,
    /// The state in which the escrow goes on, if it does.
    pub next: Option<DatumView>,
    pub escrow_script: Seq<u8>,
}

impl View for TranchePlan {
    type V = TranchePlanView;

    closed spec fn view(&self) -> TranchePlanView {
        TranchePlanView {
            redeemer: self.redeemer,
            valid_from: self.valid_from,
            escrow_input: self.escrow_input@,
            escrow_lovelace: self.escrow_lovelace,
            fee_input: self.fee_input@,
            fee_input_lovelace: self.fee_input_lovelace,
            collateral: self.collateral@,
            escrow_address: self.escrow_address,
            submitter_address: self.submitter_address,
            proposer_address: self.proposer_address,
            payout: self.payout,
            next: match self.next {
                Some((datum, _)) => Some(datum@),
                None => None,
            },
            escrow_script: self.escrow_script@,
        }
    }
}

/// Whether a plan that was made is the one described. The state in which the
/// escrow goes on is read back from its bytes.
pub open spec fn plan_outcome(
    made: Option<Result<TranchePlan, BuildError>>,
    expected: Option<Result<TranchePlanView, BuildError>>,
) -> bool {
    match made {
        Some(Ok(plan)) => plan.wf() && (plan@.next matches Some(datum) ==> datum.readable()) && expected == Some(Ok::<TranchePlanView, BuildError>(plan@)),
        Some(Err(error)) => expected == Some(Err::<TranchePlanView, BuildError>(error)),
        None => expected is None,
    }
}

impl TranchePlan {
    /// Whether the encoded parts are those of the plan.
    pub closed spec fn wf(self) -> bool {
        &&& self.redeemer_cbor@ == plutus_cbor(self.redeemer.tree())
        &&& self.next matches Some((datum, datum_cbor)) ==> datum_cbor@ == plutus_cbor(datum@.tree())
    }

    /// The plan for a milestone that is there and next in turn.
    pub(crate) fn new(
        req: &TrancheRequest<'_>,
        redeemer: Redeemer,
        valid_from: Option<u64>,
        config: &Config,
        escrow: &EscrowUtxo,
    ) -> (plan: Option<Result<TranchePlan, BuildError>>)
        requires
            req@.in_turn(escrow@.datum) is Ok,
        ensures
            plan_outcome(plan, req@.plan(redeemer, valid_from, config@, escrow@)),
    {
        let index: usize = req.milestone_index as usize;
        let proposer = match payment_key_hash(req.proposer_address) {
            Ok(hash) => hash,
            Err(error) => return Some(Err(BuildError::Address(error))),
        };
        if !same_hash(&proposer, &escrow.datum.proposer) {
            return Some(Err(BuildError::ProposerMismatch));
        }
        let share: u64 = match tranche_share(escrow.datum.total_locked, escrow.datum.tranche_bps[index]) {
            Some(share) => share,
            None => return None,
        };
        let is_last: bool = index + 1 == escrow.datum.tranche_bps.len();
        let payout: u64 = if is_last {
            escrow.lovelace
        } else {
            share
        };
        let redeemer_cbor = match redeemer.to_cbor() {
            Ok(bytes) => bytes,
            Err(error) => return Some(Err(BuildError::Datum(error))),
        };
        let escrow_input = match parse_hash32(&escrow.tx_hash) {
            Ok(tx_hash) => TxInput { tx_hash, output_index: escrow.output_index },
            Err(_) => return Some(Err(BuildError::InvalidTxHash)),
        };
        let fee_input = match req.fee_input.to_input() {
            Ok(input) => input,
            Err(error) => return Some(Err(error)),
        };
        let collateral = match req.collateral.to_input() {
            Ok(input) => input,
            Err(error) => return Some(Err(error)),
        };
        let escrow_address = match parse_address(&config.escrow_address) {
            Ok(address) => address,
            Err(error) => return Some(Err(BuildError::Address(error))),
        };
        let submitter_address = match parse_address(req.submitter_address) {
            Ok(address) => address,
            Err(error) => return Some(Err(BuildError::Address(error))),
        };
        let proposer_address = match parse_address(req.proposer_address) {
            Ok(address) => address,
            Err(error) => return Some(Err(BuildError::Address(error))),
        };
        let escrow_script = match decode_hex(&config.escrow_compiled_code) {
            Ok(bytes) => bytes,
            Err(_) => return Some(Err(BuildError::InvalidEscrowCode)),
        };
        let next = if is_last {
            None
        } else {
            let mut datum = escrow.datum.copied();
            datum.released_count = datum.released_count + 1;
            assert(datum@ =~= escrow@.datum.with_release());
            match datum.to_cbor() {
                Ok(bytes) => Some((datum, bytes)),
                Err(error) => return Some(Err(BuildError::Datum(error))),
            }
        };
        Some(
            Ok(
                TranchePlan {
                    redeemer,
                    redeemer_cbor,
                    valid_from,
                    escrow_input,
                    escrow_lovelace: escrow.lovelace,
                    fee_input,
                    fee_input_lovelace: req.fee_input_lovelace,
                    collateral,
                    escrow_address,
                    submitter_address,
                    proposer_address,
                    payout,
                    next,
                    escrow_script,
                },
            ),
        )
    }
}

impl TranchePlanView {
    /// The least change that is paid out. `None` where the price leaves its
    /// range.
    pub open spec fn change_floor(self, coins_per_utxo_byte: u64) -> Option<Result<u64, BuildError>> {
        match min_utxo(OutputShapeView { address: self.submitter_address, token: None }, coins_per_utxo_byte) {
            None => None,
            Some(Err(error)) => Some(Err(BuildError::MinUtxo(error))),
            Some(Ok(floor)) => Some(Ok(floor)),
        }
    }
}

impl TranchePlan {
    /// The least change that is paid out. `None` where the price leaves its
    /// range.
    pub fn price(&self, coins_per_utxo_byte: u64) -> (floor: Option<Result<u64, BuildError>>)
        ensures
            floor == self@.change_floor(coins_per_utxo_byte),
    {
        let shape = OutputShape { address: &self.submitter_address, token: None };
        match checked_min_utxo_lovelace(&shape, coins_per_utxo_byte) {
            None => None,
            Some(Err(error)) => Some(Err(BuildError::MinUtxo(error))),
            Some(Ok(floor)) => Some(Ok(floor)),
        }
    }

    /// The transaction with prices and a budget, but for its fee.
    pub fn draft<'a>(&'a self, change_floor: u64, cost_model: &'a Vec<i64>, spend: ExUnits) -> (draft: TrancheDraft<'a>)
        requires
            self.wf(),
        ensures
            draft.ready(),
            draft@ == (TrancheDraftView { plan: self@, change_floor, cost_model: cost_model@, spend }),
    {
        TrancheDraft { plan: self, change_floor, cost_model, spend }
    }
}

/// The transaction that pays out a tranche, but for its fee.
pub struct TrancheDraft<'a> {
    plan: &'a TranchePlan,
    change_floor: u64,
    cost_model: &'a Vec<i64>,
    spend: ExUnits,
}

/// What a [`TrancheDraft`] holds.
pub struct TrancheDraftView {
    pub plan: TranchePlanView,
    pub change_floor: u64,
    pub cost_model: Seq<i64>,
    pub spend: ExUnits,
}

impl<'a> View for TrancheDraft<'a> {
    type V = TrancheDraftView;

    closed spec fn view(&self) -> TrancheDraftView {
        TrancheDraftView {
            plan: self.plan@,
            change_floor: self.change_floor,
            cost_model: self.cost_model@,
            spend: self.spend,
        }
    }
}

impl TrancheDraftView {
    /// Whether the fee input pays for the fee and some change.
    pub open spec fn covered(self, fee: u64) -> bool {
        self.plan.fee_input_lovelace > fee
    }

    /// What is left of the fee input.
    pub open spec fn left(self, fee: u64) -> int {
        self.plan.fee_input_lovelace - fee
    }

    /// Whether what is left is enough to be paid out.
    pub open spec fn pays_change(self, fee: u64) -> bool {
        self.left(fee) >= self.change_floor
    }

    /// The fee with what is left and not paid out.
    pub open spec fn full_fee(self, fee: u64) -> u64 {
        if self.pays_change(fee) {
            fee
        } else {
            self.plan.fee_input_lovelace
        }
    }

    /// Whether the escrow holds the payout: where it ends it pays out all that
    /// it holds.
    pub open spec fn holds_payout(self) -> bool {
        self.plan.next is Some ==> self.plan.payout <= self.plan.escrow_lovelace
    }

    /// The payout, and the escrow that goes on, if it does.
    pub open spec fn fixed_outputs(self) -> Seq<StagedOutput> {
        let paid = seq![StagedOutput::paying(self.plan.proposer_address, self.plan.payout)];
        match self.plan.next {
            Some(datum) => paid.push(
                StagedOutput::paying(
                    self.plan.escrow_address,
                    (self.plan.escrow_lovelace - self.plan.payout) as u64,
                ).with_datum(plutus_cbor(datum.tree())),
            ),
            None => paid,
        }
    }

    /// The payout, the escrow that goes on, and the change to the submitter.
    pub open spec fn outputs(self, fee: u64) -> Seq<StagedOutput> {
        if self.pays_change(fee) {
            self.fixed_outputs().push(StagedOutput::paying(self.plan.submitter_address, self.left(fee) as u64))
        } else {
            self.fixed_outputs()
        }
    }

    /// The transaction with `fee`.
    pub open spec fn tx(self, fee: u64) -> StagedTx {
        StagedTx {
            inputs: seq![self.plan.escrow_input, self.plan.fee_input],
            collateral: seq![self.plan.collateral],
            outputs: self.outputs(fee),
            fee: Some(self.full_fee(fee)),
            valid_from: self.plan.valid_from,
            scripts: Map::<Seq<u8>, Seq<u8>>::empty().insert(
                plutus_v3_hash(self.plan.escrow_script),
                self.plan.escrow_script,
            ),
            redeemers: Map::<RedeemerPurpose, StagedRedeemer>::empty().insert(
                RedeemerPurpose::Spend(self.plan.escrow_input),
                StagedRedeemer { data: plutus_cbor(self.plan.redeemer.tree()), ex_units: self.spend },
            ),
            cost_model: Some(self.cost_model),
            ..StagedTx::empty()
        }
    }

    /// The one way to walk its script and its redeemer.
    pub open spec fn walk(self) -> Walk {
        Walk {
            scripts: seq![plutus_v3_hash(self.plan.escrow_script)],
            redeemers: seq![RedeemerPurpose::Spend(self.plan.escrow_input)],
        }
    }

    /// What comes of building it with `fee`.
    pub open spec fn built(self, fee: u64) -> Outcome {
        if !self.covered(fee) {
            Some(Err(BuildError::NotCovered { available: self.plan.fee_input_lovelace, needed: 0, fee }))
        } else if !self.holds_payout() {
            None
        } else {
            built_outcome(conway_tx(self.tx(fee), self.walk()))
        }
    }
}

impl<'a> FeeDraft for TrancheDraft<'a> {
    closed spec fn ready(&self) -> bool {
        self.plan.wf()
    }

    open spec fn gives(&self, fee: u64, outcome: Outcome) -> bool {
        outcome == self@.built(fee)
    }

    fn assemble(&self, fee: u64) -> (built: Option<Result<Vec<u8>, BuildError>>) {
        let plan = self.plan;
        if plan.fee_input_lovelace <= fee {
            return Some(Err(BuildError::NotCovered { available: plan.fee_input_lovelace, needed: 0, fee }));
        }
        let left: u64 = plan.fee_input_lovelace - fee;
        let pays_change: bool = left >= self.change_floor;
        let full_fee: u64 = if pays_change {
            fee
        } else {
            fee + left
        };
        let cost_model = self.cost_model.clone();
        assert(cost_model@ =~= self.cost_model@);
        let tx = stage_input(new_transaction(), &plan.escrow_input);
        let tx = stage_input(tx, &plan.fee_input);
        let tx = stage_collateral(tx, &plan.collateral);
        let tx = match plan.valid_from {
            Some(slot) => stage_valid_from(tx, slot),
            None => tx,
        };
        let tx = stage_output(tx, new_output(&plan.proposer_address, plan.payout));
        let tx = stage_script(tx, plan.escrow_script.clone());
        let tx = stage_spend_redeemer(tx, &plan.escrow_input, plan.redeemer_cbor.clone(), self.spend);
        let tx = stage_cost_model(tx, cost_model);
        let tx = stage_fee(tx, full_fee);
        let tx = match &plan.next {
            Some((_, datum_cbor)) => {
                if plan.payout > plan.escrow_lovelace {
                    return None;
                }
                let rest: u64 = plan.escrow_lovelace - plan.payout;
                stage_output(tx, with_inline_datum(new_output(&plan.escrow_address, rest), datum_cbor.clone()))
            },
            None => tx,
        };
        assert(staged(tx).outputs =~= self@.fixed_outputs());
        let tx = if pays_change {
            stage_output(tx, new_output(&plan.submitter_address, left))
        } else {
            tx
        };
        assert(staged(tx).outputs =~= self@.outputs(fee));
        assert(staged(tx) =~= self@.tx(fee));
        let bytes = build_transaction(tx);
        proof {
            let walk = self@.walk();
            assert(walk.scripts[0] == plutus_v3_hash(plan.escrow_script@));
            assert(walk.scripts.to_set() =~= staged(tx).scripts.dom());
            assert(walk.redeemers[0] == RedeemerPurpose::Spend(plan.escrow_input@));
            assert(walk.redeemers.to_set() =~= staged(tx).redeemers.dom());
            lemma_one_walk(self@.tx(fee), walk, written_bytes(bytes));
        }
        match bytes {
            Some(written) => Some(Ok(written)),
            None => Some(Err(BuildError::NotBuilt)),
        }
    }
}

impl<'a> TrancheDraft<'a> {
    /// The unsigned transaction, with the fee that its size and its script ask
    /// for. `None` where an amount leaves its range.
    pub fn finish(&self, script_fee: u64, min_fee_a: u64, min_fee_b: u64) -> (built: Option<Result<Vec<u8>, BuildError>>)
        requires
            self.ready(),
        ensures
            outcome_of(built) == settled(|fee: u64| self@.built(fee), script_fee, min_fee_a, min_fee_b),
    {
        let built = settle_fee(self, script_fee, min_fee_a, min_fee_b);
        proof {
            let view = self@;
            lemma_settled(
                *self,
                |fee: u64| view.built(fee),
                script_fee,
                min_fee_a,
                min_fee_b,
                outcome_of(built),
            );
        }
        built
    }
}

/// What the inputs hold is what the outputs pay and the fee; the fee is at
/// least the one asked for.
pub proof fn lemma_payout_conserves_value(
    req: TrancheRequestView,
    redeemer: Redeemer,
    valid_from: Option<u64>,
    config: ConfigView,
    escrow: EscrowUtxoView,
    draft: TrancheDraftView,
    fee: u64,
)
    requires
        req.plan(redeemer, valid_from, config, escrow) == Some(Ok::<TranchePlanView, BuildError>(draft.plan)),
        draft.covered(fee),
        draft.holds_payout(),
    ensures
        draft.tx(fee).fee == Some(draft.full_fee(fee)),
        draft.full_fee(fee) >= fee,
        draft.tx(fee).total_output() + draft.full_fee(fee) == escrow.lovelace + req.fee_input_lovelace,
{
    let fixed = draft.fixed_outputs();
    let paid = fixed.take(1);
    assert(paid.drop_last() =~= seq![]);
    assert(total_lovelace(paid.drop_last()) == 0);
    assert(total_lovelace(paid) == draft.plan.payout);
    if draft.plan.next is Some {
        assert(fixed.drop_last() =~= paid);
    } else {
        assert(fixed =~= paid);
    }
    assert(total_lovelace(fixed) == escrow.lovelace);
    if draft.pays_change(fee) {
        assert(draft.outputs(fee).drop_last() =~= fixed);
    }
}

/// A payout goes to the proposer's address. Before the last tranche it is the
/// tranche's share, and the escrow goes on at its address with the rest and
/// one more tranche counted as released, as a state of the same grant and with
/// nothing else changed; its state is read back from the output. The last
/// tranche pays out all that is left, and the escrow ends.
pub proof fn lemma_payout_advances(
    req: TrancheRequestView,
    redeemer: Redeemer,
    valid_from: Option<u64>,
    config: ConfigView,
    escrow: EscrowUtxoView,
    draft: TrancheDraftView,
    fee: u64,
)
    requires
        req.in_turn(escrow.datum) is Ok,
        req.plan(redeemer, valid_from, config, escrow) == Some(Ok::<TranchePlanView, BuildError>(draft.plan)),
        draft.covered(fee),
        draft.holds_payout(),
    ensures
        draft.tx(fee).outputs[0] == StagedOutput::paying(draft.plan.proposer_address, draft.plan.payout),
        bech32_address(req.proposer_address) == Some(draft.plan.proposer_address),
        key_hash_of(req.proposer_address) == Ok::<Seq<u8>, AddressError>(escrow.datum.proposer),
        escrow.datum.is_last(req.milestone_index as int) ==> draft.plan.next is None && draft.plan.payout
            == escrow.lovelace,
        !escrow.datum.is_last(req.milestone_index as int) ==> draft.plan.next == Some(escrow.datum.with_release())
            && Some(draft.plan.payout) == share_of(
            escrow.datum.total_locked,
            escrow.datum.tranche_bps[req.milestone_index as int],
        ) && draft.tx(fee).outputs[1].lovelace == escrow.lovelace - draft.plan.payout && bech32_address(
            config.escrow_address,
        ) == Some(draft.tx(fee).outputs[1].address) && draft.tx(fee).outputs[1].inline_datum == Some(
            plutus_cbor(escrow.datum.with_release().tree()),
        ) && (escrow.datum.with_release().readable() ==> plutus_from_cbor(
            draft.tx(fee).outputs[1].inline_datum->0,
        ) == Some(escrow.datum.with_release().tree())),
        escrow.datum.with_release().released_count == escrow.datum.released_count + 1,
        escrow.datum.with_release().grant_id() == escrow.datum.grant_id(),
        escrow.datum.with_release().approved == escrow.datum.approved,
{
}

/// The sum of the shares of some tranches.
pub open spec fn shares_total(total_locked: int, bps: Seq<i64>) -> int
    decreases bps.len(),
{
    if bps.len() == 0 {
        0
    } else {
        shares_total(total_locked, bps.drop_last()) + towards_zero(total_locked * bps.last(), 10_000)
    }
}

/// The shares of some tranches are no more than the share of their sum.
proof fn lemma_shares_of_sum(total_locked: int, bps: Seq<i64>)
    requires
        total_locked >= 0,
        forall|i: int| 0 <= i < bps.len() ==> bps[i] >= 0,
    ensures
        0 <= bps_total(bps),
        0 <= shares_total(total_locked, bps) <= total_locked * bps_total(bps) / 10_000,
    decreases bps.len(),
{
    if bps.len() > 0 {
        let before = bps_total(bps.drop_last());
        let last = bps.last() as int;
        lemma_shares_of_sum(total_locked, bps.drop_last());
        assert(total_locked * (before + last) == total_locked * before + total_locked * last) by (nonlinear_arith);
        assert(total_locked * last >= 0) by (nonlinear_arith)
            requires
                total_locked >= 0,
                last >= 0,
        ;
    }
}

/// Where the tranches make up the whole and none is negative, the shares of
/// any first few of them together are never more than what was locked: each
/// tranche is covered by what the ones before it left.
pub proof fn lemma_shares_fit(total_locked: i64, bps: Seq<i64>, count: int)
    requires
        total_locked >= 0,
        forall|i: int| 0 <= i < bps.len() ==> bps[i] >= 0,
        bps_total(bps) == WHOLE_BPS,
        0 <= count <= bps.len(),
    ensures
        0 <= shares_total(total_locked as int, bps.take(count)) <= total_locked,
{
    let first = bps.take(count);
    let total = total_locked as int;
    lemma_shares_of_sum(total, first);
    lemma_first_bps(bps, count);
    assert(total * bps_total(first) <= total * 10_000) by (nonlinear_arith)
        requires
            total >= 0,
            bps_total(first) <= 10_000,
    ;
}

/// The first few tranches are no more than all of them.
proof fn lemma_first_bps(bps: Seq<i64>, count: int)
    requires
        forall|i: int| 0 <= i < bps.len() ==> bps[i] >= 0,
        0 <= count <= bps.len(),
    ensures
        bps_total(bps.take(count)) <= bps_total(bps),
    decreases bps.len(),
{
    if count < bps.len() {
        lemma_first_bps(bps.drop_last(), count);
        assert(bps.drop_last().take(count) =~= bps.take(count));
    } else {
        assert(bps.take(count) =~= bps);
    }
}

/// The share of a tranche is its basis points of what was locked, rounded
/// down: ten thousand shares are at most the product, and one lovelace more
/// would be too much. There is no share exactly where 64 bits do not hold the
/// product.
pub proof fn lemma_share_rounds_down(total_locked: i64, bps: i64)
    requires
        total_locked >= 0,
        bps >= 0,
    ensures
        share_of(total_locked, bps) is Some <==> total_locked * bps <= 0x7fff_ffff_ffff_ffff,
        share_of(total_locked, bps) matches Some(share) ==> 10_000 * share <= total_locked * bps < 10_000 * (share + 1)
            && (bps <= 10_000 ==> share <= total_locked),
{
    let product = total_locked * bps;
    assert(product >= 0) by (nonlinear_arith)
        requires
            total_locked >= 0,
            bps >= 0,
            product == total_locked * bps,
    ;
    if bps <= 10_000 {
        assert(product <= total_locked * 10_000) by (nonlinear_arith)
            requires
                total_locked >= 0,
                bps <= 10_000,
                product == total_locked * bps,
        ;
    }
}

/// Where the product is negative, the quotient is rounded towards zero, and a
/// negative one is counted down from two to the power of 64.
pub proof fn lemma_negative_share(total_locked: i64, bps: i64)
    requires
        total_locked * bps < 0,
    ensures
        share_of(total_locked, bps) is Some <==> total_locked * bps >= -0x8000_0000_0000_0000,
        share_of(total_locked, bps) matches Some(share) ==> if total_locked * bps > -10_000 {
            share == 0
        } else {
            let missing = 0x1_0000_0000_0000_0000 - share;
            10_000 * missing <= -(total_locked * bps) < 10_000 * (missing + 1)
        },
{
    let product = total_locked * bps;
    if product >= i64::MIN {
        let quotient: i64 = towards_zero(product, 10_000) as i64;
        assert(quotient < 0 ==> quotient as u64 == 0x1_0000_0000_0000_0000 + quotient) by (bit_vector);
    }
}

/// The sum of some amounts.
pub open spec fn amounts_total(amounts: Seq<u64>) -> int
    decreases amounts.len(),
{
    if amounts.len() == 0 {
        0
    } else {
        amounts_total(amounts.drop_last()) + amounts.last()
    }
}

/// Where the tranches make up the whole and none is negative, the shares that
/// are paid for the first few of them are together never more than what was
/// locked, and each is covered by what the ones before it left.
pub proof fn lemma_paid_shares_fit(total_locked: i64, bps: Seq<i64>, paid: Seq<u64>)
    requires
        total_locked >= 0,
        forall|i: int| 0 <= i < bps.len() ==> bps[i] >= 0,
        bps_total(bps) == 10_000,
        paid.len() <= bps.len(),
        forall|i: int| 0 <= i < paid.len() ==> share_of(total_locked, bps[i]) == Some(#[trigger] paid[i]),
    ensures
        amounts_total(paid) <= total_locked,
        forall|i: int|
            0 <= i < paid.len() ==> #[trigger] paid[i] <= total_locked - amounts_total(paid.take(i)),
    decreases paid.len(),
{
    if paid.len() > 0 {
        let before = paid.drop_last();
        lemma_paid_shares_fit(total_locked, bps, before);
        lemma_paid_shares(total_locked, bps, paid);
        lemma_shares_fit(total_locked, bps, paid.len() as int);
        assert forall|i: int| 0 <= i < paid.len() implies #[trigger] paid[i] <= total_locked - amounts_total(
            paid.take(i),
        ) by {
            if i < before.len() {
                assert(before[i] == paid[i]);
                assert(before.take(i) =~= paid.take(i));
            } else {
                assert(before =~= paid.take(i));
            }
        }
    }
}

/// The shares that are paid add up to the shares of the first few tranches.
proof fn lemma_paid_shares(total_locked: i64, bps: Seq<i64>, paid: Seq<u64>)
    requires
        total_locked >= 0,
        forall|i: int| 0 <= i < bps.len() ==> bps[i] >= 0,
        paid.len() <= bps.len(),
        forall|i: int| 0 <= i < paid.len() ==> share_of(total_locked, bps[i]) == Some(#[trigger] paid[i]),
    ensures
        amounts_total(paid) == shares_total(total_locked as int, bps.take(paid.len() as int)),
    decreases paid.len(),
{
    if paid.len() > 0 {
        let last = paid.len() - 1;
        lemma_paid_shares(total_locked, bps, paid.drop_last());
        assert(bps.take(paid.len() as int).drop_last() =~= bps.take(last));
        assert(share_of(total_locked, bps[last]) == Some(paid[last]));
        let product = total_locked * bps[last];
        assert(product >= 0) by (nonlinear_arith)
            requires
                total_locked >= 0,
                bps[last] >= 0,
                product == total_locked * bps[last],
        ;
    }
}

/// A milestone is in turn exactly where it is there and as many tranches were
/// released as there are milestones before it.
pub proof fn lemma_turns(req: TrancheRequest<'_>, datum: Datum)
    ensures
        req@.in_turn(datum@) is Ok <==> req.milestone_index < datum.tranche_bps@.len() && req.milestone_index
            == datum.released_count,
        req@.in_turn(datum@) == Err::<(), BuildError>(BuildError::MilestoneOutOfRange) <==> req.milestone_index
            >= datum.tranche_bps@.len(),
        req@.in_turn(datum@) == Err::<(), BuildError>(BuildError::OutOfSequence) <==> req.milestone_index
            < datum.tranche_bps@.len() && req.milestone_index != datum.released_count,
{
}

/// A plan spends the escrow and the fee input that were named, locks the
/// collateral that was named, pays the proposer of the escrow and gives the
/// change to the submitter. Before the last tranche the payout is the
/// tranche's basis points of what was locked, rounded down, and the escrow
/// goes on with one more tranche released and nothing else touched; the last
/// one pays out what the escrow holds.
pub proof fn lemma_payout_plan_follows_request(
    req: TrancheRequest<'_>,
    redeemer: Redeemer,
    valid_from: Option<u64>,
    config: Config,
    escrow: EscrowUtxo,
    plan: TranchePlanView,
)
    requires
        req@.in_turn(escrow@.datum) is Ok,
        req@.plan(redeemer, valid_from, config@, escrow@) == Some(Ok::<TranchePlanView, BuildError>(plan)),
    ensures
        plan.redeemer == redeemer,
        plan.valid_from == valid_from,
        plan.escrow_input.tx_hash == hex_bytes(escrow.tx_hash@),
        plan.escrow_input.output_index == escrow.output_index,
        plan.escrow_lovelace == escrow.lovelace,
        plan.fee_input.tx_hash == hex_bytes(req.fee_input.tx_hash@),
        plan.fee_input.output_index == req.fee_input.output_index,
        plan.fee_input_lovelace == req.fee_input_lovelace,
        plan.collateral.tx_hash == hex_bytes(req.collateral.tx_hash@),
        plan.collateral.output_index == req.collateral.output_index,
        bech32_address(config.escrow_address@) == Some(plan.escrow_address),
        bech32_address(req.submitter_address@) == Some(plan.submitter_address),
        bech32_address(req.proposer_address@) == Some(plan.proposer_address),
        key_hash_of(req.proposer_address@) == Ok::<Seq<u8>, AddressError>(escrow.datum.proposer@),
        plan.escrow_script == hex_bytes(config.escrow_compiled_code@),
        ({
            let index = req.milestone_index as int;
            let bps = escrow.datum.tranche_bps@[index];
            if index == escrow.datum.tranche_bps@.len() - 1 {
                plan.payout == escrow.lovelace && plan.next is None
            } else {
                &&& escrow.datum.total_locked >= 0 && bps >= 0 ==> 10_000 * plan.payout <= escrow.datum.total_locked * bps
                    < 10_000 * (plan.payout + 1)
                &&& plan.next matches Some(next) && {
                    &&& next.reviewer == escrow.datum.reviewer@
                    &&& next.proposer == escrow.datum.proposer@
                    &&& next.total_locked == escrow.datum.total_locked
                    &&& next.tranche_bps == escrow.datum.tranche_bps@
                    &&& next.approved == escrow.datum.approved@
                    &&& next.released_count == escrow.datum.released_count + 1
                    &&& next.receipt_policy_id == escrow.datum.receipt_policy_id@
                    &&& next.review_deadline == escrow.datum.review_deadline
                    &&& next.unspendable_legacy_shape == escrow.datum.unspendable_legacy_shape
                }
            }
        }),
{
    let bps = escrow.datum.tranche_bps@[req.milestone_index as int];
    if escrow.datum.total_locked >= 0 && bps >= 0 {
        lemma_share_rounds_down(escrow.datum.total_locked, bps);
    }
}

/// A plan is made exactly where the address is the proposer's, 64 bits hold
/// the product of which the share is taken, and every text that the
/// transaction needs can be read. Otherwise the first of these that fails is
/// told.
pub proof fn lemma_payout_refusals(
    req: TrancheRequest<'_>,
    redeemer: Redeemer,
    valid_from: Option<u64>,
    config: Config,
    escrow: EscrowUtxo,
)
    requires
        req@.in_turn(escrow@.datum) is Ok,
    ensures
        ({
            let planned = req@.plan(redeemer, valid_from, config@, escrow@);
            let to_proposer = key_hash_of(req.proposer_address@) == Ok::<Seq<u8>, AddressError>(escrow.datum.proposer@);
            let product = escrow.datum.total_locked * escrow.datum.tranche_bps@[req.milestone_index as int];
            let held = -0x8000_0000_0000_0000 <= product <= 0x7fff_ffff_ffff_ffff;
            let hashes = escrow.tx_hash@.len() == 64 && is_hex(escrow.tx_hash@) && req.fee_input.tx_hash@.len() == 64
                && is_hex(req.fee_input.tx_hash@) && req.collateral.tx_hash@.len() == 64 && is_hex(
                req.collateral.tx_hash@,
            );
            let addresses = bech32_address(config.escrow_address@) is Some && bech32_address(req.submitter_address@) is Some
                && bech32_address(req.proposer_address@) is Some;
            &&& (planned matches Some(Ok(_))) <==> to_proposer && held && hashes && addresses && is_hex(
                config.escrow_compiled_code@,
            )
            &&& planned is None <==> to_proposer && !held
            &&& planned == Some(Err::<TranchePlanView, BuildError>(BuildError::ProposerMismatch)) <==> key_hash_of(
                req.proposer_address@,
            ) is Ok && !to_proposer
            &&& planned == Some(Err::<TranchePlanView, BuildError>(BuildError::InvalidTxHash)) <==> to_proposer && held
                && !hashes
            &&& planned == Some(Err::<TranchePlanView, BuildError>(BuildError::InvalidEscrowCode)) <==> to_proposer
                && held && hashes && addresses && !is_hex(config.escrow_compiled_code@)
            &&& planned matches Some(Err(BuildError::Address(error))) ==> (key_hash_of(req.proposer_address@) == Err::<
                Seq<u8>,
                AddressError,
            >(error) || to_proposer && held && hashes && !addresses && error == AddressError::InvalidBech32)
        }),
{
}

/// A payout goes to the proposer, alone. The escrow that goes on holds the
/// rest, and nothing but its state. What is left of the fee input goes to the
/// submitter, all of it and alone, or to the fee where it is too little. Where
/// an address is not the escrow's, what is paid to it does not reach the
/// escrow.
pub proof fn lemma_payout_outputs(draft: TrancheDraftView, fee: u64)
    requires
        draft.plan.fee_input_lovelace > fee,
        draft.plan.next is Some ==> draft.plan.payout <= draft.plan.escrow_lovelace,
    ensures
        ({
            let plan = draft.plan;
            let outputs = draft.tx(fee).outputs;
            let left = plan.fee_input_lovelace - fee;
            let change: int = if plan.next is Some {
                2
            } else {
                1
            };
            &&& outputs.len() == (if left >= draft.change_floor {
                change + 1
            } else {
                change
            })
            &&& outputs[0].address == plan.proposer_address
            &&& outputs[0].lovelace == plan.payout
            &&& outputs[0].inline_datum is None
            &&& outputs[0].assets == Map::<AssetId, u64>::empty()
            &&& plan.next matches Some(next) ==> outputs[1].address == plan.escrow_address && outputs[1].lovelace
                == plan.escrow_lovelace - plan.payout && outputs[1].inline_datum == Some(plutus_cbor(next.tree()))
                && outputs[1].assets == Map::<AssetId, u64>::empty()
            &&& left >= draft.change_floor ==> outputs[change].address == plan.submitter_address
                && outputs[change].lovelace == left && outputs[change].inline_datum is None && outputs[change].assets
                == Map::<AssetId, u64>::empty()
            &&& draft.tx(fee).fee == Some(
                if left >= draft.change_floor {
                    fee
                } else {
                    plan.fee_input_lovelace
                },
            )
        }),
{
}

/// A payout spends the escrow and the fee input, locks the collateral and asks
/// for no signature beyond those of the inputs. It runs the escrow's script
/// alone, with the plan's redeemer and its budget, mints nothing, and holds
/// from the slot of the plan on.
pub proof fn lemma_payout_runs_the_escrow_script(draft: TrancheDraftView, fee: u64)
    ensures
        ({
            let tx = draft.tx(fee);
            let plan = draft.plan;
            let spend = RedeemerPurpose::Spend(plan.escrow_input);
            &&& tx.inputs == seq![plan.escrow_input, plan.fee_input]
            &&& tx.collateral == seq![plan.collateral]
            &&& tx.signers.len() == 0
            &&& tx.mint == Map::<AssetId, i64>::empty()
            &&& tx.valid_from == plan.valid_from
            &&& tx.scripts.dom() == set![plutus_v3_hash(plan.escrow_script)]
            &&& tx.scripts[plutus_v3_hash(plan.escrow_script)] == plan.escrow_script
            &&& tx.redeemers.dom() == set![spend]
            &&& tx.redeemers[spend].data == plutus_cbor(plan.redeemer.tree())
            &&& tx.redeemers[spend].ex_units == draft.spend
            &&& tx.cost_model == Some(draft.cost_model)
        }),
{
    let tx = draft.tx(fee);
    assert(tx.scripts.dom() =~= set![plutus_v3_hash(draft.plan.escrow_script)]);
    assert(tx.redeemers.dom() =~= set![RedeemerPurpose::Spend(draft.plan.escrow_input)]);
}

/// Change is paid from the least value of an output to the submitter without
/// any token; why that is not known is passed on.
pub proof fn lemma_payout_floor(plan: TranchePlanView, coins_per_utxo_byte: u64)
    ensures
        ({
            let least = min_utxo(OutputShapeView { address: plan.submitter_address, token: None }, coins_per_utxo_byte);
            match plan.change_floor(coins_per_utxo_byte) {
                Some(Ok(floor)) => least == Some(Ok::<u64, FeeError>(floor)),
                Some(Err(BuildError::MinUtxo(error))) => least == Some(Err::<u64, FeeError>(error)),
                Some(Err(_)) => false,
                None => least is None,
            }
        }),
{
}

/// With a fee that the fee input does not cover, a payout is refused with the
/// amounts told; an escrow that goes on and holds less than the payout gives
/// none; otherwise what comes of it is what the builder makes of the
/// transaction, whose script and redeemer can be walked in one way.
pub proof fn lemma_payout_assembled(draft: TrancheDraft<'_>, fee: u64, outcome: Outcome)
    requires
        draft.gives(fee, outcome),
    ensures
        ({
            let available = draft@.plan.fee_input_lovelace;
            let short = draft@.plan.next is Some && draft@.plan.payout > draft@.plan.escrow_lovelace;
            &&& available <= fee <==> (outcome matches Some(Err(BuildError::NotCovered { .. })))
            &&& available <= fee ==> outcome == Some(
                Err::<Seq<u8>, BuildError>(BuildError::NotCovered { available, needed: 0, fee }),
            )
            &&& outcome is None <==> available > fee && short
            &&& available > fee && !short ==> match outcome {
                Some(Ok(bytes)) => may_build(draft@.tx(fee), Some(bytes)),
                Some(Err(error)) => may_build(draft@.tx(fee), None) && error == BuildError::NotBuilt,
                None => false,
            }
        }),
{
    let tx = draft@.tx(fee);
    let walk = draft@.walk();
    assert(walk.scripts[0] == plutus_v3_hash(draft@.plan.escrow_script));
    assert(walk.scripts.to_set() =~= tx.scripts.dom());
    assert(walk.redeemers[0] == RedeemerPurpose::Spend(draft@.plan.escrow_input));
    assert(walk.redeemers.to_set() =~= tx.redeemers.dom());
    assert(walk.gives(tx, conway_tx(tx, walk), conway_tx(tx, walk)));
}

/// A plan that was made is the one described, or the reason against it is.
pub proof fn lemma_plan_outcome(
    made: Option<Result<TranchePlan, BuildError>>,
    expected: Option<Result<TranchePlanView, BuildError>>,
)
    requires
        plan_outcome(made, expected),
    ensures
        match made {
            Some(Ok(plan)) => expected == Some(Ok::<TranchePlanView, BuildError>(plan@)),
            Some(Err(error)) => expected == Some(Err::<TranchePlanView, BuildError>(error)),
            None => expected is None,
        },
{
}

} // verus!
