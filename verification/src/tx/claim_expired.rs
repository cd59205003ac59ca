//! Claiming a tranche that nobody reviewed in time: after the review deadline
//! the tranche is paid out without an approval.

use crate::blockfrost_client::{ChainTip, EscrowUtxo};
use crate::config::Config;
use crate::datum::{Datum, Redeemer};
use crate::tx::tranche::{TranchePlan, TrancheRequest};
use crate::tx::{BuildError, UtxoRef};
use vstd::prelude::*;

verus! {

use crate::blockfrost_client::EscrowUtxoView;
use crate::config::ConfigView;
use crate::datum::DatumView;
use crate::tx::tranche::{plan_outcome, TranchePlanView, TrancheRequestView};

/// A wish to claim a tranche.
#[derive(Debug, Clone, PartialEq, Eq)]
pub struct ClaimExpiredRequest {
    pub milestone_index: u8,
    pub submitter_address: String,
    pub proposer_address: String,
    pub tx_hash: String,
    pub output_index: u64,
    pub fee_input: UtxoRef,
    pub fee_input_lovelace: u64,
    pub collateral: UtxoRef,
}

impl View for ClaimExpiredRequest {
    type V = TrancheRequestView;

    open spec fn view(&self) -> TrancheRequestView {
        TrancheRequestView {
            milestone_index: self.milestone_index,
            submitter_address: self.submitter_address@,
            proposer_address: self.proposer_address@,
            fee_input: self.fee_input@,
            fee_input_lovelace: self.fee_input_lovelace,
            collateral: self.collateral@,
        }
    }
}

/// The deadline that must have passed for a claim, or the reason against it.
pub open spec fn claim_deadline(req: TrancheRequestView, datum: DatumView) -> Result<i64, BuildError> {
    match (req.in_turn(datum), datum.review_deadline) {
        (Err(error), _) => Err(error),
        (Ok(_), None) => Err(BuildError::NoDeadline),
        (Ok(_), Some(deadline)) => Ok(deadline),
    }
}

/// The transaction for a claim but for prices, budgets and its fee, or the
/// first reason against it. `None` where the tranche's share leaves its range.
pub open spec fn claim_plan(req: TrancheRequestView, config: ConfigView, escrow: EscrowUtxoView, tip: ChainTip) -> Option<
    Result<TranchePlanView, BuildError>,
> {
    match claim_deadline(req, escrow.datum) {
        Err(error) => Some(Err(error)),
        Ok(deadline) => if tip.time_ms <= deadline {
            Some(Err(BuildError::DeadlineNotPassed))
        } else {
            req.plan(Redeemer::ClaimExpired(req.milestone_index as i64), Some(tip.slot), config, escrow)
        },
    }
}

/// The deadline that must have passed for a claim.
pub fn deadline(req: &ClaimExpiredRequest, escrow: &EscrowUtxo) -> (deadline: Result<i64, BuildError>)
    ensures
        deadline == claim_deadline(req@, escrow@.datum),
{
    if req.milestone_index as usize >= escrow.datum.tranche_bps.len() {
        return Err(BuildError::MilestoneOutOfRange);
    }
    if req.milestone_index as i64 != escrow.datum.released_count {
        return Err(BuildError::OutOfSequence);
    }
    match escrow.datum.review_deadline {
        Some(deadline) => Ok(deadline),
        None => Err(BuildError::NoDeadline),
    }
}

/// The plan for a claim, at a time that the chain has reached.
pub fn prepare(req: &ClaimExpiredRequest, config: &Config, escrow: &EscrowUtxo, tip: &ChainTip) -> (plan: Option<Result<TranchePlan, BuildError>>)
    ensures
        plan_outcome(plan, claim_plan(req@, config@, escrow@, *tip)),
{
    let deadline: i64 = match deadline(req, escrow) {
        Ok(deadline) => deadline,
        Err(error) => return Some(Err(error)),
    };
    if tip.time_ms <= deadline {
        return Some(Err(BuildError::DeadlineNotPassed));
    }
    let request = TrancheRequest {
        milestone_index: req.milestone_index,
        submitter_address: &req.submitter_address,
        proposer_address: &req.proposer_address,
        fee_input: &req.fee_input,
        fee_input_lovelace: req.fee_input_lovelace,
        collateral: &req.collateral,
    };
    TranchePlan::new(&request, Redeemer::ClaimExpired(req.milestone_index as i64), Some(tip.slot), config, escrow)
}

/// A claim is only for the milestone next in turn, only after a deadline that
/// the escrow has, and is not valid before the slot at which that was seen. It
/// asks for no approval.
pub proof fn lemma_claim_follows_deadline(
    req: TrancheRequestView,
    config: ConfigView,
    escrow: EscrowUtxoView,
    tip: ChainTip,
    plan: TranchePlanView,
)
    requires
        claim_plan(req, config, escrow, tip) == Some(Ok::<TranchePlanView, BuildError>(plan)),
    ensures
        escrow.datum.review_deadline matches Some(deadline) && deadline < tip.time_ms,
        req.milestone_index == escrow.datum.released_count,
        req.milestone_index < escrow.datum.tranche_bps.len(),
        plan.valid_from == Some(tip.slot),
        plan.redeemer == Redeemer::ClaimExpired(req.milestone_index as i64),
{
}

/// A claim has a deadline exactly where the milestone is next in turn and the
/// escrow has one; otherwise the first of these that fails is told.
pub proof fn lemma_deadlines(req: ClaimExpiredRequest, datum: Datum)
    ensures
        ({
            let there = req.milestone_index < datum.tranche_bps@.len();
            let next = req.milestone_index == datum.released_count;
            match claim_deadline(req@, datum@) {
                Ok(deadline) => there && next && datum.review_deadline == Some(deadline),
                Err(BuildError::MilestoneOutOfRange) => !there,
                Err(BuildError::OutOfSequence) => there && !next,
                Err(BuildError::NoDeadline) => there && next && datum.review_deadline is None,
                Err(_) => false,
            }
        }),
{
}

/// Up to the deadline and at it a claim is refused; after it, it is the payout
/// that the request asks for, with the claim's redeemer, from the slot on at
/// which the time was seen, whatever was approved.
pub proof fn lemma_claim_is_a_payout(
    req: ClaimExpiredRequest,
    payout: TrancheRequest<'_>,
    config: Config,
    escrow: EscrowUtxo,
    tip: ChainTip,
)
    requires
        payout.milestone_index == req.milestone_index,
        payout.submitter_address@ == req.submitter_address@,
        payout.proposer_address@ == req.proposer_address@,
        *payout.fee_input == req.fee_input,
        payout.fee_input_lovelace == req.fee_input_lovelace,
        *payout.collateral == req.collateral,
    ensures
        claim_deadline(req@, escrow@.datum) matches Err(error) ==> claim_plan(req@, config@, escrow@, tip) == Some(
            Err::<TranchePlanView, BuildError>(error),
        ),
        claim_deadline(req@, escrow@.datum) matches Ok(deadline) ==> {
            &&& tip.time_ms <= deadline ==> claim_plan(req@, config@, escrow@, tip) == Some(
                Err::<TranchePlanView, BuildError>(BuildError::DeadlineNotPassed),
            )
            &&& tip.time_ms > deadline ==> claim_plan(req@, config@, escrow@, tip) == payout@.plan(
                Redeemer::ClaimExpired(req.milestone_index as i64),
                Some(tip.slot),
                config@,
                escrow@,
            )
        },
{
}

} // verus!
