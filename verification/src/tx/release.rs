//! Releasing a tranche that the funder approved.

use crate::blockfrost_client::EscrowUtxo;
use crate::config::Config;
use crate::datum::Redeemer;
use crate::tx::tranche::{TranchePlan, TrancheRequest};
use crate::tx::{BuildError, UtxoRef};
use vstd::prelude::*;

verus! {

use crate::blockfrost_client::EscrowUtxoView;
use crate::config::ConfigView;
use crate::tx::tranche::{plan_outcome, TranchePlanView, TrancheRequestView};

/// A wish to release a tranche.
#[derive(Debug, Clone, PartialEq, Eq)]
pub struct ReleaseTrancheRequest {
    pub milestone_index: u8,
    pub submitter_address: String,
    pub proposer_address: String,
    pub tx_hash: String,
    pub output_index: u64,
    pub fee_input: UtxoRef,
    pub fee_input_lovelace: u64,
    pub collateral: UtxoRef,
}

impl View for ReleaseTrancheRequest {
    type V = TrancheRequestView;

    open spec fn view(&self) -> TrancheRequestView {
        TrancheRequestView {
            milestone_index: self.milestone_index,
            submitter_address: self.submitter_address@,
            proposer_address: self.proposer_address@,
            fee_input: self.fee_input@,
            fee_input_lovelace: self.fee_input_lovelace,
            collateral: self.collateral@,
        }
    }
}

/// The transaction for a release but for prices, budgets and its fee, or the
/// first reason against it. `None` where the tranche's share leaves its range.
pub open spec fn release_plan(req: TrancheRequestView, config: ConfigView, escrow: EscrowUtxoView) -> Option<
    Result<TranchePlanView, BuildError>,
> {
    match req.in_turn(escrow.datum) {
        Err(error) => Some(Err(error)),
        Ok(_) => if !escrow.datum.approved[req.milestone_index as int] {
            Some(Err(BuildError::NotApproved))
        } else {
            req.plan(Redeemer::ReleaseTranche(req.milestone_index as i64), None, config, escrow)
        },
    }
}

/// The plan for a release.
pub fn prepare(req: &ReleaseTrancheRequest, config: &Config, escrow: &EscrowUtxo) -> (plan: Option<Result<TranchePlan, BuildError>>)
    requires
        req.milestone_index < escrow.datum.tranche_bps@.len() ==> req.milestone_index < escrow.datum.approved@.len(),
    ensures
        plan_outcome(plan, release_plan(req@, config@, escrow@)),
{
    let index: usize = req.milestone_index as usize;
    if index >= escrow.datum.tranche_bps.len() {
        return Some(Err(BuildError::MilestoneOutOfRange));
    }
    if req.milestone_index as i64 != escrow.datum.released_count {
        return Some(Err(BuildError::OutOfSequence));
    }
    if !escrow.datum.approved[index] {
        return Some(Err(BuildError::NotApproved));
    }
    let request = TrancheRequest {
        milestone_index: req.milestone_index,
        submitter_address: &req.submitter_address,
        proposer_address: &req.proposer_address,
        fee_input: &req.fee_input,
        fee_input_lovelace: req.fee_input_lovelace,
        collateral: &req.collateral,
    };
    TranchePlan::new(&request, Redeemer::ReleaseTranche(req.milestone_index as i64), None, config, escrow)
}

/// A release is only for the milestone next in turn, and only once it is
/// approved.
pub proof fn lemma_release_follows_approval(
    req: TrancheRequestView,
    config: ConfigView,
    escrow: EscrowUtxoView,
    plan: TranchePlanView,
)
    requires
        release_plan(req, config, escrow) == Some(Ok::<TranchePlanView, BuildError>(plan)),
    ensures
        escrow.datum.approved[req.milestone_index as int],
        req.milestone_index == escrow.datum.released_count,
        req.milestone_index < escrow.datum.tranche_bps.len(),
        plan.redeemer == Redeemer::ReleaseTranche(req.milestone_index as i64),
{
}

/// A milestone that is not approved is not released; one that is approved and
/// next in turn is paid out as the request asks for, with the release's
/// redeemer, at any time.
pub proof fn lemma_release_is_a_payout(
    req: ReleaseTrancheRequest,
    payout: TrancheRequest<'_>,
    config: Config,
    escrow: EscrowUtxo,
)
    requires
        payout.milestone_index == req.milestone_index,
        payout.submitter_address@ == req.submitter_address@,
        payout.proposer_address@ == req.proposer_address@,
        *payout.fee_input == req.fee_input,
        payout.fee_input_lovelace == req.fee_input_lovelace,
        *payout.collateral == req.collateral,
    ensures
        ({
            let there = req.milestone_index < escrow.datum.tranche_bps@.len();
            let next = req.milestone_index == escrow.datum.released_count;
            let approved = escrow.datum.approved@[req.milestone_index as int];
            let planned = release_plan(req@, config@, escrow@);
            &&& !there ==> planned == Some(Err::<TranchePlanView, BuildError>(BuildError::MilestoneOutOfRange))
            &&& there && !next ==> planned == Some(Err::<TranchePlanView, BuildError>(BuildError::OutOfSequence))
            &&& there && next && !approved ==> planned == Some(Err::<TranchePlanView, BuildError>(BuildError::NotApproved))
            &&& there && next && approved ==> planned == payout@.plan(
                Redeemer::ReleaseTranche(req.milestone_index as i64),
                None,
                config@,
                escrow@,
            )
        }),
{
}

} // verus!
