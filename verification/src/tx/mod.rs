//! The transactions that an escrow goes through, and what building them has in
//! common.



pub mod approve;
pub mod claim_expired;
pub mod create_escrow;
pub mod release;
pub mod tranche;

use crate::address::AddressError;
use crate::blockfrost_client::{budget_for, RedeemerBudget};
use crate::datum::DatumError;
use crate::fees::{linear_fee, FeeError, VKEY_WITNESS_CBOR_BYTES};
use crate::hexadecimal::parse_hash32;
use crate::ledger::{ExUnits, TxInput};
use vstd::prelude::*;

verus! {

use crate::blockfrost_client::{budget_of, is_first_for};
use crate::hexadecimal::{hex_bytes, hex_text, is_hex, is_hex_of, lemma_hex_round_trip};
use crate::ledger::{is_walk, may_build, conway_tx, StagedTx, TxInputView, Walk};

/// An output on the chain, by the text of its transaction's hash.
#[derive(Debug, Clone, PartialEq, Eq)]
pub struct UtxoRef {
    pub tx_hash: String,
    pub output_index: u64,
}

/// What a [`UtxoRef`] holds.
pub struct UtxoRefView {
    pub tx_hash: Seq<char>,
    pub output_index: u64,
}

impl View for UtxoRef {
    type V = UtxoRefView;

    open spec fn view(&self) -> UtxoRefView {
        UtxoRefView { tx_hash: self.tx_hash@, output_index: self.output_index }
    }
}

impl UtxoRefView {
    /// The input that spends this output: the text must be the 64 digits of a
    /// transaction hash.
    pub open spec fn input(self) -> Option<TxInputView> {
        if is_hex_of(self.tx_hash, 32) {
            Some(TxInputView { tx_hash: hex_bytes(self.tx_hash), output_index: self.output_index })
        } else {
            None
        }
    }
}

impl UtxoRef {
    /// The input that spends this output.
    pub fn to_input(&self) -> (input: Result<TxInput, BuildError>)
        ensures
            match input {
                Ok(parsed) => self@.input() == Some(parsed@),
                Err(error) => self@.input() is None && error == BuildError::InvalidTxHash,
            },
    {
        match parse_hash32(&self.tx_hash) {
            Ok(tx_hash) => {
                let input = TxInput { tx_hash, output_index: self.output_index };
                assert(self@.input() == Some(input@));
                Ok(input)
            },
            Err(_) => Err(BuildError::InvalidTxHash),
        }
    }
}

/// Why a transaction is not built.
#[derive(Debug, Clone, Copy, PartialEq, Eq)]
pub enum BuildError {
    /// A grant without tranches.
    NoTranches,
    /// The tranches do not add up to the whole.
    TranchesNotWhole,
    /// Nothing would be locked.
    NothingLocked,
    /// An address is not usable.
    Address(AddressError),
    /// A datum or a redeemer could not be written.
    Datum(DatumError),
    /// A transaction hash is not 64 hexadecimal digits.
    InvalidTxHash,
    /// The receipt policy is not 56 hexadecimal digits.
    InvalidPolicyId,
    /// The escrow script is not hexadecimal text.
    InvalidEscrowCode,
    /// The receipt script is not hexadecimal text.
    InvalidReceiptCode,
    /// There is no such milestone.
    MilestoneOutOfRange,
    /// The milestone was approved before.
    AlreadyApproved,
    /// The milestone is not approved yet.
    NotApproved,
    /// An earlier milestone was not released yet, or this one was.
    OutOfSequence,
    /// The escrow has no review deadline.
    NoDeadline,
    /// The review deadline has not passed.
    DeadlineNotPassed,
    /// The address is not the funder's.
    ReviewerMismatch,
    /// The address is not the proposer's.
    ProposerMismatch,
    /// An output's least value is not known.
    MinUtxo(FeeError),
    /// The fee input does not pay for the receipt's output.
    ReceiptNotCovered { available: u64, receipt: u64 },
    /// The fee input does not pay for everything.
    NotCovered { available: u64, needed: u64, fee: u64 },
    /// The transaction could not be written.
    NotBuilt,
    /// No budget was given for spending the escrow.
    NoSpendBudget,
    /// No budget was given for minting the receipt.
    NoMintBudget,
}

/// The budget for a purpose, or the error that tells it is missing.
pub open spec fn budget_or(budgets: Seq<RedeemerBudget>, purpose: Seq<char>, missing: BuildError) -> Result<
    ExUnits,
    BuildError,
> {
    match budget_of(budgets, purpose) {
        Some(units) => Ok(units),
        None => Err(missing),
    }
}

/// The budget for spending the escrow.
pub fn spend_budget(budgets: &[RedeemerBudget]) -> (budget: Result<ExUnits, BuildError>)
    ensures
        match budget_of(budgets@, "spend"@) {
            Some(units) => budget == Ok::<ExUnits, BuildError>(units),
            None => budget == Err::<ExUnits, BuildError>(BuildError::NoSpendBudget),
        },
        budget == budget_or(budgets@, "spend"@, BuildError::NoSpendBudget),
{
    match budget_for(budgets, "spend") {
        Some(units) => Ok(units),
        None => Err(BuildError::NoSpendBudget),
    }
}

/// The budget for minting the receipt.
pub fn mint_budget(budgets: &[RedeemerBudget]) -> (budget: Result<ExUnits, BuildError>)
    ensures
        match budget_of(budgets@, "mint"@) {
            Some(units) => budget == Ok::<ExUnits, BuildError>(units),
            None => budget == Err::<ExUnits, BuildError>(BuildError::NoMintBudget),
        },
        budget == budget_or(budgets@, "mint"@, BuildError::NoMintBudget),
{
    match budget_for(budgets, "mint") {
        Some(units) => Ok(units),
        None => Err(BuildError::NoMintBudget),
    }
}

/// What comes of building: the bytes, or why there are none. `None` where an
/// amount would leave its range.
pub type Outcome = Option<Result<Seq<u8>, BuildError>>;

/// What came of building.
pub open spec fn outcome_of(built: Option<Result<Vec<u8>, BuildError>>) -> Outcome {
    match built {
        Some(Ok(bytes)) => Some(Ok(bytes@)),
        Some(Err(error)) => Some(Err(error)),
        None => None,
    }
}

/// What comes of the builder's answer.
pub open spec fn built_outcome(bytes: Option<Seq<u8>>) -> Outcome {
    match bytes {
        Some(written) => Some(Ok(written)),
        None => Some(Err(BuildError::NotBuilt)),
    }
}

/// A transaction that is complete but for its fee.
pub trait FeeDraft {
    /// What assembling relies on.
    spec fn ready(&self) -> bool;

    /// Whether `outcome` may come of assembling it with `fee`.
    spec fn gives(&self, fee: u64, outcome: Outcome) -> bool;

    /// The transaction with `fee`.
    fn assemble(&self, fee: u64) -> (built: Option<Result<Vec<u8>, BuildError>>)
        requires
            self.ready(),
        ensures
            self.gives(fee, outcome_of(built)),
    ;
}

/// The fee of a transaction of `size` bytes before it is signed, on top of
/// `base`; `None` where that leaves its range.
pub open spec fn fee_for(size: nat, base: u64, min_fee_a: u64, min_fee_b: u64) -> Option<u64> {
    let fee = min_fee_a * (size + VKEY_WITNESS_CBOR_BYTES) + min_fee_b + base;
    if size + VKEY_WITNESS_CBOR_BYTES <= usize::MAX && fee <= u64::MAX {
        Some(fee as u64)
    } else {
        None
    }
}

/// Whether `outcome` may come of settling the fee of `draft`: it is assembled
/// with `base` as its fee, then with the fee for the size that it has, and
/// once more if that changes the fee.
pub open spec fn settles<D: FeeDraft>(draft: D, base: u64, min_fee_a: u64, min_fee_b: u64, outcome: Outcome) -> bool {
    exists|first: Outcome| #[trigger]
        draft.gives(base, first) && match first {
            Some(Ok(bytes)) => match fee_for(bytes.len(), base, min_fee_a, min_fee_b) {
                Some(fee) => resettles(draft, base, fee, min_fee_a, min_fee_b, outcome),
                None => outcome is None,
            },
            _ => outcome == first,
        }
}

/// Whether `outcome` may come of assembling `draft` with `fee`, and once more
/// if its size asks for another.
pub open spec fn resettles<D: FeeDraft>(
    draft: D,
    base: u64,
    fee: u64,
    min_fee_a: u64,
    min_fee_b: u64,
    outcome: Outcome,
) -> bool {
    exists|second: Outcome| #[trigger]
        draft.gives(fee, second) && match second {
            Some(Ok(bytes)) => match fee_for(bytes.len(), base, min_fee_a, min_fee_b) {
                Some(last) => if last == fee {
                    outcome == second
                } else {
                    draft.gives(last, outcome)
                },
                None => outcome is None,
            },
            _ => outcome == second,
        }
}

/// What comes of settling the fee where assembling depends on the fee alone.
pub open spec fn settled(draft: spec_fn(u64) -> Outcome, base: u64, min_fee_a: u64, min_fee_b: u64) -> Outcome {
    match draft(base) {
        Some(Ok(bytes)) => match fee_for(bytes.len(), base, min_fee_a, min_fee_b) {
            Some(fee) => match draft(fee) {
                Some(Ok(again)) => match fee_for(again.len(), base, min_fee_a, min_fee_b) {
                    Some(last) => draft(last),
                    None => None,
                },
                other => other,
            },
            None => None,
        },
        other => other,
    }
}

/// The fee of a transaction of `size` bytes before it is signed, on top of
/// `base`.
fn checked_fee(size: usize, base: u64, min_fee_a: u64, min_fee_b: u64) -> (fee: Option<u64>)
    ensures
        fee == fee_for(size as nat, base, min_fee_a, min_fee_b),
{
    let signed: usize = match size.checked_add(VKEY_WITNESS_CBOR_BYTES as usize) {
        Some(signed) => signed,
        None => return None,
    };
    assert(min_fee_a * signed >= 0) by (nonlinear_arith);
    match min_fee_a.checked_mul(signed as u64) {
        Some(product) => match product.checked_add(min_fee_b) {
            Some(_) => {
                let linear: u64 = linear_fee(signed, min_fee_a, min_fee_b);
                linear.checked_add(base)
            },
            None => None,
        },
        None => None,
    }
}

/// The transaction with the fee that its own size asks for.
pub fn settle_fee<D: FeeDraft>(draft: &D, base: u64, min_fee_a: u64, min_fee_b: u64) -> (built: Option<Result<Vec<u8>, BuildError>>)
    requires
        draft.ready(),
    ensures
        settles(*draft, base, min_fee_a, min_fee_b, outcome_of(built)),
{
    let first = draft.assemble(base);
    let ghost first_outcome = outcome_of(first);
    assert(draft.gives(base, first_outcome));
    let first_bytes = match first {
        Some(Ok(bytes)) => bytes,
        other => return other,
    };
    let fee: u64 = match checked_fee(first_bytes.len(), base, min_fee_a, min_fee_b) {
        Some(fee) => fee,
        None => return None,
    };
    let second = draft.assemble(fee);
    let ghost second_outcome = outcome_of(second);
    assert(draft.gives(fee, second_outcome));
    let second_bytes = match second {
        Some(Ok(bytes)) => bytes,
        other => {
            assert(resettles(*draft, base, fee, min_fee_a, min_fee_b, second_outcome));
            return other;
        },
    };
    let last: u64 = match checked_fee(second_bytes.len(), base, min_fee_a, min_fee_b) {
        Some(last) => last,
        None => {
            assert(resettles(*draft, base, fee, min_fee_a, min_fee_b, None));
            return None;
        },
    };
    if last == fee {
        assert(resettles(*draft, base, fee, min_fee_a, min_fee_b, second_outcome));
        Some(Ok(second_bytes))
    } else {
        let third = draft.assemble(last);
        assert(resettles(*draft, base, fee, min_fee_a, min_fee_b, outcome_of(third)));
        third
    }
}

/// Where assembling depends on the fee alone, so does settling the fee.
pub(crate) proof fn lemma_settled<D: FeeDraft>(
    draft: D,
    built: spec_fn(u64) -> Outcome,
    base: u64,
    min_fee_a: u64,
    min_fee_b: u64,
    outcome: Outcome,
)
    requires
        settles(draft, base, min_fee_a, min_fee_b, outcome),
        forall|fee: u64, given: Outcome| #[trigger] draft.gives(fee, given) ==> given == built(fee),
    ensures
        outcome == settled(built, base, min_fee_a, min_fee_b),
{
}

/// A transaction whose fee was settled is one that was assembled, and its fee
/// is the one for the size that it had with a fee settled just before.
pub proof fn lemma_settled_fee_follows_size(
    draft: spec_fn(u64) -> Outcome,
    base: u64,
    min_fee_a: u64,
    min_fee_b: u64,
    bytes: Seq<u8>,
)
    requires
        settled(draft, base, min_fee_a, min_fee_b) == Some(Ok::<Seq<u8>, BuildError>(bytes)),
    ensures
        exists|before: u64, fee: u64|
            (#[trigger] draft(before) matches Some(Ok(sized)) && fee_for(sized.len(), base, min_fee_a, min_fee_b) == Some(
                fee,
            )) && #[trigger] draft(fee) == Some(Ok::<Seq<u8>, BuildError>(bytes)),
{
    let first = draft(base)->0->Ok_0;
    let fee = fee_for(first.len(), base, min_fee_a, min_fee_b)->0;
    let second = draft(fee)->0->Ok_0;
    let last = fee_for(second.len(), base, min_fee_a, min_fee_b)->0;
    assert(draft(last) == Some(Ok::<Seq<u8>, BuildError>(bytes)));
}

/// A transaction with at most one script and at most one redeemer is written
/// in one way only.
pub(crate) proof fn lemma_one_walk(tx: StagedTx, walk: Walk, bytes: Option<Seq<u8>>)
    requires
        may_build(tx, bytes),
        walk.scripts.len() <= 1,
        walk.redeemers.len() <= 1,
        walk.covers(tx),
    ensures
        bytes == conway_tx(tx, walk),
{
    let other = choose|other: Walk| other.gives(tx, #[trigger] conway_tx(tx, other), bytes);
    lemma_same_walk(tx.scripts, walk.scripts, other.scripts);
    lemma_same_walk(tx.redeemers, walk.redeemers, other.redeemers);
    assert(other == walk);
}

/// A map with at most one key is walked in one way only.
proof fn lemma_same_walk<K, V>(map: Map<K, V>, one: Seq<K>, other: Seq<K>)
    requires
        is_walk(map, one),
        is_walk(map, other),
        one.len() <= 1,
    ensures
        one == other,
{
    one.unique_seq_to_set();
    other.unique_seq_to_set();
    assert(one.len() == other.len());
    if one.len() == 1 {
        assert(one.to_set().contains(one[0]));
        assert(other.to_set().contains(one[0]));
        assert(other[0] == one[0]);
    }
    assert(one =~= other);
}

/// An output is named by the 64 digits of its transaction's hash and by its
/// index: the input that spends it is in the transaction whose hash the digits
/// write, at that index. Any other text names none.
pub proof fn lemma_input_of_ref(utxo: UtxoRef, tx_hash: Seq<u8>)
    ensures
        utxo@.input() is Some <==> utxo.tx_hash@.len() == 64 && is_hex(utxo.tx_hash@),
        utxo@.input() matches Some(input) ==> input.tx_hash == hex_bytes(utxo.tx_hash@) && input.output_index
            == utxo.output_index,
        utxo.tx_hash@ == hex_text(tx_hash) && tx_hash.len() == 32 ==> (utxo@.input() matches Some(input)
            && input.tx_hash == tx_hash),
{
    lemma_hex_round_trip(tx_hash);
}

/// What came of building is its bytes or its error; what the builder gives is
/// its bytes, or that nothing was built.
pub proof fn lemma_outcomes(built: Option<Result<Vec<u8>, BuildError>>, bytes: Option<Seq<u8>>)
    ensures
        match built {
            Some(Ok(written)) => outcome_of(built) == Some(Ok::<Seq<u8>, BuildError>(written@)),
            Some(Err(error)) => outcome_of(built) == Some(Err::<Seq<u8>, BuildError>(error)),
            None => outcome_of(built) is None,
        },
        bytes matches Some(written) ==> built_outcome(bytes) == Some(Ok::<Seq<u8>, BuildError>(written)),
        bytes is None ==> built_outcome(bytes) == Some(Err::<Seq<u8>, BuildError>(BuildError::NotBuilt)),
{
}

/// A transaction pays for each of its bytes and for the 108 of its signature,
/// beside what is asked of every transaction and the base. There is no fee
/// exactly where that is more than its range.
pub proof fn lemma_fee_pays_for_each_byte(size: nat, base: u64, min_fee_a: u64, min_fee_b: u64)
    ensures
        ({
            let fee = min_fee_a * size + min_fee_a * 108 + min_fee_b + base;
            match fee_for(size, base, min_fee_a, min_fee_b) {
                Some(paid) => paid == fee && size + 108 <= usize::MAX,
                None => fee > 0xffff_ffff_ffff_ffff || size + 108 > usize::MAX,
            }
        }),
{
    assert(min_fee_a * (size + 108) == min_fee_a * size + min_fee_a * 108) by (nonlinear_arith);
    assert(min_fee_a * (size + 108) >= 0) by (nonlinear_arith);
}

/// Settling the fee assembles the transaction with the base as its fee, then
/// with the fee for its size, and then with the fee for the size that it has
/// then. Where the size does not change any more, the fee that it carries is
/// the one for its own size.
pub proof fn lemma_settling_follows_sizes(
    draft: spec_fn(u64) -> Outcome,
    base: u64,
    min_fee_a: u64,
    min_fee_b: u64,
    first: Seq<u8>,
    fee: u64,
    second: Seq<u8>,
    last: u64,
)
    requires
        draft(base) == Some(Ok::<Seq<u8>, BuildError>(first)),
        first.len() + 108 <= usize::MAX,
        fee == min_fee_a * (first.len() + 108) + min_fee_b + base,
        draft(fee) == Some(Ok::<Seq<u8>, BuildError>(second)),
        second.len() + 108 <= usize::MAX,
        last == min_fee_a * (second.len() + 108) + min_fee_b + base,
    ensures
        settled(draft, base, min_fee_a, min_fee_b) == draft(last),
        settled(draft, base, min_fee_a, min_fee_b) matches Some(Ok(bytes)) ==> (bytes.len() == second.len() ==> last
            == min_fee_a * (bytes.len() + 108) + min_fee_b + base),
{
}

/// A transaction that cannot be assembled with the base as its fee, or with
/// the fee for its size, is not settled, for the same reason; one whose fee
/// leaves its range gives nothing.
pub proof fn lemma_settling_passes_refusals_on(
    draft: spec_fn(u64) -> Outcome,
    base: u64,
    min_fee_a: u64,
    min_fee_b: u64,
    first: Seq<u8>,
    fee: u64,
)
    ensures
        !(draft(base) matches Some(Ok(_))) ==> settled(draft, base, min_fee_a, min_fee_b) == draft(base),
        draft(base) == Some(Ok::<Seq<u8>, BuildError>(first)) && min_fee_a * (first.len() + 108) + min_fee_b + base
            > 0xffff_ffff_ffff_ffff ==> settled(draft, base, min_fee_a, min_fee_b) is None,
        draft(base) == Some(Ok::<Seq<u8>, BuildError>(first)) && first.len() + 108 <= usize::MAX && fee == min_fee_a * (
        first.len() + 108) + min_fee_b + base && !(draft(fee) matches Some(Ok(_))) ==> settled(
            draft,
            base,
            min_fee_a,
            min_fee_b,
        ) == draft(fee),
{
}

/// Where assembling may have several outcomes, a transaction whose fee was
/// settled is one that may come of assembling it, with the fee for the size
/// that it may have had with a fee before that; a refusal is one that may come
/// of assembling it.
pub proof fn lemma_settles_follows_sizes<D: FeeDraft>(
    draft: D,
    base: u64,
    min_fee_a: u64,
    min_fee_b: u64,
    outcome: Outcome,
)
    requires
        settles(draft, base, min_fee_a, min_fee_b, outcome),
    ensures
        outcome matches Some(Ok(bytes)) ==> exists|before: u64, sized: Seq<u8>, fee: u64|
            #[trigger] draft.gives(before, Some(Ok::<Seq<u8>, BuildError>(sized))) && fee == min_fee_a * (sized.len()
                + 108) + min_fee_b + base && #[trigger] draft.gives(fee, outcome),
        outcome matches Some(Err(_)) ==> exists|fee: u64| #[trigger] draft.gives(fee, outcome),
        outcome is None ==> (exists|fee: u64| #[trigger] draft.gives(fee, outcome)) || (exists|
            fee: u64,
            sized: Seq<u8>,
        |
            #[trigger] draft.gives(fee, Some(Ok::<Seq<u8>, BuildError>(sized))) && (min_fee_a * (sized.len() + 108)
                + min_fee_b + base > 0xffff_ffff_ffff_ffff || sized.len() + 108 > usize::MAX)),
{
    let first = choose|first: Outcome| #[trigger]
        draft.gives(base, first) && match first {
            Some(Ok(bytes)) => match fee_for(bytes.len(), base, min_fee_a, min_fee_b) {
                Some(fee) => resettles(draft, base, fee, min_fee_a, min_fee_b, outcome),
                None => outcome is None,
            },
            _ => outcome == first,
        };
    if let Some(Ok(bytes)) = first {
        assert(draft.gives(base, Some(Ok::<Seq<u8>, BuildError>(bytes))));
        if let Some(fee) = fee_for(bytes.len(), base, min_fee_a, min_fee_b) {
            let second = choose|second: Outcome| #[trigger]
                draft.gives(fee, second) && match second {
                    Some(Ok(bytes)) => match fee_for(bytes.len(), base, min_fee_a, min_fee_b) {
                        Some(last) => if last == fee {
                            outcome == second
                        } else {
                            draft.gives(last, outcome)
                        },
                        None => outcome is None,
                    },
                    _ => outcome == second,
                };
            assert(draft.gives(fee, second));
            if let Some(Ok(again)) = second {
                assert(draft.gives(fee, Some(Ok::<Seq<u8>, BuildError>(again))));
            }
        }
    }
}

/// The budget for a purpose is the first one given under its name, whatever
/// else is given.
pub proof fn lemma_first_budget_counts(
    budgets: Seq<RedeemerBudget>,
    purpose: Seq<char>,
    place: int,
    missing: BuildError,
)
    requires
        0 <= place < budgets.len(),
        budgets[place].purpose@ == purpose,
        forall|i: int| 0 <= i < place ==> (#[trigger] budgets[i]).purpose@ != purpose,
    ensures
        budget_of(budgets, purpose) == Some(ExUnits { mem: budgets[place].mem, steps: budgets[place].steps }),
        budget_or(budgets, purpose, missing) == Ok::<ExUnits, BuildError>(
            ExUnits { mem: budgets[place].mem, steps: budgets[place].steps },
        ),
{
    assert(is_first_for(budgets, purpose, place));
    let chosen = choose|chosen: int| is_first_for(budgets, purpose, chosen);
    if chosen < place {
        assert(budgets[chosen].purpose@ != purpose);
    }
    if place < chosen {
        assert(budgets[place].purpose@ != purpose);
    }
}

/// There is no budget for a purpose that none is given for.
pub proof fn lemma_no_budget(budgets: Seq<RedeemerBudget>, purpose: Seq<char>, missing: BuildError)
    requires
        forall|i: int| 0 <= i < budgets.len() ==> (#[trigger] budgets[i]).purpose@ != purpose,
    ensures
        budget_of(budgets, purpose) is None,
        budget_or(budgets, purpose, missing) == Err::<ExUnits, BuildError>(missing),
{
}

} // verus!
