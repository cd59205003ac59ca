//! What is read from the chain through Blockfrost: grants at an address, the
//! transactions of a grant, fee parameters and script budgets.

use crate::datum::{Datum, DatumError};
use crate::json::json_ints;
use crate::ledger::ExUnits;
use crate::text::{has_prefix, parse_number, same_text};
use serde_json::Value;
use vstd::prelude::*;

verus! {

use crate::datum::{inline_datum_of, lemma_inline_datum_round_trip, DatumView};
use crate::hexadecimal::hex_text;
use crate::json::{int_list, is_int_list, json_tree, JsonTree};
use crate::plutus::plutus_from_cbor;
use crate::text::{begins_with, lemma_begins_with, number_of};

/// A grant in an output at the escrow's address.
#[derive(Debug, Clone, PartialEq, Eq)]
pub struct EscrowUtxo {
    pub tx_hash: String,
    pub output_index: u64,
    pub lovelace: u64,
    pub datum: Datum,
}

/// What an [`EscrowUtxo`] holds.
#[verifier::ext_equal]
pub struct EscrowUtxoView {
    pub tx_hash: Seq<char>,
    pub output_index: u64,
    pub lovelace: u64,
    pub datum: DatumView,
}

impl View for EscrowUtxo {
    type V = EscrowUtxoView;

    open spec fn view(&self) -> EscrowUtxoView {
        EscrowUtxoView {
            tx_hash: self.tx_hash@,
            output_index: self.output_index,
            lovelace: self.lovelace,
            datum: self.datum@,
        }
    }
}

impl EscrowUtxoView {
    /// Whether this is the output that a hash and an index name.
    pub open spec fn is_at(self, tx_hash: Seq<char>, output_index: u64) -> bool {
        self.tx_hash == tx_hash && self.output_index == output_index
    }
}

/// What some grants hold.
pub open spec fn grant_views(grants: Seq<EscrowUtxo>) -> Seq<EscrowUtxoView> {
    Seq::new(grants.len(), |i: int| grants[i]@)
}

/// A transaction, by its hash and its block.
#[derive(Debug, Clone, PartialEq, Eq)]
pub struct TxSummary {
    pub tx_hash: String,
    pub block_time: u64,
    pub block_height: u64,
}

/// What a [`TxSummary`] holds.
#[verifier::ext_equal]
pub struct TxSummaryView {
    pub tx_hash: Seq<char>,
    pub block_time: u64,
    pub block_height: u64,
}

impl View for TxSummary {
    type V = TxSummaryView;

    open spec fn view(&self) -> TxSummaryView {
        TxSummaryView { tx_hash: self.tx_hash@, block_time: self.block_time, block_height: self.block_height }
    }
}

/// What some transactions hold.
pub open spec fn summary_views(summaries: Seq<TxSummary>) -> Seq<TxSummaryView> {
    Seq::new(summaries.len(), |i: int| summaries[i]@)
}

/// A transaction as the chain's index gives it.
pub open spec fn summary_of(tx_hash: Seq<char>, block_time: i32, block_height: i32) -> TxSummaryView {
    TxSummaryView { tx_hash, block_time: block_time as u64, block_height: block_height as u64 }
}

impl TxSummary {
    /// A transaction as the chain's index gives it.
    pub fn from_index(tx_hash: String, block_time: i32, block_height: i32) -> (summary: TxSummary)
        ensures
            summary@ == (TxSummaryView {
                tx_hash: tx_hash@,
                block_time: block_time as u64,
                block_height: block_height as u64,
            }),
            summary@ == summary_of(tx_hash@, block_time, block_height),
    {
        TxSummary { tx_hash, block_time: block_time as u64, block_height: block_height as u64 }
    }

    fn copied(&self) -> (copy: TxSummary)
        ensures
            copy@ == self@,
    {
        TxSummary { tx_hash: self.tx_hash.clone(), block_time: self.block_time, block_height: self.block_height }
    }
}

/// The grant in the output that a hash and an index name: the first, if there
/// are several.
pub fn find_by_outref<'a>(grants: &'a [EscrowUtxo], tx_hash: &str, output_index: u64) -> (found: Option<&'a EscrowUtxo>)
    ensures
        match found {
            Some(grant) => exists|place: int|
                0 <= place < grants@.len() && #[trigger] grants@[place] == *grant && grants@[place]@.is_at(
                    tx_hash@,
                    output_index,
                ) && forall|i: int| 0 <= i < place ==> !(#[trigger] grants@[i])@.is_at(tx_hash@, output_index),
            None => forall|i: int| 0 <= i < grants@.len() ==> !(#[trigger] grants@[i])@.is_at(tx_hash@, output_index),
        },
{
    for i in 0..grants.len()
        invariant
            forall|j: int| 0 <= j < i ==> !(#[trigger] grants@[j])@.is_at(tx_hash@, output_index),
    {
        let grant = &grants[i];
        if grant.output_index == output_index && same_text(&grant.tx_hash, tx_hash) {
            assert(grants@[i as int] == *grant);
            return Some(grant);
        }
    }
    None
}

/// Part of what an output holds.
#[derive(Debug, Clone, PartialEq, Eq)]
pub struct Amount {
    pub unit: String,
    pub quantity: String,
}

/// An unspent output at an address.
#[derive(Debug, Clone, PartialEq, Eq)]
pub struct AddressUtxo {
    pub tx_hash: String,
    pub output_index: i32,
    pub amount: Vec<Amount>,
    pub inline_datum: Option<String>,
}

/// Why an output is no grant that can be read.
#[derive(Debug, Clone, Copy, PartialEq, Eq)]
pub enum GrantReadError {
    /// Its datum cannot be read.
    Datum(DatumError),
    /// It holds no lovelace.
    NoLovelace,
    /// Its lovelace is no number.
    InvalidLovelace,
}

/// Whether `place` is the first amount of lovelace.
pub open spec fn is_first_lovelace(amount: Seq<Amount>, place: int) -> bool {
    &&& 0 <= place < amount.len()
    &&& amount[place].unit@ == "lovelace"@
    &&& forall|i: int| 0 <= i < place ==> (#[trigger] amount[i]).unit@ != "lovelace"@
}

/// The lovelace that some amounts hold: what the first of that unit says.
pub open spec fn lovelace_of(amount: Seq<Amount>) -> Result<u64, GrantReadError> {
    if exists|place: int| is_first_lovelace(amount, place) {
        match number_of(amount[choose|place: int| is_first_lovelace(amount, place)].quantity@) {
            Some(lovelace) => Ok(lovelace),
            None => Err(GrantReadError::InvalidLovelace),
        }
    } else {
        Err(GrantReadError::NoLovelace)
    }
}

/// The grant in an output with a datum.
pub open spec fn grant_of(utxo: AddressUtxo, inline_datum: Seq<char>) -> Result<EscrowUtxoView, GrantReadError> {
    match (inline_datum_of(inline_datum), lovelace_of(utxo.amount@)) {
        (Err(error), _) => Err(GrantReadError::Datum(error)),
        (_, Err(error)) => Err(error),
        (Ok(datum), Ok(lovelace)) => Ok(
            EscrowUtxoView { tx_hash: utxo.tx_hash@, output_index: utxo.output_index as u64, lovelace, datum },
        ),
    }
}

/// The grants in some outputs: those with a datum, in their order. One that
/// cannot be read spoils the whole.
pub open spec fn grants_of(utxos: Seq<AddressUtxo>) -> Result<Seq<EscrowUtxoView>, GrantReadError>
    decreases utxos.len(),
{
    if utxos.len() == 0 {
        Ok(seq![])
    } else {
        match grants_of(utxos.drop_last()) {
            Err(error) => Err(error),
            Ok(grants) => match utxos.last().inline_datum {
                None => Ok(grants),
                Some(inline_datum) => match grant_of(utxos.last(), inline_datum@) {
                    Err(error) => Err(error),
                    Ok(grant) => Ok(grants.push(grant)),
                },
            },
        }
    }
}

/// What spoils the first outputs spoils them all.
proof fn lemma_unreadable_prefix(utxos: Seq<AddressUtxo>, count: int, error: GrantReadError)
    requires
        0 <= count <= utxos.len(),
        grants_of(utxos.take(count)) == Err::<Seq<EscrowUtxoView>, GrantReadError>(error),
    ensures
        grants_of(utxos) == Err::<Seq<EscrowUtxoView>, GrantReadError>(error),
    decreases utxos.len() - count,
{
    if count < utxos.len() {
        assert(utxos.take(count + 1).drop_last() =~= utxos.take(count));
        lemma_unreadable_prefix(utxos, count + 1, error);
    } else {
        assert(utxos.take(count) =~= utxos);
    }
}

/// The lovelace that some amounts hold.
fn read_lovelace(amount: &Vec<Amount>) -> (lovelace: Result<u64, GrantReadError>)
    ensures
        lovelace == lovelace_of(amount@),
{
    for i in 0..amount.len()
        invariant
            forall|j: int| 0 <= j < i ==> (#[trigger] amount@[j]).unit@ != "lovelace"@,
    {
        if same_text(&amount[i].unit, "lovelace") {
            assert(is_first_lovelace(amount@, i as int));
            proof {
                let place = choose|place: int| is_first_lovelace(amount@, place);
                if place < i {
                    assert(amount@[place].unit@ != "lovelace"@);
                }
                if i < place {
                    assert(amount@[i as int].unit@ != "lovelace"@);
                }
            }
            return match parse_number(&amount[i].quantity) {
                Some(number) => Ok(number),
                None => Err(GrantReadError::InvalidLovelace),
            };
        }
    }
    Err(GrantReadError::NoLovelace)
}

/// The grants in some outputs.
pub fn read_grants(utxos: &[AddressUtxo]) -> (grants: Result<Vec<EscrowUtxo>, GrantReadError>)
    ensures
        match grants {
            Ok(read) => grants_of(utxos@) == Ok::<Seq<EscrowUtxoView>, GrantReadError>(grant_views(read@)),
            Err(error) => grants_of(utxos@) == Err::<Seq<EscrowUtxoView>, GrantReadError>(error),
        },
{
    let mut grants: Vec<EscrowUtxo> = Vec::new();
    assert(grant_views(grants@) =~= seq![]);
    for i in 0..utxos.len()
        invariant
            grants_of(utxos@.take(i as int)) == Ok::<Seq<EscrowUtxoView>, GrantReadError>(grant_views(grants@)),
    {
        assert(utxos@.take(i + 1).drop_last() =~= utxos@.take(i as int));
        match &utxos[i].inline_datum {
            Some(inline_datum) => {
                let datum = match Datum::from_inline_datum_hex(inline_datum) {
                    Ok(datum) => datum,
                    Err(error) => {
                        proof {
                            lemma_unreadable_prefix(utxos@, i + 1, GrantReadError::Datum(error));
                        }
                        return Err(GrantReadError::Datum(error));
                    },
                };
                let lovelace: u64 = match read_lovelace(&utxos[i].amount) {
                    Ok(lovelace) => lovelace,
                    Err(error) => {
                        proof {
                            lemma_unreadable_prefix(utxos@, i + 1, error);
                        }
                        return Err(error);
                    },
                };
                let ghost before = grant_views(grants@);
                let grant = EscrowUtxo {
                    tx_hash: utxos[i].tx_hash.clone(),
                    output_index: utxos[i].output_index as u64,
                    lovelace,
                    datum,
                };
                let ghost view = grant@;
                grants.push(grant);
                assert(grant_views(grants@) =~= before.push(view));
            },
            None => {},
        }
    }
    assert(utxos@.take(utxos@.len() as int) =~= utxos@);
    Ok(grants)
}

/// An input or an output of a transaction.
#[derive(Debug, Clone, PartialEq, Eq)]
pub struct TxSide {
    pub address: String,
    pub inline_datum: Option<String>,
}

/// Whether an input or an output at an address holds a grant.
pub open spec fn side_holds(side: TxSide, address: Seq<char>, grant_id: Seq<char>) -> bool {
    &&& side.address@ == address
    &&& side.inline_datum matches Some(inline_datum) && inline_datum_of(inline_datum@) matches Ok(datum)
        && datum.grant_id() == grant_id
}

/// Whether a transaction with some inputs and outputs is one of a grant at an
/// address.
pub open spec fn sides_hold(sides: Seq<TxSide>, address: Seq<char>, grant_id: Seq<char>) -> bool {
    exists|i: int| 0 <= i < sides.len() && side_holds(#[trigger] sides[i], address, grant_id)
}

/// Whether a transaction with some inputs and outputs is one of a grant at an
/// address.
pub fn belongs_to_grant(sides: &[TxSide], address: &str, grant_id: &str) -> (belongs: bool)
    ensures
        belongs == sides_hold(sides@, address@, grant_id@),
{
    for i in 0..sides.len()
        invariant
            forall|j: int| 0 <= j < i ==> !side_holds(#[trigger] sides@[j], address@, grant_id@),
    {
        if same_text(&sides[i].address, address) {
            match &sides[i].inline_datum {
                Some(inline_datum) => match Datum::from_inline_datum_hex(inline_datum) {
                    Ok(datum) => {
                        if same_text(&datum.grant_id(), grant_id) {
                            assert(side_holds(sides@[i as int], address@, grant_id@));
                            return true;
                        }
                    },
                    Err(_) => {},
                },
                None => {},
            }
        }
    }
    false
}

/// Those of some transactions that were answered with yes.
pub open spec fn picked(candidates: Seq<TxSummaryView>, answers: Seq<bool>) -> Seq<TxSummaryView>
    decreases answers.len(),
{
    if answers.len() == 0 {
        seq![]
    } else {
        let before = picked(candidates, answers.drop_last());
        if answers.last() {
            before.push(candidates[answers.len() - 1])
        } else {
            before
        }
    }
}

/// The first of some transactions, or all of them where there are fewer.
pub open spec fn first_of(summaries: Seq<TxSummaryView>, count: nat) -> Seq<TxSummaryView> {
    if summaries.len() <= count {
        summaries
    } else {
        summaries.take(count as int)
    }
}

/// A search for the transactions of a grant: the candidates are looked at in
/// their order, until enough of them are the grant's.
pub struct GrantScan {
    address: String,
    grant_id: String,
    candidates: Vec<TxSummary>,
    next: usize,
    matched: Vec<TxSummary>,
    count: usize,
    answers: Ghost<Seq<bool>>,
}

/// What a [`GrantScan`] holds: the candidates, and for those looked at so far
/// whether they are the grant's.
#[verifier::ext_equal]
pub struct GrantScanView {
    pub address: Seq<char>,
    pub grant_id: Seq<char>,
    pub candidates: Seq<TxSummaryView>,
    pub answers: Seq<bool>,
    pub count: nat,
}

impl View for GrantScan {
    type V = GrantScanView;

    closed spec fn view(&self) -> GrantScanView {
        GrantScanView {
            address: self.address@,
            grant_id: self.grant_id@,
            candidates: summary_views(self.candidates@),
            answers: self.answers@,
            count: self.count as nat,
        }
    }
}

impl GrantScanView {
    /// The grant's transactions so far.
    pub open spec fn matched(self) -> Seq<TxSummaryView> {
        picked(self.candidates, self.answers)
    }

    /// Whether no more was found than was asked for.
    pub open spec fn bounded(self) -> bool {
        self.matched().len() <= self.count
    }

    /// Whether the search is over.
    pub open spec fn is_over(self) -> bool {
        self.matched().len() >= self.count || self.answers.len() >= self.candidates.len()
    }
}

impl GrantScan {
    /// Whether what was matched is what the answers pick.
    pub closed spec fn wf(self) -> bool {
        &&& self.answers@.len() == self.next <= self.candidates@.len()
        &&& summary_views(self.matched@) == picked(summary_views(self.candidates@), self.answers@)
    }

    /// A search among some candidates that has not begun.
    pub fn new(address: String, target: &Datum, candidates: Vec<TxSummary>, count: usize) -> (scan: GrantScan)
        ensures
            scan.wf(),
            scan@.bounded(),
            scan@ == (GrantScanView {
                address: address@,
                grant_id: target@.grant_id(),
                candidates: summary_views(candidates@),
                answers: seq![],
                count: count as nat,
            }),
    {
        let scan = GrantScan {
            address,
            grant_id: target.grant_id(),
            candidates,
            next: 0,
            matched: Vec::new(),
            count,
            answers: Ghost(Seq::empty()),
        };
        assert(summary_views(scan.matched@) =~= seq![]);
        scan
    }

    /// The hash of the transaction to look at, or `None` where the search is
    /// over.
    pub fn next_candidate(&self) -> (tx_hash: Option<String>)
        requires
            self.wf(),
        ensures
            match tx_hash {
                Some(hash) => !self@.is_over() && hash@ == self@.candidates[self@.answers.len() as int].tx_hash,
                None => self@.is_over(),
            },
    {
        assert(summary_views(self.matched@).len() == self.matched@.len());
        if self.matched.len() >= self.count || self.next >= self.candidates.len() {
            None
        } else {
            Some(self.candidates[self.next].tx_hash.clone())
        }
    }

    /// Takes the inputs and outputs of the transaction that was looked at.
    pub fn answer(&mut self, sides: &[TxSide])
        requires
            old(self).wf(),
            !old(self)@.is_over(),
        ensures
            final(self).wf(),
            final(self)@.bounded(),
            final(self)@ == (GrantScanView {
                answers: old(self)@.answers.push(sides_hold(sides@, old(self)@.address, old(self)@.grant_id)),
                ..old(self)@
            }),
    {
        let ghost candidates = summary_views(self.candidates@);
        let ghost before = summary_views(self.matched@);
        let ghost answers = self.answers@;
        assert(self.next < self.candidates.len());
        let belongs: bool = belongs_to_grant(sides, &self.address, &self.grant_id);
        if belongs {
            self.matched.push(self.candidates[self.next].copied());
            assert(summary_views(self.matched@) =~= before.push(candidates[answers.len() as int]));
        }
        self.next = self.next + 1;
        self.answers = Ghost(answers.push(belongs));
        assert(self.answers@.drop_last() =~= answers);
    }

    /// The grant's transactions that were found.
    pub fn into_matched(self) -> (matched: Vec<TxSummary>)
        requires
            self.wf(),
        ensures
            summary_views(matched@) == self@.matched(),
    {
        self.matched
    }
}

/// The matches so far are the first of those that all answers pick.
proof fn lemma_picked_prefix(candidates: Seq<TxSummaryView>, answers: Seq<bool>, count: int)
    requires
        0 <= count <= answers.len(),
    ensures
        picked(candidates, answers.take(count)).len() <= picked(candidates, answers).len(),
        picked(candidates, answers).take(picked(candidates, answers.take(count)).len() as int) == picked(
            candidates,
            answers.take(count),
        ),
    decreases answers.len(),
{
    let first = picked(candidates, answers.take(count));
    if count < answers.len() {
        let before = picked(candidates, answers.drop_last());
        lemma_picked_prefix(candidates, answers.drop_last(), count);
        assert(answers.drop_last().take(count) =~= answers.take(count));
        assert(picked(candidates, answers).take(first.len() as int) =~= before.take(first.len() as int));
    } else {
        assert(answers.take(count) =~= answers);
        assert(first.take(first.len() as int) =~= first);
    }
}

/// A search that is over has found the first of the candidates that belong to
/// the grant, in their order: all of them, or as many as were asked for.
/// `belongs` says of each candidate whether it does, and the answers so far
/// are what it says.
pub proof fn lemma_finished_scan(scan: GrantScanView, belongs: Seq<bool>)
    requires
        belongs.len() == scan.candidates.len(),
        scan.answers.len() <= belongs.len(),
        scan.answers == belongs.take(scan.answers.len() as int),
        scan.bounded(),
        scan.is_over(),
    ensures
        scan.matched() == first_of(picked(scan.candidates, belongs), scan.count),
{
    let all = picked(scan.candidates, belongs);
    lemma_picked_prefix(scan.candidates, belongs, scan.answers.len() as int);
    if scan.answers.len() >= scan.candidates.len() {
        assert(scan.answers =~= belongs);
    }
    assert(all.take(all.len() as int) =~= all);
}

/// The cost models of an epoch.
pub struct CostModels {
    /// The one of Plutus V3.
    pub plutus_v3: Option<Value>,
}

/// The parameters of an epoch, as the chain's index gives them.
pub struct EpochParams {
    pub min_fee_a: i32,
    pub min_fee_b: i32,
    pub cost_models: Option<CostModels>,
    /// Whether the price of a unit of memory is given.
    pub has_price_mem: bool,
    /// Whether the price of a step is given.
    pub has_price_step: bool,
    pub coins_per_utxo_size: Option<String>,
}

/// The parameters that building depends on.
#[derive(Debug, Clone, PartialEq, Eq)]
pub struct LedgerParams {
    pub min_fee_a: u64,
    pub min_fee_b: u64,
    pub plutus_v3_cost_model: Vec<i64>,
    pub coins_per_utxo_byte: u64,
}

/// Why an epoch's parameters cannot be used.
#[derive(Debug, Clone, Copy, PartialEq, Eq, Structural)]
pub enum ParamsError {
    /// There are no cost models.
    NoCostModels,
    /// There is no cost model of Plutus V3.
    NoPlutusV3,
    /// The cost model of Plutus V3 is no list of integers.
    InvalidPlutusV3,
    /// There is no price of a unit of memory.
    NoPriceMem,
    /// There is no price of a step.
    NoPriceStep,
    /// There is no price of a byte.
    NoCoinsPerUtxoSize,
    /// The price of a byte is no number.
    InvalidCoinsPerUtxoSize,
}

/// The cost model of Plutus V3.
pub open spec fn cost_model_of(cost_models: Option<CostModels>) -> Result<Seq<i64>, ParamsError> {
    match cost_models {
        None => Err(ParamsError::NoCostModels),
        Some(models) => match models.plutus_v3 {
            None => Err(ParamsError::NoPlutusV3),
            Some(model) => if is_int_list(json_tree(model)) {
                Ok(int_list(json_tree(model)))
            } else {
                Err(ParamsError::InvalidPlutusV3)
            },
        },
    }
}

/// The price of a byte of an output.
pub open spec fn byte_price(coins_per_utxo_size: Option<String>) -> Result<u64, ParamsError> {
    match coins_per_utxo_size {
        None => Err(ParamsError::NoCoinsPerUtxoSize),
        Some(text) => match number_of(text@) {
            Some(price) => Ok(price),
            None => Err(ParamsError::InvalidCoinsPerUtxoSize),
        },
    }
}

/// The cost model and the price of a byte, or the first thing that is missing
/// or cannot be read.
pub open spec fn usable_params(params: EpochParams) -> Result<(Seq<i64>, u64), ParamsError> {
    match (cost_model_of(params.cost_models), byte_price(params.coins_per_utxo_size)) {
        (Err(error), _) => Err(error),
        (Ok(_), _) if !params.has_price_mem => Err(ParamsError::NoPriceMem),
        (Ok(_), _) if !params.has_price_step => Err(ParamsError::NoPriceStep),
        (Ok(_), Err(error)) => Err(error),
        (Ok(model), Ok(price)) => Ok((model, price)),
    }
}

/// What a byte and a transaction cost.
pub open spec fn fees_of(params: EpochParams) -> (u64, u64) {
    (params.min_fee_a as u64, params.min_fee_b as u64)
}

impl LedgerParams {
    /// The parameters that an epoch's make up.
    pub fn from_epoch(params: &EpochParams) -> (made: Result<LedgerParams, ParamsError>)
        ensures
            match made {
                Ok(ledger) => usable_params(*params) == Ok::<(Seq<i64>, u64), ParamsError>(
                    (ledger.plutus_v3_cost_model@, ledger.coins_per_utxo_byte),
                ) && ledger.min_fee_a == params.min_fee_a as u64 && ledger.min_fee_b == params.min_fee_b as u64
                    && fees_of(*params) == (ledger.min_fee_a, ledger.min_fee_b),
                Err(error) => usable_params(*params) == Err::<(Seq<i64>, u64), ParamsError>(error),
            },
    {
        let plutus_v3_cost_model = match &params.cost_models {
            None => return Err(ParamsError::NoCostModels),
            Some(models) => match &models.plutus_v3 {
                None => return Err(ParamsError::NoPlutusV3),
                Some(model) => match json_ints(model) {
                    Ok(ints) => ints,
                    Err(_) => return Err(ParamsError::InvalidPlutusV3),
                },
            },
        };
        if !params.has_price_mem {
            return Err(ParamsError::NoPriceMem);
        }
        if !params.has_price_step {
            return Err(ParamsError::NoPriceStep);
        }
        let coins_per_utxo_byte: u64 = match &params.coins_per_utxo_size {
            None => return Err(ParamsError::NoCoinsPerUtxoSize),
            Some(text) => match parse_number(text) {
                Some(price) => price,
                None => return Err(ParamsError::InvalidCoinsPerUtxoSize),
            },
        };
        Ok(
            LedgerParams {
                min_fee_a: params.min_fee_a as u64,
                min_fee_b: params.min_fee_b as u64,
                plutus_v3_cost_model,
                coins_per_utxo_byte,
            },
        )
    }
}

/// The latest block: its time, in milliseconds since 1970, and its slot.
#[derive(Debug, Clone, Copy, PartialEq, Eq, Structural)]
pub struct ChainTip {
    pub time_ms: i64,
    pub slot: u64,
}

/// The latest block as the chain's index gives it.
pub open spec fn tip_of(time: i32, slot: Option<i32>) -> Option<ChainTip> {
    match slot {
        Some(number) => Some(ChainTip { time_ms: (time * 1000) as i64, slot: number as u64 }),
        None => None,
    }
}

impl ChainTip {
    /// The latest block as the chain's index gives it: its time in seconds,
    /// and its slot, where it has one.
    pub fn from_index(time: i32, slot: Option<i32>) -> (tip: Option<ChainTip>)
        ensures
            match slot {
                Some(number) => tip == Some(ChainTip { time_ms: (time * 1000) as i64, slot: number as u64 }),
                None => tip is None,
            },
            tip == tip_of(time, slot),
    {
        match slot {
            Some(number) => Some(ChainTip { time_ms: time as i64 * 1000, slot: number as u64 }),
            None => None,
        }
    }
}

/// What a script is said to need, and what it is run for.
#[derive(Debug, Clone, PartialEq, Eq)]
pub struct RedeemerBudget {
    pub purpose: String,
    pub mem: u64,
    pub steps: u64,
}

/// The reply to a request to evaluate a transaction.
#[derive(Debug, Clone, PartialEq, Eq)]
pub struct EvaluateReply {
    pub result: Option<Vec<RedeemerBudget>>,
    pub error: Option<String>,
}

/// Why there are no budgets.
#[derive(Debug, Clone, PartialEq, Eq)]
pub enum EvaluateError {
    /// The transaction was rejected, with these words.
    Rejected(String),
    /// The reply holds neither a result nor an error.
    Empty,
}

/// The budgets of a reply: an error counts before a result.
pub open spec fn budgets_of(reply: EvaluateReply) -> Result<Vec<RedeemerBudget>, EvaluateError> {
    match (reply.error, reply.result) {
        (Some(words), _) => Err(EvaluateError::Rejected(words)),
        (None, Some(items)) => Ok(items),
        (None, None) => Err(EvaluateError::Empty),
    }
}

impl EvaluateReply {
    /// The budgets of a reply: an error counts before a result.
    pub fn into_budgets(self) -> (budgets: Result<Vec<RedeemerBudget>, EvaluateError>)
        ensures
            match (self.error, self.result) {
                (Some(words), _) => budgets == Err::<Vec<RedeemerBudget>, EvaluateError>(
                    EvaluateError::Rejected(words),
                ),
                (None, Some(items)) => budgets == Ok::<Vec<RedeemerBudget>, EvaluateError>(items),
                (None, None) => budgets == Err::<Vec<RedeemerBudget>, EvaluateError>(EvaluateError::Empty),
            },
            budgets == budgets_of(self),
    {
        match self.error {
            Some(words) => Err(EvaluateError::Rejected(words)),
            None => match self.result {
                Some(items) => Ok(items),
                None => Err(EvaluateError::Empty),
            },
        }
    }
}

/// Whether `place` is the first budget for a purpose.
pub open spec fn is_first_for(budgets: Seq<RedeemerBudget>, purpose: Seq<char>, place: int) -> bool {
    &&& 0 <= place < budgets.len()
    &&& budgets[place].purpose@ == purpose
    &&& forall|i: int| 0 <= i < place ==> (#[trigger] budgets[i]).purpose@ != purpose
}

/// The first budget for a purpose.
pub open spec fn budget_of(budgets: Seq<RedeemerBudget>, purpose: Seq<char>) -> Option<ExUnits> {
    if exists|place: int| is_first_for(budgets, purpose, place) {
        let budget = budgets[choose|place: int| is_first_for(budgets, purpose, place)];
        Some(ExUnits { mem: budget.mem, steps: budget.steps })
    } else {
        None
    }
}

/// The first budget for a purpose.
pub fn budget_for(budgets: &[RedeemerBudget], purpose: &str) -> (budget: Option<ExUnits>)
    ensures
        budget == budget_of(budgets@, purpose@),
{
    for i in 0..budgets.len()
        invariant
            forall|j: int| 0 <= j < i ==> (#[trigger] budgets@[j]).purpose@ != purpose@,
    {
        if same_text(&budgets[i].purpose, purpose) {
            assert(is_first_for(budgets@, purpose@, i as int));
            proof {
                let place = choose|place: int| is_first_for(budgets@, purpose@, place);
                if place < i {
                    assert(budgets@[place].purpose@ != purpose@);
                }
                if i < place {
                    assert(budgets@[i as int].purpose@ != purpose@);
                }
            }
            return Some(ExUnits { mem: budgets[i].mem, steps: budgets[i].steps });
        }
    }
    None
}

/// A Cardano network.
#[derive(Debug, Clone, Copy, PartialEq, Eq, Structural)]
pub enum Network {
    Mainnet,
    Preview,
    Preprod,
}

/// The network of a project by its identifier.
pub open spec fn network_of(project_id: Seq<char>) -> Network {
    if begins_with(project_id, "preview"@) {
        Network::Preview
    } else if begins_with(project_id, "preprod"@) {
        Network::Preprod
    } else {
        Network::Mainnet
    }
}

/// The network of a project: its identifier begins with the network's name.
/// Any other is taken for one of the main network.
pub fn network_for_project_id(project_id: &str) -> (network: Network)
    ensures
        network == if begins_with(project_id@, "preview"@) {
            Network::Preview
        } else if begins_with(project_id@, "preprod"@) {
            Network::Preprod
        } else {
            Network::Mainnet
        },
        network == network_of(project_id@),
{
    if has_prefix(project_id, "preview") {
        Network::Preview
    } else if has_prefix(project_id, "preprod") {
        Network::Preprod
    } else {
        Network::Mainnet
    }
}

/// What is known of a grant in an output is what its fields hold.
pub proof fn lemma_escrow_shows_its_fields(escrow: EscrowUtxo, tx_hash: Seq<char>, output_index: u64)
    ensures
        escrow@.tx_hash == escrow.tx_hash@,
        escrow@.output_index == escrow.output_index,
        escrow@.lovelace == escrow.lovelace,
        escrow@.datum == escrow.datum@,
        escrow@.is_at(tx_hash, output_index) <==> escrow.tx_hash@ == tx_hash && escrow.output_index == output_index,
{
}

/// What is known of some grants is what each of them holds.
pub proof fn lemma_grant_views(grants: Seq<EscrowUtxo>, i: int)
    ensures
        grant_views(grants).len() == grants.len(),
        0 <= i < grants.len() ==> grant_views(grants)[i] == grants[i]@,
{
}

/// What is known of a transaction is what its fields hold.
pub proof fn lemma_summary_shows_its_fields(summary: TxSummary, summaries: Seq<TxSummary>, i: int)
    ensures
        summary@.tx_hash == summary.tx_hash@,
        summary@.block_time == summary.block_time,
        summary@.block_height == summary.block_height,
        summary_views(summaries).len() == summaries.len(),
        0 <= i < summaries.len() ==> summary_views(summaries)[i] == summaries[i]@,
{
}

/// The lovelace of some amounts is what the first of that unit says, and is
/// unreadable where that is no number, whatever comes after it.
pub proof fn lemma_first_lovelace_counts(amount: Seq<Amount>, place: int)
    requires
        0 <= place < amount.len(),
        amount[place].unit@ == "lovelace"@,
        forall|i: int| 0 <= i < place ==> (#[trigger] amount[i]).unit@ != "lovelace"@,
    ensures
        match number_of(amount[place].quantity@) {
            Some(lovelace) => lovelace_of(amount) == Ok::<u64, GrantReadError>(lovelace),
            None => lovelace_of(amount) == Err::<u64, GrantReadError>(GrantReadError::InvalidLovelace),
        },
{
    assert(is_first_lovelace(amount, place));
    let chosen = choose|chosen: int| is_first_lovelace(amount, chosen);
    if chosen < place {
        assert(amount[chosen].unit@ != "lovelace"@);
    }
    if place < chosen {
        assert(amount[place].unit@ != "lovelace"@);
    }
}

/// Amounts none of which is of lovelace hold none.
pub proof fn lemma_no_lovelace(amount: Seq<Amount>)
    requires
        forall|i: int| 0 <= i < amount.len() ==> (#[trigger] amount[i]).unit@ != "lovelace"@,
    ensures
        lovelace_of(amount) == Err::<u64, GrantReadError>(GrantReadError::NoLovelace),
{
}

/// An output without a datum holds no grant; one with a datum holds the grant
/// that the datum says, with the output's lovelace, hash and index. A datum
/// that cannot be read is told before lovelace that cannot.
pub proof fn lemma_grant_of_one_output(utxo: AddressUtxo)
    ensures
        utxo.inline_datum is None ==> grants_of(seq![utxo]) == Ok::<Seq<EscrowUtxoView>, GrantReadError>(seq![]),
        utxo.inline_datum matches Some(text) ==> match inline_datum_of(text@) {
            Err(error) => grants_of(seq![utxo]) == Err::<Seq<EscrowUtxoView>, GrantReadError>(
                GrantReadError::Datum(error),
            ),
            Ok(datum) => match lovelace_of(utxo.amount@) {
                Err(error) => grants_of(seq![utxo]) == Err::<Seq<EscrowUtxoView>, GrantReadError>(error),
                Ok(lovelace) => grants_of(seq![utxo]) matches Ok(grants) && {
                    &&& grants.len() == 1
                    &&& grants[0].tx_hash == utxo.tx_hash@
                    &&& utxo.output_index >= 0 ==> grants[0].output_index == utxo.output_index
                    &&& utxo.output_index < 0 ==> grants[0].output_index == 0x1_0000_0000_0000_0000 + utxo.output_index
                    &&& grants[0].lovelace == lovelace
                    &&& grants[0].datum == datum
                },
            },
        },
{
    let index = utxo.output_index;
    assert(index < 0 ==> index as u64 == 0x1_0000_0000_0000_0000 + index) by (bit_vector);
    assert(seq![utxo].drop_last() =~= Seq::<AddressUtxo>::empty());
    reveal_with_fuel(grants_of, 2);
}

/// The grants of two lists of outputs are those of the first and then those of
/// the second; what spoils the first is told before what spoils the second.
pub proof fn lemma_grants_follow_outputs(first: Seq<AddressUtxo>, second: Seq<AddressUtxo>)
    ensures
        grants_of(Seq::<AddressUtxo>::empty()) == Ok::<Seq<EscrowUtxoView>, GrantReadError>(seq![]),
        match (grants_of(first), grants_of(second)) {
            (Err(error), _) => grants_of(first + second) == Err::<Seq<EscrowUtxoView>, GrantReadError>(error),
            (Ok(_), Err(error)) => grants_of(first + second) == Err::<Seq<EscrowUtxoView>, GrantReadError>(error),
            (Ok(one), Ok(other)) => grants_of(first + second) == Ok::<Seq<EscrowUtxoView>, GrantReadError>(one + other),
        },
    decreases second.len(),
{
    if second.len() == 0 {
        assert(first + second =~= first);
        if let Ok(one) = grants_of(first) {
            assert(one + seq![] =~= one);
        }
    } else {
        lemma_grants_follow_outputs(first, second.drop_last());
        assert((first + second).drop_last() =~= first + second.drop_last());
        if let (Ok(one), Ok(other)) = (grants_of(first), grants_of(second.drop_last())) {
            if let Some(text) = second.last().inline_datum {
                if let Ok(grant) = grant_of(second.last(), text@) {
                    assert((one + other).push(grant) =~= one + other.push(grant));
                }
            }
        }
    }
}

/// No output with a datum is passed over: where the grants are read, each such
/// output is among them, however far its grant has come.
pub proof fn lemma_every_grant_is_read(utxos: Seq<AddressUtxo>, i: int, grants: Seq<EscrowUtxoView>)
    requires
        grants_of(utxos) == Ok::<Seq<EscrowUtxoView>, GrantReadError>(grants),
        0 <= i < utxos.len(),
        utxos[i].inline_datum is Some,
    ensures
        exists|k: int|
            0 <= k < grants.len() && (#[trigger] grants[k]).tx_hash == utxos[i].tx_hash@ && inline_datum_of(
                utxos[i].inline_datum->0@,
            ) == Ok::<DatumView, DatumError>(grants[k].datum) && lovelace_of(utxos[i].amount@) == Ok::<
                u64,
                GrantReadError,
            >(grants[k].lovelace) && (utxos[i].output_index >= 0 ==> grants[k].output_index == utxos[i].output_index),
    decreases utxos.len(),
{
    let before = grants_of(utxos.drop_last())->Ok_0;
    if i < utxos.len() - 1 {
        lemma_every_grant_is_read(utxos.drop_last(), i, before);
        let k = choose|k: int|
            0 <= k < before.len() && (#[trigger] before[k]).tx_hash == utxos[i].tx_hash@ && inline_datum_of(
                utxos[i].inline_datum->0@,
            ) == Ok::<DatumView, DatumError>(before[k].datum) && lovelace_of(utxos[i].amount@) == Ok::<
                u64,
                GrantReadError,
            >(before[k].lovelace) && (utxos[i].output_index >= 0 ==> before[k].output_index == utxos[i].output_index);
        assert(grants[k] == before[k]);
    } else {
        assert(grants[before.len() as int].tx_hash == utxos[i].tx_hash@);
    }
}

/// A transaction is one of a grant as soon as one of its inputs and outputs at
/// the address has a datum on the grant's terms, whatever is approved or
/// released in it, and whatever deadline and policy it names.
pub proof fn lemma_any_state_belongs_to_the_grant(
    sides: Seq<TxSide>,
    place: int,
    address: Seq<char>,
    state: DatumView,
    grant: DatumView,
)
    requires
        0 <= place < sides.len(),
        sides[place].address@ == address,
        sides[place].inline_datum is Some,
        inline_datum_of(sides[place].inline_datum->0@) == Ok::<DatumView, DatumError>(state),
        state.reviewer == grant.reviewer,
        state.proposer == grant.proposer,
        state.total_locked == grant.total_locked,
        state.tranche_bps == grant.tranche_bps,
    ensures
        sides_hold(sides, address, grant.grant_id()),
{
    assert(side_holds(sides[place], address, grant.grant_id()));
}

/// A transaction that is one of a grant has an input or an output at the
/// address with a datum that gives the grant's identifier.
pub proof fn lemma_only_its_states_belong_to_the_grant(sides: Seq<TxSide>, address: Seq<char>, grant_id: Seq<char>)
    requires
        sides_hold(sides, address, grant_id),
    ensures
        exists|i: int|
            0 <= i < sides.len() && (#[trigger] sides[i]).address@ == address && (sides[i].inline_datum matches Some(text)
                && inline_datum_of(text@) matches Ok(datum) && datum.grant_id() == grant_id),
{
}

/// A grant that is brought forward stays the same grant: a transaction belongs
/// to it where a side at the address has the text of a state's bytes, and as
/// well where it has that of the state with one more milestone approved or one
/// more tranche released.
pub proof fn lemma_progress_keeps_the_grant(
    sides: Seq<TxSide>,
    place: int,
    address: Seq<char>,
    before: DatumView,
    after: DatumView,
    bytes: Seq<u8>,
    index: int,
)
    requires
        0 <= place < sides.len(),
        sides[place].address@ == address,
        after == before || after == before.with_approval(index) || after == before.with_release(),
        after.hashes_sized(),
        plutus_from_cbor(bytes) == Some(after.tree()),
        sides[place].inline_datum matches Some(text) && text@ == hex_text(bytes),
    ensures
        sides_hold(sides, address, before.grant_id()),
{
    lemma_inline_datum_round_trip(after, bytes);
    assert(side_holds(sides[place], address, before.grant_id()));
}

/// The transactions that are picked are those at the places of the answers
/// with yes, each once, and in their order.
pub proof fn lemma_picked_is_a_selection(candidates: Seq<TxSummaryView>, answers: Seq<bool>)
    ensures
        picked(candidates, answers) == Seq::new(answers.len(), |i: int| i).filter(|i: int| answers[i]).map_values(
            |i: int| candidates[i],
        ),
    decreases answers.len(),
{
    reveal(Seq::filter);
    let places = Seq::new(answers.len(), |i: int| i);
    let chosen = places.filter(|i: int| answers[i]);
    if answers.len() == 0 {
        assert(chosen.map_values(|i: int| candidates[i]) =~= seq![]);
    } else {
        let fewer = answers.drop_last();
        lemma_picked_is_a_selection(candidates, fewer);
        let before = Seq::new(fewer.len(), |i: int| i);
        assert(places.drop_last() =~= before);
        lemma_same_selection(before, answers, fewer);
        let kept = before.filter(|i: int| answers[i]);
        assert(kept == before.filter(|i: int| fewer[i]));
        if answers.last() {
            assert(chosen =~= kept.push(answers.len() - 1));
            assert(chosen.map_values(|i: int| candidates[i]) =~= kept.map_values(|i: int| candidates[i]).push(
                candidates[answers.len() - 1],
            ));
        } else {
            assert(chosen =~= kept);
        }
    }
}

/// Places are chosen by the answers at them alone.
proof fn lemma_same_selection(places: Seq<int>, answers: Seq<bool>, fewer: Seq<bool>)
    requires
        forall|k: int| 0 <= k < places.len() ==> answers[#[trigger] places[k]] == fewer[places[k]],
    ensures
        places.filter(|i: int| answers[i]) == places.filter(|i: int| fewer[i]),
    decreases places.len(),
{
    reveal(Seq::filter);
    if places.len() > 0 {
        assert forall|k: int| 0 <= k < places.drop_last().len() implies answers[#[trigger] places.drop_last()[k]]
            == fewer[places.drop_last()[k]] by {
            assert(places.drop_last()[k] == places[k]);
        }
        lemma_same_selection(places.drop_last(), answers, fewer);
        assert(answers[places[places.len() - 1]] == fewer[places[places.len() - 1]]);
    }
}

/// Of some transactions the first are taken, as many as were asked for or as
/// there are.
pub proof fn lemma_first_of(summaries: Seq<TxSummaryView>, count: nat)
    ensures
        first_of(summaries, count).len() == (if count <= summaries.len() {
            count
        } else {
            summaries.len()
        }),
        forall|i: int|
            0 <= i < first_of(summaries, count).len() ==> #[trigger] first_of(summaries, count)[i] == summaries[i],
{
}

/// A search is over exactly where as many transactions were found as were
/// asked for, or every candidate was looked at.
pub proof fn lemma_scan_ends(scan: GrantScanView)
    ensures
        scan.matched() == picked(scan.candidates, scan.answers),
        scan.is_over() <==> picked(scan.candidates, scan.answers).len() >= scan.count || scan.answers.len()
            >= scan.candidates.len(),
        scan.bounded() <==> picked(scan.candidates, scan.answers).len() <= scan.count,
{
}

/// An epoch's parameters can be used exactly where the cost model of Plutus V3
/// is a list of integers, both prices of running scripts are given, and the
/// price of a byte is a number; then the cost model is that list, in order,
/// and the price is that number.
pub proof fn lemma_usable_params(params: EpochParams, model: Seq<i64>, price: u64)
    ensures
        usable_params(params) == Ok::<(Seq<i64>, u64), ParamsError>((model, price)) <==> {
            &&& params.cost_models matches Some(models) && models.plutus_v3 matches Some(value) && json_tree(
                value,
            ) matches JsonTree::List(items) && items.len() == model.len() && forall|i: int|
                0 <= i < items.len() ==> #[trigger] items[i] == JsonTree::Number(Some(model[i]))
            &&& params.has_price_mem
            &&& params.has_price_step
            &&& params.coins_per_utxo_size matches Some(text) && number_of(text@) == Some(price)
        },
{
    if let Some(models) = params.cost_models {
        if let Some(value) = models.plutus_v3 {
            if let JsonTree::List(items) = json_tree(value) {
                if items.len() == model.len() && forall|i: int|
                    0 <= i < items.len() ==> #[trigger] items[i] == JsonTree::Number(Some(model[i])) {
                    assert(is_int_list(json_tree(value)));
                    assert(int_list(json_tree(value)) =~= model);
                }
                if usable_params(params) == Ok::<(Seq<i64>, u64), ParamsError>((model, price)) {
                    assert forall|i: int| 0 <= i < items.len() implies #[trigger] items[i] == JsonTree::Number(
                        Some(model[i]),
                    ) by {
                        assert(int_list(json_tree(value))[i] == model[i]);
                    }
                }
            }
        }
    }
}

/// What keeps an epoch's parameters from use is told by the first that is
/// missing or unreadable: the cost models, the one of Plutus V3, the price of
/// memory, the price of a step, the price of a byte.
pub proof fn lemma_unusable_params(params: EpochParams)
    ensures
        match usable_params(params) {
            Ok(_) => true,
            Err(error) => {
                let read = params.cost_models matches Some(models) && models.plutus_v3 matches Some(value)
                    && json_tree(value) matches JsonTree::List(items) && forall|i: int|
                    0 <= i < items.len() ==> (#[trigger] items[i] matches JsonTree::Number(Some(_)));
                match error {
                    ParamsError::NoCostModels => params.cost_models is None,
                    ParamsError::NoPlutusV3 => params.cost_models matches Some(models) && models.plutus_v3 is None,
                    ParamsError::InvalidPlutusV3 => (params.cost_models matches Some(models)
                        && models.plutus_v3 is Some) && !read,
                    ParamsError::NoPriceMem => read && !params.has_price_mem,
                    ParamsError::NoPriceStep => read && params.has_price_mem && !params.has_price_step,
                    ParamsError::NoCoinsPerUtxoSize => read && params.has_price_mem && params.has_price_step
                        && params.coins_per_utxo_size is None,
                    ParamsError::InvalidCoinsPerUtxoSize => read && params.has_price_mem && params.has_price_step && (
                    params.coins_per_utxo_size matches Some(text) && number_of(text@) is None),
                }
            },
        },
{
}

/// A transaction keeps its hash, its time and its height; a negative number is
/// counted down from two to the power of 64.
pub proof fn lemma_summary_of(tx_hash: Seq<char>, block_time: i32, block_height: i32)
    ensures
        summary_of(tx_hash, block_time, block_height).tx_hash == tx_hash,
        summary_of(tx_hash, block_time, block_height).block_time == (if block_time < 0 {
            0x1_0000_0000_0000_0000 + block_time
        } else {
            block_time as int
        }),
        summary_of(tx_hash, block_time, block_height).block_height == (if block_height < 0 {
            0x1_0000_0000_0000_0000 + block_height
        } else {
            block_height as int
        }),
{
    assert(block_time < 0 ==> block_time as u64 == 0x1_0000_0000_0000_0000 + block_time) by (bit_vector);
    assert(block_height < 0 ==> block_height as u64 == 0x1_0000_0000_0000_0000 + block_height) by (bit_vector);
}

/// The fees are those of the epoch, the first for a byte and the second for a
/// transaction.
pub proof fn lemma_fees_of(params: EpochParams)
    ensures
        params.min_fee_a >= 0 ==> fees_of(params).0 == params.min_fee_a,
        params.min_fee_b >= 0 ==> fees_of(params).1 == params.min_fee_b,
        params.min_fee_a < 0 ==> fees_of(params).0 == 0x1_0000_0000_0000_0000 + params.min_fee_a,
        params.min_fee_b < 0 ==> fees_of(params).1 == 0x1_0000_0000_0000_0000 + params.min_fee_b,
{
    let byte = params.min_fee_a;
    let transaction = params.min_fee_b;
    assert(byte < 0 ==> byte as u64 == 0x1_0000_0000_0000_0000 + byte) by (bit_vector);
    assert(transaction < 0 ==> transaction as u64 == 0x1_0000_0000_0000_0000 + transaction) by (bit_vector);
}

/// A block with a slot gives its time in whole seconds and its slot; one
/// without gives nothing.
pub proof fn lemma_tip_of(time: i32, slot: Option<i32>)
    ensures
        tip_of(time, slot) is Some <==> slot is Some,
        tip_of(time, slot) matches Some(tip) ==> {
            &&& tip.time_ms as int / 1000 == time
            &&& tip.time_ms as int % 1000 == 0
            &&& tip.slot == (if slot->0 < 0 {
                0x1_0000_0000_0000_0000 + slot->0
            } else {
                slot->0 as int
            })
        },
{
    if let Some(number) = slot {
        assert(number < 0 ==> number as u64 == 0x1_0000_0000_0000_0000 + number) by (bit_vector);
    }
}

/// A reply gives its budgets exactly where it has them and no error; an error
/// is passed on in its own words.
pub proof fn lemma_budgets_of(reply: EvaluateReply)
    ensures
        budgets_of(reply) is Ok <==> reply.error is None && reply.result is Some,
        budgets_of(reply) matches Ok(budgets) ==> reply.result == Some(budgets),
        budgets_of(reply) matches Err(EvaluateError::Rejected(words)) ==> reply.error == Some(words),
        budgets_of(reply) == Err::<Vec<RedeemerBudget>, EvaluateError>(EvaluateError::Empty) <==> reply.error is None
            && reply.result is None,
{
}

/// An identifier names a test network exactly where it is the network's name
/// and something more; any other is one of the main network.
pub proof fn lemma_network_of(project_id: Seq<char>, rest: Seq<char>)
    ensures
        network_of("preview"@ + rest) == Network::Preview,
        network_of("preprod"@ + rest) == Network::Preprod,
        network_of(project_id) == Network::Preview ==> project_id == "preview"@ + project_id.skip(7),
        network_of(project_id) == Network::Preprod ==> project_id == "preprod"@ + project_id.skip(7),
        project_id != "preview"@ + project_id.skip(7) && project_id != "preprod"@ + project_id.skip(7) ==> network_of(
            project_id,
        ) == Network::Mainnet,
{
    reveal_strlit("preview");
    reveal_strlit("preprod");
    lemma_begins_with(project_id, "preview"@, rest);
    lemma_begins_with(project_id, "preprod"@, rest);
    let other = "preprod"@ + rest;
    assert(other[3] == 'p');
    if begins_with(other, "preview"@) {
        assert(other.subrange(0, 7)[3] == "preview"@[3]);
    }
}

} // verus!
