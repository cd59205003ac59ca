//! Transactions under construction: what the `pallas_txbuilder` types hold,
//! and each step that adds to them.

use pallas_addresses::Address;
use pallas_codec::minicbor;
use pallas_txbuilder::{BuildConway, Input, Output, ScriptKind, StagingTransaction, TxBuilderError};
use vstd::prelude::*;

verus! {

/// `Output` of `pallas_txbuilder`, an output under construction.
#[verifier::external_type_specification]
#[verifier::external_body]
pub struct ExOutput(Output);

/// `StagingTransaction` of `pallas_txbuilder`, a transaction under construction.
#[verifier::external_type_specification]
#[verifier::external_body]
pub struct ExStagingTransaction(StagingTransaction);

/// The error of `pallas_txbuilder`.
#[verifier::external_type_specification]
#[verifier::external_body]
pub struct ExTxBuilderError(TxBuilderError);

/// An output of an earlier transaction, to be spent.
#[derive(Debug, Clone, Copy, PartialEq, Eq)]
pub struct TxInput {
    pub tx_hash: [u8; 32],
    pub output_index: u64,
}

/// What a [`TxInput`] holds.
#[verifier::ext_equal]
pub struct TxInputView {
    pub tx_hash: Seq<u8>,
    pub output_index: u64,
}

impl View for TxInput {
    type V = TxInputView;

    open spec fn view(&self) -> TxInputView {
        TxInputView { tx_hash: self.tx_hash@, output_index: self.output_index }
    }
}

/// The memory and the steps that a script may use.
#[derive(Debug, Clone, Copy, PartialEq, Eq, Structural)]
pub struct ExUnits {
    pub mem: u64,
    pub steps: u64,
}

/// A token: its policy and its name.
#[verifier::ext_equal]
pub struct AssetId {
    pub policy: Seq<u8>,
    pub name: Seq<u8>,
}

/// What an output under construction holds.
#[verifier::ext_equal]
pub struct StagedOutput {
    pub address: Address,
    pub lovelace: u64,
    pub inline_datum: Option<Seq<u8>>,
    pub assets: Map<AssetId, u64>,
    /// No datum hash and no script is attached, and no policy is held without
    /// a token.
    pub nothing_else: bool,
}

/// What a redeemer is for.
pub enum RedeemerPurpose {
    Spend(TxInputView),
    Mint(Seq<u8>),
}

/// A redeemer's data and its budget.
#[verifier::ext_equal]
pub struct StagedRedeemer {
    pub data: Seq<u8>,
    pub ex_units: ExUnits,
}

/// What a transaction under construction holds.
#[verifier::ext_equal]
pub struct StagedTx {
    pub inputs: Seq<TxInputView>,
    pub collateral: Seq<TxInputView>,
    pub outputs: Seq<StagedOutput>,
    pub fee: Option<u64>,
    pub mint: Map<AssetId, i64>,
    pub valid_from: Option<u64>,
    /// The key hashes that scripts are shown as signers.
    pub signers: Seq<Seq<u8>>,
    /// The Plutus V3 scripts by hash.
    pub scripts: Map<Seq<u8>, Seq<u8>>,
    pub redeemers: Map<RedeemerPurpose, StagedRedeemer>,
    /// The cost model of Plutus V3.
    pub cost_model: Option<Seq<i64>>,
    /// Nothing beyond these parts is set: no policy is minted without a token,
    /// every script is of Plutus V3, every redeemer has a budget, and there are
    /// language views only with the cost model, which is the only one.
    pub nothing_else: bool,
}

impl StagedOutput {
    /// An output of `lovelace` alone.
    pub open spec fn paying(address: Address, lovelace: u64) -> StagedOutput {
        StagedOutput { address, lovelace, inline_datum: None, assets: Map::empty(), nothing_else: true }
    }

    /// This output with an inline datum.
    pub open spec fn with_datum(self, datum: Seq<u8>) -> StagedOutput {
        StagedOutput { inline_datum: Some(datum), ..self }
    }

    /// This output with a quantity of one more token.
    pub open spec fn with_token(self, asset: AssetId, quantity: u64) -> StagedOutput {
        StagedOutput { assets: self.assets.insert(asset, quantity), ..self }
    }

    /// Whether this output can be written: nothing is unaccounted for, and no
    /// quantity is zero.
    pub open spec fn writable(self) -> bool {
        &&& self.nothing_else
        &&& forall|asset: AssetId| #[trigger] self.assets.contains_key(asset) ==> self.assets[asset] != 0
    }
}

impl StagedTx {
    /// A transaction with nothing in it.
    pub open spec fn empty() -> StagedTx {
        StagedTx {
            inputs: seq![],
            collateral: seq![],
            outputs: seq![],
            fee: None,
            mint: Map::empty(),
            valid_from: None,
            signers: seq![],
            scripts: Map::empty(),
            redeemers: Map::empty(),
            cost_model: None,
            nothing_else: true,
        }
    }

    /// Whether this transaction can be handed to the builder.
    pub open spec fn writable(self) -> bool {
        &&& self.nothing_else
        &&& forall|i: int| 0 <= i < self.outputs.len() ==> (#[trigger] self.outputs[i]).writable()
        &&& forall|asset: AssetId| #[trigger] self.mint.contains_key(asset) ==> self.mint[asset] != 0
    }

    /// The sum of what the outputs pay.
    pub open spec fn total_output(self) -> int {
        total_lovelace(self.outputs)
    }
}

/// The sum of what some outputs pay.
pub open spec fn total_lovelace(outputs: Seq<StagedOutput>) -> int
    decreases outputs.len(),
{
    if outputs.len() == 0 {
        0
    } else {
        total_lovelace(outputs.drop_last()) + outputs.last().lovelace
    }
}

/// Whether `order` walks every key of `map` once.
pub open spec fn is_walk<K, V>(map: Map<K, V>, order: Seq<K>) -> bool {
    order.no_duplicates() && order.to_set() == map.dom()
}

/// The orders in which the builder walks the scripts, by their hashes, and the
/// redeemers.
pub struct Walk {
    pub scripts: Seq<Seq<u8>>,
    pub redeemers: Seq<RedeemerPurpose>,
}

impl Walk {
    /// Whether each script and each redeemer of `tx` is walked once.
    pub open spec fn covers(self, tx: StagedTx) -> bool {
        is_walk(tx.scripts, self.scripts) && is_walk(tx.redeemers, self.redeemers)
    }

    /// Whether `bytes` are those `written` for `tx` on this walk of it.
    pub open spec fn gives(self, tx: StagedTx, written: Option<Seq<u8>>, bytes: Option<Seq<u8>>) -> bool {
        self.covers(tx) && bytes == written
    }
}

/// What an output under construction holds.
pub uninterp spec fn output_parts(output: Output) -> StagedOutput;

/// What a transaction under construction holds.
pub uninterp spec fn staged(tx: StagingTransaction) -> StagedTx;

/// The hash under which the builder keeps a Plutus V3 script.
pub uninterp spec fn plutus_v3_hash(script: Seq<u8>) -> Seq<u8>;

/// The CBOR bytes of an output, where it can be written.
pub uninterp spec fn output_cbor(output: StagedOutput) -> Option<Seq<u8>>;

/// The CBOR bytes of a Conway transaction, where it can be written, when the
/// builder walks the scripts and the redeemers in the given orders.
pub uninterp spec fn conway_tx(tx: StagedTx, walk: Walk) -> Option<Seq<u8>>;

/// Whether the builder may give `bytes` for `tx`, or fail where it is `None`:
/// the order in which it walks the scripts and the redeemers is not fixed.
pub open spec fn may_build(tx: StagedTx, bytes: Option<Seq<u8>>) -> bool {
    exists|walk: Walk| walk.gives(tx, #[trigger] conway_tx(tx, walk), bytes)
}

/// The bytes of a built transaction, or `None` where it was not built.
pub open spec fn built_bytes(built: Result<Vec<u8>, TxBuilderError>) -> Option<Seq<u8>> {
    match built {
        Ok(bytes) => Some(bytes@),
        Err(_) => None,
    }
}

/// The bytes of a transaction, where there are any.
pub open spec fn written_bytes(bytes: Option<Vec<u8>>) -> Option<Seq<u8>> {
    match bytes {
        Some(written) => Some(written@),
        None => None,
    }
}

/// `Output::new`: an output that pays `lovelace` and holds nothing else.
#[verifier::external_body]
pub(crate) fn new_output(address: &Address, lovelace: u64) -> (output: Output)
    ensures
        output_parts(output) == StagedOutput::paying(*address, lovelace),
{
    Output::new(address.clone(), lovelace)
}

/// `Output::set_inline_datum`: it replaces the datum and leaves the rest.
#[verifier::external_body]
pub(crate) fn with_inline_datum(output: Output, datum: Vec<u8>) -> (extended: Output)
    requires
        output_parts(output).nothing_else,
    ensures
        output_parts(extended) == output_parts(output).with_datum(datum@),
{
    output.set_inline_datum(datum)
}

/// `Output::add_asset`: for a token that the output does not hold yet, it adds
/// the quantity and leaves the rest. It accepts names of at most 32 bytes.
#[verifier::external_body]
pub(crate) fn with_asset(output: Output, policy: &[u8; 28], name: Vec<u8>, quantity: u64) -> (extended: Output)
    requires
        output_parts(output).nothing_else,
        name@.len() <= 32,
        !output_parts(output).assets.contains_key(AssetId { policy: policy@, name: name@ }),
    ensures
        output_parts(extended) == output_parts(output).with_token(AssetId { policy: policy@, name: name@ }, quantity),
{
    output.add_asset(pallas_crypto::hash::Hash::new(*policy), name, quantity).expect("the name is at most 32 bytes")
}

/// `Output::build_babbage_raw`, and `minicbor::to_vec` on what it gives, which
/// cannot fail.
#[verifier::external_body]
pub(crate) fn encode_output(output: &Output) -> (encoded: Result<Vec<u8>, TxBuilderError>)
    requires
        output_parts(*output).writable(),
    ensures
        encoded is Ok <==> output_cbor(output_parts(*output)) is Some,
        encoded matches Ok(bytes) ==> output_cbor(output_parts(*output)) == Some(bytes@),
{
    output.build_babbage_raw().map(|raw| minicbor::to_vec(&raw).expect("writing to a vector"))
}

/// `StagingTransaction::new`: nothing is set.
#[verifier::external_body]
pub(crate) fn new_transaction() -> (tx: StagingTransaction)
    ensures
        staged(tx) == StagedTx::empty(),
{
    StagingTransaction::new()
}

/// `StagingTransaction::input`: one more input, after those there.
#[verifier::external_body]
pub(crate) fn stage_input(tx: StagingTransaction, input: &TxInput) -> (extended: StagingTransaction)
    ensures
        staged(extended) == (StagedTx { inputs: staged(tx).inputs.push(input@), ..staged(tx) }),
{
    tx.input(Input::new(pallas_crypto::hash::Hash::new(input.tx_hash), input.output_index))
}

/// `StagingTransaction::collateral_input`: one more collateral input.
#[verifier::external_body]
pub(crate) fn stage_collateral(tx: StagingTransaction, input: &TxInput) -> (extended: StagingTransaction)
    ensures
        staged(extended) == (StagedTx { collateral: staged(tx).collateral.push(input@), ..staged(tx) }),
{
    tx.collateral_input(Input::new(pallas_crypto::hash::Hash::new(input.tx_hash), input.output_index))
}

/// `StagingTransaction::output`: one more output, after those there.
#[verifier::external_body]
pub(crate) fn stage_output(tx: StagingTransaction, output: Output) -> (extended: StagingTransaction)
    ensures
        staged(extended) == (StagedTx { outputs: staged(tx).outputs.push(output_parts(output)), ..staged(tx) }),
{
    tx.output(output)
}

/// `StagingTransaction::fee`: it sets the fee.
#[verifier::external_body]
pub(crate) fn stage_fee(tx: StagingTransaction, fee: u64) -> (extended: StagingTransaction)
    ensures
        staged(extended) == (StagedTx { fee: Some(fee), ..staged(tx) }),
{
    tx.fee(fee)
}

/// `StagingTransaction::valid_from_slot`: it sets the first valid slot.
#[verifier::external_body]
pub(crate) fn stage_valid_from(tx: StagingTransaction, slot: u64) -> (extended: StagingTransaction)
    ensures
        staged(extended) == (StagedTx { valid_from: Some(slot), ..staged(tx) }),
{
    tx.valid_from_slot(slot)
}

/// `StagingTransaction::disclosed_signer`: one more signer.
#[verifier::external_body]
pub(crate) fn stage_signer(tx: StagingTransaction, key_hash: &[u8; 28]) -> (extended: StagingTransaction)
    ensures
        staged(extended) == (StagedTx { signers: staged(tx).signers.push(key_hash@), ..staged(tx) }),
{
    tx.disclosed_signer(pallas_crypto::hash::Hash::new(*key_hash))
}

/// `StagingTransaction::mint_asset`: for a token not minted yet, it mints the
/// amount. It accepts names of at most 32 bytes.
#[verifier::external_body]
pub(crate) fn stage_mint(tx: StagingTransaction, policy: &[u8; 28], name: Vec<u8>, amount: i64) -> (extended: StagingTransaction)
    requires
        staged(tx).nothing_else,
        name@.len() <= 32,
        !staged(tx).mint.contains_key(AssetId { policy: policy@, name: name@ }),
    ensures
        staged(extended) == (StagedTx {
            mint: staged(tx).mint.insert(AssetId { policy: policy@, name: name@ }, amount),
            ..staged(tx)
        }),
{
    tx.mint_asset(pallas_crypto::hash::Hash::new(*policy), name, amount).expect("the name is at most 32 bytes")
}

/// `StagingTransaction::script` for Plutus V3: the script is kept under its
/// hash.
#[verifier::external_body]
pub(crate) fn stage_script(tx: StagingTransaction, script: Vec<u8>) -> (extended: StagingTransaction)
    requires
        staged(tx).nothing_else,
    ensures
        staged(extended) == (StagedTx {
            scripts: staged(tx).scripts.insert(plutus_v3_hash(script@), script@),
            ..staged(tx)
        }),
{
    tx.script(ScriptKind::PlutusV3, script)
}

/// `StagingTransaction::add_spend_redeemer` with a budget: the redeemer is
/// kept for its input.
#[verifier::external_body]
pub(crate) fn stage_spend_redeemer(tx: StagingTransaction, input: &TxInput, data: Vec<u8>, ex_units: ExUnits) -> (extended: StagingTransaction)
    requires
        staged(tx).nothing_else,
    ensures
        staged(extended) == (StagedTx {
            redeemers: staged(tx).redeemers.insert(
                RedeemerPurpose::Spend(input@),
                StagedRedeemer { data: data@, ex_units },
            ),
            ..staged(tx)
        }),
{
    let target = Input::new(pallas_crypto::hash::Hash::new(input.tx_hash), input.output_index);
    let budget = pallas_txbuilder::ExUnits { mem: ex_units.mem, steps: ex_units.steps };
    tx.add_spend_redeemer(target, data, Some(budget))
}

/// `StagingTransaction::add_mint_redeemer` with a budget: the redeemer is kept
/// for its policy.
#[verifier::external_body]
pub(crate) fn stage_mint_redeemer(tx: StagingTransaction, policy: &[u8; 28], data: Vec<u8>, ex_units: ExUnits) -> (extended: StagingTransaction)
    requires
        staged(tx).nothing_else,
    ensures
        staged(extended) == (StagedTx {
            redeemers: staged(tx).redeemers.insert(
                RedeemerPurpose::Mint(policy@),
                StagedRedeemer { data: data@, ex_units },
            ),
            ..staged(tx)
        }),
{
    let budget = pallas_txbuilder::ExUnits { mem: ex_units.mem, steps: ex_units.steps };
    tx.add_mint_redeemer(pallas_crypto::hash::Hash::new(*policy), data, Some(budget))
}

/// `StagingTransaction::add_language` for Plutus V3: it sets the cost model.
#[verifier::external_body]
pub(crate) fn stage_cost_model(tx: StagingTransaction, cost_model: Vec<i64>) -> (extended: StagingTransaction)
    requires
        staged(tx).nothing_else,
    ensures
        staged(extended) == (StagedTx { cost_model: Some(cost_model@), ..staged(tx) }),
{
    tx.add_language(ScriptKind::PlutusV3, cost_model)
}

/// `BuildConway::build_conway_raw`, down to the transaction's bytes. The
/// builder keeps scripts and redeemers in hash maps and writes them in the
/// order in which it walks those, which is not fixed; everything else is
/// written in a fixed order.
#[verifier::external_body]
fn build_conway(tx: StagingTransaction) -> (built: Result<Vec<u8>, TxBuilderError>)
    requires
        staged(tx).writable(),
    ensures
        exists|walk: Walk| walk.gives(staged(tx), #[trigger] conway_tx(staged(tx), walk), built_bytes(built)),
{
    tx.build_conway_raw().map(|built| built.tx_bytes.0)
}

/// The bytes of a transaction, or `None` where it cannot be written.
pub(crate) fn build_transaction(tx: StagingTransaction) -> (bytes: Option<Vec<u8>>)
    requires
        staged(tx).writable(),
    ensures
        may_build(staged(tx), written_bytes(bytes)),
{
    match build_conway(tx) {
        Ok(bytes) => Some(bytes),
        Err(_) => None,
    }
}

/// What is known of an input is what its fields hold.
pub proof fn lemma_input_shows_its_fields(input: TxInput)
    ensures
        input@.tx_hash == input.tx_hash@,
        input@.output_index == input.output_index,
{
}

/// What outputs pay adds up: one after others adds what it pays, and none pay
/// nothing.
pub proof fn lemma_lovelace_adds_up(first: Seq<StagedOutput>, second: Seq<StagedOutput>, one: StagedOutput)
    ensures
        total_lovelace(Seq::<StagedOutput>::empty()) == 0,
        total_lovelace(seq![one]) == one.lovelace,
        total_lovelace(first + second) == total_lovelace(first) + total_lovelace(second),
    decreases second.len(),
{
    assert(seq![one].drop_last() =~= Seq::<StagedOutput>::empty());
    reveal_with_fuel(total_lovelace, 2);
    if second.len() == 0 {
        assert(first + second =~= first);
    } else {
        lemma_lovelace_adds_up(first, second.drop_last(), one);
        assert((first + second).drop_last() =~= first + second.drop_last());
    }
}

} // verus!
