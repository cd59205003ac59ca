//! Fees that depend on size, and the least value that an output must carry.

use crate::ledger::{encode_output, new_output, with_asset};
use pallas_addresses::Address;
use pallas_txbuilder::Output;
use vstd::prelude::*;

verus! {

use crate::ledger::{output_cbor, output_parts, AssetId, StagedOutput};

/// The size of one key witness, which an unsigned transaction does not have
/// yet.
pub const VKEY_WITNESS_CBOR_BYTES: u64 = 108;

/// The bytes that the ledger adds to an output's size when it asks for its
/// least value.
pub const OUTPUT_OVERHEAD_BYTES: u64 = 160;

/// The value from which the search for an output's least value starts.
pub const FIRST_CANDIDATE_LOVELACE: u64 = 1_000_000;

/// How many values the search tries.
pub const CANDIDATES: u64 = 5;

/// The fee of a transaction by its size.
pub fn linear_fee(tx_size_bytes: usize, min_fee_a: u64, min_fee_b: u64) -> (fee: u64)
    requires
        min_fee_a * tx_size_bytes + min_fee_b <= u64::MAX,
    ensures
        fee == min_fee_a * tx_size_bytes + min_fee_b,
{
    min_fee_a * tx_size_bytes as u64 + min_fee_b
}

/// A quantity of a token.
#[derive(Debug, Clone, PartialEq, Eq)]
pub struct Token {
    pub policy: [u8; 28],
    pub name: Vec<u8>,
    pub quantity: u64,
}

/// An output before its value is known.
pub struct OutputShape<'a> {
    pub address: &'a Address,
    pub token: Option<Token>,
}

/// What an [`OutputShape`] holds.
pub struct OutputShapeView {
    pub address: Address,
    pub token: Option<(AssetId, u64)>,
}

impl<'a> View for OutputShape<'a> {
    type V = OutputShapeView;

    open spec fn view(&self) -> OutputShapeView {
        OutputShapeView {
            address: *self.address,
            token: match self.token {
                Some(token) => Some((AssetId { policy: token.policy@, name: token.name@ }, token.quantity)),
                None => None,
            },
        }
    }
}

impl OutputShapeView {
    /// The output of this shape that carries `lovelace`.
    pub open spec fn output(self, lovelace: u64) -> StagedOutput {
        match self.token {
            Some((asset, quantity)) => StagedOutput::paying(self.address, lovelace).with_token(asset, quantity),
            None => StagedOutput::paying(self.address, lovelace),
        }
    }
}

/// Why an output's least value is not known.
#[derive(Debug, Clone, Copy, PartialEq, Eq, Structural)]
pub enum FeeError {
    /// The output could not be written.
    Unwritable,
    /// The search did not end.
    NotConverged,
}

impl<'a> OutputShape<'a> {
    /// Whether the token, if any, has a name that the ledger takes and a
    /// quantity.
    pub open spec fn wf(self) -> bool {
        self.token matches Some(token) ==> token.name@.len() <= 32 && token.quantity > 0
    }

    /// The output of this shape that carries `lovelace`.
    pub(crate) fn output(&self, lovelace: u64) -> (output: Output)
        requires
            self.wf(),
        ensures
            output_parts(output) == self@.output(lovelace),
            output_parts(output).writable(),
    {
        let plain = new_output(self.address, lovelace);
        match &self.token {
            Some(token) => with_asset(plain, &token.policy, token.name.clone(), token.quantity),
            None => plain,
        }
    }
}

/// What an output of `shape` must carry when it carries `lovelace`: the
/// ledger's price for each byte of it. `None` where it cannot be written.
pub open spec fn required_lovelace(shape: OutputShapeView, coins_per_utxo_byte: u64, lovelace: u64) -> Option<int> {
    match output_cbor(shape.output(lovelace)) {
        Some(bytes) => Some(coins_per_utxo_byte * (OUTPUT_OVERHEAD_BYTES + bytes.len())),
        None => None,
    }
}

/// The search for an output's least value: from `lovelace` on, with `tries`
/// values left, a value that is not enough is followed by the one that it
/// asks for. `None` where that is more than 64 bits hold.
pub open spec fn least_lovelace(shape: OutputShapeView, coins_per_utxo_byte: u64, lovelace: u64, tries: nat) -> Option<
    Result<u64, FeeError>,
>
    decreases tries,
{
    if tries == 0 {
        Some(Err(FeeError::NotConverged))
    } else {
        match required_lovelace(shape, coins_per_utxo_byte, lovelace) {
            None => Some(Err(FeeError::Unwritable)),
            Some(required) => if required > u64::MAX {
                None
            } else if required <= lovelace {
                Some(Ok(lovelace))
            } else {
                least_lovelace(shape, coins_per_utxo_byte, required as u64, (tries - 1) as nat)
            },
        }
    }
}

/// The least value of an output of `shape`.
pub open spec fn min_utxo(shape: OutputShapeView, coins_per_utxo_byte: u64) -> Option<Result<u64, FeeError>> {
    least_lovelace(shape, coins_per_utxo_byte, FIRST_CANDIDATE_LOVELACE, CANDIDATES as nat)
}

/// The price of an output of some size, where 64 bits hold it.
fn price_of(size: usize, coins_per_utxo_byte: u64) -> (price: Option<u64>)
    ensures
        match price {
            Some(value) => value == coins_per_utxo_byte * (OUTPUT_OVERHEAD_BYTES + size),
            None => coins_per_utxo_byte * (OUTPUT_OVERHEAD_BYTES + size) > u64::MAX,
        },
{
    if coins_per_utxo_byte == 0 {
        return Some(0);
    }
    match OUTPUT_OVERHEAD_BYTES.checked_add(size as u64) {
        Some(bytes) => coins_per_utxo_byte.checked_mul(bytes),
        None => {
            assert(coins_per_utxo_byte * (OUTPUT_OVERHEAD_BYTES + size) >= OUTPUT_OVERHEAD_BYTES + size)
                by (nonlinear_arith)
                requires
                    coins_per_utxo_byte >= 1,
            ;
            None
        },
    }
}

/// The search for an output's least value. `None` where it leaves 64 bits.
fn search_least_lovelace(shape: &OutputShape<'_>, coins_per_utxo_byte: u64) -> (least: Option<Result<u64, FeeError>>)
    requires
        shape.wf(),
    ensures
        least == min_utxo(shape@, coins_per_utxo_byte),
{
    let mut lovelace: u64 = FIRST_CANDIDATE_LOVELACE;
    let mut tried: u64 = 0;
    while tried < CANDIDATES
        invariant
            shape.wf(),
            tried <= CANDIDATES,
            least_lovelace(shape@, coins_per_utxo_byte, lovelace, (CANDIDATES - tried) as nat) == min_utxo(
                shape@,
                coins_per_utxo_byte,
            ),
        decreases CANDIDATES - tried,
    {
        let output = shape.output(lovelace);
        match encode_output(&output) {
            Ok(bytes) => match price_of(bytes.len(), coins_per_utxo_byte) {
                Some(required) => {
                    if required <= lovelace {
                        return Some(Ok(lovelace));
                    }
                    lovelace = required;
                },
                None => return None,
            },
            Err(_) => return Some(Err(FeeError::Unwritable)),
        }
        tried = tried + 1;
    }
    Some(Err(FeeError::NotConverged))
}

/// The least value that an output of `shape` must carry.
pub fn min_utxo_lovelace(shape: &OutputShape<'_>, coins_per_utxo_byte: u64) -> (least: Result<u64, FeeError>)
    requires
        shape.wf(),
        min_utxo(shape@, coins_per_utxo_byte) is Some,
    ensures
        min_utxo(shape@, coins_per_utxo_byte) == Some(least),
{
    match search_least_lovelace(shape, coins_per_utxo_byte) {
        Some(least) => least,
        None => Err(FeeError::NotConverged),
    }
}

/// The least value that an output of `shape` must carry, or `None` where the
/// search leaves 64 bits.
pub fn checked_min_utxo_lovelace(shape: &OutputShape<'_>, coins_per_utxo_byte: u64) -> (least: Option<Result<u64, FeeError>>)
    requires
        shape.wf(),
    ensures
        least == min_utxo(shape@, coins_per_utxo_byte),
{
    match search_least_lovelace(shape, coins_per_utxo_byte) {
        Some(_) => Some(min_utxo_lovelace(shape, coins_per_utxo_byte)),
        None => None,
    }
}

/// A least value that was found is what an output must carry at least, and it
/// pays for the output that carries it.
pub proof fn lemma_least_lovelace_suffices(shape: OutputShapeView, coins_per_utxo_byte: u64, lovelace: u64, tries: nat)
    ensures
        least_lovelace(shape, coins_per_utxo_byte, lovelace, tries) matches Some(Ok(least)) ==> least >= lovelace && (
        required_lovelace(shape, coins_per_utxo_byte, least) matches Some(required) && required <= least),
    decreases tries,
{
    if tries > 0 {
        match required_lovelace(shape, coins_per_utxo_byte, lovelace) {
            Some(required) => if lovelace < required <= u64::MAX {
                lemma_least_lovelace_suffices(shape, coins_per_utxo_byte, required as u64, (tries - 1) as nat);
            },
            None => {},
        }
    }
}

/// Whether an output of `shape` never gets smaller when it carries more.
pub open spec fn size_grows(shape: OutputShapeView) -> bool {
    forall|less: u64, more: u64|
        #![trigger output_cbor(shape.output(less)), output_cbor(shape.output(more))]
        less <= more && output_cbor(shape.output(less)) is Some && output_cbor(shape.output(more)) is Some
            ==> output_cbor(shape.output(less))->0.len() <= output_cbor(shape.output(more))->0.len()
}

/// A least value that was found is the least from the first candidate on:
/// where an output does not get smaller when it carries more, no smaller value
/// pays for the output that carries it.
pub proof fn lemma_least_lovelace_is_least(
    shape: OutputShapeView,
    coins_per_utxo_byte: u64,
    lovelace: u64,
    tries: nat,
    least: u64,
    smaller: u64,
)
    requires
        size_grows(shape),
        least_lovelace(shape, coins_per_utxo_byte, lovelace, tries) == Some(Ok::<u64, FeeError>(least)),
        lovelace <= smaller < least,
    ensures
        !(required_lovelace(shape, coins_per_utxo_byte, smaller) matches Some(required) && required <= smaller),
    decreases tries,
{
    let required = required_lovelace(shape, coins_per_utxo_byte, lovelace)->0;
    if smaller < required {
        if output_cbor(shape.output(smaller)) is Some {
            let first = output_cbor(shape.output(lovelace))->0.len();
            let second = output_cbor(shape.output(smaller))->0.len();
            assert(first <= second);
            assert(coins_per_utxo_byte * (OUTPUT_OVERHEAD_BYTES + first) <= coins_per_utxo_byte * (
            OUTPUT_OVERHEAD_BYTES + second)) by (nonlinear_arith)
                requires
                    first <= second,
            ;
        }
    } else {
        lemma_least_lovelace_is_least(
            shape,
            coins_per_utxo_byte,
            required as u64,
            (tries - 1) as nat,
            least,
            smaller,
        );
    }
}

/// An output of a shape is at its address, carries the lovelace, and holds the
/// shape's token, if any, and nothing else.
pub proof fn lemma_shape_is_filled(shape: OutputShape<'_>, lovelace: u64)
    ensures
        shape@.output(lovelace).address == *shape.address,
        shape@.output(lovelace).lovelace == lovelace,
        shape@.output(lovelace).inline_datum is None,
        shape.token is None ==> shape@.output(lovelace).assets == Map::<AssetId, u64>::empty(),
        shape.token matches Some(token) ==> {
            let asset = AssetId { policy: token.policy@, name: token.name@ };
            &&& shape@.output(lovelace).assets.dom() == set![asset]
            &&& shape@.output(lovelace).assets[asset] == token.quantity
        },
        shape.wf() <==> (shape.token matches Some(token) ==> token.name@.len() <= 32 && token.quantity != 0),
{
    if let Some(token) = shape.token {
        let asset = AssetId { policy: token.policy@, name: token.name@ };
        assert(shape@.output(lovelace).assets.dom() =~= set![asset]);
    }
}

/// An output must carry the price of each of its bytes and of 160 more.
pub proof fn lemma_each_byte_is_paid(shape: OutputShapeView, coins_per_utxo_byte: u64, lovelace: u64)
    ensures
        required_lovelace(shape, coins_per_utxo_byte, lovelace) is Some <==> output_cbor(shape.output(lovelace)) is Some,
        output_cbor(shape.output(lovelace)) matches Some(bytes) ==> required_lovelace(
            shape,
            coins_per_utxo_byte,
            lovelace,
        ) == Some(coins_per_utxo_byte * bytes.len() + coins_per_utxo_byte * 160),
{
    if let Some(bytes) = output_cbor(shape.output(lovelace)) {
        let size = bytes.len();
        assert(coins_per_utxo_byte * (160 + size) == coins_per_utxo_byte * size + coins_per_utxo_byte * 160)
            by (nonlinear_arith);
    }
}

/// Values that follow each other as the search for an output's least value
/// does: the first is one million, and each one after it is what an output
/// with the one before it must carry, and more than that one.
pub open spec fn follow(shape: OutputShapeView, coins_per_utxo_byte: u64, values: Seq<u64>) -> bool {
    &&& 1 <= values.len() <= 5
    &&& values[0] == 1_000_000
    &&& forall|i: int|
        1 <= i < values.len() ==> values[i - 1] < #[trigger] values[i] && (output_cbor(
            shape.output(values[i - 1]),
        ) matches Some(bytes) && values[i] == coins_per_utxo_byte * (160 + bytes.len()))
}

/// The search for an output's least value ends at the first value that pays
/// for the output which carries it, at one that cannot be written, at a price
/// that 64 bits do not hold, or at a fifth value that is still not enough.
pub proof fn lemma_search(shape: OutputShapeView, coins_per_utxo_byte: u64, values: Seq<u64>)
    requires
        follow(shape, coins_per_utxo_byte, values),
    ensures
        match output_cbor(shape.output(values.last())) {
            None => min_utxo(shape, coins_per_utxo_byte) == Some(Err::<u64, FeeError>(FeeError::Unwritable)),
            Some(bytes) => {
                let price = coins_per_utxo_byte * (160 + bytes.len());
                &&& price <= values.last() ==> min_utxo(shape, coins_per_utxo_byte) == Some(
                    Ok::<u64, FeeError>(values.last()),
                )
                &&& price > 0xffff_ffff_ffff_ffff ==> min_utxo(shape, coins_per_utxo_byte) is None
                &&& values.last() < price <= 0xffff_ffff_ffff_ffff && values.len() == 5 ==> min_utxo(
                    shape,
                    coins_per_utxo_byte,
                ) == Some(Err::<u64, FeeError>(FeeError::NotConverged))
            },
        },
{
    lemma_search_reaches(shape, coins_per_utxo_byte, values, values.len() - 1);
    reveal_with_fuel(least_lovelace, 2);
}

/// The search goes on from each of the values that follow each other.
proof fn lemma_search_reaches(shape: OutputShapeView, coins_per_utxo_byte: u64, values: Seq<u64>, place: int)
    requires
        follow(shape, coins_per_utxo_byte, values),
        0 <= place < values.len(),
    ensures
        min_utxo(shape, coins_per_utxo_byte) == least_lovelace(
            shape,
            coins_per_utxo_byte,
            values[place],
            (5 - place) as nat,
        ),
    decreases place,
{
    if place > 0 {
        lemma_search_reaches(shape, coins_per_utxo_byte, values, place - 1);
        assert(values[place - 1] < values[place]);
    }
}

} // verus!
