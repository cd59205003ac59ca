//! Bech32 addresses: the payment key hash of one, and the parsed form that
//! outputs are paid to.

use pallas_addresses::{Address, ShelleyPaymentPart};
use vstd::prelude::*;

verus! {

/// `Address` of `pallas_addresses`.
#[verifier::external_type_specification]
#[verifier::external_body]
pub struct ExAddress(Address);

/// The error of `Address::from_bech32`.
#[verifier::external_type_specification]
#[verifier::external_body]
pub struct ExAddressError(pallas_addresses::Error);

/// Who can spend from an address.
#[derive(Debug, Clone, Copy, PartialEq, Eq)]
pub enum Payment {
    /// The holder of the key with this hash.
    Key([u8; 28]),
    /// The script with this hash.
    Script([u8; 28]),
    /// A Byron address.
    Byron,
    /// A stake address, which cannot be paid to.
    Stake,
}

/// What a [`Payment`] holds.
pub enum PaymentView {
    Key(Seq<u8>),
    Script(Seq<u8>),
    Byron,
    Stake,
}

impl View for Payment {
    type V = PaymentView;

    open spec fn view(&self) -> PaymentView {
        match *self {
            Payment::Key(hash) => PaymentView::Key(hash@),
            Payment::Script(hash) => PaymentView::Script(hash@),
            Payment::Byron => PaymentView::Byron,
            Payment::Stake => PaymentView::Stake,
        }
    }
}

/// Why an address cannot be used.
#[derive(Debug, Clone, Copy, PartialEq, Eq, Structural)]
pub enum AddressError {
    /// The text is no bech32 address.
    InvalidBech32,
    /// The address is no Shelley payment address.
    NotShelley,
    /// The address is a script's, not a key's.
    ScriptAddress,
}

/// The address that `Address::from_bech32` reads from a text.
pub uninterp spec fn bech32_address(text: Seq<char>) -> Option<Address>;

/// Who can spend from an address.
pub uninterp spec fn address_payment(address: Address) -> PaymentView;

impl PaymentView {
    /// The hash of the key that can spend, where it is a key that can.
    pub open spec fn key_hash(self) -> Result<Seq<u8>, AddressError> {
        match self {
            PaymentView::Key(hash) => Ok(hash),
            PaymentView::Script(_) => Err(AddressError::ScriptAddress),
            PaymentView::Byron => Err(AddressError::NotShelley),
            PaymentView::Stake => Err(AddressError::NotShelley),
        }
    }
}

/// The payment key hash of a bech32 address.
pub open spec fn key_hash_of(text: Seq<char>) -> Result<Seq<u8>, AddressError> {
    match bech32_address(text) {
        None => Err(AddressError::InvalidBech32),
        Some(address) => address_payment(address).key_hash(),
    }
}

/// `Address::from_bech32`.
#[verifier::external_body]
fn from_bech32(text: &str) -> (parsed: Result<Address, pallas_addresses::Error>)
    ensures
        parsed is Ok <==> bech32_address(text@) is Some,
        parsed matches Ok(address) ==> bech32_address(text@) == Some(address),
{
    Address::from_bech32(text)
}

/// The variants of `Address` told apart, and those of the payment part that
/// `ShelleyAddress::payment` gives.
#[verifier::external_body]
fn payment_of(address: &Address) -> (payment: Payment)
    ensures
        payment@ == address_payment(*address),
{
    match address {
        Address::Shelley(shelley) => match shelley.payment() {
            ShelleyPaymentPart::Key(hash) => Payment::Key(**hash),
            ShelleyPaymentPart::Script(hash) => Payment::Script(**hash),
        },
        Address::Byron(_) => Payment::Byron,
        Address::Stake(_) => Payment::Stake,
    }
}

impl Payment {
    /// The hash of the key that can spend, where it is a key that can.
    pub fn key_hash(&self) -> (hash: Result<[u8; 28], AddressError>)
        ensures
            match hash {
                Ok(bytes) => self@.key_hash() == Ok::<Seq<u8>, AddressError>(bytes@),
                Err(error) => self@.key_hash() == Err::<Seq<u8>, AddressError>(error),
            },
    {
        match *self {
            Payment::Key(hash) => Ok(hash),
            Payment::Script(_) => Err(AddressError::ScriptAddress),
            Payment::Byron => Err(AddressError::NotShelley),
            Payment::Stake => Err(AddressError::NotShelley),
        }
    }
}

/// The payment key hash of a bech32 address.
pub fn payment_key_hash(bech32_addr: &str) -> (hash: Result<[u8; 28], AddressError>)
    ensures
        match hash {
            Ok(bytes) => key_hash_of(bech32_addr@) == Ok::<Seq<u8>, AddressError>(bytes@),
            Err(error) => key_hash_of(bech32_addr@) == Err::<Seq<u8>, AddressError>(error),
        },
{
    match from_bech32(bech32_addr) {
        Ok(address) => payment_of(&address).key_hash(),
        Err(_) => Err(AddressError::InvalidBech32),
    }
}

/// The address that a bech32 text writes.
pub fn parse_address(bech32_addr: &str) -> (address: Result<Address, AddressError>)
    ensures
        match address {
            Ok(parsed) => bech32_address(bech32_addr@) == Some(parsed),
            Err(error) => bech32_address(bech32_addr@) is None && error == AddressError::InvalidBech32,
        },
{
    match from_bech32(bech32_addr) {
        Ok(address) => Ok(address),
        Err(_) => Err(AddressError::InvalidBech32),
    }
}

/// Whether two hashes are the same.
pub(crate) fn same_hash(one: &[u8; 28], other: &[u8; 28]) -> (same: bool)
    ensures
        same == (one@ == other@),
{
    for i in 0..28usize
        invariant
            forall|j: int| 0 <= j < i ==> one@[j] == other@[j],
    {
        if one[i] != other[i] {
            assert(one@[i as int] != other@[i as int]);
            return false;
        }
    }
    assert(one@ =~= other@);
    true
}

/// A bech32 text has a key hash exactly where it is the address of a key, and
/// then it is that key's. A text that is no address, the address of a script
/// and any other address are told apart.
pub proof fn lemma_key_hash_of(text: Seq<char>)
    ensures
        match bech32_address(text) {
            None => key_hash_of(text) == Err::<Seq<u8>, AddressError>(AddressError::InvalidBech32),
            Some(address) => match address_payment(address) {
                PaymentView::Key(hash) => key_hash_of(text) == Ok::<Seq<u8>, AddressError>(hash),
                PaymentView::Script(_) => key_hash_of(text) == Err::<Seq<u8>, AddressError>(
                    AddressError::ScriptAddress,
                ),
                _ => key_hash_of(text) == Err::<Seq<u8>, AddressError>(AddressError::NotShelley),
            },
        },
{
}

/// What is known of a payment is what it holds.
pub proof fn lemma_payment_shows_its_hash(hash: [u8; 28])
    ensures
        Payment::Key(hash)@ == PaymentView::Key(hash@),
        Payment::Script(hash)@ == PaymentView::Script(hash@),
        Payment::Byron@ is Byron,
        Payment::Stake@ is Stake,
{
}

} // verus!
