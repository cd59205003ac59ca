use milestone_escrow::address::{parse_address, payment_key_hash, AddressError, Payment};
use pallas_addresses::{Network, ShelleyAddress, ShelleyDelegationPart, ShelleyPaymentPart};

fn key_address(fill: u8) -> String {
    let payment = ShelleyPaymentPart::Key(pallas_crypto::hash::Hash::new([fill; 28]));
    ShelleyAddress::new(Network::Testnet, payment, ShelleyDelegationPart::Null).to_bech32().unwrap()
}

fn script_address(fill: u8) -> String {
    let payment = ShelleyPaymentPart::Script(pallas_crypto::hash::Hash::new([fill; 28]));
    ShelleyAddress::new(Network::Testnet, payment, ShelleyDelegationPart::Null).to_bech32().unwrap()
}

#[test]
fn a_key_address_has_its_key_hash() {
    assert_eq!(payment_key_hash(&key_address(0xaa)), Ok([0xaa; 28]));
    assert_eq!(payment_key_hash(&key_address(0xbb)), Ok([0xbb; 28]));
}

#[test]
fn other_addresses_have_none() {
    assert_eq!(payment_key_hash(&script_address(0xaa)), Err(AddressError::ScriptAddress));
    assert_eq!(payment_key_hash("addr_test1"), Err(AddressError::InvalidBech32));
    let key = ShelleyPaymentPart::Key(pallas_crypto::hash::Hash::new([1; 28]));
    let delegation = ShelleyDelegationPart::Key(pallas_crypto::hash::Hash::new([2; 28]));
    let shelley = ShelleyAddress::new(Network::Testnet, key, delegation);
    let stake: pallas_addresses::StakeAddress = shelley.try_into().unwrap();
    assert_eq!(payment_key_hash(&stake.to_bech32().unwrap()), Err(AddressError::NotShelley));
}

#[test]
fn payments_are_told_apart() {
    assert_eq!(Payment::Key([7; 28]).key_hash(), Ok([7; 28]));
    assert_eq!(Payment::Script([7; 28]).key_hash(), Err(AddressError::ScriptAddress));
    assert_eq!(Payment::Byron.key_hash(), Err(AddressError::NotShelley));
    assert_eq!(Payment::Stake.key_hash(), Err(AddressError::NotShelley));
}

#[test]
fn parsing_keeps_the_address() {
    let text = script_address(3);
    assert_eq!(parse_address(&text).unwrap().to_bech32().unwrap(), text);
    assert_eq!(parse_address("nonsense").unwrap_err(), AddressError::InvalidBech32);
}
