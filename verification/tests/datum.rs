use milestone_escrow::datum::{
    milestone_asset_name, void_redeemer_cbor, Datum, DatumError, DatumField, FieldFault, Redeemer, NO_DEADLINE_SENTINEL,
};
use pallas_codec::minicbor;
use pallas_codec::utils::MaybeIndefArray;
use pallas_primitives::conway::{BigInt, BoundedBytes, Constr, PlutusData};

fn pd_int(i: i64) -> PlutusData {
    PlutusData::BigInt(BigInt::Int(i.into()))
}

fn pd_bytes(bs: &[u8]) -> PlutusData {
    PlutusData::BoundedBytes(BoundedBytes::from(bs.to_vec()))
}

fn pd_bool(b: bool) -> PlutusData {
    pd_constr(if b { 122 } else { 121 }, vec![])
}

fn pd_array(xs: Vec<PlutusData>) -> PlutusData {
    PlutusData::Array(MaybeIndefArray::Def(xs))
}

fn pd_constr(tag: u64, fields: Vec<PlutusData>) -> PlutusData {
    PlutusData::Constr(Constr { tag, any_constructor: None, fields: MaybeIndefArray::Def(fields) })
}

fn encode(data: &PlutusData) -> Vec<u8> {
    minicbor::to_vec(data).unwrap()
}

fn sample() -> Datum {
    Datum {
        reviewer: [0x11; 28],
        proposer: [0x22; 28],
        total_locked: 100_000_000,
        tranche_bps: vec![4000, 3000, 3000],
        approved: vec![true, false, false],
        released_count: 0,
        receipt_policy_id: [0x33; 28],
        review_deadline: None,
        unspendable_legacy_shape: false,
    }
}

fn sample_fields() -> Vec<PlutusData> {
    vec![
        pd_bytes(&[0x11; 28]),
        pd_bytes(&[0x22; 28]),
        pd_int(100_000_000),
        pd_array(vec![pd_int(4000), pd_int(3000), pd_int(3000)]),
        pd_array(vec![pd_bool(true), pd_bool(false), pd_bool(false)]),
        pd_int(0),
        pd_bytes(&[0x33; 28]),
        pd_int(NO_DEADLINE_SENTINEL),
    ]
}

#[test]
fn datum_round_trips_through_cbor() {
    let datum = sample();
    let bytes = datum.to_cbor().unwrap();
    let decoded = Datum::from_inline_datum_hex(&hex::encode(&bytes)).unwrap();
    assert_eq!(datum, decoded);
}

#[test]
fn datum_decodes_legacy_seven_field_shape() {
    let legacy = pd_constr(
        121,
        vec![
            pd_bytes(&[0x11; 28]),
            pd_bytes(&[0x22; 28]),
            pd_int(100_000_000),
            pd_array(vec![pd_int(4000), pd_int(3000), pd_int(3000)]),
            pd_array(vec![pd_bool(true), pd_bool(false), pd_bool(false)]),
            pd_int(0),
            pd_bytes(&[0x33; 28]),
        ],
    );
    let bytes = encode(&legacy);
    let decoded = Datum::from_inline_datum_hex(&hex::encode(&bytes)).unwrap();
    assert_eq!(decoded.review_deadline, None);
    assert!(decoded.unspendable_legacy_shape, "a genuinely 7-field datum must be flagged unspendable");
    assert_eq!(decoded, Datum { unspendable_legacy_shape: true, ..sample() });
}

#[test]
fn datum_encodes_none_deadline_as_eight_fields_with_sentinel() {
    let datum = sample();
    assert_eq!(datum.review_deadline, None);

    let PlutusData::Constr(c) = datum.to_plutus_data() else { panic!("not a Constr") };
    let fields: Vec<PlutusData> = c.fields.into();
    assert_eq!(fields.len(), 8, "must always encode all 8 fields, never drop review_deadline");

    let PlutusData::BigInt(BigInt::Int(last)) = fields.into_iter().next_back().unwrap() else {
        panic!("8th field not an Int")
    };
    assert_eq!(i128::from(last), NO_DEADLINE_SENTINEL as i128);
}

#[test]
fn datum_round_trips_with_review_deadline() {
    let datum = Datum { review_deadline: Some(1_800_000_000_000), ..sample() };
    let bytes = datum.to_cbor().unwrap();
    let decoded = Datum::from_inline_datum_hex(&hex::encode(&bytes)).unwrap();
    assert_eq!(datum, decoded);
    assert_eq!(decoded.review_deadline, Some(1_800_000_000_000));
}

#[test]
fn redeemer_tags_match_aiken() {
    let approve = Redeemer::ApproveMilestone(0).to_plutus_data();
    let PlutusData::Constr(c) = &approve else { panic!("not a Constr") };
    assert_eq!(c.tag, 121);

    let claim_expired = Redeemer::ClaimExpired(1).to_plutus_data();
    let PlutusData::Constr(c) = &claim_expired else { panic!("not a Constr") };
    assert_eq!(c.tag, 123);

    let release = Redeemer::ReleaseTranche(2).to_plutus_data();
    let PlutusData::Constr(c) = &release else { panic!("not a Constr") };
    assert_eq!(c.tag, 122);
}

#[test]
fn milestone_asset_name_matches_aiken() {
    assert_eq!(hex::encode(milestone_asset_name(0)), "4d696c6573746f6e6500");
    assert_eq!(hex::encode(milestone_asset_name(2)), "4d696c6573746f6e6502");
}

#[test]
fn plutus_data_is_that_of_the_fields() {
    let datum = Datum { review_deadline: Some(7), ..sample() };
    let mut fields = sample_fields();
    fields[7] = pd_int(7);
    assert_eq!(datum.to_plutus_data(), pd_constr(121, fields));
}

#[test]
fn redeemers_have_known_bytes() {
    assert_eq!(hex::encode(Redeemer::ApproveMilestone(0).to_cbor().unwrap()), "d8798100");
    assert_eq!(hex::encode(Redeemer::ReleaseTranche(2).to_cbor().unwrap()), "d87a8102");
    assert_eq!(hex::encode(Redeemer::ClaimExpired(1).to_cbor().unwrap()), "d87b8101");
    assert_eq!(hex::encode(void_redeemer_cbor().unwrap()), "d87980");
}

#[test]
fn inline_datum_may_have_a_prefix() {
    let bytes = sample().to_cbor().unwrap();
    let text = format!("0x{}", hex::encode(bytes));
    assert_eq!(Datum::from_inline_datum_hex(&text), Ok(sample()));
}

#[test]
fn a_deadline_at_the_sentinel_reads_back_as_none() {
    let datum = Datum { review_deadline: Some(i64::MAX), ..sample() };
    let bytes = datum.to_cbor().unwrap();
    assert_eq!(Datum::from_inline_datum_hex(&hex::encode(bytes)), Ok(sample()));
}

#[test]
fn broken_texts_are_told_apart() {
    assert_eq!(Datum::from_inline_datum_hex("xyz"), Err(DatumError::InvalidHex));
    assert_eq!(Datum::from_inline_datum_hex("abc"), Err(DatumError::InvalidHex));
    assert_eq!(Datum::from_inline_datum_hex("ff"), Err(DatumError::InvalidCbor));
    assert_eq!(Datum::from_plutus_data(&pd_int(3)), Err(DatumError::NotConstr));
    assert_eq!(Datum::from_plutus_data(&pd_constr(122, vec![])), Err(DatumError::WrongTag(122)));
    assert_eq!(Datum::from_plutus_data(&pd_constr(121, vec![])), Err(DatumError::FieldCount(0)));
}

#[test]
fn broken_fields_are_told_apart() {
    let with = |place: usize, data: PlutusData| {
        let mut fields = sample_fields();
        fields[place] = data;
        Datum::from_plutus_data(&pd_constr(121, fields))
    };
    assert_eq!(with(0, pd_int(1)), Err(DatumError::Field(DatumField::Reviewer, FieldFault::NotBytes)));
    assert_eq!(
        with(1, pd_bytes(&[1; 27])),
        Err(DatumError::Field(DatumField::Proposer, FieldFault::WrongLength(27)))
    );
    assert_eq!(with(2, pd_bytes(&[1])), Err(DatumError::Field(DatumField::TotalLocked, FieldFault::NotInteger)));
    assert_eq!(
        with(2, PlutusData::BigInt(BigInt::Int((1i128 << 63).try_into().unwrap()))),
        Err(DatumError::Field(DatumField::TotalLocked, FieldFault::OutOfRange))
    );
    assert_eq!(with(3, pd_int(1)), Err(DatumError::Field(DatumField::TrancheBps, FieldFault::NotList)));
    assert_eq!(
        with(4, pd_array(vec![pd_constr(123, vec![])])),
        Err(DatumError::Field(DatumField::Approved, FieldFault::NotBool(123)))
    );
    assert_eq!(
        with(4, pd_array(vec![pd_int(0)])),
        Err(DatumError::Field(DatumField::Approved, FieldFault::NotConstr))
    );
    assert_eq!(
        with(7, pd_array(vec![])),
        Err(DatumError::Field(DatumField::ReviewDeadline, FieldFault::NotInteger))
    );
    assert_eq!(with(7, pd_int(5)), Ok(Datum { review_deadline: Some(5), ..sample() }));
}

#[test]
fn indefinite_lists_are_read_too() {
    let fields = vec![
        pd_bytes(&[0x11; 28]),
        pd_bytes(&[0x22; 28]),
        pd_int(100_000_000),
        PlutusData::Array(MaybeIndefArray::Indef(vec![pd_int(4000), pd_int(3000), pd_int(3000)])),
        PlutusData::Array(MaybeIndefArray::Indef(vec![pd_bool(true), pd_bool(false), pd_bool(false)])),
        pd_int(0),
        pd_bytes(&[0x33; 28]),
        pd_int(NO_DEADLINE_SENTINEL),
    ];
    let data =
        PlutusData::Constr(Constr { tag: 121, any_constructor: None, fields: MaybeIndefArray::Indef(fields) });
    assert_eq!(Datum::from_inline_datum_hex(&hex::encode(encode(&data))), Ok(sample()));
}

#[test]
fn json_shows_hashes_as_hexadecimal_text() {
    let json = Datum { review_deadline: Some(9), ..sample() }.to_json();
    assert_eq!(json.reviewer, "11".repeat(28));
    assert_eq!(json.proposer, "22".repeat(28));
    assert_eq!(json.receipt_policy_id, "33".repeat(28));
    assert_eq!(json.total_locked, 100_000_000);
    assert_eq!(json.tranche_bps, vec![4000, 3000, 3000]);
    assert_eq!(json.approved, vec![true, false, false]);
    assert_eq!(json.released_count, 0);
    assert_eq!(json.review_deadline, Some(9));
}
