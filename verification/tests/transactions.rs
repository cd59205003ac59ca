use milestone_escrow::address::{parse_address, AddressError};
use milestone_escrow::blockfrost_client::{ChainTip, EscrowUtxo};
use milestone_escrow::config::Config;
use milestone_escrow::datum::{milestone_asset_name, Datum, Redeemer};
use milestone_escrow::fees::{
    checked_min_utxo_lovelace, linear_fee, min_utxo_lovelace, FeeError, OutputShape, Token, VKEY_WITNESS_CBOR_BYTES,
};
use milestone_escrow::ledger::{ExUnits, TxInput};
use milestone_escrow::tx::approve::{self, placeholder_ex_units, ApproveMilestoneRequest, ApprovePrices};
use milestone_escrow::tx::claim_expired::{self, ClaimExpiredRequest};
use milestone_escrow::tx::create_escrow::{self, CreateEscrowRequest};
use milestone_escrow::tx::release::{self, ReleaseTrancheRequest};
use milestone_escrow::tx::tranche::tranche_share;
use milestone_escrow::tx::{settle_fee, BuildError, FeeDraft, UtxoRef};
use pallas_addresses::{Network, ShelleyAddress, ShelleyDelegationPart, ShelleyPaymentPart};
use pallas_codec::minicbor;
use pallas_primitives::conway::{PostAlonzoTransactionOutput, TransactionOutput, Tx, Value};
use pallas_txbuilder::{BuildConway, Input, Output, ScriptKind, StagingTransaction};

const MIN_FEE_A: u64 = 44;
const MIN_FEE_B: u64 = 155_381;
const COINS_PER_UTXO_BYTE: u64 = 4310;

fn key_address(fill: u8) -> String {
    let payment = ShelleyPaymentPart::Key(pallas_crypto::hash::Hash::new([fill; 28]));
    ShelleyAddress::new(Network::Testnet, payment, ShelleyDelegationPart::Null).to_bech32().unwrap()
}

fn script_address() -> String {
    let payment = ShelleyPaymentPart::Script(pallas_crypto::hash::Hash::new([0xee; 28]));
    ShelleyAddress::new(Network::Testnet, payment, ShelleyDelegationPart::Null).to_bech32().unwrap()
}

fn utxo_ref(fill: &str, output_index: u64) -> UtxoRef {
    UtxoRef { tx_hash: fill.repeat(32), output_index }
}

fn input(fill: u8, output_index: u64) -> Input {
    Input::new(pallas_crypto::hash::Hash::new([fill; 32]), output_index)
}

fn address(text: &str) -> pallas_addresses::Address {
    parse_address(text).unwrap()
}

fn config() -> Config {
    Config {
        blockfrost_project_id: String::new(),
        bind_addr: String::new(),
        frontend_origin: String::new(),
        escrow_address: script_address(),
        receipt_policy_id: "33".repeat(28),
        escrow_compiled_code: "010203".to_string(),
        receipt_compiled_code: "040506".to_string(),
        grants_meta_path: String::new(),
        ignored_grant_ids: vec![],
    }
}

fn datum() -> Datum {
    Datum {
        reviewer: [0xbb; 28],
        proposer: [0xaa; 28],
        total_locked: 100_000_000,
        tranche_bps: vec![4000, 3000, 3000],
        approved: vec![false, false, false],
        released_count: 0,
        receipt_policy_id: [0x33; 28],
        review_deadline: None,
        unspendable_legacy_shape: false,
    }
}

fn escrow(datum: Datum) -> EscrowUtxo {
    EscrowUtxo { tx_hash: "05".repeat(32), output_index: 1, lovelace: 100_000_000, datum }
}

fn outputs(tx: &Tx) -> Vec<PostAlonzoTransactionOutput<'static>> {
    let mut found = Vec::new();
    for output in tx.transaction_body.outputs.iter() {
        let bytes = minicbor::to_vec(output).unwrap();
        let leaked: &'static [u8] = Box::leak(bytes.into_boxed_slice());
        match minicbor::decode::<TransactionOutput>(leaked).unwrap() {
            TransactionOutput::PostAlonzo(inner) => found.push((*inner).clone()),
            TransactionOutput::Legacy(_) => panic!("legacy output"),
        }
    }
    found
}

fn coin(output: &PostAlonzoTransactionOutput) -> u64 {
    match &output.value {
        Value::Coin(coin) => *coin,
        Value::Multiasset(coin, _) => *coin,
    }
}

#[test]
fn fees_are_linear_in_the_size() {
    assert_eq!(linear_fee(300, 44, 155_381), 168_581);
    assert_eq!(linear_fee(0, 44, 7), 7);
    assert_eq!(linear_fee(10, 0, 0), 0);
    assert_eq!(VKEY_WITNESS_CBOR_BYTES, 108);
}

#[test]
fn utxo_refs_are_64_hexadecimal_digits() {
    assert_eq!(utxo_ref("0a", 3).to_input(), Ok(TxInput { tx_hash: [10; 32], output_index: 3 }));
    assert_eq!(utxo_ref("FF", 0).to_input(), Ok(TxInput { tx_hash: [255; 32], output_index: 0 }));
    assert_eq!(utxo_ref("a", 0).to_input(), Err(BuildError::InvalidTxHash));
    assert_eq!(utxo_ref("0g", 0).to_input(), Err(BuildError::InvalidTxHash));
    assert_eq!(utxo_ref("0a0a", 0).to_input(), Err(BuildError::InvalidTxHash));
}

#[test]
fn least_values_pay_for_their_outputs() {
    let target = address(&key_address(0xbb));
    let plain = OutputShape { address: &target, token: None };
    let with_token = OutputShape {
        address: &target,
        token: Some(Token { policy: [0x33; 28], name: milestone_asset_name(1), quantity: 1 }),
    };
    // A plain output to this address is 38 bytes long, or 40 where its value
    // needs four bytes.
    let size = |shape: &OutputShape, lovelace: u64| {
        let mut output = Output::new(shape.address.clone(), lovelace);
        if let Some(token) = &shape.token {
            output = output
                .add_asset(pallas_crypto::hash::Hash::new(token.policy), token.name.clone(), token.quantity)
                .unwrap();
        }
        minicbor::to_vec(output.build_babbage_raw().unwrap()).unwrap().len() as u64
    };
    for shape in [&plain, &with_token] {
        let least = min_utxo_lovelace(shape, COINS_PER_UTXO_BYTE).unwrap();
        assert!(least >= COINS_PER_UTXO_BYTE * (160 + size(shape, least)));
        if least > 1_000_000 {
            assert!(least - 1 < COINS_PER_UTXO_BYTE * (160 + size(shape, least - 1)));
            assert!(1_000_000 < COINS_PER_UTXO_BYTE * (160 + size(shape, 1_000_000)));
        }
        assert_eq!(checked_min_utxo_lovelace(shape, COINS_PER_UTXO_BYTE), Some(Ok(least)));
    }
    assert_eq!(min_utxo_lovelace(&plain, 1), Ok(1_000_000));
    let first = COINS_PER_UTXO_BYTE * (160 + size(&with_token, 1_000_000));
    assert_eq!(min_utxo_lovelace(&with_token, COINS_PER_UTXO_BYTE), Ok(first));
    assert_eq!(checked_min_utxo_lovelace(&plain, u64::MAX), None);
    assert_ne!(Some(Err(FeeError::NotConverged)), checked_min_utxo_lovelace(&plain, 0));
}

fn create_request() -> CreateEscrowRequest {
    CreateEscrowRequest {
        proposer_address: key_address(0xaa),
        reviewer_address: key_address(0xbb),
        tranche_bps: vec![4000, 3000, 3000],
        total_locked: 100_000_000,
        fee_input: utxo_ref("00", 0),
        fee_input_lovelace: 1_000_000_000_000,
        review_deadline: None,
    }
}

fn create(req: &CreateEscrowRequest) -> Option<Result<Vec<u8>, BuildError>> {
    create_escrow::checked_build(req, &script_address(), &[0x33; 28], MIN_FEE_A, MIN_FEE_B)
}

#[test]
fn an_escrow_is_created_with_a_settled_fee() {
    let req = create_request();
    let built = create(&req).unwrap().unwrap();
    let expected_with = |fee: u64| {
        StagingTransaction::new()
            .input(input(0, 0))
            .output(
                Output::new(address(&script_address()), req.total_locked)
                    .set_inline_datum(datum().to_cbor().unwrap()),
            )
            .fee(fee)
            .output(Output::new(address(&key_address(0xbb)), req.fee_input_lovelace - req.total_locked - fee))
            .build_conway_raw()
            .unwrap()
            .tx_bytes
            .0
    };
    let fee = MIN_FEE_A * (built.len() as u64 + 108) + MIN_FEE_B;
    assert_eq!(built, expected_with(fee));
    assert_eq!(create_escrow::build(&req, &script_address(), &[0x33; 28], MIN_FEE_A, MIN_FEE_B), Ok(built));
}

#[test]
fn a_created_escrow_balances() {
    let built = create(&create_request()).unwrap().unwrap();
    let tx: Tx = minicbor::decode(&built).unwrap();
    let paid: u64 = outputs(&tx).iter().map(coin).sum();
    assert_eq!(paid + tx.transaction_body.fee, 1_000_000_000_000);
    assert_eq!(coin(&outputs(&tx)[0]), 100_000_000);
    let option = minicbor::to_vec(outputs(&tx)[0].datum_option.as_ref().unwrap()).unwrap();
    let text = hex::encode(option);
    let bytes = hex::encode(datum().to_cbor().unwrap());
    let read = Datum::from_inline_datum_hex(&text[text.find(&bytes).unwrap()..]);
    assert_eq!(read, Ok(datum()));
}

#[test]
fn faults_in_a_creation_are_told_apart() {
    let fault = |change: &dyn Fn(&mut CreateEscrowRequest)| {
        let mut req = create_request();
        change(&mut req);
        create(&req)
    };
    assert_eq!(fault(&|r| r.tranche_bps.clear()), Some(Err(BuildError::NoTranches)));
    assert_eq!(fault(&|r| r.tranche_bps[0] = 1), Some(Err(BuildError::TranchesNotWhole)));
    assert_eq!(fault(&|r| r.tranche_bps = vec![i64::MAX, 1]), None);
    assert_eq!(fault(&|r| r.total_locked = 0), Some(Err(BuildError::NothingLocked)));
    assert_eq!(
        fault(&|r| r.reviewer_address = script_address()),
        Some(Err(BuildError::Address(AddressError::ScriptAddress)))
    );
    assert_eq!(
        fault(&|r| r.proposer_address = "x".to_string()),
        Some(Err(BuildError::Address(AddressError::InvalidBech32)))
    );
    assert_eq!(fault(&|r| r.fee_input.tx_hash = "x".to_string()), Some(Err(BuildError::InvalidTxHash)));
    assert_eq!(
        fault(&|r| r.fee_input_lovelace = 100_000_000),
        Some(Err(BuildError::NotCovered { available: 100_000_000, needed: 100_000_000, fee: 0 }))
    );
    assert_eq!(fault(&|r| r.total_locked = u64::MAX).map(|built| built.is_err()), Some(true));
    assert_eq!(
        create_escrow::checked_build(&create_request(), &script_address(), &[0x33; 28], u64::MAX, 0),
        None
    );
}

#[test]
fn tranches_may_be_negative_if_they_sum_up() {
    let mut req = create_request();
    req.tranche_bps = vec![-1, 10_001];
    assert!(matches!(create(&req), Some(Ok(_))));
}

fn approve_request() -> ApproveMilestoneRequest {
    ApproveMilestoneRequest {
        milestone_index: 1,
        reviewer_address: key_address(0xbb),
        tx_hash: "05".repeat(32),
        output_index: 1,
        fee_input: utxo_ref("06", 2),
        fee_input_lovelace: 50_000_000,
        collateral: utxo_ref("07", 3),
    }
}

#[test]
fn an_approval_is_built() {
    let plan = approve::prepare(&approve_request(), &config(), &escrow(datum())).unwrap();
    let prices = plan.price(COINS_PER_UTXO_BYTE).unwrap().unwrap();
    assert!(prices.receipt_lovelace > 1_000_000);
    assert_eq!(prices.change_floor, 1_000_000);
    let model = vec![1, 2, 3];

    let first = plan.draft(prices, &model, placeholder_ex_units(), placeholder_ex_units());
    let draft_bytes = first.assemble(0).unwrap().unwrap();
    let draft_tx: Tx = minicbor::decode(&draft_bytes).unwrap();
    assert_eq!(draft_tx.transaction_body.fee, 0);

    let spend = ExUnits { mem: 1000, steps: 2000 };
    let mint = ExUnits { mem: 3000, steps: 4000 };
    let draft = plan.draft(prices, &model, spend, mint);
    let built = settle_fee(&draft, 777, MIN_FEE_A, MIN_FEE_B).unwrap().unwrap();
    let tx: Tx = minicbor::decode(&built).unwrap();
    let body = &tx.transaction_body;

    assert_eq!(body.fee, MIN_FEE_A * (built.len() as u64 + 108) + MIN_FEE_B + 777);
    let paid: u64 = outputs(&tx).iter().map(coin).sum();
    assert_eq!(paid + body.fee, 150_000_000);
    assert_eq!(outputs(&tx).len(), 3);
    assert_eq!(coin(&outputs(&tx)[0]), 100_000_000);
    assert_eq!(coin(&outputs(&tx)[1]), prices.receipt_lovelace);
    let inputs: Vec<(Vec<u8>, u64)> =
        body.inputs.iter().map(|i| (i.transaction_id.to_vec(), i.index)).collect();
    assert_eq!(inputs, vec![(vec![5; 32], 1), (vec![6; 32], 2)]);
    let collateral: Vec<u64> = body.collateral.as_ref().unwrap().iter().map(|i| i.index).collect();
    assert_eq!(collateral, vec![3]);
    let signers: Vec<Vec<u8>> = body.required_signers.as_ref().unwrap().iter().map(|s| s.to_vec()).collect();
    assert_eq!(signers, vec![vec![0xbb; 28]]);
    let mint_map = body.mint.as_ref().unwrap();
    assert_eq!(mint_map.len(), 1);
    let (policy, assets) = mint_map.iter().next().unwrap();
    assert_eq!(policy.to_vec(), vec![0x33; 28]);
    assert_eq!(assets.len(), 1);
    let (name, quantity) = assets.iter().next().unwrap();
    assert_eq!(name.to_vec(), milestone_asset_name(1));
    assert_eq!(i64::from(quantity), 1);

    let mut approved = datum();
    approved.approved[1] = true;
    let Some(datum_option) = outputs(&tx)[0].datum_option.clone() else { panic!("no datum") };
    assert!(hex::encode(minicbor::to_vec(&datum_option).unwrap())
        .contains(&hex::encode(approved.to_cbor().unwrap())));
    assert_eq!(tx.transaction_witness_set.plutus_v3_script.as_ref().unwrap().len(), 2);
    let witness = hex::encode(&built);
    assert!(witness.contains(&hex::encode(Redeemer::ApproveMilestone(1).to_cbor().unwrap())));
}

#[test]
fn little_change_goes_into_the_fee() {
    let plan = approve::prepare(&approve_request(), &config(), &escrow(datum())).unwrap();
    let prices = ApprovePrices { receipt_lovelace: 49_000_000, change_floor: 1_000_000 };
    let draft = plan.draft(prices, &Vec::new(), placeholder_ex_units(), placeholder_ex_units()).assemble(1);
    let bytes = draft.unwrap().unwrap();
    let tx: Tx = minicbor::decode(&bytes).unwrap();
    assert_eq!(outputs(&tx).len(), 2);
    assert_eq!(tx.transaction_body.fee, 1_000_000);
    let draft = plan.draft(prices, &Vec::new(), placeholder_ex_units(), placeholder_ex_units()).assemble(0);
    let bytes = draft.unwrap().unwrap();
    let tx: Tx = minicbor::decode(&bytes).unwrap();
    assert_eq!(coin(&outputs(&tx)[2]), 1_000_000);
    assert_eq!(tx.transaction_body.fee, 0);
}

#[test]
fn fees_that_are_not_covered_are_refused() {
    let plan = approve::prepare(&approve_request(), &config(), &escrow(datum())).unwrap();
    let prices = ApprovePrices { receipt_lovelace: 49_000_000, change_floor: 1_000_000 };
    let units = placeholder_ex_units();
    let assemble = |fee: u64| plan.draft(prices, &Vec::new(), units, units).assemble(fee);
    assert_eq!(
        assemble(1_000_000),
        Some(Err(BuildError::NotCovered { available: 50_000_000, needed: 49_000_000, fee: 1_000_000 }))
    );
    assert_eq!(assemble(u64::MAX), None);
    assert_eq!(units, ExUnits { mem: 14_000_000, steps: 10_000_000_000 });
    let mut poor = approve_request();
    poor.fee_input_lovelace = 1_000_000;
    let plan = approve::prepare(&poor, &config(), &escrow(datum())).unwrap();
    assert!(matches!(
        plan.price(COINS_PER_UTXO_BYTE),
        Some(Err(BuildError::ReceiptNotCovered { available: 1_000_000, .. }))
    ));
    assert!(plan.price(u64::MAX).is_none());
}

#[test]
fn faults_in_an_approval_are_told_apart() {
    let fault = |change: &dyn Fn(&mut ApproveMilestoneRequest, &mut Config, &mut EscrowUtxo)| {
        let (mut req, mut config, mut escrow) = (approve_request(), config(), escrow(datum()));
        change(&mut req, &mut config, &mut escrow);
        approve::prepare(&req, &config, &escrow).err()
    };
    assert_eq!(fault(&|_, _, _| {}), None);
    assert_eq!(fault(&|r, _, _| r.milestone_index = 3), Some(BuildError::MilestoneOutOfRange));
    assert_eq!(fault(&|_, _, e| e.datum.approved[1] = true), Some(BuildError::AlreadyApproved));
    assert_eq!(fault(&|r, _, _| r.reviewer_address = key_address(0xaa)), Some(BuildError::ReviewerMismatch));
    assert_eq!(
        fault(&|r, _, _| r.reviewer_address = script_address()),
        Some(BuildError::Address(AddressError::ScriptAddress))
    );
    assert_eq!(fault(&|_, c, _| c.receipt_policy_id = "33".to_string()), Some(BuildError::InvalidPolicyId));
    assert_eq!(fault(&|_, _, e| e.tx_hash = "x".to_string()), Some(BuildError::InvalidTxHash));
    assert_eq!(fault(&|r, _, _| r.collateral.tx_hash = "x".to_string()), Some(BuildError::InvalidTxHash));
    assert_eq!(
        fault(&|_, c, _| c.escrow_address = "x".to_string()),
        Some(BuildError::Address(AddressError::InvalidBech32))
    );
    assert_eq!(fault(&|_, c, _| c.escrow_compiled_code = "x".to_string()), Some(BuildError::InvalidEscrowCode));
    assert_eq!(fault(&|_, c, _| c.receipt_compiled_code = "x".to_string()), Some(BuildError::InvalidReceiptCode));
}

fn claim_request(milestone_index: u8) -> ClaimExpiredRequest {
    ClaimExpiredRequest {
        milestone_index,
        submitter_address: key_address(0xcc),
        proposer_address: key_address(0xaa),
        tx_hash: "05".repeat(32),
        output_index: 1,
        fee_input: utxo_ref("06", 2),
        fee_input_lovelace: 50_000_000,
        collateral: utxo_ref("07", 3),
    }
}

fn release_request(milestone_index: u8) -> ReleaseTrancheRequest {
    ReleaseTrancheRequest {
        milestone_index,
        submitter_address: key_address(0xcc),
        proposer_address: key_address(0xaa),
        tx_hash: "05".repeat(32),
        output_index: 1,
        fee_input: utxo_ref("06", 2),
        fee_input_lovelace: 50_000_000,
        collateral: utxo_ref("07", 3),
    }
}

fn expired(released_count: i64) -> Datum {
    Datum { released_count, review_deadline: Some(1_000), ..datum() }
}

const TIP: ChainTip = ChainTip { time_ms: 1_001, slot: 55 };

fn payout_tx(
    redeemer: Redeemer,
    valid_from: Option<u64>,
    payout: u64,
    rest: Option<(u64, Datum)>,
    model: &[i64],
    units: ExUnits,
    fee: u64,
) -> Vec<u8> {
    let mut tx = StagingTransaction::new()
        .input(input(5, 1))
        .input(input(6, 2))
        .collateral_input(input(7, 3))
        .output(Output::new(address(&key_address(0xaa)), payout))
        .script(ScriptKind::PlutusV3, vec![1, 2, 3])
        .add_spend_redeemer(
            input(5, 1),
            redeemer.to_cbor().unwrap(),
            Some(pallas_txbuilder::ExUnits { mem: units.mem, steps: units.steps }),
        )
        .add_language(ScriptKind::PlutusV3, model.to_vec())
        .fee(fee);
    if let Some(slot) = valid_from {
        tx = tx.valid_from_slot(slot);
    }
    if let Some((lovelace, datum)) = rest {
        tx = tx.output(
            Output::new(address(&script_address()), lovelace).set_inline_datum(datum.to_cbor().unwrap()),
        );
    }
    tx.output(Output::new(address(&key_address(0xcc)), 50_000_000 - fee)).build_conway_raw().unwrap().tx_bytes.0
}

#[test]
fn an_expired_tranche_is_claimed() {
    let plan = claim_expired::prepare(&claim_request(1), &config(), &escrow(expired(1)), &TIP).unwrap().unwrap();
    let floor = plan.price(COINS_PER_UTXO_BYTE).unwrap().unwrap();
    assert_eq!(floor, 1_000_000);
    let model = vec![9, 8];
    let units = ExUnits { mem: 5, steps: 6 };
    let built = plan.draft(floor, &model, units).finish(777, MIN_FEE_A, MIN_FEE_B).unwrap().unwrap();
    let fee = MIN_FEE_A * (built.len() as u64 + 108) + MIN_FEE_B + 777;
    let expected = payout_tx(
        Redeemer::ClaimExpired(1),
        Some(55),
        30_000_000,
        Some((70_000_000, expired(2))),
        &model,
        units,
        fee,
    );
    assert_eq!(built, expected);
}

#[test]
fn the_last_tranche_drains_the_escrow() {
    let mut approved = datum();
    approved.approved[2] = true;
    approved.released_count = 2;
    let mut last = escrow(approved);
    last.lovelace = 30_000_001;
    let plan = release::prepare(&release_request(2), &config(), &last).unwrap().unwrap();
    let units = ExUnits { mem: 5, steps: 6 };
    let model = vec![9, 8];
    let built = plan.draft(1_000_000, &model, units).finish(0, MIN_FEE_A, MIN_FEE_B).unwrap().unwrap();
    let fee = MIN_FEE_A * (built.len() as u64 + 108) + MIN_FEE_B;
    assert_eq!(built, payout_tx(Redeemer::ReleaseTranche(2), None, 30_000_001, None, &model, units, fee));
    let tx: Tx = minicbor::decode(&built).unwrap();
    let paid: u64 = outputs(&tx).iter().map(coin).sum();
    assert_eq!(paid + tx.transaction_body.fee, 80_000_001);
    assert_eq!(outputs(&tx).len(), 2);
}

#[test]
fn payouts_that_are_not_covered_are_refused() {
    let mut poor = escrow(expired(1));
    poor.lovelace = 29_999_999;
    let plan = claim_expired::prepare(&claim_request(1), &config(), &poor, &TIP).unwrap().unwrap();
    let units = ExUnits { mem: 5, steps: 6 };
    assert_eq!(plan.draft(1, &Vec::new(), units).assemble(0), None);
    assert_eq!(
        plan.draft(1, &Vec::new(), units).assemble(50_000_000),
        Some(Err(BuildError::NotCovered { available: 50_000_000, needed: 0, fee: 50_000_000 }))
    );
    let plan = claim_expired::prepare(&claim_request(1), &config(), &escrow(expired(1)), &TIP).unwrap().unwrap();
    let bytes = plan.draft(2_000_000, &Vec::new(), units).assemble(48_000_001).unwrap().unwrap();
    let tx: Tx = minicbor::decode(&bytes).unwrap();
    assert_eq!(tx.transaction_body.fee, 50_000_000);
    assert_eq!(outputs(&tx).len(), 2);
}

#[test]
fn faults_in_a_claim_are_told_apart() {
    let fault = |change: &dyn Fn(&mut ClaimExpiredRequest, &mut Config, &mut EscrowUtxo)| {
        let (mut req, mut config, mut escrow) = (claim_request(1), config(), escrow(expired(1)));
        change(&mut req, &mut config, &mut escrow);
        claim_expired::prepare(&req, &config, &escrow, &TIP).map(|plan| plan.err())
    };
    assert_eq!(fault(&|_, _, _| {}), Some(None));
    assert_eq!(fault(&|r, _, _| r.milestone_index = 3), Some(Some(BuildError::MilestoneOutOfRange)));
    assert_eq!(fault(&|r, _, _| r.milestone_index = 2), Some(Some(BuildError::OutOfSequence)));
    assert_eq!(fault(&|_, _, e| e.datum.review_deadline = None), Some(Some(BuildError::NoDeadline)));
    assert_eq!(
        fault(&|_, _, e| e.datum.review_deadline = Some(1_001)),
        Some(Some(BuildError::DeadlineNotPassed))
    );
    assert_eq!(
        fault(&|r, _, _| r.proposer_address = key_address(0xbb)),
        Some(Some(BuildError::ProposerMismatch))
    );
    assert_eq!(fault(&|_, _, e| e.datum.total_locked = i64::MAX), None);
    assert_eq!(fault(&|_, _, e| e.tx_hash = "x".to_string()), Some(Some(BuildError::InvalidTxHash)));
    assert_eq!(
        fault(&|r, _, _| r.submitter_address = "x".to_string()),
        Some(Some(BuildError::Address(AddressError::InvalidBech32)))
    );
    assert_eq!(
        fault(&|_, c, _| c.escrow_compiled_code = "x".to_string()),
        Some(Some(BuildError::InvalidEscrowCode))
    );
    assert_eq!(claim_expired::deadline(&claim_request(1), &escrow(expired(1))), Ok(1_000));
    assert_eq!(claim_expired::deadline(&claim_request(1), &escrow(datum())), Err(BuildError::OutOfSequence));
    assert_eq!(claim_expired::deadline(&claim_request(0), &escrow(datum())), Err(BuildError::NoDeadline));
}

#[test]
fn a_release_needs_an_approval_and_its_turn() {
    let fault = |index: u8, datum: Datum| {
        release::prepare(&release_request(index), &config(), &escrow(datum)).map(|plan| plan.err())
    };
    let mut approved = datum();
    approved.approved[0] = true;
    assert_eq!(fault(0, approved.clone()), Some(None));
    assert_eq!(fault(0, datum()), Some(Some(BuildError::NotApproved)));
    assert_eq!(fault(1, approved.clone()), Some(Some(BuildError::OutOfSequence)));
    assert_eq!(fault(3, approved), Some(Some(BuildError::MilestoneOutOfRange)));
}

#[test]
fn shares_are_rounded_towards_zero() {
    assert_eq!(tranche_share(100_000_000, 4000), Some(40_000_000));
    assert_eq!(tranche_share(99_999, 3333), Some(33_329));
    assert_eq!(tranche_share(-15_000, 1), Some(u64::MAX));
    assert_eq!(tranche_share(0, -7), Some(0));
    assert_eq!(tranche_share(i64::MAX, 2), None);
    let bps = [3333, 3333, 3334];
    let paid: u64 = bps.iter().map(|b| tranche_share(99_999, *b).unwrap()).sum();
    assert!(paid <= 99_999);
}
