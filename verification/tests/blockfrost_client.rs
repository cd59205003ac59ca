use milestone_escrow::blockfrost_client::{
    belongs_to_grant, budget_for, find_by_outref, network_for_project_id, read_grants, AddressUtxo, Amount,
    ChainTip, CostModels, EpochParams, EscrowUtxo, EvaluateError, EvaluateReply, GrantReadError, GrantScan, LedgerParams, Network,
    ParamsError, RedeemerBudget, TxSide, TxSummary,
};
use milestone_escrow::datum::{Datum, DatumError};
use milestone_escrow::ledger::ExUnits;
use milestone_escrow::tx::{mint_budget, spend_budget, BuildError};

fn datum(total_locked: i64) -> Datum {
    Datum {
        reviewer: [0x11; 28],
        proposer: [0x22; 28],
        total_locked,
        tranche_bps: vec![4000, 6000],
        approved: vec![false, false],
        released_count: 0,
        receipt_policy_id: [0x33; 28],
        review_deadline: None,
        unspendable_legacy_shape: false,
    }
}

fn grant(tx_hash: &str, output_index: u64, lovelace: u64) -> EscrowUtxo {
    EscrowUtxo { tx_hash: tx_hash.to_string(), output_index, lovelace, datum: datum(5) }
}

fn amount(unit: &str, quantity: &str) -> Amount {
    Amount { unit: unit.to_string(), quantity: quantity.to_string() }
}

fn datum_hex(total_locked: i64) -> String {
    hex::encode(datum(total_locked).to_cbor().unwrap())
}

fn utxo(tx_hash: &str, amounts: Vec<Amount>, inline_datum: Option<String>) -> AddressUtxo {
    AddressUtxo { tx_hash: tx_hash.to_string(), output_index: 1, amount: amounts, inline_datum }
}

#[test]
fn grants_are_found_by_hash_and_index() {
    let grants = vec![grant("a", 0, 1), grant("a", 1, 2), grant("b", 0, 3), grant("a", 1, 4)];
    assert_eq!(find_by_outref(&grants, "a", 1).unwrap().lovelace, 2);
    assert_eq!(find_by_outref(&grants, "b", 0).unwrap().lovelace, 3);
    assert!(find_by_outref(&grants, "b", 1).is_none());
    assert!(find_by_outref(&[], "a", 0).is_none());
}

#[test]
fn outputs_without_a_datum_are_no_grants() {
    let utxos = vec![
        utxo("a", vec![amount("lovelace", "7")], None),
        utxo("b", vec![amount("token", "1"), amount("lovelace", "8"), amount("lovelace", "9")], Some(datum_hex(5))),
        utxo("c", vec![], None),
    ];
    let grants = read_grants(&utxos).unwrap();
    assert_eq!(grants, vec![EscrowUtxo { output_index: 1, ..grant("b", 1, 8) }]);
}

#[test]
fn unreadable_grants_are_told_apart() {
    let good = utxo("a", vec![amount("lovelace", "7")], Some(datum_hex(5)));
    let no_datum = utxo("b", vec![], Some("zz".to_string()));
    let no_lovelace = utxo("c", vec![amount("token", "1")], Some(datum_hex(5)));
    let no_number = utxo("d", vec![amount("lovelace", "many")], Some(datum_hex(5)));
    assert_eq!(
        read_grants(&[good.clone(), no_datum.clone(), no_lovelace.clone()]),
        Err(GrantReadError::Datum(DatumError::InvalidHex))
    );
    assert_eq!(read_grants(&[good.clone(), no_lovelace, no_datum]), Err(GrantReadError::NoLovelace));
    assert_eq!(read_grants(&[no_number, good]), Err(GrantReadError::InvalidLovelace));
}

#[test]
fn negative_indices_extend_their_sign() {
    let mut output = utxo("a", vec![amount("lovelace", "7")], Some(datum_hex(5)));
    output.output_index = -1;
    assert_eq!(read_grants(&[output]).unwrap()[0].output_index, u64::MAX);
    let summary = TxSummary::from_index("a".to_string(), 12, -1);
    assert_eq!(summary.block_time, 12);
    assert_eq!(summary.block_height, u64::MAX);
}

fn side(address: &str, inline_datum: Option<String>) -> TxSide {
    TxSide { address: address.to_string(), inline_datum }
}

#[test]
fn a_transaction_is_a_grants_through_an_output_at_its_address() {
    let id = datum(5).grant_id();
    let here = side("here", Some(datum_hex(5)));
    assert!(belongs_to_grant(&[side("here", None), here.clone()], "here", &id));
    assert!(!belongs_to_grant(&[side("there", Some(datum_hex(5)))], "here", &id));
    assert!(!belongs_to_grant(&[side("here", Some(datum_hex(6)))], "here", &id));
    assert!(!belongs_to_grant(&[side("here", Some("zz".to_string()))], "here", &id));
    assert!(!belongs_to_grant(&[], "here", &id));
}

fn summary(tx_hash: &str) -> TxSummary {
    TxSummary { tx_hash: tx_hash.to_string(), block_time: 1, block_height: 2 }
}

#[test]
fn a_search_ends_with_enough_matches() {
    let candidates = vec![summary("a"), summary("b"), summary("c"), summary("d")];
    let mut scan = GrantScan::new("here".to_string(), &datum(5), candidates, 2);
    let mut asked = Vec::new();
    while let Some(tx_hash) = scan.next_candidate() {
        let total = if tx_hash == "b" { 6 } else { 5 };
        asked.push(tx_hash);
        scan.answer(&[side("here", Some(datum_hex(total)))]);
    }
    assert_eq!(asked, vec!["a".to_string(), "b".to_string(), "c".to_string()]);
    assert_eq!(scan.into_matched(), vec![summary("a"), summary("c")]);
}

#[test]
fn a_search_ends_with_the_candidates() {
    let mut scan = GrantScan::new("here".to_string(), &datum(5), vec![summary("a")], 10);
    assert_eq!(scan.next_candidate(), Some("a".to_string()));
    scan.answer(&[]);
    assert_eq!(scan.next_candidate(), None);
    assert!(scan.into_matched().is_empty());
    assert_eq!(GrantScan::new("here".to_string(), &datum(5), vec![summary("a")], 0).next_candidate(), None);
}

#[test]
fn parameters_are_read() {
    let model = |text: &str| {
        Some(CostModels { plutus_v3: Some(serde_json::from_str(text).unwrap()) })
    };
    let mut epoch = EpochParams {
        min_fee_a: 44,
        min_fee_b: 155381,
        cost_models: model("[1, -2]"),
        has_price_mem: true,
        has_price_step: true,
        coins_per_utxo_size: Some("4310".to_string()),
    };
    assert_eq!(
        LedgerParams::from_epoch(&epoch),
        Ok(LedgerParams {
            min_fee_a: 44,
            min_fee_b: 155381,
            plutus_v3_cost_model: vec![1, -2],
            coins_per_utxo_byte: 4310
        })
    );
    epoch.coins_per_utxo_size = Some("x".to_string());
    assert_eq!(LedgerParams::from_epoch(&epoch), Err(ParamsError::InvalidCoinsPerUtxoSize));
    epoch.coins_per_utxo_size = None;
    assert_eq!(LedgerParams::from_epoch(&epoch), Err(ParamsError::NoCoinsPerUtxoSize));
    epoch.has_price_step = false;
    assert_eq!(LedgerParams::from_epoch(&epoch), Err(ParamsError::NoPriceStep));
    epoch.has_price_mem = false;
    assert_eq!(LedgerParams::from_epoch(&epoch), Err(ParamsError::NoPriceMem));
    for text in ["{}", "7", "null", "\"1\"", "[1, 2.0]", "[1, \"2\"]", "[9223372036854775808]", "[-0.5]", "[[1]]"] {
        epoch.cost_models = model(text);
        assert_eq!(LedgerParams::from_epoch(&epoch), Err(ParamsError::InvalidPlutusV3), "{text}");
    }
    epoch.cost_models = Some(CostModels { plutus_v3: None });
    assert_eq!(LedgerParams::from_epoch(&epoch), Err(ParamsError::NoPlutusV3));
    epoch.cost_models = None;
    assert_eq!(LedgerParams::from_epoch(&epoch), Err(ParamsError::NoCostModels));
}

#[test]
fn extreme_cost_models_are_read() {
    let epoch = EpochParams {
        min_fee_a: -1,
        min_fee_b: 0,
        cost_models: Some(CostModels {
            plutus_v3: Some(serde_json::from_str("[9223372036854775807, -9223372036854775808, 0]").unwrap()),
        }),
        has_price_mem: true,
        has_price_step: true,
        coins_per_utxo_size: Some("1".to_string()),
    };
    let params = LedgerParams::from_epoch(&epoch).unwrap();
    assert_eq!(params.plutus_v3_cost_model, vec![i64::MAX, i64::MIN, 0]);
    assert_eq!(params.min_fee_a, u64::MAX);
}

#[test]
fn the_latest_block_is_read() {
    assert_eq!(ChainTip::from_index(1_700_000_000, Some(9)), Some(ChainTip { time_ms: 1_700_000_000_000, slot: 9 }));
    assert_eq!(ChainTip::from_index(-1, Some(0)), Some(ChainTip { time_ms: -1000, slot: 0 }));
    assert_eq!(ChainTip::from_index(5, None), None);
}

fn budget(purpose: &str, mem: u64) -> RedeemerBudget {
    RedeemerBudget { purpose: purpose.to_string(), mem, steps: mem + 1 }
}

#[test]
fn the_first_budget_for_a_purpose_counts() {
    let budgets = vec![budget("mint", 1), budget("spend", 2), budget("spend", 3)];
    assert_eq!(budget_for(&budgets, "spend"), Some(ExUnits { mem: 2, steps: 3 }));
    assert_eq!(budget_for(&budgets, "cert"), None);
    assert_eq!(spend_budget(&budgets), Ok(ExUnits { mem: 2, steps: 3 }));
    assert_eq!(mint_budget(&budgets), Ok(ExUnits { mem: 1, steps: 2 }));
    assert_eq!(spend_budget(&budgets[..1]), Err(BuildError::NoSpendBudget));
    assert_eq!(mint_budget(&budgets[1..]), Err(BuildError::NoMintBudget));
}

#[test]
fn an_error_counts_before_a_result() {
    let items = vec![budget("spend", 2)];
    let reply = |result: Option<Vec<RedeemerBudget>>, error: Option<&str>| {
        EvaluateReply { result, error: error.map(str::to_string) }.into_budgets()
    };
    assert_eq!(reply(Some(items.clone()), None), Ok(items.clone()));
    assert_eq!(reply(Some(items), Some("no")), Err(EvaluateError::Rejected("no".to_string())));
    assert_eq!(reply(None, Some("no")), Err(EvaluateError::Rejected("no".to_string())));
    assert_eq!(reply(None, None), Err(EvaluateError::Empty));
}

#[test]
fn projects_name_their_network() {
    assert_eq!(network_for_project_id("mainnetX"), Network::Mainnet);
    assert_eq!(network_for_project_id("previewX"), Network::Preview);
    assert_eq!(network_for_project_id("preprod"), Network::Preprod);
    assert_eq!(network_for_project_id("prep"), Network::Mainnet);
    assert_eq!(network_for_project_id(""), Network::Mainnet);
}
