use milestone_escrow::address::AddressError;
use milestone_escrow::blockfrost_client::EscrowUtxo;
use milestone_escrow::config::Config;
use milestone_escrow::datum::Datum;
use milestone_escrow::grants_meta::{grant_id, GrantMetaStore, GrantSnapshot, MilestoneMeta};
use milestone_escrow::handlers::{
    grant_role, list_grants, receipt_policy, resolve_datum, save_grant_meta, unsigned_tx_hex, CreateGrantMetaRequest,
    PolicyError, Role, COLLISION_WARNING, POLICY_WARNING,
};
use pallas_addresses::{Network, ShelleyAddress, ShelleyDelegationPart, ShelleyPaymentPart};

fn key_address(fill: u8) -> String {
    let payment = ShelleyPaymentPart::Key(pallas_crypto::hash::Hash::new([fill; 28]));
    ShelleyAddress::new(Network::Testnet, payment, ShelleyDelegationPart::Null).to_bech32().unwrap()
}

fn config() -> Config {
    Config {
        blockfrost_project_id: String::new(),
        bind_addr: String::new(),
        frontend_origin: String::new(),
        escrow_address: String::new(),
        receipt_policy_id: "33".repeat(28),
        escrow_compiled_code: String::new(),
        receipt_compiled_code: String::new(),
        grants_meta_path: String::new(),
        ignored_grant_ids: vec![],
    }
}

fn datum(total_locked: i64) -> Datum {
    Datum {
        reviewer: [0x11; 28],
        proposer: [0x22; 28],
        total_locked,
        tranche_bps: vec![10_000],
        approved: vec![true],
        released_count: 0,
        receipt_policy_id: [0x33; 28],
        review_deadline: None,
        unspendable_legacy_shape: false,
    }
}

fn grant(tx_hash: &str, datum: Datum) -> EscrowUtxo {
    EscrowUtxo { tx_hash: tx_hash.to_string(), output_index: 4, lovelace: 77, datum }
}

fn named(store: &mut GrantMetaStore, datum: &Datum, name: &str) {
    let milestones = vec![MilestoneMeta { name: "M".to_string(), description: "d".to_string() }];
    assert!(store.set_meta(datum.grant_id(), name.to_string(), milestones));
}

#[test]
fn genuine_grants_are_listed_with_their_names() {
    let mut store = GrantMetaStore::new();
    named(&mut store, &datum(1), "One");
    let grants = vec![grant("a", datum(1)), grant("b", datum(2))];
    let (listed, changed) = list_grants(&config(), &grants, &mut store);
    assert!(changed);
    assert_eq!(listed.len(), 2);
    assert_eq!(listed[0].name, "One");
    assert_eq!(listed[0].milestones.as_ref().unwrap()[0].name, "M");
    assert!(listed[0].trusted && listed[0].warnings.is_empty() && !listed[0].completed);
    assert_eq!((listed[0].tx_hash.as_str(), listed[0].output_index, listed[0].lovelace), ("a", 4, 77));
    assert_eq!(listed[0].datum, datum(1).to_json());
    assert_eq!(listed[0].grant_id, datum(1).grant_id());
    let id = datum(2).grant_id();
    assert_eq!(listed[1].name, format!("Unnamed grant ({})", &id[..8]));
    assert!(listed[1].trusted && listed[1].milestones.is_none());
    let seen = store.get(&datum(1).grant_id()).unwrap().snapshot.unwrap();
    assert_eq!(
        seen,
        GrantSnapshot { tx_hash: "a".to_string(), output_index: 4, lovelace: 77, datum: datum(1) }
    );
    assert!(store.get(&id).is_none());
}

#[test]
fn spoofed_grants_are_listed_with_warnings() {
    let mut store = GrantMetaStore::new();
    let spoofed = Datum { receipt_policy_id: [0x34; 28], ..datum(1) };
    named(&mut store, &spoofed, "One");
    let (listed, changed) = list_grants(&config(), &[grant("a", spoofed.clone())], &mut store);
    assert!(!changed);
    assert!(!listed[0].trusted && listed[0].milestones.is_none());
    assert_eq!(listed[0].warnings, vec![POLICY_WARNING.to_string()]);
    assert!(listed[0].name.starts_with("Unnamed grant ("));

    let grants = vec![grant("a", spoofed), grant("b", datum(1))];
    let (listed, changed) = list_grants(&config(), &grants, &mut store);
    assert!(!changed);
    assert_eq!(listed[0].warnings, vec![POLICY_WARNING.to_string(), COLLISION_WARNING.to_string()]);
    assert_eq!(listed[1].warnings, vec![COLLISION_WARNING.to_string()]);
    assert!(!listed[0].trusted && !listed[1].trusted);
    assert!(store.get(&datum(1).grant_id()).unwrap().snapshot.is_none());
}

#[test]
fn ignored_and_unspendable_grants_are_left_out() {
    let mut store = GrantMetaStore::new();
    named(&mut store, &datum(1), "One");
    named(&mut store, &datum(2), "Two");
    let settings = Config { ignored_grant_ids: vec![datum(1).grant_id()], ..config() };
    let legacy = Datum { unspendable_legacy_shape: true, ..datum(2) };
    let grants = vec![grant("a", datum(1)), grant("b", legacy), grant("c", datum(3))];
    let (listed, changed) = list_grants(&settings, &grants, &mut store);
    assert!(!changed);
    assert_eq!(listed.len(), 1);
    assert_eq!(listed[0].grant_id, datum(3).grant_id());
    assert!(store.get(&datum(2).grant_id()).unwrap().snapshot.is_none());
}

#[test]
fn completed_grants_follow_the_live_ones() {
    let mut store = GrantMetaStore::new();
    let done = |total: i64| Datum { released_count: 1, ..datum(total) };
    for (total, name) in [(1, "One"), (2, "Two"), (3, "Three"), (4, "Four")] {
        named(&mut store, &datum(total), name);
    }
    for total in [1, 2, 3] {
        let seen = GrantSnapshot { tx_hash: "old".to_string(), output_index: 9, lovelace: 5, datum: done(total) };
        assert!(store.record_snapshot(&datum(total).grant_id(), seen));
    }
    let settings = Config { ignored_grant_ids: vec![datum(2).grant_id()], ..config() };
    let (listed, _) = list_grants(&settings, &[grant("a", datum(3))], &mut store);
    assert_eq!(listed.len(), 2);
    assert_eq!((listed[0].name.as_str(), listed[0].completed), ("Three", false));
    let last = &listed[1];
    assert_eq!((last.name.as_str(), last.completed, last.trusted), ("One", true, true));
    assert_eq!((last.tx_hash.as_str(), last.output_index, last.lovelace), ("old", 9, 0));
    assert_eq!(last.datum, done(1).to_json());
    assert_eq!(last.milestones.as_ref().unwrap().len(), 1);
    assert!(last.warnings.is_empty());
}

#[test]
fn roles_follow_the_key_hashes() {
    assert_eq!(grant_role(&[0x11; 28], &datum(1)).word(), "funder");
    assert_eq!(grant_role(&[0x22; 28], &datum(1)).word(), "grantee");
    assert_eq!(grant_role(&[0x33; 28], &datum(1)).word(), "none");
    let both = Datum { proposer: [0x11; 28], ..datum(1) };
    assert_eq!(grant_role(&[0x11; 28], &both), Role::Funder);
}

#[test]
fn states_are_resolved_live_first() {
    let mut store = GrantMetaStore::new();
    named(&mut store, &datum(1), "One");
    let seen = GrantSnapshot { tx_hash: "a".to_string(), output_index: 4, lovelace: 5, datum: datum(1) };
    store.record_snapshot(&datum(1).grant_id(), seen);
    let live = vec![grant("a", datum(2))];
    assert_eq!(resolve_datum(&live, &store, "a", 4), Some(datum(2)));
    assert_eq!(resolve_datum(&[], &store, "a", 4), Some(datum(1)));
    assert_eq!(resolve_datum(&live, &store, "a", 5), None);
    assert_eq!(resolve_datum(&[], &store, "b", 4), None);
}

fn meta_request(name: &str) -> CreateGrantMetaRequest {
    CreateGrantMetaRequest {
        proposer_address: key_address(0x22),
        reviewer_address: key_address(0x11),
        tranche_bps: vec![10_000],
        total_locked: 5,
        name: name.to_string(),
        milestones: vec![],
    }
}

#[test]
fn metadata_is_saved_under_the_id_of_the_terms() {
    let mut store = GrantMetaStore::new();
    let (id, stored) = save_grant_meta(&mut store, meta_request("One")).unwrap();
    assert!(stored);
    assert_eq!(id, grant_id(&[0x11; 28], &[0x22; 28], 5, &[10_000]));
    assert_eq!(store.get(&id).unwrap().name, "One");

    list_grants(&config(), &[grant("a", datum(5))], &mut store);
    let (again, stored) = save_grant_meta(&mut store, meta_request("Two")).unwrap();
    assert_eq!((again, stored), (id.clone(), false));
    assert_eq!(store.get(&id).unwrap().name, "One");

    let mut broken = meta_request("Three");
    broken.reviewer_address = "x".to_string();
    assert_eq!(save_grant_meta(&mut store, broken), Err(AddressError::InvalidBech32));
}

#[test]
fn the_receipt_policy_is_28_bytes() {
    assert_eq!(receipt_policy(&config()), Ok([0x33; 28]));
    let broken = |text: &str| receipt_policy(&Config { receipt_policy_id: text.to_string(), ..config() });
    assert_eq!(broken("33"), Err(PolicyError::WrongLength));
    assert_eq!(broken("3"), Err(PolicyError::InvalidHex));
    assert_eq!(broken("zz"), Err(PolicyError::InvalidHex));
}

#[test]
fn a_policy_in_lower_case_is_recognised() {
    let mut store = GrantMetaStore::new();
    let named_policy = Datum { receipt_policy_id: [0xab; 28], ..datum(1) };
    let lower = Config { receipt_policy_id: "ab".repeat(28), ..config() };
    assert_eq!(receipt_policy(&lower), Ok([0xab; 28]));
    assert!(list_grants(&lower, &[grant("a", named_policy.clone())], &mut store).0[0].trusted);
    let upper = Config { receipt_policy_id: "AB".repeat(28), ..config() };
    assert_eq!(receipt_policy(&upper), Ok([0xab; 28]));
    assert!(!list_grants(&upper, &[grant("a", named_policy)], &mut store).0[0].trusted);
}

#[test]
fn transactions_are_answered_in_hexadecimal_text() {
    assert_eq!(unsigned_tx_hex(&[0x84, 0x00, 0xff]), "8400ff");
    assert_eq!(unsigned_tx_hex(&[]), "");
}
