use milestone_escrow::datum::Datum;
use milestone_escrow::grants_meta::{grant_id, GrantMeta, GrantMetaStore, GrantSnapshot, MilestoneMeta};

fn sample_datum(released_count: i64) -> Datum {
    Datum {
        reviewer: [0x11; 28],
        proposer: [0x22; 28],
        total_locked: 100_000_000,
        tranche_bps: vec![4000, 3000, 3000],
        approved: vec![true, true, true],
        released_count,
        receipt_policy_id: [0x33; 28],
        review_deadline: None,
        unspendable_legacy_shape: false,
    }
}

fn snapshot(tx_hash: &str, lovelace: u64, released_count: i64) -> GrantSnapshot {
    GrantSnapshot { tx_hash: tx_hash.to_string(), output_index: 0, lovelace, datum: sample_datum(released_count) }
}

#[test]
fn grant_id_is_deterministic() {
    let reviewer = [0x11; 28];
    let proposer = [0x22; 28];
    let id1 = grant_id(&reviewer, &proposer, 100_000_000, &[4000, 3000, 3000]);
    let id2 = grant_id(&reviewer, &proposer, 100_000_000, &[4000, 3000, 3000]);
    assert_eq!(id1, id2);
}

#[test]
fn grant_id_differs_on_tranche_split() {
    let reviewer = [0x11; 28];
    let proposer = [0x22; 28];
    let id1 = grant_id(&reviewer, &proposer, 100_000_000, &[4000, 3000, 3000]);
    let id2 = grant_id(&reviewer, &proposer, 100_000_000, &[5000, 2500, 2500]);
    assert_ne!(id1, id2);
}

#[test]
fn grant_id_is_the_digest_of_the_terms() {
    let mut hasher = pallas_crypto::hash::Hasher::<256>::new();
    hasher.input(&[0x11; 28]);
    hasher.input(&[0x22; 28]);
    hasher.input(&(-5i64).to_be_bytes());
    for bps in [4000i64, -1, i64::MIN, i64::MAX] {
        hasher.input(&bps.to_be_bytes());
    }
    let expected = hasher.finalize().to_string();
    assert_eq!(grant_id(&[0x11; 28], &[0x22; 28], -5, &[4000, -1, i64::MIN, i64::MAX]), expected);
    assert_eq!(expected.len(), 64);
}

#[test]
fn grant_id_depends_on_every_term() {
    let base = grant_id(&[1; 28], &[2; 28], 3, &[4, 5]);
    assert_ne!(base, grant_id(&[9; 28], &[2; 28], 3, &[4, 5]));
    assert_ne!(base, grant_id(&[1; 28], &[9; 28], 3, &[4, 5]));
    assert_ne!(base, grant_id(&[1; 28], &[2; 28], 9, &[4, 5]));
    assert_ne!(base, grant_id(&[1; 28], &[2; 28], 3, &[4]));
    assert_eq!(base.len(), 64);
}

#[test]
fn grant_id_of_a_datum_ignores_its_progress() {
    let start = sample_datum(0);
    let mut later = sample_datum(2);
    later.approved = vec![false, true, false];
    assert_eq!(start.grant_id(), later.grant_id());
    assert_eq!(start.grant_id(), grant_id(&[0x11; 28], &[0x22; 28], 100_000_000, &[4000, 3000, 3000]));
}

#[test]
fn store_round_trips_through_its_entries() {
    let mut store = GrantMetaStore::new();
    let milestones = vec![
        MilestoneMeta { name: "M1".to_string(), description: "d1".to_string() },
        MilestoneMeta { name: "M2".to_string(), description: "d2".to_string() },
        MilestoneMeta { name: "M3".to_string(), description: "d3".to_string() },
    ];
    assert!(store.set_meta("abc123".to_string(), "Test Grant".to_string(), milestones));

    let reloaded = GrantMetaStore::from_entries(store.entries());
    let got = reloaded.get("abc123").expect("entry should have persisted");
    assert_eq!(got.name, "Test Grant");
    assert_eq!(got.milestones.len(), 3);
    assert_eq!(got.milestones[1].description, "d2");
}

#[test]
fn of_two_entries_under_one_id_the_later_counts() {
    let meta = |name: &str| GrantMeta { name: name.to_string(), milestones: vec![], snapshot: None };
    let store = GrantMetaStore::from_entries(vec![
        ("a".to_string(), meta("first")),
        ("b".to_string(), meta("other")),
        ("a".to_string(), meta("second")),
    ]);
    assert_eq!(store.get("a").unwrap().name, "second");
    assert_eq!(store.get("b").unwrap().name, "other");
    assert!(store.get("c").is_none());
    assert_eq!(store.entries().len(), 2);
}

#[test]
fn record_snapshot_is_noop_without_existing_meta() {
    let mut store = GrantMetaStore::new();

    let recorded = store.record_snapshot(
        "no-meta",
        GrantSnapshot { tx_hash: "tx1".to_string(), output_index: 0, lovelace: 0, datum: sample_datum(1) },
    );

    assert!(!recorded);
    assert!(store.get("no-meta").is_none());
}

#[test]
fn completed_grant_survives_utxo_being_spent() {
    let mut store = GrantMetaStore::new();

    store.set_meta("g1".to_string(), "Grant One".to_string(), vec![]);
    store.record_snapshot(
        "g1",
        GrantSnapshot { tx_hash: "tx-mid".to_string(), output_index: 0, lovelace: 40_000_000, datum: sample_datum(2) },
    );
    assert!(store.completed().is_empty(), "not fully released yet, should not be reported completed");

    store.record_snapshot(
        "g1",
        GrantSnapshot { tx_hash: "tx-final".to_string(), output_index: 0, lovelace: 0, datum: sample_datum(3) },
    );

    let completed = store.completed();
    assert_eq!(completed.len(), 1);
    assert_eq!(completed[0].0, "g1");

    let by_outref = store.snapshot_by_outref("tx-final", 0).expect("snapshot should be findable by outref");
    assert_eq!(by_outref.datum.released_count, 3);
}

#[test]
fn set_meta_allows_overwrite_before_grant_is_confirmed_on_chain() {
    let mut store = GrantMetaStore::new();

    let created = store.set_meta("g1".to_string(), "Original".to_string(), vec![]);
    assert!(created, "first write should be accepted");

    let overwritten = store.set_meta("g1".to_string(), "Retry After Failed Signing".to_string(), vec![]);
    assert!(overwritten, "no on-chain snapshot yet -- retry must be allowed to overwrite");
    assert_eq!(store.get("g1").unwrap().name, "Retry After Failed Signing");
}

#[test]
fn set_meta_rejects_overwrite_once_grant_is_confirmed_on_chain() {
    let mut store = GrantMetaStore::new();

    store.set_meta("g1".to_string(), "Real Grant".to_string(), vec![]);
    store.record_snapshot(
        "g1",
        GrantSnapshot { tx_hash: "tx1".to_string(), output_index: 0, lovelace: 100_000_000, datum: sample_datum(0) },
    );

    let spoofed = store.set_meta("g1".to_string(), "Spoofed Name".to_string(), vec![]);
    assert!(!spoofed, "grant is confirmed live on-chain -- an unauthenticated caller must not be able to overwrite its metadata");
    assert_eq!(store.get("g1").unwrap().name, "Real Grant", "original metadata must survive the rejected overwrite attempt");
}

#[test]
fn a_snapshot_keeps_name_and_milestones() {
    let mut store = GrantMetaStore::new();
    let milestones = vec![MilestoneMeta { name: "M1".to_string(), description: "d1".to_string() }];
    store.set_meta("g1".to_string(), "One".to_string(), milestones.clone());
    store.set_meta("g2".to_string(), "Two".to_string(), vec![]);
    assert!(store.record_snapshot("g1", snapshot("tx1", 5, 1)));

    let one = store.get("g1").unwrap();
    assert_eq!(one.name, "One");
    assert_eq!(one.milestones, milestones);
    assert_eq!(one.snapshot, Some(snapshot("tx1", 5, 1)));
    let two = store.get("g2").unwrap();
    assert_eq!(two, GrantMeta { name: "Two".to_string(), milestones: vec![], snapshot: None });
}

#[test]
fn snapshots_are_found_by_hash_and_index() {
    let mut store = GrantMetaStore::new();
    store.set_meta("g1".to_string(), "One".to_string(), vec![]);
    store.set_meta("g2".to_string(), "Two".to_string(), vec![]);
    store.record_snapshot("g1", snapshot("tx1", 5, 1));
    store.record_snapshot("g2", GrantSnapshot { output_index: 3, ..snapshot("tx1", 6, 2) });
    assert_eq!(store.snapshot_by_outref("tx1", 0).unwrap().lovelace, 5);
    assert_eq!(store.snapshot_by_outref("tx1", 3).unwrap().lovelace, 6);
    assert!(store.snapshot_by_outref("tx1", 1).is_none());
    assert!(store.snapshot_by_outref("tx2", 0).is_none());
}

#[test]
fn negative_counts_are_never_complete() {
    let mut store = GrantMetaStore::new();
    store.set_meta("g1".to_string(), "One".to_string(), vec![]);
    let mut seen = snapshot("tx1", 5, -1);
    seen.datum.tranche_bps = vec![];
    store.record_snapshot("g1", seen.clone());
    assert!(store.completed().is_empty());
    seen.datum.released_count = 0;
    store.record_snapshot("g1", seen);
    assert_eq!(store.completed().len(), 1);
}
