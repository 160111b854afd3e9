use keychain_sync::sync::{
    plan_sync, scan_all_keychains, scan_keychain, KeychainScan, ScanOptions, ScanOutcome, SyncFlags,
    DEFAULT_BATCH_SIZE, DEFAULT_STOP_GAP,
};

fn flags(unused_spks: bool, all_spks: bool, utxos: bool, unconfirmed: bool) -> SyncFlags {
    SyncFlags { unused_spks, all_spks, utxos, unconfirmed }
}

#[test]
fn no_flags_select_default_bundle() {
    assert_eq!(flags(false, false, false, false).resolved(), flags(true, false, true, true));
}

#[test]
fn all_spks_suppresses_unused() {
    assert_eq!(flags(true, true, false, false).resolved(), flags(false, true, false, false));
    assert_eq!(flags(false, false, true, false).resolved(), flags(false, false, true, false));
}

#[test]
fn plan_picks_queries_by_flags() {
    let q = plan_sync(flags(false, false, false, false), vec![1u32, 2, 3], vec![2u32], vec![10u8], vec![7u64]);
    assert_eq!(q.spks, vec![2]);
    assert_eq!(q.outpoints, vec![10]);
    assert_eq!(q.txids, vec![7]);

    let q = plan_sync(flags(true, true, false, false), vec![1u32, 2, 3], vec![2u32], vec![10u8], vec![7u64]);
    assert_eq!(q.spks, vec![1, 2, 3]);
    assert!(q.outpoints.is_empty());
    assert!(q.txids.is_empty());
}

#[test]
fn full_scan_stops_at_gap() {
    // Indices 0, 1, 2 have history; 3 to 7 do not; 8 would have history if derived.
    let history = vec![true, true, true, false, false, false, false, false, true];
    let r = scan_keychain(&history, 5);
    assert_eq!(r, ScanOutcome { derived: 8, last_active: Some(2) });
}

#[test]
fn full_scan_without_history_omits_keychain() {
    let r = scan_keychain(&vec![false; 10], DEFAULT_STOP_GAP);
    assert_eq!(r, ScanOutcome { derived: 5, last_active: None });
    let r = scan_keychain(&vec![false, true], 5);
    assert_eq!(r, ScanOutcome { derived: 2, last_active: Some(1) });
}

#[test]
fn scan_state_tracks_run() {
    let mut s = KeychainScan::new(2);
    s.record(false);
    assert!(!s.is_done());
    s.record(true);
    s.record(false);
    assert!(!s.is_done());
    s.record(false);
    assert!(s.is_done());
    assert_eq!(s.last_active, Some(1));
    assert_eq!(s.derived, 4);
}

#[test]
fn default_scan_options() {
    assert_eq!(ScanOptions::default().batch_size, 25);
    assert_eq!(DEFAULT_BATCH_SIZE, 25);
}

#[test]
fn scan_all_keychains_omits_unused() {
    let histories = vec![
        (0u8, vec![true, true, true, false, false, false, false, false, true]),
        (1u8, vec![false; 7]),
        (2u8, vec![false, false, true]),
    ];
    let r = scan_all_keychains(&histories, 5);
    let mut expected = std::collections::BTreeMap::new();
    expected.insert(0u8, 2u32);
    expected.insert(2u8, 2u32);
    assert_eq!(r, expected);
}
