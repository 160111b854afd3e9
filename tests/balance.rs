use keychain_sync::balance::{authored_by_wallet, Balance, Utxo};

fn utxo(value: u64, is_coinbase: bool, confirmations: u32, trusted: bool) -> Utxo {
    Utxo { value, is_coinbase, confirmations, trusted }
}

#[test]
fn totals_add_up() {
    let b = Balance { immature: 1, trusted_pending: 20, untrusted_pending: 300, confirmed: 4000 };
    assert_eq!(b.total(), 4321);
    assert_eq!(b.trusted_spendable(), 4020);
    assert_eq!(Balance::default().total(), 0);
}

#[test]
fn balances_add_by_category() {
    let a = Balance { immature: 1, trusted_pending: 2, untrusted_pending: 3, confirmed: 4 };
    let b = Balance { immature: 10, trusted_pending: 20, untrusted_pending: 30, confirmed: 40 };
    let c = a.add(b);
    assert_eq!(c, Balance { immature: 11, trusted_pending: 22, untrusted_pending: 33, confirmed: 44 });
}

#[test]
fn outputs_are_classified() {
    let utxos = vec![
        utxo(1, true, 50, false),
        utxo(2, true, 100, false),
        utxo(4, false, 0, true),
        utxo(8, false, 0, false),
        utxo(16, false, 3, false),
        utxo(32, true, 0, true),
    ];
    let b = Balance::from_utxos(&utxos, 100);
    assert_eq!(b, Balance { immature: 33, trusted_pending: 4, untrusted_pending: 8, confirmed: 18 });
    assert_eq!(b.total(), 63);
    assert_eq!(b.trusted_spendable(), 22);
    assert_eq!(Balance::from_utxos(&Vec::new(), 100), Balance::default());
}

#[test]
fn reorg_moves_confirmed_to_pending() {
    let before = vec![utxo(500, false, 2, true), utxo(700, false, 6, false)];
    let b = Balance::from_utxos(&before, 100);
    assert_eq!(b.confirmed, 1200);
    // The blocks anchoring both transactions were invalidated: no confirmations remain.
    let after = vec![utxo(500, false, 0, true), utxo(700, false, 0, false)];
    let b = Balance::from_utxos(&after, 100);
    assert_eq!(b, Balance { immature: 0, trusted_pending: 500, untrusted_pending: 700, confirmed: 0 });
    assert_eq!(b.total(), 1200);
}

#[test]
fn authorship_needs_all_inputs_owned() {
    assert!(authored_by_wallet(&vec![true, true]));
    assert!(!authored_by_wallet(&vec![true, false]));
    assert!(!authored_by_wallet(&Vec::new()));
}
