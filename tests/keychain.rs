use std::collections::BTreeMap;

use keychain_sync::append::Append;
use keychain_sync::keychain::{ChangeSet, KeychainIndex};

#[derive(Ord, PartialOrd, Eq, PartialEq, Clone, Copy, Debug)]
enum Keychain {
    One,
    Two,
    Three,
    Four,
}

fn changeset(entries: &[(Keychain, u32)]) -> ChangeSet<Keychain> {
    let mut m = BTreeMap::new();
    for (k, v) in entries {
        m.insert(*k, *v);
    }
    ChangeSet(m)
}

#[test]
fn append_keychain_derivation_indices() {
    let mut lhs_di = BTreeMap::<Keychain, u32>::default();
    let mut rhs_di = BTreeMap::<Keychain, u32>::default();
    lhs_di.insert(Keychain::One, 7);
    lhs_di.insert(Keychain::Two, 0);
    rhs_di.insert(Keychain::One, 3);
    rhs_di.insert(Keychain::Two, 5);
    lhs_di.insert(Keychain::Three, 3);
    rhs_di.insert(Keychain::Four, 4);

    let mut lhs = ChangeSet(lhs_di);
    let rhs = ChangeSet(rhs_di);
    lhs.append(rhs);

    // An existing index does not move when the other's index is lower.
    assert_eq!(lhs.0.get(&Keychain::One), Some(&7));
    // An existing index moves up when the other's index is higher.
    assert_eq!(lhs.0.get(&Keychain::Two), Some(&5));
    // An existing index stays when the other lacks the keychain.
    assert_eq!(lhs.0.get(&Keychain::Three), Some(&3));
    // A keychain only the other has is added.
    assert_eq!(lhs.0.get(&Keychain::Four), Some(&4));
}

#[test]
fn merge_gives_exact_map() {
    let mut lhs = changeset(&[(Keychain::One, 7), (Keychain::Two, 0), (Keychain::Three, 3)]);
    lhs.append(changeset(&[(Keychain::One, 3), (Keychain::Two, 5), (Keychain::Four, 4)]));
    let expected = changeset(&[
        (Keychain::One, 7),
        (Keychain::Two, 5),
        (Keychain::Three, 3),
        (Keychain::Four, 4),
    ]);
    assert_eq!(lhs.as_inner(), expected.as_inner());
}

#[test]
fn merge_twice_or_empty_changes_nothing() {
    let a = [(Keychain::One, 2), (Keychain::Two, 9)];
    let b = [(Keychain::One, 4), (Keychain::Three, 1)];
    let mut once = changeset(&a);
    once.append(changeset(&b));
    let mut twice = changeset(&a);
    twice.append(changeset(&b));
    twice.append(changeset(&b));
    assert_eq!(once.as_inner(), twice.as_inner());

    let mut with_empty = changeset(&a);
    with_empty.append(ChangeSet::new());
    assert_eq!(with_empty.as_inner(), changeset(&a).as_inner());
}

#[test]
fn merge_order_does_not_matter() {
    let a = [(Keychain::One, 2), (Keychain::Two, 9)];
    let b = [(Keychain::One, 4), (Keychain::Three, 1)];
    let c = [(Keychain::Two, 3), (Keychain::Three, 6), (Keychain::Four, 0)];
    let mut abc = changeset(&a);
    abc.append(changeset(&b));
    abc.append(changeset(&c));
    let mut acb = changeset(&a);
    acb.append(changeset(&c));
    acb.append(changeset(&b));
    assert_eq!(abc.as_inner(), acb.as_inner());
    assert_eq!(abc.0.get(&Keychain::One), Some(&4));
    assert_eq!(abc.0.get(&Keychain::Two), Some(&9));
    assert_eq!(abc.0.get(&Keychain::Three), Some(&6));
    assert_eq!(abc.0.get(&Keychain::Four), Some(&0));
}

#[test]
fn merge_sequence_keeps_maximum() {
    let mut acc: ChangeSet<Keychain> = ChangeSet::new();
    for i in [3u32, 8, 1, 8, 5] {
        acc.append(changeset(&[(Keychain::One, i)]));
    }
    assert_eq!(acc.0.get(&Keychain::One), Some(&8));
    assert_eq!(acc.0.len(), 1);
}

#[test]
fn empty_changeset_is_empty() {
    let empty: ChangeSet<Keychain> = ChangeSet::new();
    assert!(empty.is_empty());
    assert!(!changeset(&[(Keychain::One, 0)]).is_empty());
}

#[test]
fn reveal_never_lowers_and_reports_only_moves() {
    let mut index: KeychainIndex<Keychain> = KeychainIndex::new();
    let mut targets = BTreeMap::new();
    targets.insert(Keychain::One, 5);
    targets.insert(Keychain::Two, 2);
    let first = index.reveal_to_target_multi(&targets);
    assert_eq!(first.0.len(), 2);

    let mut lower = BTreeMap::new();
    lower.insert(Keychain::One, 3);
    lower.insert(Keychain::Two, 4);
    let second = index.reveal_to_target_multi(&lower);
    assert_eq!(second.0.get(&Keychain::One), None);
    assert_eq!(second.0.get(&Keychain::Two), Some(&4));
    assert_eq!(index.last_revealed.get(&Keychain::One), Some(&5));
    assert_eq!(index.last_revealed.get(&Keychain::Two), Some(&4));
}
