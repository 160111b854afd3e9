use std::collections::{BTreeMap, BTreeSet};

use keychain_sync::append::Append;
use keychain_sync::finalize::{finalize_graph, missing_full_txs, FetchError};
use keychain_sync::keychain::{ChangeSet, KeychainIndex};
use keychain_sync::local_chain::{ChainChangeSet, ChainUpdate, LocalChain, ReorgError};
use keychain_sync::tx_graph::{TxGraph, TxGraphChangeSet};
use keychain_sync::wallet::{Staged, Wallet, WalletChangeSet, WalletUpdate};

fn empty_wallet() -> Wallet<u8, u32> {
    Wallet { chain: LocalChain::new(), index: KeychainIndex::new(), graph: TxGraph::new() }
}

fn sample_update() -> WalletUpdate<u8, u32> {
    let mut blocks = BTreeMap::new();
    blocks.insert(0u32, 100u64);
    blocks.insert(1u32, 101u64);
    let mut update = WalletUpdate::new(ChainUpdate(blocks));
    update.last_active_indices.insert(0u8, 4);
    update.graph.txs.insert(7);
    update.graph.anchors.insert((1u32, 7u64));
    update.graph.last_seen.insert(8, 1000);
    update
}

#[test]
fn new_update_holds_only_chain() {
    let mut blocks = BTreeMap::new();
    blocks.insert(3u32, 33u64);
    let u: WalletUpdate<u8, u32> = WalletUpdate::new(ChainUpdate(blocks));
    assert!(u.last_active_indices.is_empty());
    assert!(u.graph.txs.is_empty());
    assert_eq!(u.chain.0.get(&3), Some(&33));
}

#[test]
fn applying_twice_records_nothing_the_second_time() {
    let mut w = empty_wallet();
    let update = sample_update();
    let first = w.apply_update(&update).unwrap();
    assert!(!first.is_empty());
    assert_eq!(first.chain.0.len(), 2);
    assert_eq!(first.index.0.get(&0), Some(&4));
    assert!(first.graph.txs.contains(&7));
    let second = w.apply_update(&update).unwrap();
    assert!(second.is_empty());
    assert_eq!(w.index.last_revealed.get(&0), Some(&4));
}

#[test]
fn reorg_keeps_transactions() {
    let mut w = empty_wallet();
    w.apply_update(&sample_update()).unwrap();
    let mut blocks = BTreeMap::new();
    blocks.insert(0u32, 100u64);
    blocks.insert(1u32, 999u64);
    let changes = w.apply_update(&WalletUpdate::new(ChainUpdate(blocks))).unwrap();
    assert_eq!(changes.chain.0.get(&1), Some(&Some(999)));
    assert_eq!(changes.chain.0.get(&0), None);
    assert!(w.graph.txs.contains(&7));
    assert_eq!(w.chain.blocks.get(&1), Some(&999));
}

#[test]
fn genesis_mismatch_is_refused() {
    let mut w = empty_wallet();
    w.apply_update(&sample_update()).unwrap();
    let mut blocks = BTreeMap::new();
    blocks.insert(0u32, 555u64);
    let mut update = WalletUpdate::new(ChainUpdate(blocks));
    update.last_active_indices.insert(1u8, 9);
    let r = w.apply_update(&update);
    assert_eq!(r.err(), Some(ReorgError { local_genesis: 100, update_genesis: 555 }));
    assert_eq!(w.index.last_revealed.get(&1), None);
    assert_eq!(w.chain.blocks.get(&0), Some(&100));
}

#[test]
fn composite_empty_only_when_all_parts_are() {
    let mut c: WalletChangeSet<u8, u32> = WalletChangeSet::new();
    assert!(c.is_empty());
    let mut chain = ChainChangeSet::new();
    chain.0.insert(5, None);
    c.append(WalletChangeSet::from_chain(chain));
    assert!(!c.is_empty());

    let mut graph: TxGraphChangeSet<u32> = TxGraphChangeSet::new();
    graph.last_seen.insert(3, 10);
    let only_graph: WalletChangeSet<u8, u32> = WalletChangeSet::from_indexed_graph(graph, ChangeSet::new());
    assert!(!only_graph.is_empty());

    let mut index = ChangeSet::new();
    index.0.insert(2u8, 1);
    let only_index: WalletChangeSet<u8, u32> =
        WalletChangeSet::from_indexed_graph(TxGraphChangeSet::new(), index);
    assert!(!only_index.is_empty());
}

#[test]
fn composite_merge_delegates() {
    let mut a: WalletChangeSet<u8, u32> = WalletChangeSet::new();
    a.chain.0.insert(1, Some(10));
    a.index.0.insert(0, 3);
    a.graph.last_seen.insert(5, 100);
    let mut b: WalletChangeSet<u8, u32> = WalletChangeSet::new();
    b.chain.0.insert(1, None);
    b.index.0.insert(0, 2);
    b.graph.last_seen.insert(5, 50);
    b.graph.txs.insert(5);
    a.append(b);
    assert_eq!(a.chain.0.get(&1), Some(&None));
    assert_eq!(a.index.0.get(&0), Some(&3));
    assert_eq!(a.graph.last_seen.get(&5), Some(&100));
    assert!(a.graph.txs.contains(&5));
}

#[test]
fn missing_bodies_are_listed_in_order() {
    let mut known = BTreeSet::new();
    known.insert(2u64);
    assert_eq!(missing_full_txs(&vec![3, 2, 1], &known), vec![3, 1]);
}

#[test]
fn finalize_fails_on_unfetched_body() {
    let mut g: TxGraph<u32> = TxGraph::new();
    let r = finalize_graph(&mut g, &vec![4, 5, 6], &vec![true, false, false], Some(77));
    assert_eq!(r, Err(FetchError { txid: 5 }));
    assert!(g.txs.is_empty());
}

#[test]
fn finalize_adds_bodies_and_times() {
    let mut g: TxGraph<u32> = TxGraph::new();
    g.last_seen.insert(4, 90);
    let r = finalize_graph(&mut g, &vec![4, 5], &vec![true, true], Some(77));
    assert_eq!(r, Ok(()));
    assert!(g.txs.contains(&4) && g.txs.contains(&5));
    assert_eq!(g.last_seen.get(&4), Some(&90));
    assert_eq!(g.last_seen.get(&5), Some(&77));
}

#[test]
fn replaced_block_invalidates_unlisted_checkpoints_above() {
    let mut chain = LocalChain::new();
    let mut blocks = BTreeMap::new();
    for h in 0u32..4 {
        blocks.insert(h, 100 + h as u64);
    }
    let first = chain.apply_update(&ChainUpdate(blocks)).unwrap();
    assert_eq!(first.0.len(), 4);

    let mut reorg = BTreeMap::new();
    reorg.insert(0u32, 100u64);
    reorg.insert(1u32, 901u64);
    let changes = chain.apply_update(&ChainUpdate(reorg)).unwrap();
    let mut expected = BTreeMap::new();
    expected.insert(1u32, Some(901u64));
    expected.insert(2u32, None);
    expected.insert(3u32, None);
    assert_eq!(changes.0, expected);
    assert_eq!(chain.blocks.len(), 2);
    assert_eq!(chain.blocks.get(&1), Some(&901));
}

#[test]
fn staged_changes_merge_until_taken() {
    let mut staged: Staged<u8, u32> = Staged::new();
    let mut a: WalletChangeSet<u8, u32> = WalletChangeSet::new();
    a.index.0.insert(0, 3);
    let mut b: WalletChangeSet<u8, u32> = WalletChangeSet::new();
    b.index.0.insert(0, 7);
    b.chain.0.insert(2, Some(20));
    staged.stage(a);
    staged.stage(b);
    let out = staged.take();
    assert_eq!(out.index.0.get(&0), Some(&7));
    assert_eq!(out.chain.0.get(&2), Some(&Some(20)));
    assert!(staged.take().is_empty());
}
