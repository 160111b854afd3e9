use std::collections::BTreeMap;
use vstd::laws_cmp::obeys_cmp;
use vstd::prelude::*;

use crate::append::Append;
use crate::keychain::{
    lemma_merge_idempotent, lemma_merge_order_independent, merge_indices, raised_entries,
    ChangeSet, KeychainIndex,
};
use crate::local_chain::{
    chain_after, chain_changes, genesis_conflict, BlockHash, ChainChangeSet, ChainUpdate, LocalChain,
    ReorgError,
};
use crate::tx_graph::{
    graph_additions, graph_is_empty, merge_graphs, merge_latest, GraphView, TxGraph, TxGraphChangeSet, Txid,
};

verus! {

/// What a wallet changeset records: changes to the chain, to the graph, and to the revealed
/// keychain indices.
#[verifier::reject_recursive_types(K)]
#[verifier::reject_recursive_types(A)]
pub ghost struct WalletView<K, A> {
    pub chain: Map<u32, Option<BlockHash>>,
    pub graph: GraphView<A>,
    pub index: Map<K, u32>,
}

/// The changes that applying one update to the chain, the graph and the keychain index
/// records, persisted as one unit.
#[derive(Clone, Debug, PartialEq)]
pub struct WalletChangeSet<K, A> {
    pub chain: ChainChangeSet,
    pub graph: TxGraphChangeSet<A>,
    pub index: ChangeSet<K>,
}

impl<K, A> View for WalletChangeSet<K, A> {
    type V = WalletView<K, A>;

    open spec fn view(&self) -> WalletView<K, A> {
        WalletView { chain: self.chain@, graph: self.graph@, index: self.index@ }
    }
}

impl<K, A> WalletChangeSet<K, A> {
    /// A changeset that records nothing.
    pub fn new() -> (r: Self)
        ensures
            r@.chain.is_empty(),
            graph_is_empty(r@.graph),
            r@.index.is_empty(),
    {
        WalletChangeSet { chain: ChainChangeSet::new(), graph: TxGraphChangeSet::new(), index: ChangeSet::new() }
    }

    /// A changeset of chain changes alone.
    pub fn from_chain(chain: ChainChangeSet) -> (r: Self)
        ensures
            r@.chain == chain@,
            graph_is_empty(r@.graph),
            r@.index.is_empty(),
    {
        WalletChangeSet { chain, graph: TxGraphChangeSet::new(), index: ChangeSet::new() }
    }

    /// A changeset of graph and index changes alone.
    pub fn from_indexed_graph(graph: TxGraphChangeSet<A>, index: ChangeSet<K>) -> (r: Self)
        ensures
            r@.chain.is_empty(),
            r@.graph == graph@,
            r@.index == index@,
    {
        WalletChangeSet { chain: ChainChangeSet::new(), graph, index }
    }
}

impl<K, A> Default for WalletChangeSet<K, A> {
    fn default() -> (r: Self)
        ensures
            r@.chain.is_empty(),
            graph_is_empty(r@.graph),
            r@.index.is_empty(),
    {
        WalletChangeSet::new()
    }
}

impl<K: Ord + Copy, A: Ord + Copy> Append for WalletChangeSet<K, A> {
    open spec fn keys_ordered() -> bool {
        obeys_cmp::<K>() && obeys_cmp::<(A, Txid)>()
    }

    /// Each part absorbs its counterpart by its own rule.
    open spec fn merged(a: WalletView<K, A>, b: WalletView<K, A>) -> WalletView<K, A> {
        WalletView {
            chain: a.chain.union_prefer_right(b.chain),
            graph: merge_graphs(a.graph, b.graph),
            index: merge_indices(a.index, b.index),
        }
    }

    /// Empty exactly when all three parts are.
    open spec fn records_nothing(v: WalletView<K, A>) -> bool {
        v.chain.is_empty() && graph_is_empty(v.graph) && v.index.is_empty()
    }

    fn append(&mut self, other: Self) {
        self.chain.append(other.chain);
        self.graph.append(other.graph);
        self.index.append(other.index);
    }

    fn is_empty(&self) -> (r: bool) {
        self.chain.is_empty() && self.graph.is_empty() && self.index.is_empty()
    }
}

/// Changesets staged for one durable write: everything staged since the last write, merged.
pub struct Staged<K, A> {
    pub pending: WalletChangeSet<K, A>,
}

impl<K: Ord + Copy, A: Ord + Copy> Staged<K, A> {
    /// Nothing staged.
    pub fn new() -> (r: Self)
        ensures
            WalletChangeSet::<K, A>::records_nothing(r.pending@),
    {
        Staged { pending: WalletChangeSet::new() }
    }

    /// Merges `changes` into what is staged.
    pub fn stage(&mut self, changes: WalletChangeSet<K, A>)
        requires
            WalletChangeSet::<K, A>::keys_ordered(),
        ensures
            final(self).pending@ == WalletChangeSet::<K, A>::merged(old(self).pending@, changes@),
    {
        self.pending.append(changes);
    }

    /// Hands out what is staged, to be written as one unit, and leaves nothing staged.
    pub fn take(&mut self) -> (r: WalletChangeSet<K, A>)
        ensures
            r@ == old(self).pending@,
            WalletChangeSet::<K, A>::records_nothing(final(self).pending@),
    {
        let mut out = WalletChangeSet::new();
        core::mem::swap(&mut self.pending, &mut out);
        out
    }
}

/// What one synchronization round found: the last active derivation index per keychain, the
/// transactions and anchors discovered, and the new chain tip.
#[derive(Clone, Debug)]
pub struct WalletUpdate<K, A> {
    pub last_active_indices: BTreeMap<K, u32>,
    pub graph: TxGraph<A>,
    pub chain: ChainUpdate,
}

impl<K, A: Ord + Copy> WalletUpdate<K, A> {
    /// An update that carries the chain update alone.
    pub fn new(chain_update: ChainUpdate) -> (r: Self)
        ensures
            r.last_active_indices@.is_empty(),
            graph_is_empty(r.graph@),
            r.chain@ == chain_update@,
    {
        WalletUpdate { last_active_indices: BTreeMap::new(), graph: TxGraph::new(), chain: chain_update }
    }
}

/// The three stores a wallet owns.
pub struct Wallet<K, A> {
    pub chain: LocalChain,
    pub index: KeychainIndex<K>,
    pub graph: TxGraph<A>,
}

/// The changeset that applying an update with the given views to stores with the given views
/// records.
pub open spec fn update_changes<K, A>(
    chain: Map<u32, BlockHash>,
    index: Map<K, u32>,
    graph: GraphView<A>,
    chain_update: Map<u32, BlockHash>,
    targets: Map<K, u32>,
    graph_update: GraphView<A>,
) -> WalletView<K, A> {
    WalletView {
        chain: chain_changes(chain, chain_update),
        graph: graph_additions(graph, graph_update),
        index: raised_entries(index, targets),
    }
}

impl<K: Ord + Copy, A: Ord + Copy> Wallet<K, A> {
    /// Applies a finalized update to the chain, then the keychain index, then the graph, and
    /// returns the one changeset that records all three. On a reorganization that cannot be
    /// reconciled nothing changes.
    pub fn apply_update(&mut self, update: &WalletUpdate<K, A>) -> (r: Result<
        WalletChangeSet<K, A>,
        ReorgError,
    >)
        requires
            obeys_cmp::<K>(),
            obeys_cmp::<(A, Txid)>(),
        ensures
            genesis_conflict(old(self).chain@, update.chain@) <==> r is Err,
            r is Err ==> final(self).chain@ == old(self).chain@ && final(self).index.last_revealed@
                == old(self).index.last_revealed@ && final(self).graph@ == old(self).graph@,
            r is Ok ==> final(self).chain@ == chain_after(old(self).chain@, update.chain@),
            r is Ok ==> final(self).index.last_revealed@ == merge_indices(
                old(self).index.last_revealed@,
                update.last_active_indices@,
            ),
            r is Ok ==> final(self).graph@ == merge_graphs(old(self).graph@, update.graph@),
            r is Ok ==> r->Ok_0@ == update_changes(
                old(self).chain@,
                old(self).index.last_revealed@,
                old(self).graph@,
                update.chain@,
                update.last_active_indices@,
                update.graph@,
            ),
    {
        let chain = match self.chain.apply_update(&update.chain) {
            Ok(c) => c,
            Err(e) => {
                return Err(e);
            },
        };
        let index = self.index.reveal_to_target_multi(&update.last_active_indices);
        let graph = self.graph.apply_update(&update.graph);
        Ok(WalletChangeSet { chain, graph, index })
    }
}

/// Absorbing the same composite changeset a second time, or an empty one, changes nothing;
/// absorbing three changesets gives the same result however the merges are grouped.
pub proof fn lemma_wallet_merge_laws<K: Ord + Copy, A: Ord + Copy>(a: WalletView<K, A>, b: WalletView<K, A>, c: WalletView<K, A>)
    requires
        WalletChangeSet::<K, A>::records_nothing(c),
    ensures
        WalletChangeSet::<K, A>::merged(WalletChangeSet::<K, A>::merged(a, b), b)
            == WalletChangeSet::<K, A>::merged(a, b),
        WalletChangeSet::<K, A>::merged(a, c) == a,
{
    lemma_merge_idempotent(a.index, b.index);
    let ab = WalletChangeSet::<K, A>::merged(a, b);
    assert(ab.chain.union_prefer_right(b.chain) =~= ab.chain);
    assert(ab.graph.txs.union(b.graph.txs) =~= ab.graph.txs);
    assert(ab.graph.anchors.union(b.graph.anchors) =~= ab.graph.anchors);
    assert(merge_latest(ab.graph.last_seen, b.graph.last_seen) =~= ab.graph.last_seen);
    assert(c.index =~= Map::empty());
    lemma_merge_idempotent(a.index, c.index);
    assert(a.chain.union_prefer_right(c.chain) =~= a.chain);
    assert(a.graph.txs.union(c.graph.txs) =~= a.graph.txs);
    assert(a.graph.anchors.union(c.graph.anchors) =~= a.graph.anchors);
    assert(merge_latest(a.graph.last_seen, c.graph.last_seen) =~= a.graph.last_seen);
}

/// Grouping does not matter when merging composite changesets.
pub proof fn lemma_wallet_merge_associative<K: Ord + Copy, A: Ord + Copy>(
    a: WalletView<K, A>,
    b: WalletView<K, A>,
    c: WalletView<K, A>,
)
    ensures
        WalletChangeSet::<K, A>::merged(WalletChangeSet::<K, A>::merged(a, b), c)
            == WalletChangeSet::<K, A>::merged(a, WalletChangeSet::<K, A>::merged(b, c)),
{
    lemma_merge_order_independent(a.index, b.index, c.index);
    assert(a.chain.union_prefer_right(b.chain).union_prefer_right(c.chain) =~= a.chain.union_prefer_right(
        b.chain.union_prefer_right(c.chain),
    ));
    assert(a.graph.txs.union(b.graph.txs).union(c.graph.txs) =~= a.graph.txs.union(
        b.graph.txs.union(c.graph.txs),
    ));
    assert(a.graph.anchors.union(b.graph.anchors).union(c.graph.anchors) =~= a.graph.anchors.union(
        b.graph.anchors.union(c.graph.anchors),
    ));
    assert(merge_latest(merge_latest(a.graph.last_seen, b.graph.last_seen), c.graph.last_seen)
        =~= merge_latest(a.graph.last_seen, merge_latest(b.graph.last_seen, c.graph.last_seen)));
}

/// Applying the same update a second time, as a retried commit does, records nothing: no
/// block, transaction, anchor or time is recorded twice and no index moves back.
pub proof fn lemma_reapply_records_nothing<K, A>(
    chain: Map<u32, BlockHash>,
    index: Map<K, u32>,
    graph: GraphView<A>,
    chain_update: Map<u32, BlockHash>,
    targets: Map<K, u32>,
    graph_update: GraphView<A>,
)
    ensures
        ({
            let v = update_changes(
                chain_after(chain, chain_update),
                merge_indices(index, targets),
                merge_graphs(graph, graph_update),
                chain_update,
                targets,
                graph_update,
            );
            v.chain.is_empty() && graph_is_empty(v.graph) && v.index.is_empty()
        }),
{
    let v = update_changes(
        chain_after(chain, chain_update),
        merge_indices(index, targets),
        merge_graphs(graph, graph_update),
        chain_update,
        targets,
        graph_update,
    );
    assert(v.chain =~= Map::empty());
    assert(v.index =~= Map::empty());
    assert(v.graph.txs =~= Set::empty());
    assert(v.graph.anchors =~= Set::empty());
    assert(v.graph.last_seen =~= Map::empty());
}

} // verus!
