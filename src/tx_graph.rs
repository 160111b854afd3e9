use std::collections::{BTreeMap, BTreeSet};
use vstd::laws_cmp::obeys_cmp;
use vstd::prelude::*;

use crate::append::Append;

verus! {

/// Identifies a transaction; held as an opaque 64-bit handle.
pub type Txid = u64;

/// The last-seen map after absorbing `b` into `a`: each transaction keeps its latest time.
pub open spec fn merge_latest(a: Map<Txid, u64>, b: Map<Txid, u64>) -> Map<Txid, u64> {
    Map::new(
        |t: Txid| a.contains_key(t) || b.contains_key(t),
        |t: Txid|
            if a.contains_key(t) && (!b.contains_key(t) || a[t] >= b[t]) {
                a[t]
            } else {
                b[t]
            },
    )
}

/// The entries of `b` that move a last-seen time of `a` forward, or that `a` lacks.
pub open spec fn newer_entries(a: Map<Txid, u64>, b: Map<Txid, u64>) -> Map<Txid, u64> {
    b.restrict(Set::new(|t: Txid| b.contains_key(t) && (!a.contains_key(t) || a[t] < b[t])))
}

/// Inserts every item of `src` into `dst` and returns those that `dst` lacked.
fn absorb_set<T: Ord + Copy>(dst: &mut BTreeSet<T>, src: &BTreeSet<T>) -> (added: BTreeSet<T>)
    requires
        obeys_cmp::<T>(),
    ensures
        final(dst)@ == old(dst)@.union(src@),
        added@ == src@.difference(old(dst)@),
{
    broadcast use vstd::std_specs::btree::group_btree_axioms;

    let ghost d0 = dst@;
    let ghost s = src@;
    let ghost mut seen: Set<T> = Set::empty();
    let mut added: BTreeSet<T> = BTreeSet::new();
    for x in it: src.iter()
        invariant
            obeys_cmp::<T>(),
            s == src@,
            it.seq().unref().to_set() == s,
            forall|i: int| 0 <= i < it.index() ==> seen.contains(*#[trigger] it.seq()[i]),
            forall|y: T|
                #[trigger] s.contains(y) ==> seen.contains(y) || exists|i: int|
                    it.index() <= i < it.seq().len() && #[trigger] it.seq()[i] == &y,
            seen.subset_of(s),
            dst@ == d0.union(seen),
            added@ == seen.difference(d0),
    {
        let y: T = *x;
        assert(x == it.seq()[it.index() as int]);
        assert(it.seq().unref()[it.index() as int] == y);
        let fresh = dst.insert(y);
        if fresh {
            added.insert(y);
        }
        proof {
            seen = seen.insert(y);
        }
    }
    assert(seen =~= s);
    added
}

/// Absorbs the last-seen times of `src` into `dst` and returns the entries that moved forward.
fn absorb_latest(dst: &mut BTreeMap<Txid, u64>, src: &BTreeMap<Txid, u64>) -> (added: BTreeMap<
    Txid,
    u64,
>)
    ensures
        final(dst)@ == merge_latest(old(dst)@, src@),
        added@ == newer_entries(old(dst)@, src@),
{
    broadcast use vstd::std_specs::btree::group_btree_axioms;
    broadcast use vstd::laws_cmp::group_laws_cmp;

    let ghost a = dst@;
    let ghost b = src@;
    let ghost mut seen: Set<Txid> = Set::empty();
    let mut added: BTreeMap<Txid, u64> = BTreeMap::new();
    for kv in it: src.iter()
        invariant
            b == src@,
            forall|i: int| 0 <= i < it.seq().len() ==> b.contains_key(*#[trigger] it.seq()[i].0)
                && b[*it.seq()[i].0] == *it.seq()[i].1,
            forall|k: Txid| #[trigger] b.contains_key(k) ==> it.seq().contains((&k, &b[k])),
            forall|k: Txid|
                #[trigger] b.contains_key(k) ==> seen.contains(k) || exists|i: int|
                    it.index() <= i < it.seq().len() && #[trigger] it.seq()[i] == (&k, &b[k]),
            forall|k: Txid| #[trigger] seen.contains(k) ==> b.contains_key(k),
            dst@ == merge_latest(a, b.restrict(seen)),
            added@ == newer_entries(a, b.restrict(seen)),
    {
        let (k, v) = kv;
        let key: Txid = *k;
        let time: u64 = *v;
        assert(kv == it.seq()[it.index() as int]);
        let newer = match dst.get(&key) {
            Some(cur) => *cur < time,
            None => true,
        };
        if newer {
            dst.insert(key, time);
            added.insert(key, time);
        }
        proof {
            seen = seen.insert(key);
            assert(dst@ =~= merge_latest(a, b.restrict(seen)));
            assert(added@ =~= newer_entries(a, b.restrict(seen)));
        }
    }
    assert(b.restrict(seen) =~= b);
    added
}

/// What a transaction graph holds, or what changed in one: known transactions, anchors that
/// tie a transaction to a block, and the time each unconfirmed transaction was last seen.
#[verifier::reject_recursive_types(A)]
pub ghost struct GraphView<A> {
    pub txs: Set<Txid>,
    pub anchors: Set<(A, Txid)>,
    pub last_seen: Map<Txid, u64>,
}

/// The graph view after absorbing `b` into `a`.
pub open spec fn merge_graphs<A>(a: GraphView<A>, b: GraphView<A>) -> GraphView<A> {
    GraphView {
        txs: a.txs.union(b.txs),
        anchors: a.anchors.union(b.anchors),
        last_seen: merge_latest(a.last_seen, b.last_seen),
    }
}

/// What absorbing `b` into `a` adds to `a`.
pub open spec fn graph_additions<A>(a: GraphView<A>, b: GraphView<A>) -> GraphView<A> {
    GraphView {
        txs: b.txs.difference(a.txs),
        anchors: b.anchors.difference(a.anchors),
        last_seen: newer_entries(a.last_seen, b.last_seen),
    }
}

/// Whether a graph view records nothing.
pub open spec fn graph_is_empty<A>(v: GraphView<A>) -> bool {
    v.txs.is_empty() && v.anchors.is_empty() && v.last_seen.is_empty()
}

/// Changes to a transaction graph.
#[derive(Clone, Debug, PartialEq)]
pub struct TxGraphChangeSet<A> {
    pub txs: BTreeSet<Txid>,
    pub anchors: BTreeSet<(A, Txid)>,
    pub last_seen: BTreeMap<Txid, u64>,
}

impl<A> View for TxGraphChangeSet<A> {
    type V = GraphView<A>;

    open spec fn view(&self) -> GraphView<A> {
        GraphView { txs: self.txs@, anchors: self.anchors@, last_seen: self.last_seen@ }
    }
}

impl<A> TxGraphChangeSet<A> {
    /// A changeset that records nothing.
    pub fn new() -> (r: Self)
        ensures
            graph_is_empty(r@),
    {
        TxGraphChangeSet { txs: BTreeSet::new(), anchors: BTreeSet::new(), last_seen: BTreeMap::new() }
    }
}

impl<A> Default for TxGraphChangeSet<A> {
    fn default() -> (r: Self)
        ensures
            graph_is_empty(r@),
    {
        TxGraphChangeSet::new()
    }
}

impl<A: Ord + Copy> Append for TxGraphChangeSet<A> {
    open spec fn keys_ordered() -> bool {
        obeys_cmp::<(A, Txid)>()
    }

    open spec fn merged(a: GraphView<A>, b: GraphView<A>) -> GraphView<A> {
        merge_graphs(a, b)
    }

    open spec fn records_nothing(v: GraphView<A>) -> bool {
        graph_is_empty(v)
    }

    fn append(&mut self, other: Self) {
        broadcast use vstd::laws_cmp::group_laws_cmp;

        absorb_set(&mut self.txs, &other.txs);
        absorb_set(&mut self.anchors, &other.anchors);
        absorb_latest(&mut self.last_seen, &other.last_seen);
    }

    fn is_empty(&self) -> (r: bool) {
        self.txs.is_empty() && self.anchors.is_empty() && self.last_seen.is_empty()
    }
}

/// A transaction graph: the transactions, anchors and last-seen times known so far.
///
/// Applying an update only ever adds; nothing known is removed, since a transaction that left
/// the best chain may come back into it.
#[derive(Clone, Debug)]
pub struct TxGraph<A> {
    pub txs: BTreeSet<Txid>,
    pub anchors: BTreeSet<(A, Txid)>,
    pub last_seen: BTreeMap<Txid, u64>,
}

impl<A> View for TxGraph<A> {
    type V = GraphView<A>;

    open spec fn view(&self) -> GraphView<A> {
        GraphView { txs: self.txs@, anchors: self.anchors@, last_seen: self.last_seen@ }
    }
}

impl<A: Ord + Copy> TxGraph<A> {
    /// An empty graph.
    pub fn new() -> (r: Self)
        ensures
            graph_is_empty(r@),
    {
        TxGraph { txs: BTreeSet::new(), anchors: BTreeSet::new(), last_seen: BTreeMap::new() }
    }

    /// Adds everything of `update` to this graph and returns a changeset of what was new.
    pub fn apply_update(&mut self, update: &TxGraph<A>) -> (changes: TxGraphChangeSet<A>)
        requires
            obeys_cmp::<(A, Txid)>(),
        ensures
            final(self)@ == merge_graphs(old(self)@, update@),
            changes@ == graph_additions(old(self)@, update@),
    {
        broadcast use vstd::laws_cmp::group_laws_cmp;

        let txs = absorb_set(&mut self.txs, &update.txs);
        let anchors = absorb_set(&mut self.anchors, &update.anchors);
        let last_seen = absorb_latest(&mut self.last_seen, &update.last_seen);
        TxGraphChangeSet { txs, anchors, last_seen }
    }
}

} // verus!
