use std::collections::BTreeSet;
use vstd::prelude::*;

use crate::tx_graph::{merge_latest, TxGraph, Txid};

verus! {

/// A transaction body that finalizing an update needs could not be fetched.
#[derive(Debug, PartialEq, Eq, Clone, Copy, Structural)]
pub struct FetchError {
    /// The transaction whose body is missing.
    pub txid: Txid,
}

/// The transactions of `referenced`, in order, whose full body `known` lacks.
pub open spec fn missing_of(referenced: Seq<Txid>, known: Set<Txid>) -> Seq<Txid>
    decreases referenced.len(),
{
    if referenced.len() == 0 {
        Seq::empty()
    } else {
        let init = missing_of(referenced.drop_last(), known);
        if known.contains(referenced.last()) {
            init
        } else {
            init.push(referenced.last())
        }
    }
}

/// Lists the transactions an update refers to whose full body is not held locally.
pub fn missing_full_txs(referenced: &Vec<Txid>, known: &BTreeSet<Txid>) -> (r: Vec<Txid>)
    ensures
        r@ == missing_of(referenced@, known@),
{
    broadcast use vstd::std_specs::btree::group_btree_axioms;
    broadcast use vstd::laws_cmp::group_laws_cmp;

    let mut r: Vec<Txid> = Vec::new();
    let mut i: usize = 0;
    while i < referenced.len()
        invariant
            i <= referenced.len(),
            r@ == missing_of(referenced@.take(i as int), known@),
        decreases referenced.len() - i,
    {
        let t = referenced[i];
        assert(referenced@.take(i + 1).drop_last() =~= referenced@.take(i as int));
        if !known.contains(&t) {
            r.push(t);
        }
        i = i + 1;
    }
    assert(referenced@.take(referenced.len() as int) =~= referenced@);
    r
}

/// The index of the first `false` of `fetched`, if any.
pub open spec fn first_unfetched(fetched: Seq<bool>) -> Option<int>
    decreases fetched.len(),
{
    if fetched.len() == 0 {
        None
    } else {
        match first_unfetched(fetched.drop_last()) {
            Some(i) => Some(i),
            None => if fetched.last() {
                None
            } else {
                Some(fetched.len() - 1)
            },
        }
    }
}

/// The map that gives each transaction of `txids` the time `now`.
pub open spec fn seen_at(txids: Seq<Txid>, now: u64) -> Map<Txid, u64> {
    Map::new(|t: Txid| txids.contains(t), |t: Txid| now)
}

/// Completes a graph update with the bodies fetched for `missing`: `fetched[i]` tells whether
/// the body of `missing[i]` came back. Where one did not, fails with the first such
/// transaction and leaves the update as it was. Otherwise adds every fetched transaction and,
/// where `now` is given, records it as seen at that time.
pub fn finalize_graph<A: Ord + Copy>(
    graph: &mut TxGraph<A>,
    missing: &Vec<Txid>,
    fetched: &Vec<bool>,
    now: Option<u64>,
) -> (r: Result<(), FetchError>)
    requires
        missing.len() == fetched.len(),
    ensures
        r is Err <==> first_unfetched(fetched@) is Some,
        r is Err ==> r->Err_0.txid == missing@[first_unfetched(fetched@)->Some_0] && final(graph)@
            == old(graph)@,
        r is Ok ==> final(graph)@.txs == old(graph)@.txs.union(missing@.to_set()),
        r is Ok ==> final(graph)@.anchors == old(graph)@.anchors,
        r is Ok ==> final(graph)@.last_seen == match now {
            Some(t) => merge_latest(old(graph)@.last_seen, seen_at(missing@, t)),
            None => old(graph)@.last_seen,
        },
{
    broadcast use vstd::std_specs::btree::group_btree_axioms;
    broadcast use vstd::laws_cmp::group_laws_cmp;

    let mut i: usize = 0;
    while i < fetched.len()
        invariant
            i <= fetched.len() == missing.len(),
            first_unfetched(fetched@.take(i as int)) is None,
        decreases fetched.len() - i,
    {
        assert(fetched@.take(i + 1).drop_last() =~= fetched@.take(i as int));
        if !fetched[i] {
            proof {
                lemma_first_unfetched_prefix(fetched@, i as int + 1);
            }
            return Err(FetchError { txid: missing[i] });
        }
        i = i + 1;
    }
    assert(fetched@.take(fetched.len() as int) =~= fetched@);
    let ghost g0 = graph@;
    let mut j: usize = 0;
    while j < missing.len()
        invariant
            j <= missing.len(),
            graph@.txs == g0.txs.union(missing@.take(j as int).to_set()),
            graph@.anchors == g0.anchors,
            graph@.last_seen == match now {
                Some(t) => merge_latest(g0.last_seen, seen_at(missing@.take(j as int), t)),
                None => g0.last_seen,
            },
        decreases missing.len() - j,
    {
        let t = missing[j];
        let ghost pre = missing@.take(j as int);
        let ghost next = missing@.take(j + 1);
        assert(next =~= pre.push(t));
        proof {
            pre.lemma_push_to_set_commute(t);
            assert forall|x: Txid| next.contains(x) <==> (pre.contains(x) || x == t) by {
                if next.contains(x) {
                    assert(next.to_set().contains(x));
                }
                if pre.contains(x) || x == t {
                    assert(next.to_set().contains(x));
                }
            }
        }
        graph.txs.insert(t);
        if let Some(time) = now {
            let newer = match graph.last_seen.get(&t) {
                Some(cur) => *cur < time,
                None => true,
            };
            if newer {
                graph.last_seen.insert(t, time);
            }
            assert(graph@.last_seen =~= merge_latest(g0.last_seen, seen_at(next, time)));
        }
        assert(graph@.txs =~= g0.txs.union(next.to_set()));
        j = j + 1;
    }
    assert(missing@.take(missing.len() as int) =~= missing@);
    Ok(())
}

proof fn lemma_first_unfetched_prefix(fetched: Seq<bool>, n: int)
    requires
        0 < n <= fetched.len(),
        first_unfetched(fetched.take(n - 1)) is None,
        !fetched[n - 1],
    ensures
        first_unfetched(fetched) == Some(n - 1),
    decreases fetched.len(),
{
    if n < fetched.len() {
        assert(fetched.drop_last().take(n - 1) =~= fetched.take(n - 1));
        lemma_first_unfetched_prefix(fetched.drop_last(), n);
    } else {
        assert(fetched.drop_last() =~= fetched.take(n - 1));
    }
}

} // verus!
