use std::collections::BTreeMap;
use vstd::laws_cmp::obeys_cmp;
use vstd::prelude::*;

use crate::append::Append;

verus! {

/// The index map after absorbing `b` into `a`: a keychain present in both keeps the larger
/// index, a keychain present in one keeps its index.
pub open spec fn merge_indices<K>(a: Map<K, u32>, b: Map<K, u32>) -> Map<K, u32> {
    Map::new(
        |k: K| a.contains_key(k) || b.contains_key(k),
        |k: K|
            if a.contains_key(k) && b.contains_key(k) {
                if a[k] >= b[k] {
                    a[k]
                } else {
                    b[k]
                }
            } else if a.contains_key(k) {
                a[k]
            } else {
                b[k]
            },
    )
}

/// The index map obtained by absorbing each map of `ms` in turn, starting from nothing.
pub open spec fn merge_all<K>(ms: Seq<Map<K, u32>>) -> Map<K, u32>
    decreases ms.len(),
{
    if ms.len() == 0 {
        Map::empty()
    } else {
        merge_indices(merge_all(ms.drop_last()), ms.last())
    }
}

/// Monotonicity: after any sequence of merges, a keychain is recorded exactly when some merged
/// changeset recorded it, and its index is the largest index that any of them gave it.
pub proof fn lemma_merge_all_is_max<K>(ms: Seq<Map<K, u32>>, k: K)
    ensures
        merge_all(ms).contains_key(k) <==> exists|i: int| 0 <= i < ms.len() && #[trigger] ms[i].contains_key(k),
        merge_all(ms).contains_key(k) ==> (exists|i: int|
            0 <= i < ms.len() && #[trigger] ms[i].contains_key(k) && ms[i][k] == merge_all(ms)[k]),
        forall|i: int|
            0 <= i < ms.len() && #[trigger] ms[i].contains_key(k) ==> ms[i][k] <= merge_all(ms)[k],
    decreases ms.len(),
{
    if ms.len() > 0 {
        let init = ms.drop_last();
        let last = ms.len() - 1;
        assert(ms.last() == ms[last]);
        lemma_merge_all_is_max(init, k);
        assert(init.len() == last);
        assert forall|i: int| 0 <= i < init.len() implies #[trigger] init[i] == ms[i] by {}
        if exists|i: int| 0 <= i < ms.len() && #[trigger] ms[i].contains_key(k) {
            let i = choose|i: int| 0 <= i < ms.len() && #[trigger] ms[i].contains_key(k);
            if i < last {
                assert(init[i].contains_key(k));
            }
        }
        if merge_all(init).contains_key(k) {
            let j = choose|j: int| 0 <= j < init.len() && #[trigger] init[j].contains_key(k)
                && init[j][k] == merge_all(init)[k];
            assert(ms[j].contains_key(k));
        }
        assert forall|i: int| 0 <= i < ms.len() && #[trigger] ms[i].contains_key(k) implies ms[i][k]
            <= merge_all(ms)[k] by {
            if i < last {
                assert(init[i].contains_key(k));
            }
        }
    }
}

/// Merging never lowers an index and never drops a keychain.
pub proof fn lemma_merge_monotone<K>(a: Map<K, u32>, b: Map<K, u32>)
    ensures
        forall|k: K| #[trigger] a.contains_key(k) ==> merge_indices(a, b).contains_key(k)
            && merge_indices(a, b)[k] >= a[k],
        forall|k: K| #[trigger] b.contains_key(k) ==> merge_indices(a, b).contains_key(k)
            && merge_indices(a, b)[k] >= b[k],
{
}

/// Idempotence: absorbing the same changeset a second time, or an empty one, changes nothing.
pub proof fn lemma_merge_idempotent<K>(a: Map<K, u32>, b: Map<K, u32>)
    ensures
        merge_indices(merge_indices(a, b), b) == merge_indices(a, b),
        merge_indices(a, a) == a,
        merge_indices(a, Map::empty()) == a,
        merge_indices(Map::empty(), a) == a,
{
    assert(merge_indices(merge_indices(a, b), b) =~= merge_indices(a, b));
    assert(merge_indices(a, a) =~= a);
    assert(merge_indices(a, Map::empty()) =~= a);
    assert(merge_indices(Map::empty(), a) =~= a);
}

/// Order independence: two changesets absorbed in either order give the same map, and so
/// does regrouping the merges.
pub proof fn lemma_merge_order_independent<K>(a: Map<K, u32>, b: Map<K, u32>, c: Map<K, u32>)
    ensures
        merge_indices(a, b) == merge_indices(b, a),
        merge_indices(merge_indices(a, b), c) == merge_indices(merge_indices(a, c), b),
        merge_indices(merge_indices(a, b), c) == merge_indices(a, merge_indices(b, c)),
{
    assert(merge_indices(a, b) =~= merge_indices(b, a));
    assert(merge_indices(merge_indices(a, b), c) =~= merge_indices(merge_indices(a, c), b));
    assert(merge_indices(merge_indices(a, b), c) =~= merge_indices(a, merge_indices(b, c)));
}

/// The entries of `b` that raise an index of `a`, or that `a` lacks.
pub open spec fn raised_entries<K>(a: Map<K, u32>, b: Map<K, u32>) -> Map<K, u32> {
    b.restrict(Set::new(|k: K| b.contains_key(k) && (!a.contains_key(k) || a[k] < b[k])))
}

/// Raises each index of `dst` to that of `src` where `src` has a larger one, adds the keychains
/// that `dst` lacks, and returns the entries that changed `dst`.
fn absorb_max<K: Ord + Copy>(dst: &mut BTreeMap<K, u32>, src: &BTreeMap<K, u32>) -> (raised:
BTreeMap<K, u32>)
requires
    obeys_cmp::<K>(),
ensures
    final(dst)@ == merge_indices(old(dst)@, src@),
    raised@ == raised_entries(old(dst)@, src@),
{
    broadcast use vstd::std_specs::btree::group_btree_axioms;

    let ghost a = dst@;
    let ghost b = src@;
    let ghost mut seen: Set<K> = Set::empty();
    let mut raised: BTreeMap<K, u32> = BTreeMap::new();
    for kv in it: src.iter()
        invariant
            obeys_cmp::<K>(),
            b == src@,
            forall|i: int| 0 <= i < it.seq().len() ==> b.contains_key(*#[trigger] it.seq()[i].0)
                && b[*it.seq()[i].0] == *it.seq()[i].1,
            forall|k: K| #[trigger] b.contains_key(k) ==> it.seq().contains((&k, &b[k])),
            forall|k: K|
                #[trigger] b.contains_key(k) ==> seen.contains(k) || exists|i: int|
                    it.index() <= i < it.seq().len() && #[trigger] it.seq()[i] == (&k, &b[k]),
            forall|i: int| 0 <= i < it.index() ==> seen.contains(*#[trigger] it.seq()[i].0),
            forall|k: K| #[trigger] seen.contains(k) ==> b.contains_key(k),
            raised@ == raised_entries(a, b.restrict(seen)),
            forall|k: K| #[trigger]
                dst@.contains_key(k) <==> (a.contains_key(k) || seen.contains(k)),
            forall|k: K| #[trigger]
                dst@.contains_key(k) ==> dst@[k] == (if seen.contains(k) {
                    merge_indices(a, b)[k]
                } else {
                    a[k]
                }),
    {
        let (k, v) = kv;
        let key: K = *k;
        let idx: u32 = *v;
        assert(kv == it.seq()[it.index() as int]);
        assert(b.contains_key(key) && b[key] == idx);
        let ghost prev = dst@;
        match dst.get(&key) {
            Some(cur) => {
                if *cur < idx {
                    dst.insert(key, idx);
                    raised.insert(key, idx);
                }
            },
            None => {
                dst.insert(key, idx);
                raised.insert(key, idx);
            },
        }
        proof {
            seen = seen.insert(key);
            assert(raised@ =~= raised_entries(a, b.restrict(seen)));
            assert(dst@ == prev.insert(key, merge_indices(a, b)[key]) || (prev.contains_key(key)
                && dst@ == prev));
        }
    }
    assert(dst@ =~= merge_indices(a, b));
    assert(b.restrict(seen) =~= b);
    raised
}

/// Updates to the last revealed derivation index of each keychain `K`.
///
/// Merging is monotone: it never lowers the index of a keychain.
#[derive(Clone, Debug, PartialEq)]
pub struct ChangeSet<K>(pub BTreeMap<K, u32>);

impl<K> View for ChangeSet<K> {
    type V = Map<K, u32>;

    open spec fn view(&self) -> Map<K, u32> {
        self.0@
    }
}

impl<K> ChangeSet<K> {
    /// The map of each keychain to its last revealed derivation index.
    pub fn as_inner(&self) -> (r: &BTreeMap<K, u32>)
        ensures
            r@ == self@,
    {
        &self.0
    }

    /// A changeset that records no keychain.
    pub fn new() -> (r: Self)
        ensures
            r@ == Map::<K, u32>::empty(),
    {
        ChangeSet(BTreeMap::new())
    }
}

impl<K> Default for ChangeSet<K> {
    fn default() -> (r: Self)
        ensures
            r@ == Map::<K, u32>::empty(),
    {
        ChangeSet(BTreeMap::new())
    }
}

impl<K: Ord + Copy> Append for ChangeSet<K> {
    open spec fn keys_ordered() -> bool {
        obeys_cmp::<K>()
    }

    open spec fn merged(a: Map<K, u32>, b: Map<K, u32>) -> Map<K, u32> {
        merge_indices(a, b)
    }

    open spec fn records_nothing(v: Map<K, u32>) -> bool {
        v.is_empty()
    }

    fn append(&mut self, other: Self) {
        absorb_max(&mut self.0, &other.0);
    }

    fn is_empty(&self) -> (r: bool) {
        self.0.is_empty()
    }
}

/// The derivation index revealed so far for each keychain.
#[derive(Clone, Debug)]
pub struct KeychainIndex<K> {
    pub last_revealed: BTreeMap<K, u32>,
}

impl<K: Ord + Copy> KeychainIndex<K> {
    /// An index with nothing revealed.
    pub fn new() -> (r: Self)
        ensures
            r.last_revealed@ == Map::<K, u32>::empty(),
    {
        KeychainIndex { last_revealed: BTreeMap::new() }
    }

    /// Reveals each keychain of `targets` up to its target index. A keychain is never revealed
    /// less than before. Returns a changeset of the keychains whose revealed index moved.
    pub fn reveal_to_target_multi(&mut self, targets: &BTreeMap<K, u32>) -> (changes: ChangeSet<K>)
        requires
            obeys_cmp::<K>(),
        ensures
            final(self).last_revealed@ == merge_indices(old(self).last_revealed@, targets@),
            changes@ == raised_entries(old(self).last_revealed@, targets@),
    {
        ChangeSet(absorb_max(&mut self.last_revealed, targets))
    }
}

} // verus!
