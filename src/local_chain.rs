use std::collections::BTreeMap;
use vstd::prelude::*;

use crate::append::Append;

verus! {

/// Identifies a block; held as an opaque 64-bit handle.
pub type BlockHash = u64;

/// Changes to a local chain of checkpoints: each height maps to the block now at that
/// height, or to `None` where the checkpoint was invalidated.
#[derive(Clone, Debug, PartialEq)]
pub struct ChainChangeSet(pub BTreeMap<u32, Option<BlockHash>>);

impl View for ChainChangeSet {
    type V = Map<u32, Option<BlockHash>>;

    open spec fn view(&self) -> Map<u32, Option<BlockHash>> {
        self.0@
    }
}

impl ChainChangeSet {
    /// A changeset that records no height.
    pub fn new() -> (r: Self)
        ensures
            r@ == Map::<u32, Option<BlockHash>>::empty(),
    {
        ChainChangeSet(BTreeMap::new())
    }
}

impl Default for ChainChangeSet {
    fn default() -> (r: Self)
        ensures
            r@ == Map::<u32, Option<BlockHash>>::empty(),
    {
        ChainChangeSet(BTreeMap::new())
    }
}

impl Append for ChainChangeSet {
    open spec fn keys_ordered() -> bool {
        true
    }

    /// A later change to a height replaces an earlier one.
    open spec fn merged(
        a: Map<u32, Option<BlockHash>>,
        b: Map<u32, Option<BlockHash>>,
    ) -> Map<u32, Option<BlockHash>> {
        a.union_prefer_right(b)
    }

    open spec fn records_nothing(v: Map<u32, Option<BlockHash>>) -> bool {
        v.is_empty()
    }

    fn append(&mut self, other: Self) {
        broadcast use vstd::std_specs::btree::group_btree_axioms;
        broadcast use vstd::laws_cmp::group_laws_cmp;

        let ghost a = self@;
        let ghost b = other@;
        let ghost mut seen: Set<u32> = Set::empty();
        for kv in it: other.0.iter()
            invariant
                b == other@,
                forall|i: int| 0 <= i < it.seq().len() ==> b.contains_key(*#[trigger] it.seq()[i].0)
                    && b[*it.seq()[i].0] == *it.seq()[i].1,
                forall|k: u32| #[trigger] b.contains_key(k) ==> it.seq().contains((&k, &b[k])),
                forall|k: u32|
                    #[trigger] b.contains_key(k) ==> seen.contains(k) || exists|i: int|
                        it.index() <= i < it.seq().len() && #[trigger] it.seq()[i] == (&k, &b[k]),
                forall|k: u32| #[trigger] seen.contains(k) ==> b.contains_key(k),
                self@ == a.union_prefer_right(b.restrict(seen)),
        {
            let (k, v) = kv;
            assert(kv == it.seq()[it.index() as int]);
            self.0.insert(*k, *v);
            proof {
                seen = seen.insert(*k);
            }
        }
        assert(b.restrict(seen) =~= b);
        assert(self@ =~= a.union_prefer_right(b));
    }

    fn is_empty(&self) -> (r: bool) {
        self.0.is_empty()
    }
}

/// Whether `update` puts another block at height `h` than `local` holds there.
pub open spec fn conflicts_at(local: Map<u32, BlockHash>, update: Map<u32, BlockHash>, h: u32) -> bool {
    local.contains_key(h) && update.contains_key(h) && local[h] != update[h]
}

/// Whether applying `update` removes the local checkpoint at height `h`: the update does not
/// list it, and it stands above a height where the update replaced a block.
pub open spec fn invalidated(local: Map<u32, BlockHash>, update: Map<u32, BlockHash>, h: u32) -> bool {
    local.contains_key(h) && !update.contains_key(h) && exists|c: u32|
        c < h && #[trigger] conflicts_at(local, update, c)
}

/// The blocks of the chain `local` after applying `update`.
pub open spec fn chain_after(local: Map<u32, BlockHash>, update: Map<u32, BlockHash>) -> Map<
    u32,
    BlockHash,
> {
    Map::new(
        |h: u32| update.contains_key(h) || (local.contains_key(h) && !invalidated(local, update, h)),
        |h: u32|
            if update.contains_key(h) {
                update[h]
            } else {
                local[h]
            },
    )
}

/// The changes that applying `update` to the blocks `local` records: each height whose block
/// the update adds or replaces, and each checkpoint it invalidates, as `None`.
pub open spec fn chain_changes(local: Map<u32, BlockHash>, update: Map<u32, BlockHash>) -> Map<
    u32,
    Option<BlockHash>,
> {
    Map::new(
        |h: u32|
            (update.contains_key(h) && (!local.contains_key(h) || local[h] != update[h]))
                || invalidated(local, update, h),
        |h: u32|
            if update.contains_key(h) {
                Some(update[h])
            } else {
                None
            },
    )
}

/// Whether `update` names a genesis block other than the one `local` holds.
pub open spec fn genesis_conflict(local: Map<u32, BlockHash>, update: Map<u32, BlockHash>) -> bool {
    local.contains_key(0) && update.contains_key(0) && local[0] != update[0]
}

/// The reported chain tip cannot be reconciled with the local chain.
#[derive(Debug, PartialEq, Eq, Clone, Copy, Structural)]
pub struct ReorgError {
    /// The genesis block held locally.
    pub local_genesis: BlockHash,
    /// The genesis block the update names.
    pub update_genesis: BlockHash,
}

/// A chain-tip update: the blocks the chain source reports, by height.
#[derive(Clone, Debug, PartialEq)]
pub struct ChainUpdate(pub BTreeMap<u32, BlockHash>);

impl View for ChainUpdate {
    type V = Map<u32, BlockHash>;

    open spec fn view(&self) -> Map<u32, BlockHash> {
        self.0@
    }
}

/// The local chain of checkpoints, by height.
#[derive(Clone, Debug)]
pub struct LocalChain {
    pub blocks: BTreeMap<u32, BlockHash>,
}

impl View for LocalChain {
    type V = Map<u32, BlockHash>;

    open spec fn view(&self) -> Map<u32, BlockHash> {
        self.blocks@
    }
}

impl LocalChain {
    /// A chain with no checkpoint.
    pub fn new() -> (r: Self)
        ensures
            r@ == Map::<u32, BlockHash>::empty(),
    {
        LocalChain { blocks: BTreeMap::new() }
    }

    /// The lowest height at which `update` replaces a local block, if any.
    fn lowest_conflict(&self, update: &ChainUpdate) -> (r: Option<u32>)
        ensures
            r is None <==> forall|c: u32| !#[trigger] conflicts_at(self@, update@, c),
            r is Some ==> conflicts_at(self@, update@, r->Some_0),
            r is Some ==> forall|c: u32| #[trigger] conflicts_at(self@, update@, c) ==> r->Some_0 <= c,
    {
        broadcast use vstd::std_specs::btree::group_btree_axioms;
        broadcast use vstd::laws_cmp::group_laws_cmp;

        let ghost b = update@;
        let ghost mut seen: Set<u32> = Set::empty();
        let mut lowest: Option<u32> = None;
        for kv in it: update.0.iter()
            invariant
                b == update@,
                forall|i: int| 0 <= i < it.seq().len() ==> b.contains_key(*#[trigger] it.seq()[i].0)
                    && b[*it.seq()[i].0] == *it.seq()[i].1,
                forall|k: u32| #[trigger] b.contains_key(k) ==> it.seq().contains((&k, &b[k])),
                forall|k: u32|
                    #[trigger] b.contains_key(k) ==> seen.contains(k) || exists|i: int|
                        it.index() <= i < it.seq().len() && #[trigger] it.seq()[i] == (&k, &b[k]),
                lowest is None ==> forall|c: u32| #[trigger] seen.contains(c) ==> !conflicts_at(self@, b, c),
                lowest is Some ==> conflicts_at(self@, b, lowest->Some_0),
                lowest is Some ==> forall|c: u32| #[trigger] seen.contains(c) && conflicts_at(self@, b, c)
                    ==> lowest->Some_0 <= c,
        {
            let (h, hash) = kv;
            assert(kv == it.seq()[it.index() as int]);
            let conflict = match self.blocks.get(h) {
                Some(cur) => *cur != *hash,
                None => false,
            };
            if conflict {
                match lowest {
                    Some(m) => {
                        if *h < m {
                            lowest = Some(*h);
                        }
                    },
                    None => {
                        lowest = Some(*h);
                    },
                }
            }
            proof {
                seen = seen.insert(*h);
            }
        }
        lowest
    }

    /// The heights of local checkpoints above `lowest` that `update` does not list.
    fn heights_above_unlisted(&self, lowest: u32, update: &ChainUpdate) -> (r: Vec<u32>)
        requires
            conflicts_at(self@, update@, lowest),
            forall|c: u32| #[trigger] conflicts_at(self@, update@, c) ==> lowest <= c,
        ensures
            forall|h: u32| #[trigger] r@.contains(h) <==> invalidated(self@, update@, h),
            r@.no_duplicates(),
    {
        broadcast use vstd::std_specs::btree::group_btree_axioms;
        broadcast use vstd::laws_cmp::group_laws_cmp;

        let ghost a = self@;
        let ghost mut seen: Set<u32> = Set::empty();
        let mut r: Vec<u32> = Vec::new();
        for kv in it: self.blocks.iter()
            invariant
                a == self@,
                conflicts_at(a, update@, lowest),
                forall|c: u32| #[trigger] conflicts_at(a, update@, c) ==> lowest <= c,
                it.seq().no_duplicates(),
                forall|i: int| 0 <= i < it.seq().len() ==> a.contains_key(*#[trigger] it.seq()[i].0)
                    && a[*it.seq()[i].0] == *it.seq()[i].1,
                forall|k: u32| #[trigger] a.contains_key(k) ==> it.seq().contains((&k, &a[k])),
                forall|k: u32|
                    #[trigger] a.contains_key(k) ==> seen.contains(k) || exists|i: int|
                        it.index() <= i < it.seq().len() && #[trigger] it.seq()[i] == (&k, &a[k]),
                forall|i: int| it.index() <= i < it.seq().len() ==> !seen.contains(*#[trigger] it.seq()[i].0),
                forall|k: u32| #[trigger] seen.contains(k) ==> a.contains_key(k),
                forall|h: u32| #[trigger] r@.contains(h) <==> (seen.contains(h) && h > lowest
                    && !update@.contains_key(h)),
                r@.no_duplicates(),
        {
            let (h, _hash) = kv;
            let height: u32 = *h;
            assert(kv == it.seq()[it.index() as int]);
            assert forall|i: int| it.index() < i < it.seq().len() implies *#[trigger] it.seq()[i].0
                != height by {
                if *it.seq()[i].0 == height {
                    assert(it.seq()[i] == it.seq()[it.index() as int]);
                }
            }
            let ghost r0 = r@;
            assert(!seen.contains(height));
            assert(!r0.contains(height));
            let listed = update.0.contains_key(&height);
            assert(listed == update@.contains_key(height));
            if height > lowest && !listed {
                r.push(height);
                proof {
                    assert(r@ == r0.push(height));
                    assert forall|x: u32| r@.contains(x) <==> (r0.contains(x) || x == height) by {
                        if r@.contains(x) {
                            let i = choose|i: int| 0 <= i < r@.len() && r@[i] == x;
                            if i < r0.len() {
                                assert(r0[i] == x);
                            }
                        }
                        if r0.contains(x) {
                            let i = choose|i: int| 0 <= i < r0.len() && r0[i] == x;
                            assert(r@[i] == x);
                        }
                        if x == height {
                            assert(r@[r0.len() as int] == x);
                        }
                    }
                }
            }
            proof {
                seen = seen.insert(height);
                assert forall|x: u32| #[trigger] r@.contains(x) <==> (seen.contains(x) && x > lowest
                    && !update@.contains_key(x)) by {
                    if height > lowest && !listed {
                        assert(r@.contains(x) <==> (r0.contains(x) || x == height));
                    } else {
                        assert(r@ == r0);
                    }
                }
            }
        }
        assert forall|h: u32| #[trigger] r@.contains(h) <==> invalidated(a, update@, h) by {
            if invalidated(a, update@, h) {
                let c = choose|c: u32| c < h && #[trigger] conflicts_at(a, update@, c);
                assert(lowest <= c);
            }
        }
        r
    }

    /// Applies a chain-tip update: each block of the update takes its height, and where the
    /// update replaces a block, the local checkpoints above it that the update does not list
    /// are invalidated. Fails, leaving the chain as it was, when the update names another
    /// genesis block.
    pub fn apply_update(&mut self, update: &ChainUpdate) -> (r: Result<ChainChangeSet, ReorgError>)
        ensures
            genesis_conflict(old(self)@, update@) <==> r is Err,
            r is Err ==> final(self)@ == old(self)@,
            r is Err ==> r->Err_0 == (ReorgError {
                local_genesis: old(self)@[0],
                update_genesis: update@[0],
            }),
            r is Ok ==> final(self)@ == chain_after(old(self)@, update@),
            r is Ok ==> r->Ok_0@ == chain_changes(old(self)@, update@),
    {
        broadcast use vstd::std_specs::btree::group_btree_axioms;
        broadcast use vstd::laws_cmp::group_laws_cmp;

        if let Some(local_genesis) = self.blocks.get(&0) {
            if let Some(update_genesis) = update.0.get(&0) {
                if *local_genesis != *update_genesis {
                    return Err(
                        ReorgError { local_genesis: *local_genesis, update_genesis: *update_genesis },
                    );
                }
            }
        }
        let ghost local = self@;
        let mut changes = ChainChangeSet::new();
        if let Some(lowest) = self.lowest_conflict(update) {
            let stale = self.heights_above_unlisted(lowest, update);
            let mut j: usize = 0;
            while j < stale.len()
                invariant
                    j <= stale.len(),
                    forall|h: u32| #[trigger] stale@.contains(h) <==> invalidated(local, update@, h),
                    stale@.no_duplicates(),
                    self@ == local.remove_keys(stale@.take(j as int).to_set()),
                    changes@ == Map::new(|h: u32| stale@.take(j as int).contains(h), |h: u32| None::<BlockHash>),
                decreases stale.len() - j,
            {
                let h = stale[j];
                self.blocks.remove(&h);
                changes.0.insert(h, None);
                proof {
                    let pre = stale@.take(j as int);
                    let next = stale@.take(j + 1);
                    assert(next =~= pre.push(h));
                    pre.lemma_push_to_set_commute(h);
                    assert forall|x: u32| next.contains(x) <==> (pre.contains(x) || x == h) by {
                        if next.contains(x) {
                            assert(next.to_set().contains(x));
                        }
                        if pre.contains(x) || x == h {
                            assert(next.to_set().contains(x));
                        }
                    }
                    assert(self@ =~= local.remove_keys(next.to_set()));
                    assert(changes@ =~= Map::new(|x: u32| next.contains(x), |x: u32| None::<BlockHash>));
                }
                j = j + 1;
            }
            assert(stale@.take(stale.len() as int) =~= stale@);
        } else {
            assert forall|h: u32| !invalidated(local, update@, h) by {}
            assert(changes@ =~= Map::new(|h: u32| false, |h: u32| None::<BlockHash>));
        }
        let ghost a = self@;
        let ghost c0 = changes@;
        let ghost b = update@;
        proof {
            assert forall|h: u32| #[trigger] b.contains_key(h) implies (a.contains_key(h)
                <==> local.contains_key(h)) && (a.contains_key(h) ==> a[h] == local[h]) by {}
            assert forall|h: u32| #[trigger] c0.contains_key(h) <==> invalidated(local, b, h) by {}
        }
        let ghost mut seen: Set<u32> = Set::empty();
        for kv in it: update.0.iter()
            invariant
                b == update@,
                forall|i: int| 0 <= i < it.seq().len() ==> b.contains_key(*#[trigger] it.seq()[i].0)
                    && b[*it.seq()[i].0] == *it.seq()[i].1,
                forall|k: u32| #[trigger] b.contains_key(k) ==> it.seq().contains((&k, &b[k])),
                forall|k: u32|
                    #[trigger] b.contains_key(k) ==> seen.contains(k) || exists|i: int|
                        it.index() <= i < it.seq().len() && #[trigger] it.seq()[i] == (&k, &b[k]),
                forall|k: u32| #[trigger] seen.contains(k) ==> b.contains_key(k),
                self@ == a.union_prefer_right(b.restrict(seen)),
                forall|h: u32| #[trigger] b.contains_key(h) ==> (a.contains_key(h)
                    <==> local.contains_key(h)) && (a.contains_key(h) ==> a[h] == local[h]),
                forall|h: u32| #[trigger] c0.contains_key(h) <==> invalidated(local, b, h),
                forall|h: u32| #[trigger] c0.contains_key(h) ==> c0[h] == None::<BlockHash>,
                changes@ == c0.union_prefer_right(Map::new(
                    |h: u32| seen.contains(h) && (!a.contains_key(h) || a[h] != b[h]),
                    |h: u32| Some(b[h]),
                )),
        {
            let (h, hash) = kv;
            let height: u32 = *h;
            let block: BlockHash = *hash;
            assert(kv == it.seq()[it.index() as int]);
            let differs = match self.blocks.get(&height) {
                Some(cur) => *cur != block,
                None => true,
            };
            if differs {
                changes.0.insert(height, Some(block));
            }
            self.blocks.insert(height, block);
            proof {
                seen = seen.insert(height);
                assert(changes@ =~= c0.union_prefer_right(Map::new(
                    |h: u32| seen.contains(h) && (!a.contains_key(h) || a[h] != b[h]),
                    |h: u32| Some(b[h]),
                )));
            }
        }
        assert(b.restrict(seen) =~= b);
        assert(self@ =~= chain_after(local, b));
        assert(changes@ =~= chain_changes(local, b));
        Ok(changes)
    }
}

} // verus!
