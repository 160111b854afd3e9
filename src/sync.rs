use std::collections::BTreeMap;
use vstd::laws_cmp::obeys_cmp;
use vstd::prelude::*;

verus! {

/// How many consecutive unused indices end a full scan of a keychain, unless the caller says.
pub const DEFAULT_STOP_GAP: u32 = 5;

/// How many scripts one history request carries, unless the caller says.
pub const DEFAULT_BATCH_SIZE: usize = 25;

/// Options of a scan against the chain source.
#[derive(Debug, Clone, Copy, PartialEq, Eq, Structural)]
pub struct ScanOptions {
    /// How many scripts one history request carries.
    pub batch_size: usize,
}

impl Default for ScanOptions {
    fn default() -> (r: Self)
        ensures
            r.batch_size == DEFAULT_BATCH_SIZE,
    {
        ScanOptions { batch_size: DEFAULT_BATCH_SIZE }
    }
}

/// What a targeted sync re-checks.
#[derive(Debug, Clone, Copy, PartialEq, Eq, Structural)]
pub struct SyncFlags {
    /// Revealed addresses that are still unused.
    pub unused_spks: bool,
    /// Every derived address.
    pub all_spks: bool,
    /// The tracked unspent outputs.
    pub utxos: bool,
    /// The transactions believed unconfirmed.
    pub unconfirmed: bool,
}

impl SyncFlags {
    /// The selection a sync runs with: with nothing selected, unused addresses, unspent
    /// outputs and unconfirmed transactions; with every address selected, the unused ones are
    /// not selected again.
    pub open spec fn resolved_spec(self) -> SyncFlags {
        if !(self.all_spks || self.unused_spks || self.utxos || self.unconfirmed) {
            SyncFlags { unused_spks: true, all_spks: false, utxos: true, unconfirmed: true }
        } else if self.all_spks {
            SyncFlags { unused_spks: false, ..self }
        } else {
            self
        }
    }

    /// The selection a sync runs with; see `resolved_spec`.
    pub fn resolved(self) -> (r: SyncFlags)
        ensures
            r == self.resolved_spec(),
    {
        if !(self.all_spks || self.unused_spks || self.utxos || self.unconfirmed) {
            SyncFlags { unused_spks: true, all_spks: false, utxos: true, unconfirmed: true }
        } else if self.all_spks {
            SyncFlags { unused_spks: false, ..self }
        } else {
            self
        }
    }
}

/// The queries of a targeted sync: scripts whose history to fetch, outpoints whose status to
/// fetch, and transactions whose confirmation to fetch.
pub struct SyncQueries<S, O, T> {
    pub spks: Vec<S>,
    pub outpoints: Vec<O>,
    pub txids: Vec<T>,
}

/// Chooses the queries of a targeted sync from the wallet's known elements, by the resolved
/// selection of `flags`.
pub fn plan_sync<S, O, T>(
    flags: SyncFlags,
    all_spks: Vec<S>,
    unused_spks: Vec<S>,
    utxo_outpoints: Vec<O>,
    unconfirmed_txids: Vec<T>,
) -> (q: SyncQueries<S, O, T>)
    ensures
        q.spks@ == (if flags.resolved_spec().all_spks {
            all_spks@
        } else if flags.resolved_spec().unused_spks {
            unused_spks@
        } else {
            Seq::empty()
        }),
        q.outpoints@ == (if flags.resolved_spec().utxos {
            utxo_outpoints@
        } else {
            Seq::empty()
        }),
        q.txids@ == (if flags.resolved_spec().unconfirmed {
            unconfirmed_txids@
        } else {
            Seq::empty()
        }),
{
    let f = flags.resolved();
    let spks = if f.all_spks {
        all_spks
    } else if f.unused_spks {
        unused_spks
    } else {
        Vec::new()
    };
    let outpoints = if f.utxos {
        utxo_outpoints
    } else {
        Vec::new()
    };
    let txids = if f.unconfirmed {
        unconfirmed_txids
    } else {
        Vec::new()
    };
    SyncQueries { spks, outpoints, txids }
}

/// How many indices at the end of `h` had no history.
pub open spec fn trailing_unused(h: Seq<bool>) -> nat
    decreases h.len(),
{
    if h.len() == 0 {
        0
    } else if h.last() {
        0
    } else {
        trailing_unused(h.drop_last()) + 1
    }
}

/// The highest index of `h` that had history, if any did.
pub open spec fn last_used(h: Seq<bool>) -> Option<nat>
    decreases h.len(),
{
    if h.len() == 0 {
        None
    } else if h.last() {
        Some((h.len() - 1) as nat)
    } else {
        last_used(h.drop_last())
    }
}

/// The number of indices a full scan derives when the history of index `i` is `h[i]`, looking
/// from `n` on: it stops at the first point where `stop_gap` indices in a row had no history,
/// or where `h` ends.
pub open spec fn scan_stop_from(h: Seq<bool>, stop_gap: nat, n: nat) -> nat
    decreases h.len() - n,
{
    if trailing_unused(h.take(n as int)) >= stop_gap || n >= h.len() {
        n
    } else {
        scan_stop_from(h, stop_gap, n + 1)
    }
}

/// The number of indices a full scan of a keychain derives; see `scan_stop_from`.
pub open spec fn scan_stop(h: Seq<bool>, stop_gap: nat) -> nat {
    scan_stop_from(h, stop_gap, 0)
}

/// The progress of a full scan of one keychain.
pub struct KeychainScan {
    /// Consecutive unused indices that end the scan.
    pub stop_gap: u32,
    /// How many indices have been derived and checked.
    pub derived: u32,
    /// How many of the last checked indices in a row had no history.
    pub unused_run: u32,
    /// The highest checked index that had history.
    pub last_active: Option<u32>,
    /// Whether each checked index had history.
    pub history: Ghost<Seq<bool>>,
}

impl KeychainScan {
    /// Whether the fields agree with the history checked so far.
    pub open spec fn wf(&self) -> bool {
        &&& self.derived == self.history@.len()
        &&& self.unused_run == trailing_unused(self.history@)
        &&& self.last_active == match last_used(self.history@) {
            Some(i) => Some(i as u32),
            None => None::<u32>,
        }
    }

    /// A scan that has checked nothing yet.
    pub fn new(stop_gap: u32) -> (r: Self)
        ensures
            r.wf(),
            r.stop_gap == stop_gap,
            r.history@ == Seq::<bool>::empty(),
    {
        KeychainScan { stop_gap, derived: 0, unused_run: 0, last_active: None, history: Ghost(Seq::empty()) }
    }

    /// Whether the scan is over: `stop_gap` indices in a row had no history.
    pub fn is_done(&self) -> (r: bool)
        requires
            self.wf(),
        ensures
            r == (trailing_unused(self.history@) >= self.stop_gap),
    {
        self.unused_run >= self.stop_gap
    }

    /// Records whether the next index had history.
    pub fn record(&mut self, had_history: bool)
        requires
            old(self).wf(),
            old(self).derived < u32::MAX,
        ensures
            final(self).wf(),
            final(self).stop_gap == old(self).stop_gap,
            final(self).history@ == old(self).history@.push(had_history),
    {
        let ghost h = self.history@.push(had_history);
        assert(h.drop_last() =~= self.history@);
        proof {
            lemma_trailing_unused_bounded(self.history@);
        }
        if had_history {
            self.last_active = Some(self.derived);
            self.unused_run = 0;
        } else {
            self.unused_run = self.unused_run + 1;
        }
        self.derived = self.derived + 1;
        self.history = Ghost(h);
    }
}

proof fn lemma_trailing_unused_bounded(h: Seq<bool>)
    ensures
        trailing_unused(h) <= h.len(),
    decreases h.len(),
{
    if h.len() > 0 {
        lemma_trailing_unused_bounded(h.drop_last());
    }
}

/// The result of a full scan of one keychain.
#[derive(Debug, Clone, Copy, PartialEq, Eq, Structural)]
pub struct ScanOutcome {
    /// How many indices were derived, from index zero on.
    pub derived: u32,
    /// The highest derived index that had history; `None` leaves the keychain out of the
    /// update.
    pub last_active: Option<u32>,
}

/// Runs a full scan of one keychain where `history[i]` tells whether index `i` had history,
/// stopping once `stop_gap` indices in a row had none. Indices past the stop are never derived.
pub fn scan_keychain(history: &Vec<bool>, stop_gap: u32) -> (r: ScanOutcome)
    requires
        history.len() < u32::MAX,
    ensures
        r.derived == scan_stop(history@, stop_gap as nat),
        r.last_active == match last_used(history@.take(r.derived as int)) {
            Some(i) => Some(i as u32),
            None => None::<u32>,
        },
{
    let mut scan = KeychainScan::new(stop_gap);
    let mut i: usize = 0;
    assert(history@.take(0) =~= Seq::<bool>::empty());
    while i < history.len() && !scan.is_done()
        invariant
            scan.wf(),
            scan.stop_gap == stop_gap,
            i <= history.len() < u32::MAX,
            scan.history@ == history@.take(i as int),
            scan_stop(history@, stop_gap as nat) == scan_stop_from(history@, stop_gap as nat, i as nat),
        decreases history.len() - i,
    {
        scan.record(history[i]);
        assert(history@.take(i + 1) =~= history@.take(i as int).push(history@[i as int]));
        i = i + 1;
    }
    ScanOutcome { derived: scan.derived, last_active: scan.last_active }
}

/// The last active index a full scan finds in history `h` with the given stop gap, if any.
pub open spec fn scan_last_active(h: Seq<bool>, stop_gap: nat) -> Option<nat> {
    last_used(h.take(scan_stop(h, stop_gap) as int))
}

/// The map of last active indices a full scan over `histories` yields: each keychain whose scan
/// found history maps to its last active index; a keychain without history is left out.
pub open spec fn last_active_map<K>(histories: Seq<(K, Vec<bool>)>, stop_gap: nat) -> Map<K, u32>
    decreases histories.len(),
{
    if histories.len() == 0 {
        Map::empty()
    } else {
        let init = last_active_map(histories.drop_last(), stop_gap);
        let (k, h) = histories.last();
        match scan_last_active(h@, stop_gap) {
            Some(i) => init.insert(k, i as u32),
            None => init,
        }
    }
}

/// Runs a full scan over each keychain of `histories`, where each keychain comes with the
/// history of its indices in order, and collects the last active index of each keychain
/// that has one.
pub fn scan_all_keychains<K: Ord + Copy>(histories: &Vec<(K, Vec<bool>)>, stop_gap: u32) -> (r:
    BTreeMap<K, u32>)
    requires
        obeys_cmp::<K>(),
        forall|i: int| 0 <= i < histories.len() ==> #[trigger] histories[i].1.len() < u32::MAX,
    ensures
        r@ == last_active_map(histories@, stop_gap as nat),
{
    broadcast use vstd::std_specs::btree::group_btree_axioms;

    let mut r: BTreeMap<K, u32> = BTreeMap::new();
    let mut i: usize = 0;
    while i < histories.len()
        invariant
            i <= histories.len(),
            obeys_cmp::<K>(),
            forall|j: int| 0 <= j < histories.len() ==> #[trigger] histories[j].1.len() < u32::MAX,
            r@ == last_active_map(histories@.take(i as int), stop_gap as nat),
        decreases histories.len() - i,
    {
        let entry = &histories[i];
        assert(histories@.take(i + 1).drop_last() =~= histories@.take(i as int));
        assert(histories@.take(i + 1).last() == histories@[i as int]);
        let outcome = scan_keychain(&entry.1, stop_gap);
        if let Some(last) = outcome.last_active {
            r.insert(entry.0, last);
        }
        i = i + 1;
    }
    assert(histories@.take(histories.len() as int) =~= histories@);
    r
}

} // verus!
