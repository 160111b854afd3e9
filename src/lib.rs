use vstd::prelude::*;

/// The merge capability every changeset shares.
pub mod append;
/// Balances and the classification of unspent outputs.
pub mod balance;
/// Completing an update with the transaction bodies it lacks.
pub mod finalize;
/// Revealed derivation indices per keychain, and their monotone changesets.
pub mod keychain;
/// The local chain of checkpoints and its changesets.
pub mod local_chain;
/// The steps of one synchronization round.
pub mod round;
/// What a sync asks the chain source, and the stop-gap rule of a full scan.
pub mod sync;
/// The transaction graph and its changesets.
pub mod tx_graph;
/// The composite changeset, the update of one round, and applying it to the wallet's stores.
pub mod wallet;

verus! {

} // verus!
