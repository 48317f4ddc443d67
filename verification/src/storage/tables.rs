//! All voting tables, and how their rows depend on each other.

use vstd::prelude::*;

use crate::types::{Fault, Modeled, Text, VotingError};
use super::rows::{
    bundle_key, round_key, share_key, vote_key, BundleColumns, BundleKey, BundleRow, ImtColumns,
    ImtKey, ImtProofRow, IntentColumns, IntentKey, IntentRow, KeystoneColumns, KeystoneRow,
    OfBundle, OfRound, OfShare, OfVote, ProofColumns, ProofRow, RoundColumns, RoundKey, RoundRow,
    ShareColumns, ShareKey, ShareRow, TreeStateColumns, TreeStateRow, VoteColumns, VoteKey,
    VoteRow, WitnessColumns, WitnessKey, WitnessRow,
};
use super::table::{Row, Table};

verus! {

/// The voting tables. Every row belongs to a round of a wallet.
pub struct VotingTables {
    pub rounds: Table<RoundRow>,
    pub tree_states: Table<TreeStateRow>,
    pub ballot_intents: Table<IntentRow>,
    pub bundles: Table<BundleRow>,
    pub proofs: Table<ProofRow>,
    pub keystone_signatures: Table<KeystoneRow>,
    pub witnesses: Table<WitnessRow>,
    pub imt_proofs: Table<ImtProofRow>,
    pub votes: Table<VoteRow>,
    pub share_delegations: Table<ShareRow>,
}

/// The contents of [`VotingTables`].
#[verifier::ext_equal]
pub struct Tables {
    pub rounds: Map<RoundKey, RoundColumns>,
    pub tree_states: Map<RoundKey, TreeStateColumns>,
    pub ballot_intents: Map<IntentKey, IntentColumns>,
    pub bundles: Map<BundleKey, BundleColumns>,
    pub proofs: Map<BundleKey, ProofColumns>,
    pub keystone_signatures: Map<BundleKey, KeystoneColumns>,
    pub witnesses: Map<WitnessKey, WitnessColumns>,
    pub imt_proofs: Map<ImtKey, ImtColumns>,
    pub votes: Map<VoteKey, VoteColumns>,
    pub share_delegations: Map<ShareKey, ShareColumns>,
}

impl View for VotingTables {
    type V = Tables;

    open spec fn view(&self) -> Tables {
        Tables {
            rounds: self.rounds@,
            tree_states: self.tree_states@,
            ballot_intents: self.ballot_intents@,
            bundles: self.bundles@,
            proofs: self.proofs@,
            keystone_signatures: self.keystone_signatures@,
            witnesses: self.witnesses@,
            imt_proofs: self.imt_proofs@,
            votes: self.votes@,
            share_delegations: self.share_delegations@,
        }
    }
}

/// Tables without rows.
pub open spec fn no_rows() -> Tables {
    Tables {
        rounds: Map::empty(),
        tree_states: Map::empty(),
        ballot_intents: Map::empty(),
        bundles: Map::empty(),
        proofs: Map::empty(),
        keystone_signatures: Map::empty(),
        witnesses: Map::empty(),
        imt_proofs: Map::empty(),
        votes: Map::empty(),
        share_delegations: Map::empty(),
    }
}

/// Every row has its parent: what belongs to a bundle has the bundle, what
/// belongs to a round has the round.
pub open spec fn intact(tables: Tables) -> bool {
    &&& forall|key: RoundKey| #[trigger]
        tables.tree_states.contains_key(key) ==> tables.rounds.contains_key(key)
    &&& forall|key: IntentKey| #[trigger]
        tables.ballot_intents.contains_key(key) ==> tables.rounds.contains_key(key.round)
    &&& forall|key: BundleKey| #[trigger]
        tables.bundles.contains_key(key) ==> tables.rounds.contains_key(key.round)
    &&& forall|key: BundleKey| #[trigger]
        tables.proofs.contains_key(key) ==> tables.bundles.contains_key(key)
    &&& forall|key: BundleKey| #[trigger]
        tables.keystone_signatures.contains_key(key) ==> tables.bundles.contains_key(key)
    &&& forall|key: WitnessKey| #[trigger]
        tables.witnesses.contains_key(key) ==> tables.bundles.contains_key(key.bundle)
    &&& forall|key: ImtKey| #[trigger]
        tables.imt_proofs.contains_key(key) ==> tables.bundles.contains_key(key.bundle)
    &&& forall|key: VoteKey| #[trigger]
        tables.votes.contains_key(key) ==> tables.bundles.contains_key(key.bundle)
    &&& forall|key: ShareKey| #[trigger]
        tables.share_delegations.contains_key(key) ==> tables.bundles.contains_key(key.vote.bundle)
}

/// The rows of one wallet.
pub open spec fn of_wallet(tables: Tables, wallet_id: Text) -> Tables {
    Tables {
        rounds: tables.rounds.restrict(Set::new(|key: RoundKey| key.wallet_id == wallet_id)),
        tree_states: tables.tree_states.restrict(
            Set::new(|key: RoundKey| key.wallet_id == wallet_id),
        ),
        ballot_intents: tables.ballot_intents.restrict(
            Set::new(|key: IntentKey| key.round.wallet_id == wallet_id),
        ),
        bundles: tables.bundles.restrict(
            Set::new(|key: BundleKey| key.round.wallet_id == wallet_id),
        ),
        proofs: tables.proofs.restrict(
            Set::new(|key: BundleKey| key.round.wallet_id == wallet_id),
        ),
        keystone_signatures: tables.keystone_signatures.restrict(
            Set::new(|key: BundleKey| key.round.wallet_id == wallet_id),
        ),
        witnesses: tables.witnesses.restrict(
            Set::new(|key: WitnessKey| key.bundle.round.wallet_id == wallet_id),
        ),
        imt_proofs: tables.imt_proofs.restrict(
            Set::new(|key: ImtKey| key.bundle.round.wallet_id == wallet_id),
        ),
        votes: tables.votes.restrict(
            Set::new(|key: VoteKey| key.bundle.round.wallet_id == wallet_id),
        ),
        share_delegations: tables.share_delegations.restrict(
            Set::new(|key: ShareKey| key.vote.bundle.round.wallet_id == wallet_id),
        ),
    }
}

/// An operation did what its outcome says: it put the tables into the
/// outcome's state, or left them as they were and reported the fault.
pub open spec fn ran(
    result: Result<(), VotingError>,
    outcome: Result<Tables, Fault>,
    before: Tables,
    after: Tables,
) -> bool {
    match outcome {
        Ok(next) => result is Ok && after == next,
        Err(fault) => result matches Err(error) && error@ == fault && after == before,
    }
}

/// An operation with a value did what its outcome says.
pub open spec fn ran_with<T: Modeled>(
    result: Result<T, VotingError>,
    outcome: Result<(Tables, T::Model), Fault>,
    before: Tables,
    after: Tables,
) -> bool {
    match outcome {
        Ok((next, model)) => result matches Ok(value) && value.model() == model && after == next,
        Err(fault) => result matches Err(error) && error@ == fault && after == before,
    }
}

/// A lookup found the row under a key, if there is one.
pub open spec fn looked_up<R: Row>(
    found: Option<&R>,
    table: Map<R::Key, R::Data>,
    key: R::Key,
) -> bool {
    match found {
        Some(row) => table.contains_key(key) && row.key() == key && row.data() == table[key],
        None => !table.contains_key(key),
    }
}

impl VotingTables {
    /// Tables without rows.
    pub fn new() -> (tables: Self)
        ensures
            tables@ == no_rows(),
            intact(tables@),
    {
        VotingTables {
            rounds: Table::new(),
            tree_states: Table::new(),
            ballot_intents: Table::new(),
            bundles: Table::new(),
            proofs: Table::new(),
            keystone_signatures: Table::new(),
            witnesses: Table::new(),
            imt_proofs: Table::new(),
            votes: Table::new(),
            share_delegations: Table::new(),
        }
    }

    /// Looks up the row of a round.
    pub fn round(&self, round_id: &str, wallet_id: &str) -> (found: Option<&RoundRow>)
        ensures
            looked_up(found, self@.rounds, round_key(round_id@, wallet_id@)),
    {
        self.rounds.find(&OfRound { round_id, wallet_id })
    }

    /// Looks up the row of a bundle.
    pub fn bundle(&self, round_id: &str, wallet_id: &str, bundle_index: u32) -> (found: Option<
        &BundleRow,
    >)
        ensures
            looked_up(
                found,
                self@.bundles,
                bundle_key(round_id@, wallet_id@, bundle_index as int),
            ),
    {
        self.bundles.find(&OfBundle { round_id, wallet_id, bundle_index: bundle_index as i64 })
    }

    /// Looks up the row of a vote.
    pub fn vote(
        &self,
        round_id: &str,
        wallet_id: &str,
        bundle_index: u32,
        proposal_id: u32,
    ) -> (found: Option<&VoteRow>)
        ensures
            looked_up(
                found,
                self@.votes,
                vote_key(round_id@, wallet_id@, bundle_index as int, proposal_id as int),
            ),
    {
        self.votes.find(
            &OfVote {
                round_id,
                wallet_id,
                bundle_index: bundle_index as i64,
                proposal_id: proposal_id as i64,
            },
        )
    }

    /// Looks up the row of a share.
    pub fn share(
        &self,
        round_id: &str,
        wallet_id: &str,
        bundle_index: u32,
        proposal_id: u32,
        share_index: u32,
    ) -> (found: Option<&ShareRow>)
        ensures
            looked_up(
                found,
                self@.share_delegations,
                share_key(
                    round_id@,
                    wallet_id@,
                    bundle_index as int,
                    proposal_id as int,
                    share_index as int,
                ),
            ),
    {
        self.share_delegations.find(
            &OfShare {
                round_id,
                wallet_id,
                bundle_index: bundle_index as i64,
                proposal_id: proposal_id as i64,
                share_index: share_index as i64,
            },
        )
    }
}

} // verus!
