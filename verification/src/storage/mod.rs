//! Voting state of wallets.

use vstd::prelude::*;

use crate::types::{answers, Modeled, Network, Text, VotingError, VotingRoundParams};
use migrations::{migrate, migrated_version, migration_outcome, Migration, CURRENT_VERSION};
use queries::recovery::{clear_unsigned_delegation_setup_fields, unsigned_setup_cleared};
use queries::rounds::{
    get_round_state, insert_round, insert_round_outcome, optional_text, round_state_outcome,
};
use rows::round_key;
use tables::{ran, VotingTables};

pub mod faults;
pub mod field;
pub mod laws;
pub mod migrations;
pub mod notes;
pub mod queries;
pub mod rows;
pub mod sql;
pub mod table;
pub mod tables;
pub mod urls;

pub use crate::types::{KeystoneSignatureRecord, VoteRecord};

verus! {

/// Current phase of a voting round.
///
/// The phases are ordered by their ranks; a round only moves forward.
#[derive(Clone, Copy, Debug, PartialEq, Eq, Structural)]
pub enum RoundPhase {
    Initialized,
    HotkeyGenerated,
    DelegationConstructed,
    DelegationProved,
    VoteReady,
}

impl RoundPhase {
    /// The place of a phase in the lifecycle of a round.
    pub open spec fn place(self) -> i32 {
        match self {
            RoundPhase::Initialized => 0,
            RoundPhase::HotkeyGenerated => 1,
            RoundPhase::DelegationConstructed => 2,
            RoundPhase::DelegationProved => 3,
            RoundPhase::VoteReady => 4,
        }
    }

    /// The phase at a place; a number that is no place stands for the first phase.
    pub open spec fn at(v: i32) -> RoundPhase {
        if v == 1 {
            RoundPhase::HotkeyGenerated
        } else if v == 2 {
            RoundPhase::DelegationConstructed
        } else if v == 3 {
            RoundPhase::DelegationProved
        } else if v == 4 {
            RoundPhase::VoteReady
        } else {
            RoundPhase::Initialized
        }
    }

    /// The phase that a stored number stands for.
    pub fn from_i32(v: i32) -> (phase: Self)
        ensures
            phase == RoundPhase::at(v),
            0 <= v <= 4 ==> phase.place() == v,
            !(0 <= v <= 4) ==> phase == RoundPhase::Initialized,
    {
        match v {
            0 => RoundPhase::Initialized,
            1 => RoundPhase::HotkeyGenerated,
            2 => RoundPhase::DelegationConstructed,
            3 => RoundPhase::DelegationProved,
            4 => RoundPhase::VoteReady,
            _ => RoundPhase::Initialized,
        }
    }

    /// The number that stands for the phase.
    pub fn rank(self) -> (rank: i32)
        ensures
            rank == self.place(),
    {
        match self {
            RoundPhase::Initialized => 0,
            RoundPhase::HotkeyGenerated => 1,
            RoundPhase::DelegationConstructed => 2,
            RoundPhase::DelegationProved => 3,
            RoundPhase::VoteReady => 4,
        }
    }
}

/// Every phase is read back from the number that stands for it.
pub proof fn law_phase_round_trip(phase: RoundPhase)
    ensures
        RoundPhase::at(phase.place()) == phase,
{
}

/// Summary state of a voting round.
#[derive(Clone, Debug, PartialEq, Eq)]
pub struct RoundState {
    pub round_id: String,
    pub phase: RoundPhase,
    pub network: Network,
    pub snapshot_height: u64,
    pub hotkey_address: Option<String>,
    pub delegated_weight: Option<u64>,
    pub proof_generated: bool,
}

/// The meaning of a [`RoundState`].
pub struct RoundStateModel {
    pub round_id: Text,
    pub phase: RoundPhase,
    pub network: Network,
    pub snapshot_height: u64,
    pub hotkey_address: Option<Text>,
    pub delegated_weight: Option<u64>,
    pub proof_generated: bool,
}

impl Modeled for RoundState {
    type Model = RoundStateModel;

    open spec fn model(&self) -> RoundStateModel {
        RoundStateModel {
            round_id: self.round_id@,
            phase: self.phase,
            network: self.network,
            snapshot_height: self.snapshot_height,
            hotkey_address: self.hotkey_address.model(),
            delegated_weight: self.delegated_weight,
            proof_generated: self.proof_generated,
        }
    }
}

/// A round as it is listed.
#[derive(Clone, Debug, PartialEq, Eq)]
pub struct RoundSummary {
    pub round_id: String,
    pub wallet_id: String,
    pub phase: RoundPhase,
    pub network: Network,
    pub snapshot_height: u64,
    pub created_at: u64,
}

/// The meaning of a [`RoundSummary`].
#[verifier::ext_equal]
pub struct RoundSummaryModel {
    pub round_id: Text,
    pub wallet_id: Text,
    pub phase: RoundPhase,
    pub network: Network,
    pub snapshot_height: u64,
    pub created_at: u64,
}

impl Modeled for RoundSummary {
    type Model = RoundSummaryModel;

    open spec fn model(&self) -> RoundSummaryModel {
        RoundSummaryModel {
            round_id: self.round_id@,
            wallet_id: self.wallet_id@,
            phase: self.phase,
            network: self.network,
            snapshot_height: self.snapshot_height,
            created_at: self.created_at,
        }
    }
}

impl Modeled for Vec<RoundSummary> {
    type Model = Seq<RoundSummaryModel>;

    open spec fn model(&self) -> Seq<RoundSummaryModel> {
        self@.map_values(|summary: RoundSummary| summary.model())
    }
}

/// Voting state at the current version of the schema, for one wallet at a time.
pub struct VotingDb {
    pub tables: VotingTables,
    /// The version of the schema.
    pub version: Option<i64>,
    /// The wallet that operations are for; none is set if it is empty.
    pub wallet: String,
}

impl VotingDb {
    /// Opens stored tables with the version that was recorded for them, if any.
    ///
    /// A wallet is set with [`VotingDb::set_wallet_id`] before any operation on
    /// rounds.
    pub fn open(tables: VotingTables, version: Option<i64>) -> (r: Result<Self, VotingError>)
        ensures
            match migration_outcome(version) {
                Ok(migration) => r matches Ok(db) && db.tables@ == tables@ && db.version
                    == migrated_version(version, migration) && db.wallet@ == Seq::<char>::empty(),
                Err(fault) => r matches Err(error) && error@ == fault,
            },
    {
        match migrate(version) {
            Ok(migration) => {
                let current: Option<i64> = match migration {
                    Migration::Create | Migration::Upgrade => Some(CURRENT_VERSION as i64),
                    Migration::Nothing => version,
                };
                let wallet = String::new();
                assert(wallet@ =~= Seq::<char>::empty());
                Ok(VotingDb { tables, version: current, wallet })
            },
            Err(error) => Err(error),
        }
    }

    /// Sets the wallet that operations are for.
    pub fn set_wallet_id(&mut self, id: &str)
        ensures
            final(self).wallet@ == id@,
            final(self).tables == old(self).tables,
            final(self).version == old(self).version,
    {
        self.wallet = id.to_owned();
    }

    /// The wallet that operations are for.
    pub fn wallet_id(&self) -> (id: String)
        requires
            self.wallet@.len() > 0,
        ensures
            id@ == self.wallet@,
    {
        self.wallet.clone()
    }

    /// Says whether a wallet is set.
    pub fn has_wallet_id(&self) -> (has: bool)
        ensures
            has == (self.wallet@.len() > 0),
    {
        !self.wallet.as_str().is_empty()
    }

    /// Stores a new round of the wallet, created at `now`.
    pub fn init_round(
        &mut self,
        network: Network,
        params: &VotingRoundParams,
        session_json: Option<&str>,
        now: i64,
    ) -> (r: Result<(), VotingError>)
        requires
            old(self).wallet@.len() > 0,
        ensures
            ran(
                r,
                insert_round_outcome(
                    old(self).tables@,
                    old(self).wallet@,
                    network,
                    params.model(),
                    optional_text(session_json),
                    now,
                ),
                old(self).tables@,
                final(self).tables@,
            ),
            final(self).wallet@ == old(self).wallet@,
            final(self).version == old(self).version,
    {
        insert_round(
            &mut self.tables,
            self.wallet.as_str(),
            network,
            params,
            session_json,
            now,
        )
    }

    /// Reads the state of a round of the wallet.
    pub fn get_round_state(&self, round_id: &str) -> (r: Result<RoundState, VotingError>)
        requires
            self.wallet@.len() > 0,
        ensures
            answers(r, round_state_outcome(self.tables@, round_id@, self.wallet@)),
    {
        get_round_state(&self.tables, round_id, self.wallet.as_str())
    }

    /// Clears the unsigned delegation setup of a round of the wallet.
    pub fn clear_unsigned_delegation_setup_fields(&mut self, round_id: &str) -> (r: Result<
        (),
        VotingError,
    >)
        requires
            old(self).wallet@.len() > 0,
        ensures
            r is Ok,
            final(self).tables@ == unsigned_setup_cleared(
                old(self).tables@,
                round_key(round_id@, old(self).wallet@),
            ),
            final(self).wallet@ == old(self).wallet@,
            final(self).version == old(self).version,
    {
        clear_unsigned_delegation_setup_fields(
            &mut self.tables,
            round_id,
            self.wallet.as_str(),
        )
    }
}

} // verus!
