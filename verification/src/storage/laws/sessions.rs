//! What an open database does for its wallet.

use vstd::prelude::*;

use super::bundles::law_unsigned_setup_is_cleared;
use crate::precompute::{reset_voting_session_state, vote_tree_sync_for, VoteTreeSlots};
use crate::storage::migrations::{migrate, version_statement, Migration};
use crate::storage::queries::rounds::{get_round_state, insert_round};
use crate::storage::rows::{BundleKey, RoundKey};
use crate::storage::tables::VotingTables;
use crate::storage::{RoundState, VotingDb};
use crate::text::decimal;
use crate::types::{Modeled, Network, VotingError, VotingRoundParams};

verus! {

/// Stored tables are opened as they are, for no wallet, and are current from
/// then on. They are refused exactly if their version is newer than the current
/// one.
pub proof fn law_opened_tables_are_current(
    tables: VotingTables,
    version: Option<i64>,
    chosen: Result<Migration, VotingError>,
    opened: Result<VotingDb, VotingError>,
)
    requires
        call_ensures(migrate, (version,), chosen),
        call_ensures(VotingDb::open, (tables, version), opened),
        version matches Some(v) ==> 0 <= v <= u32::MAX,
    ensures
        opened is Ok <==> (version matches Some(v) ==> v <= 13),
        opened is Ok <==> chosen is Ok,
        opened matches Err(error) ==> chosen matches Err(given) && given@ == error@,
        opened matches Ok(db) ==> db.tables@ == tables@ && db.version == Some(13i64)
            && db.wallet@.len() == 0,
        chosen matches Ok(migration) ==> {
            &&& migration == Migration::Create <==> version is None
            &&& migration == Migration::Nothing <==> version == Some(13i64)
        },
{
}

/// A version is recorded by the statement that inserts it into a new database
/// or updates it in an older one; a current one needs no statement.
pub proof fn law_versions_are_recorded(migration: Migration, statement: Option<String>)
    requires
        call_ensures(version_statement, (migration,), statement),
    ensures
        statement is None <==> migration == Migration::Nothing,
        migration == Migration::Create ==> statement->Some_0@
            == "INSERT INTO voting_schema_version (version) VALUES ("@ + decimal(13) + ")"@,
        migration == Migration::Upgrade ==> statement->Some_0@
            == "UPDATE voting_schema_version SET version = "@ + decimal(13),
{
}

/// The wallet that was set is the wallet that is told, and setting it leaves
/// what is stored.
pub proof fn law_wallet_read_back(
    db: &mut VotingDb,
    after: &VotingDb,
    wallet: &str,
    told: String,
    has: bool,
)
    requires
        *after == *final(db),
        call_ensures(VotingDb::set_wallet_id, (db, wallet), ()),
        call_ensures(VotingDb::wallet_id, (after,), told),
        call_ensures(VotingDb::has_wallet_id, (after,), has),
    ensures
        told@ == wallet@,
        has <==> wallet@.len() > 0,
        after.tables == old(db).tables,
        after.version == old(db).version,
{
}

/// An open database reads the rounds of its own wallet.
pub proof fn law_rounds_are_of_the_wallet(
    db: &VotingDb,
    round_id: &str,
    wallet_id: &str,
    state: Result<RoundState, VotingError>,
    direct: Result<RoundState, VotingError>,
)
    requires
        db.wallet@ == wallet_id@,
        call_ensures(VotingDb::get_round_state, (db, round_id), state),
        call_ensures(get_round_state, (&db.tables, round_id, wallet_id), direct),
    ensures
        state is Ok <==> direct is Ok,
        state matches Ok(told) ==> told.model() == direct->Ok_0.model(),
        state matches Err(error) ==> error@ == direct->Err_0@,
{
}

/// An open database stores a round for its own wallet, as the tables do.
pub proof fn law_rounds_are_stored_for_the_wallet(
    db: &mut VotingDb,
    tables: &mut VotingTables,
    wallet_id: &str,
    network: Network,
    params: &VotingRoundParams,
    session_json: Option<&str>,
    now: i64,
    stored: Result<(), VotingError>,
    direct: Result<(), VotingError>,
)
    requires
        old(db).wallet@ == wallet_id@,
        old(db).tables@ == old(tables)@,
        call_ensures(VotingDb::init_round, (db, network, params, session_json, now), stored),
        call_ensures(
            insert_round,
            (tables, wallet_id, network, params, session_json, now),
            direct,
        ),
    ensures
        stored is Ok <==> direct is Ok,
        stored matches Err(error) ==> error@ == direct->Err_0@,
        final(db).tables@ == final(tables)@,
        final(db).wallet@ == old(db).wallet@,
        final(db).version == old(db).version,
{
}

/// Resetting a session clears what was set up and never sent in its round, once
/// the vote tree was reset. A tree that could not be reset, and a reset of all
/// rounds, leave what is stored.
pub proof fn law_session_reset_clears_unsigned_setup(
    db: &mut VotingDb,
    round_id: &str,
    tree_reset: Result<(), VotingError>,
    reset: Result<(), VotingError>,
    key: BundleKey,
)
    requires
        call_ensures(reset_voting_session_state, (db, round_id, tree_reset), reset),
        old(db).tables@.bundles.contains_key(key),
    ensures
        reset is Ok <==> tree_reset is Ok,
        reset matches Err(error) ==> error@ == tree_reset->Err_0@,
        tree_reset is Err || round_id@.len() == 0 ==> final(db).tables@ == old(db).tables@,
        final(db).wallet@ == old(db).wallet@,
        final(db).version == old(db).version,
        ({
            let before = old(db).tables@.bundles[key];
            let after = final(db).tables@.bundles[key];
            let unsigned = {
                &&& key.round == (RoundKey { round_id: round_id@, wallet_id: old(db).wallet@ })
                &&& before.note_positions_blob is Some
                &&& before.delegation_tx_hash is None
                &&& before.van_leaf_position is None
                &&& !old(db).tables@.keystone_signatures.contains_key(key)
            };
            &&& final(db).tables@.bundles.contains_key(key)
            &&& !unsigned ==> after == before
            &&& unsigned && tree_reset is Ok && round_id@.len() > 0 ==> {
                &&& after.rk is None
                &&& after.alpha is None
                &&& after.van_comm_rand is None
                &&& after.gov_comm is None
                &&& after.pczt_sighash is None
                &&& after.tx1_effects is None
                &&& after.padded_note_secrets is None
                &&& after.note_positions_blob == before.note_positions_blob
            }
        }),
{
    law_unsigned_setup_is_cleared(
        old(db).tables@,
        RoundKey { round_id: round_id@, wallet_id: old(db).wallet@ },
        key,
    );
}

/// A wallet finds its vote tree in the same slot each time, and no two wallets
/// share one.
pub proof fn law_vote_trees_stay_apart(
    slots: &mut VoteTreeSlots,
    later: &mut VoteTreeSlots,
    db: &VotingDb,
    other: &VotingDb,
    slot: usize,
    next: usize,
)
    requires
        old(later)@ == final(slots)@,
        call_ensures(vote_tree_sync_for, (slots, db), slot),
        call_ensures(vote_tree_sync_for, (later, other), next),
    ensures
        slot == next <==> db.wallet@ == other.wallet@,
        db.wallet@ == other.wallet@ ==> final(later)@ == old(later)@,
        forall|i: int|
            0 <= i < old(slots)@.len() ==> i < final(later)@.len() && #[trigger] final(later)@[i]
                == old(slots)@[i],
{
}

} // verus!
