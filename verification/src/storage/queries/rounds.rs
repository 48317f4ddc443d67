//! Rounds: their parameters, phases and state.

use vstd::prelude::*;

use crate::bytes::copy_bytes;
use crate::text::{decimal, str_eq};
use crate::types::{
    all_or_first, answers, fault_text, lemma_next_item, Fault, Message, Modeled, Network,
    RoundParamsModel, Text, VotingError, VotingRoundParams,
};
use crate::storage::faults::{
    key_taken, key_taken_text, no_row, no_row_text, out_of_range, out_of_range_text,
    round_unreadable, round_unreadable_error,
};
use crate::storage::rows::{
    round_key, BundleColumns, BundleKey, BundleRow, ImtKey, IntentKey, OfBundle, OfRound, OfWallet,
    ProofColumns, ProofRow, RoundColumns, RoundKey, RoundRow, ShareKey, VoteKey, WitnessKey,
};
use crate::storage::table::{keys_of, Filter, Order, Row, Table};
use crate::storage::tables::{ran, Tables, VotingTables};
use crate::storage::{RoundPhase, RoundState, RoundStateModel, RoundSummary, RoundSummaryModel};

verus! {

/// The stored name of a network.
pub open spec fn network_name(network: Network) -> Text {
    match network {
        Network::Mainnet => "mainnet"@,
        Network::Testnet => "testnet"@,
        Network::Regtest => "regtest"@,
    }
}

/// The network with a stored name.
pub open spec fn named_network(name: Text) -> Result<Network, Fault> {
    if name == "mainnet"@ {
        Ok(Network::Mainnet)
    } else if name == "testnet"@ {
        Ok(Network::Testnet)
    } else if name == "regtest"@ {
        Ok(Network::Regtest)
    } else {
        Err(Fault::Internal("stored round network is invalid: "@ + name))
    }
}

/// The name under which a network is stored.
pub fn network_to_storage(network: Network) -> (name: &'static str)
    ensures
        name@ == network_name(network),
{
    match network {
        Network::Mainnet => "mainnet",
        Network::Testnet => "testnet",
        Network::Regtest => "regtest",
    }
}

/// The network that is stored under a name.
pub fn network_from_storage(value: &str) -> (r: Result<Network, VotingError>)
    ensures
        answers(r, named_network(value@)),
{
    if str_eq(value, "mainnet") {
        Ok(Network::Mainnet)
    } else if str_eq(value, "testnet") {
        Ok(Network::Testnet)
    } else if str_eq(value, "regtest") {
        Ok(Network::Regtest)
    } else {
        Err(Message::new("stored round network is invalid: ").text(value).internal())
    }
}

/// Every network is read back from its stored name.
pub proof fn law_network_round_trip(network: Network)
    ensures
        named_network(network_name(network)) == Ok::<Network, Fault>(network),
{
    reveal_strlit("mainnet");
    reveal_strlit("testnet");
    reveal_strlit("regtest");
    assert("mainnet"@[0] == 'm');
    assert("testnet"@[0] == 't');
    assert("regtest"@[0] == 'r');
}

/// The row of a new round.
pub open spec fn new_round(
    network: Network,
    params: RoundParamsModel,
    session_json: Option<Text>,
    now: i64,
) -> RoundColumns {
    RoundColumns {
        network: network_name(network),
        snapshot_height: params.snapshot_height as i64,
        ea_pk: params.ea_pk,
        nc_root: params.nc_root,
        nullifier_imt_root: params.nullifier_imt_root,
        session_json,
        phase: 0,
        created_at: now,
    }
}

/// A new round is stored in its first phase; a round cannot be stored twice.
pub open spec fn insert_round_outcome(
    tables: Tables,
    wallet_id: Text,
    network: Network,
    params: RoundParamsModel,
    session_json: Option<Text>,
    now: i64,
) -> Result<Tables, Fault> {
    let key = round_key(params.vote_round_id, wallet_id);
    if tables.rounds.contains_key(key) {
        Err(
            Fault::Internal(
                "failed to insert round: "@ + key_taken(
                    "voting_rounds.round_id, voting_rounds.wallet_id"@,
                ),
            ),
        )
    } else {
        Ok(
            Tables {
                rounds: tables.rounds.insert(key, new_round(network, params, session_json, now)),
                ..tables
            },
        )
    }
}

/// The text of an optional string.
pub open spec fn optional_text(value: Option<&str>) -> Option<Text> {
    match value {
        Some(text) => Some(text@),
        None => None,
    }
}

/// Stores a new round, created at `now`.
pub fn insert_round(
    tables: &mut VotingTables,
    wallet_id: &str,
    network: Network,
    params: &VotingRoundParams,
    session_json: Option<&str>,
    now: i64,
) -> (r: Result<(), VotingError>)
    ensures
        ran(
            r,
            insert_round_outcome(
                old(tables)@,
                wallet_id@,
                network,
                params.model(),
                optional_text(session_json),
                now,
            ),
            old(tables)@,
            final(tables)@,
        ),
{
    let round_id = params.vote_round_id.as_str();
    if tables.round(round_id, wallet_id).is_some() {
        return Err(
            Message::new("failed to insert round: ").text(
                key_taken_text("voting_rounds.round_id, voting_rounds.wallet_id").as_str(),
            ).internal(),
        );
    }
    let session = match session_json {
        Some(text) => Some(text.to_owned()),
        None => None,
    };
    tables.rounds.put(
        RoundRow {
            round_id: round_id.to_owned(),
            wallet_id: wallet_id.to_owned(),
            network: network_to_storage(network).to_owned(),
            snapshot_height: params.snapshot_height as i64,
            ea_pk: copy_bytes(params.ea_pk.as_slice()),
            nc_root: copy_bytes(params.nc_root.as_slice()),
            nullifier_imt_root: copy_bytes(params.nullifier_imt_root.as_slice()),
            session_json: session,
            phase: RoundPhase::Initialized.rank() as i64,
            created_at: now,
        },
    );
    Ok(())
}

/// A phase is set whatever the round's phase is.
pub open spec fn update_round_phase_outcome(
    tables: Tables,
    round_id: Text,
    wallet_id: Text,
    phase: RoundPhase,
) -> Result<Tables, Fault> {
    let key = round_key(round_id, wallet_id);
    if !tables.rounds.contains_key(key) {
        Err(Fault::InvalidInput("round not found: "@ + round_id))
    } else {
        Ok(with_phase(tables, key, phase))
    }
}

/// The tables with a round in another phase.
pub open spec fn with_phase(tables: Tables, key: RoundKey, phase: RoundPhase) -> Tables {
    Tables {
        rounds: tables.rounds.insert(
            key,
            RoundColumns { phase: phase.place() as i64, ..tables.rounds[key] },
        ),
        ..tables
    }
}

/// Sets the phase of a round without regard to its order.
///
/// [`advance_round_phase`] keeps rounds moving forward.
pub fn update_round_phase(
    tables: &mut VotingTables,
    round_id: &str,
    wallet_id: &str,
    phase: RoundPhase,
) -> (r: Result<(), VotingError>)
    ensures
        ran(
            r,
            update_round_phase_outcome(old(tables)@, round_id@, wallet_id@, phase),
            old(tables)@,
            final(tables)@,
        ),
{
    match tables.rounds.take(&OfRound { round_id, wallet_id }) {
        Some(mut row) => {
            row.phase = phase.rank() as i64;
            tables.rounds.put(row);
            assert(tables@ =~= with_phase(old(tables)@, round_key(round_id@, wallet_id@), phase));
            Ok(())
        },
        None => Err(Message::new("round not found: ").text(round_id).invalid()),
    }
}

/// A round advances to a later phase, stays where it is if it is there, and
/// does not go back.
pub open spec fn advance_round_phase_outcome(
    tables: Tables,
    round_id: Text,
    wallet_id: Text,
    phase: RoundPhase,
) -> Result<Tables, Fault> {
    let key = round_key(round_id, wallet_id);
    if tables.rounds.contains_key(key) && tables.rounds[key].phase < phase.place() {
        Ok(with_phase(tables, key, phase))
    } else {
        match round_state_outcome(tables, round_id, wallet_id) {
            Err(fault) => Err(fault),
            Ok(state) => if state.phase.place() < phase.place() {
                Err(
                    Fault::Internal(
                        "failed to advance round phase for "@ + round_id + ": current="@ + decimal(
                            state.phase.place() as int,
                        ) + ", requested="@ + decimal(phase.place() as int),
                    ),
                )
            } else if state.phase.place() > phase.place() {
                Err(
                    Fault::InvalidInput(
                        "refusing to regress round phase for "@ + round_id + ": current="@
                            + decimal(state.phase.place() as int) + ", requested="@ + decimal(
                            phase.place() as int,
                        ),
                    ),
                )
            } else {
                Ok(tables)
            },
        }
    }
}

/// Advances the phase of a round.
///
/// Applying the current phase again changes nothing.
pub fn advance_round_phase(
    tables: &mut VotingTables,
    round_id: &str,
    wallet_id: &str,
    phase: RoundPhase,
) -> (r: Result<(), VotingError>)
    ensures
        ran(
            r,
            advance_round_phase_outcome(old(tables)@, round_id@, wallet_id@, phase),
            old(tables)@,
            final(tables)@,
        ),
{
    let requested: i32 = phase.rank();
    let behind = match tables.round(round_id, wallet_id) {
        Some(row) => row.phase < requested as i64,
        None => false,
    };
    if behind {
        return update_round_phase(tables, round_id, wallet_id, phase);
    }
    let state = match get_round_state(tables, round_id, wallet_id) {
        Ok(state) => state,
        Err(error) => return Err(error),
    };
    let current: i32 = state.phase.rank();
    if current < requested {
        Err(
            Message::new("failed to advance round phase for ").text(round_id).text(
                ": current=",
            ).number(current as i128).text(", requested=").number(requested as i128).internal(),
        )
    } else if current > requested {
        Err(
            Message::new("refusing to regress round phase for ").text(round_id).text(
                ": current=",
            ).number(current as i128).text(", requested=").number(requested as i128).invalid(),
        )
    } else {
        Ok(())
    }
}

/// The parameters and the network of a round.
pub open spec fn round_params_outcome(tables: Tables, round_id: Text, wallet_id: Text) -> Result<
    (RoundParamsModel, Network),
    Fault,
> {
    let key = round_key(round_id, wallet_id);
    if !tables.rounds.contains_key(key) {
        Err(round_unreadable(round_id, no_row()))
    } else {
        let row = tables.rounds[key];
        match named_network(row.network) {
            Err(fault) => Err(fault),
            Ok(network) => Ok(
                (
                    RoundParamsModel {
                        vote_round_id: round_id,
                        snapshot_height: row.snapshot_height as u64,
                        ea_pk: row.ea_pk,
                        nc_root: row.nc_root,
                        nullifier_imt_root: row.nullifier_imt_root,
                    },
                    network,
                ),
            ),
        }
    }
}

/// Loads the parameters of a round.
pub fn load_round_params(tables: &VotingTables, round_id: &str, wallet_id: &str) -> (r: Result<
    VotingRoundParams,
    VotingError,
>)
    ensures
        match round_params_outcome(tables@, round_id@, wallet_id@) {
            Ok((params, _)) => answers(r, Ok(params)),
            Err(fault) => answers(r, Err(fault)),
        },
{
    match load_round_params_with_network(tables, round_id, wallet_id) {
        Ok((params, _)) => Ok(params),
        Err(error) => Err(error),
    }
}

/// Loads the parameters and the network of a round.
pub fn load_round_params_with_network(
    tables: &VotingTables,
    round_id: &str,
    wallet_id: &str,
) -> (r: Result<(VotingRoundParams, Network), VotingError>)
    ensures
        answers(r, round_params_outcome(tables@, round_id@, wallet_id@)),
{
    let row = match tables.round(round_id, wallet_id) {
        Some(row) => row,
        None => return Err(round_unreadable_error(round_id, no_row_text())),
    };
    match network_from_storage(row.network.as_str()) {
        Ok(network) => Ok(
            (
                VotingRoundParams {
                    vote_round_id: row.round_id.clone(),
                    snapshot_height: row.snapshot_height as u64,
                    ea_pk: copy_bytes(row.ea_pk.as_slice()),
                    nc_root: copy_bytes(row.nc_root.as_slice()),
                    nullifier_imt_root: copy_bytes(row.nullifier_imt_root.as_slice()),
                },
                network,
            ),
        ),
        Err(error) => Err(error),
    }
}

/// The network of a round.
pub open spec fn round_network_outcome(tables: Tables, round_id: Text, wallet_id: Text) -> Result<
    Network,
    Fault,
> {
    let key = round_key(round_id, wallet_id);
    if !tables.rounds.contains_key(key) {
        Err(round_unreadable(round_id, no_row()))
    } else {
        named_network(tables.rounds[key].network)
    }
}

/// Loads the network of a round.
pub fn load_round_network(tables: &VotingTables, round_id: &str, wallet_id: &str) -> (r: Result<
    Network,
    VotingError,
>)
    ensures
        answers(r, round_network_outcome(tables@, round_id@, wallet_id@)),
{
    match tables.round(round_id, wallet_id) {
        Some(row) => network_from_storage(row.network.as_str()),
        None => Err(round_unreadable_error(round_id, no_row_text())),
    }
}

/// Says whether a round is stored.
pub fn has_round(tables: &VotingTables, round_id: &str, wallet_id: &str) -> (r: Result<
    bool,
    VotingError,
>)
    ensures
        r == Ok::<bool, VotingError>(
            tables@.rounds.contains_key(round_key(round_id@, wallet_id@)),
        ),
{
    Ok(tables.round(round_id, wallet_id).is_some())
}

/// A bundle has a delegation proof.
pub open spec fn is_proven(proofs: Map<BundleKey, ProofColumns>, key: BundleKey) -> bool {
    proofs.contains_key(key) && proofs[key].success == 1
}

/// A bundle stands for a delegation capability that was imported whole.
pub open spec fn is_imported_capability(bundle: BundleColumns) -> bool {
    &&& bundle.note_positions_blob is None
    &&& bundle.van_comm_rand is Some
    &&& bundle.gov_comm is Some
    &&& bundle.total_note_value is Some
    &&& bundle.address_index == Some(0i64)
    &&& bundle.delegation_tx_hash is Some
}

/// The delegation of a bundle is proven or imported, and its transaction has
/// landed.
pub open spec fn is_delegated(
    proofs: Map<BundleKey, ProofColumns>,
    key: BundleKey,
    bundle: BundleColumns,
) -> bool {
    (is_proven(proofs, key) || is_imported_capability(bundle)) && bundle.van_leaf_position is Some
}

/// A round has bundles, and all of them are delegated.
pub open spec fn all_delegated(tables: Tables, round: RoundKey) -> bool {
    &&& exists|key: BundleKey| #[trigger] tables.bundles.contains_key(key) && key.round == round
    &&& forall|key: BundleKey| #[trigger]
        tables.bundles.contains_key(key) && key.round == round ==> is_delegated(
            tables.proofs,
            key,
            tables.bundles[key],
        )
}

/// The bundles of a round that are not delegated.
struct Undelegated<'a> {
    round_id: &'a str,
    wallet_id: &'a str,
    proofs: &'a Table<ProofRow>,
}

impl<'a> Filter<BundleRow> for Undelegated<'a> {
    closed spec fn accepts(&self, key: BundleKey, data: BundleColumns) -> bool {
        key.round == round_key(self.round_id@, self.wallet_id@) && !is_delegated(
            self.proofs@,
            key,
            data,
        )
    }

    fn test(&self, row: &BundleRow) -> bool {
        if !(OfRound { round_id: self.round_id, wallet_id: self.wallet_id }).test(row) {
            return false;
        }
        let proven = match self.proofs.find(
            &OfBundle {
                round_id: self.round_id,
                wallet_id: self.wallet_id,
                bundle_index: row.bundle_index,
            },
        ) {
            Some(proof) => proof.success == 1,
            None => false,
        };
        let imported = row.note_positions_blob.is_none() && row.van_comm_rand.is_some()
            && row.gov_comm.is_some() && row.total_note_value.is_some() && (
        match row.address_index {
            Some(index) => index == 0,
            None => false,
        }) && row.delegation_tx_hash.is_some();
        !((proven || imported) && row.van_leaf_position.is_some())
    }
}

/// The state of a round.
pub open spec fn round_state_outcome(tables: Tables, round_id: Text, wallet_id: Text) -> Result<
    RoundStateModel,
    Fault,
> {
    let key = round_key(round_id, wallet_id);
    if !tables.rounds.contains_key(key) {
        Err(round_unreadable(round_id, no_row()))
    } else if !(i32::MIN <= tables.rounds[key].phase <= i32::MAX) {
        Err(round_unreadable(round_id, out_of_range(0)))
    } else {
        match named_network(tables.rounds[key].network) {
            Err(fault) => Err(fault),
            Ok(network) => Ok(
                RoundStateModel {
                    round_id,
                    phase: RoundPhase::at(tables.rounds[key].phase as i32),
                    network,
                    snapshot_height: tables.rounds[key].snapshot_height as u64,
                    hotkey_address: None,
                    delegated_weight: None,
                    proof_generated: all_delegated(tables, key),
                },
            ),
        }
    }
}

/// Reads the state of a round.
///
/// `proof_generated` says that the round has bundles, each of them proven or
/// imported, and each with a VAN leaf position.
pub fn get_round_state(tables: &VotingTables, round_id: &str, wallet_id: &str) -> (r: Result<
    RoundState,
    VotingError,
>)
    ensures
        answers(r, round_state_outcome(tables@, round_id@, wallet_id@)),
{
    let row = match tables.round(round_id, wallet_id) {
        Some(row) => row,
        None => return Err(round_unreadable_error(round_id, no_row_text())),
    };
    if row.phase < i32::MIN as i64 || row.phase > i32::MAX as i64 {
        return Err(round_unreadable_error(round_id, out_of_range_text(0).as_str()));
    }
    let phase = RoundPhase::from_i32(row.phase as i32);
    let network = match network_from_storage(row.network.as_str()) {
        Ok(network) => network,
        Err(error) => return Err(error),
    };
    let some_bundle = tables.bundles.find(&OfRound { round_id, wallet_id });
    let undelegated = tables.bundles.find(
        &Undelegated { round_id, wallet_id, proofs: &tables.proofs },
    );
    let proof_generated = some_bundle.is_some() && undelegated.is_none();
    proof {
        let round = round_key(round_id@, wallet_id@);
        if let Some(bundle) = some_bundle {
            assert(tables@.bundles.contains_key(bundle.key()));
        }
        if let Some(bundle) = undelegated {
            assert(tables@.bundles.contains_key(bundle.key()));
        }
        assert(proof_generated == all_delegated(tables@, round));
    }
    Ok(
        RoundState {
            round_id: round_id.to_owned(),
            phase,
            network,
            snapshot_height: row.snapshot_height as u64,
            hotkey_address: None,
            delegated_weight: None,
            proof_generated,
        },
    )
}

/// The rounds of a wallet, each one once, the latest first.
pub open spec fn lists_rounds(keys: Seq<RoundKey>, tables: Tables, wallet_id: Text) -> bool {
    &&& keys.no_duplicates()
    &&& keys.to_set() == tables.rounds.dom().filter(|key: RoundKey| key.wallet_id == wallet_id)
    &&& forall|i: int, j: int|
        0 <= i < j < keys.len() ==> tables.rounds[#[trigger] keys[i]].created_at
            >= tables.rounds[#[trigger] keys[j]].created_at
}

/// A round as it is listed.
pub open spec fn round_summary(key: RoundKey, row: RoundColumns) -> Result<RoundSummaryModel, Fault> {
    if !(i32::MIN <= row.phase <= i32::MAX) {
        Err(Fault::Internal("failed to list rounds: "@ + out_of_range(2)))
    } else {
        match named_network(row.network) {
            Err(fault) => Err(
                Fault::Internal(
                    "failed to list rounds: error occurred while decoding: "@ + fault_text(fault),
                ),
            ),
            Ok(network) => Ok(
                RoundSummaryModel {
                    round_id: key.round_id,
                    wallet_id: key.wallet_id,
                    phase: RoundPhase::at(row.phase as i32),
                    network,
                    snapshot_height: row.snapshot_height as u64,
                    created_at: row.created_at as u64,
                },
            ),
        }
    }
}

/// What is listed of rounds.
pub open spec fn round_summaries(keys: Seq<RoundKey>, tables: Tables) -> Seq<
    Result<RoundSummaryModel, Fault>,
> {
    keys.map_values(|key: RoundKey| round_summary(key, tables.rounds[key]))
}

struct NewestFirst;

impl Order<RoundRow> for NewestFirst {
    closed spec fn rank(&self, key: RoundKey, data: RoundColumns) -> (int, int, int) {
        (-1 - data.created_at, 0, 0)
    }

    fn rank_of(&self, row: &RoundRow) -> (i64, i64, i64) {
        (-1 - row.created_at, 0, 0)
    }
}

fn summarize(row: &RoundRow) -> (r: Result<RoundSummary, VotingError>)
    ensures
        answers(r, round_summary(row.key(), row.data())),
{
    if row.phase < i32::MIN as i64 || row.phase > i32::MAX as i64 {
        return Err(
            Message::new("failed to list rounds: ").text(out_of_range_text(2).as_str()).internal(),
        );
    }
    match network_from_storage(row.network.as_str()) {
        Ok(network) => Ok(
            RoundSummary {
                round_id: row.round_id.clone(),
                wallet_id: row.wallet_id.clone(),
                phase: RoundPhase::from_i32(row.phase as i32),
                network,
                snapshot_height: row.snapshot_height as u64,
                created_at: row.created_at as u64,
            },
        ),
        Err(error) => Err(
            Message::new("failed to list rounds: error occurred while decoding: ").text(
                error.text().as_str(),
            ).internal(),
        ),
    }
}

/// Lists the rounds of a wallet, the latest first.
pub fn list_rounds(tables: &VotingTables, wallet_id: &str) -> (r: Result<
    Vec<RoundSummary>,
    VotingError,
>)
    ensures
        exists|keys: Seq<RoundKey>| #[trigger]
            lists_rounds(keys, tables@, wallet_id@) && answers(
                r,
                all_or_first(round_summaries(keys, tables@)),
            ),
{
    let rows = tables.rounds.select(&OfWallet { wallet_id }, &NewestFirst);
    let ghost keys = keys_of(rows@);
    let ghost items = round_summaries(keys, tables@);
    proof {
        assert(tables@.rounds.dom().filter(|key: RoundKey| key.wallet_id == wallet_id@)
            =~= keys.to_set());
        assert(lists_rounds(keys, tables@, wallet_id@));
    }
    let mut summaries: Vec<RoundSummary> = Vec::new();
    assert(items.take(0) =~= Seq::empty());
    assert(summaries.model() =~= Seq::empty());
    let mut i: usize = 0;
    while i < rows.len()
        invariant
            i <= rows@.len(),
            keys == keys_of(rows@),
            items == round_summaries(keys, tables@),
            lists_rounds(keys, tables@, wallet_id@),
            forall|j: int|
                0 <= j < rows@.len() ==> tables@.rounds[(#[trigger] rows@[j]).key()]
                    == rows@[j].data(),
            all_or_first(items.take(i as int)) == Ok::<Seq<RoundSummaryModel>, Fault>(
                summaries.model(),
            ),
        decreases rows.len() - i,
    {
        let summary = summarize(rows[i]);
        proof {
            lemma_next_item(items, i as int, summaries.model());
        }
        match summary {
            Ok(summary) => {
                let ghost before = summaries.model();
                summaries.push(summary);
                assert(summaries.model() =~= before.push(summary.model()));
            },
            Err(error) => return Err(error),
        }
        i += 1;
    }
    assert(items.take(i as int) =~= items);
    Ok(summaries)
}

/// The tables without a round and all that belongs to it.
pub open spec fn without_round(tables: Tables, round: RoundKey) -> Tables {
    Tables {
        rounds: tables.rounds.remove(round),
        tree_states: tables.tree_states.remove(round),
        ballot_intents: tables.ballot_intents.remove_keys(
            Set::new(|key: IntentKey| key.round == round),
        ),
        bundles: tables.bundles.remove_keys(Set::new(|key: BundleKey| key.round == round)),
        proofs: tables.proofs.remove_keys(Set::new(|key: BundleKey| key.round == round)),
        keystone_signatures: tables.keystone_signatures.remove_keys(
            Set::new(|key: BundleKey| key.round == round),
        ),
        witnesses: tables.witnesses.remove_keys(
            Set::new(|key: WitnessKey| key.bundle.round == round),
        ),
        imt_proofs: tables.imt_proofs.remove_keys(
            Set::new(|key: ImtKey| key.bundle.round == round),
        ),
        votes: tables.votes.remove_keys(Set::new(|key: VoteKey| key.bundle.round == round)),
        share_delegations: tables.share_delegations.remove_keys(
            Set::new(|key: ShareKey| key.vote.bundle.round == round),
        ),
    }
}

/// Deletes a round and all that belongs to it.
pub fn clear_round(tables: &mut VotingTables, round_id: &str, wallet_id: &str) -> (r: Result<
    (),
    VotingError,
>)
    ensures
        r is Ok,
        final(tables)@ == without_round(old(tables)@, round_key(round_id@, wallet_id@)),
{
    let of_round = OfRound { round_id, wallet_id };
    tables.rounds.remove_where(&of_round);
    tables.tree_states.remove_where(&of_round);
    tables.ballot_intents.remove_where(&of_round);
    tables.bundles.remove_where(&of_round);
    tables.proofs.remove_where(&of_round);
    tables.keystone_signatures.remove_where(&of_round);
    tables.witnesses.remove_where(&of_round);
    tables.imt_proofs.remove_where(&of_round);
    tables.votes.remove_where(&of_round);
    tables.share_delegations.remove_where(&of_round);
    proof {
        let cleared = without_round(old(tables)@, round_key(round_id@, wallet_id@));
        assert(tables@.rounds =~= cleared.rounds);
        assert(tables@.tree_states =~= cleared.tree_states);
        assert(tables@.ballot_intents =~= cleared.ballot_intents);
        assert(tables@.bundles =~= cleared.bundles);
        assert(tables@.proofs =~= cleared.proofs);
        assert(tables@.keystone_signatures =~= cleared.keystone_signatures);
        assert(tables@.witnesses =~= cleared.witnesses);
        assert(tables@.imt_proofs =~= cleared.imt_proofs);
        assert(tables@.votes =~= cleared.votes);
        assert(tables@.share_delegations =~= cleared.share_delegations);
    }
    Ok(())
}

} // verus!
