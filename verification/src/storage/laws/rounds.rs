//! Laws of rounds.

use vstd::prelude::*;

use crate::storage::queries::bundles::{
    capability_confirmed_outcome, delete_bundles_outcome, has_imported_bundles,
    unconfirmed_bundles,
};
use crate::storage::queries::proofs::{store_tree_state_outcome, tree_state_outcome};
use crate::storage::queries::rounds::{
    advance_round_phase_outcome, all_delegated, insert_round_outcome, law_network_round_trip,
    named_network, round_network_outcome, round_params_outcome, round_state_outcome, round_summary,
    without_round,
};
use crate::storage::rows::{
    round_key, BundleKey, ImtKey, IntentKey, RoundKey, ShareKey, VoteKey, WitnessKey,
};
use crate::storage::tables::Tables;
use crate::storage::{law_phase_round_trip, RoundPhase, RoundSummaryModel};
use crate::types::{Bytes, Fault, Network, RoundParamsModel, Text};

verus! {

/// A height is read back as it was stored.
proof fn lemma_height_round_trip(height: u64)
    ensures
        (height as i64) as u64 == height,
{
    assert((height as i64) as u64 == height) by (bit_vector);
}

/// A round that was stored is read back: its parameters and network are those
/// it was stored with, it is in its first phase, nothing is proven, and it is
/// listed with its time.
pub proof fn law_new_round_read_back(
    tables: Tables,
    wallet_id: Text,
    network: Network,
    params: RoundParamsModel,
    session_json: Option<Text>,
    now: i64,
)
    requires
        crate::storage::tables::intact(tables),
        insert_round_outcome(tables, wallet_id, network, params, session_json, now) is Ok,
    ensures
        ({
            let next = insert_round_outcome(
                tables,
                wallet_id,
                network,
                params,
                session_json,
                now,
            )->Ok_0;
            &&& round_params_outcome(next, params.vote_round_id, wallet_id) == Ok::<
                (RoundParamsModel, Network),
                Fault,
            >((params, network))
            &&& round_network_outcome(next, params.vote_round_id, wallet_id) == Ok::<
                Network,
                Fault,
            >(network)
            &&& round_summary(
                round_key(params.vote_round_id, wallet_id),
                next.rounds[round_key(params.vote_round_id, wallet_id)],
            ) == Ok::<RoundSummaryModel, Fault>(
                RoundSummaryModel {
                    round_id: params.vote_round_id,
                    wallet_id,
                    phase: RoundPhase::Initialized,
                    network,
                    snapshot_height: params.snapshot_height,
                    created_at: now as u64,
                },
            )
            &&& round_state_outcome(next, params.vote_round_id, wallet_id) matches Ok(state)
            &&& state.phase == RoundPhase::Initialized
            &&& state.network == network
            &&& state.snapshot_height == params.snapshot_height
            &&& !state.proof_generated
        }),
{
    law_network_round_trip(network);
    lemma_height_round_trip(params.snapshot_height);
    let key = round_key(params.vote_round_id, wallet_id);
    let next = insert_round_outcome(
        tables,
        wallet_id,
        network,
        params,
        session_json,
        now,
    )->Ok_0;
    assert(!all_delegated(next, key)) by {
        if all_delegated(next, key) {
            let bundle = choose|bundle: BundleKey| #[trigger]
                next.bundles.contains_key(bundle) && bundle.round == key;
            assert(tables.bundles.contains_key(bundle));
        }
    }
}

/// A round is reported as proven exactly if it has bundles and each of them is
/// landed, and proven or imported: it has a VAN leaf position; and it has a
/// successful proof, or it has no note positions but all that an imported
/// capability brings.
pub proof fn law_proof_generated_by_columns(tables: Tables, round_id: Text, wallet_id: Text)
    requires
        round_state_outcome(tables, round_id, wallet_id) is Ok,
    ensures
        ({
            let round = RoundKey { round_id, wallet_id };
            round_state_outcome(tables, round_id, wallet_id)->Ok_0.proof_generated <==> {
                &&& exists|key: BundleKey| #[trigger]
                    tables.bundles.contains_key(key) && key.round == round
                &&& forall|key: BundleKey| #[trigger]
                    tables.bundles.contains_key(key) && key.round == round ==> {
                        let bundle = tables.bundles[key];
                        &&& bundle.van_leaf_position is Some
                        &&& {
                            ||| tables.proofs.contains_key(key) && tables.proofs[key].success == 1
                            ||| {
                                &&& bundle.note_positions_blob is None
                                &&& bundle.van_comm_rand is Some
                                &&& bundle.gov_comm is Some
                                &&& bundle.total_note_value is Some
                                &&& bundle.address_index == Some(0i64)
                                &&& bundle.delegation_tx_hash is Some
                            }
                        }
                    }
            }
        }),
{
}

/// A round with a bundle that has not landed, or a local one without a proof,
/// is not reported as proven.
pub proof fn law_pending_bundle_holds_round_back(
    tables: Tables,
    round_id: Text,
    wallet_id: Text,
    key: BundleKey,
)
    requires
        tables.bundles.contains_key(key),
        key.round == (RoundKey { round_id, wallet_id }),
        tables.bundles[key].van_leaf_position is None || (
        tables.bundles[key].note_positions_blob is Some && !tables.proofs.contains_key(key)),
    ensures
        round_state_outcome(tables, round_id, wallet_id) matches Ok(state)
            ==> !state.proof_generated,
{
}

/// A round that advanced to a phase is in this phase, and advancing it to the
/// phase again changes nothing. The stored network of the round is valid.
pub proof fn law_advance_is_idempotent(
    tables: Tables,
    round_id: Text,
    wallet_id: Text,
    phase: RoundPhase,
)
    requires
        advance_round_phase_outcome(tables, round_id, wallet_id, phase) is Ok,
        named_network(tables.rounds[round_key(round_id, wallet_id)].network) is Ok,
    ensures
        ({
            let next = advance_round_phase_outcome(tables, round_id, wallet_id, phase)->Ok_0;
            &&& advance_round_phase_outcome(next, round_id, wallet_id, phase) == Ok::<
                Tables,
                Fault,
            >(next)
            &&& round_state_outcome(next, round_id, wallet_id) matches Ok(state)
            &&& state.phase == phase
        }),
{
    law_phase_round_trip(phase);
}

/// A round does not go back to an earlier phase: the request is refused.
pub proof fn law_no_regress(
    tables: Tables,
    round_id: Text,
    wallet_id: Text,
    current: RoundPhase,
    phase: RoundPhase,
)
    requires
        round_state_outcome(tables, round_id, wallet_id) matches Ok(state) && state.phase
            == current,
        tables.rounds[round_key(round_id, wallet_id)].phase == current.place(),
        phase.place() < current.place(),
    ensures
        advance_round_phase_outcome(tables, round_id, wallet_id, phase) == Err::<Tables, Fault>(
            Fault::InvalidInput(
                "refusing to regress round phase for "@ + round_id + ": current="@
                    + crate::text::decimal(current.place() as int) + ", requested="@
                    + crate::text::decimal(phase.place() as int),
            ),
        ),
{
}

/// A round that was cleared is gone with all that belonged to it, clearing it
/// again changes nothing, and it can be stored anew.
pub proof fn law_cleared_round_is_gone(
    tables: Tables,
    round_id: Text,
    wallet_id: Text,
    network: Network,
    params: RoundParamsModel,
    session_json: Option<Text>,
    now: i64,
)
    requires
        params.vote_round_id == round_id,
    ensures
        ({
            let round = round_key(round_id, wallet_id);
            let next = without_round(tables, round);
            &&& !next.rounds.contains_key(round)
            &&& !next.tree_states.contains_key(round)
            &&& forall|key: IntentKey|
                key.round == round ==> !#[trigger] next.ballot_intents.contains_key(key)
            &&& forall|key: BundleKey|
                key.round == round ==> !#[trigger] next.bundles.contains_key(key)
            &&& forall|key: BundleKey|
                key.round == round ==> !#[trigger] next.proofs.contains_key(key)
            &&& forall|key: BundleKey|
                key.round == round ==> !#[trigger] next.keystone_signatures.contains_key(key)
            &&& forall|key: WitnessKey|
                key.bundle.round == round ==> !#[trigger] next.witnesses.contains_key(key)
            &&& forall|key: ImtKey|
                key.bundle.round == round ==> !#[trigger] next.imt_proofs.contains_key(key)
            &&& forall|key: VoteKey|
                key.bundle.round == round ==> !#[trigger] next.votes.contains_key(key)
            &&& forall|key: ShareKey|
                key.vote.bundle.round == round ==> !#[trigger] next.share_delegations.contains_key(
                    key,
                )
            &&& without_round(next, round) == next
            &&& insert_round_outcome(next, wallet_id, network, params, session_json, now) is Ok
        }),
{
    let round = round_key(round_id, wallet_id);
    let next = without_round(tables, round);
    let again = without_round(next, round);
    assert(again.rounds =~= next.rounds);
    assert(again.tree_states =~= next.tree_states);
    assert(again.ballot_intents =~= next.ballot_intents);
    assert(again.bundles =~= next.bundles);
    assert(again.proofs =~= next.proofs);
    assert(again.keystone_signatures =~= next.keystone_signatures);
    assert(again.witnesses =~= next.witnesses);
    assert(again.imt_proofs =~= next.imt_proofs);
    assert(again.votes =~= next.votes);
    assert(again.share_delegations =~= next.share_delegations);
}

/// The tree state that was cached last is the one that is loaded.
pub proof fn law_tree_state_read_back(
    tables: Tables,
    round_id: Text,
    wallet_id: Text,
    snapshot_height: u64,
    tree_state: Bytes,
)
    requires
        store_tree_state_outcome(tables, round_id, wallet_id, snapshot_height, tree_state) is Ok,
    ensures
        tree_state_outcome(
            store_tree_state_outcome(
                tables,
                round_id,
                wallet_id,
                snapshot_height,
                tree_state,
            )->Ok_0,
            round_id,
            wallet_id,
        ) == Ok::<Bytes, Fault>(tree_state),
{
}

/// A round with imported bundles creates votes exactly when none of its
/// delegations is unconfirmed, and its bundles are never deleted one by one. A
/// round of local bundles is not restricted.
pub proof fn law_imported_rounds_are_whole(
    tables: Tables,
    round_id: Text,
    wallet_id: Text,
    from_index: u32,
)
    ensures
        ({
            let round = round_key(round_id, wallet_id);
            let imported = has_imported_bundles(tables, round);
            &&& capability_confirmed_outcome(tables, round_id, wallet_id) is Ok <==> (imported
                ==> forall|key: BundleKey| #[trigger]
                tables.bundles.contains_key(key) && key.round == round
                    ==> tables.bundles[key].van_leaf_position is Some)
            &&& delete_bundles_outcome(tables, round_id, wallet_id, from_index) is Err <==> imported
        }),
{
    let round = round_key(round_id, wallet_id);
    let pending = unconfirmed_bundles(tables, round);
    if pending == Set::<BundleKey>::empty() {
        assert forall|key: BundleKey| #[trigger]
            tables.bundles.contains_key(key) && key.round
                == round implies tables.bundles[key].van_leaf_position is Some by {
            assert(!pending.contains(key));
        }
    } else {
        assert(exists|key: BundleKey| pending.contains(key)) by {
            if forall|key: BundleKey| !pending.contains(key) {
                assert(pending =~= Set::<BundleKey>::empty());
            }
        }
        let key = choose|key: BundleKey| pending.contains(key);
        assert(tables.bundles.contains_key(key));
    }
}

/// Deleting bundles from an index on leaves the bundles before it, and nothing
/// of those from it on.
pub proof fn law_deleted_bundles_are_gone(
    tables: Tables,
    round_id: Text,
    wallet_id: Text,
    from_index: u32,
)
    requires
        delete_bundles_outcome(tables, round_id, wallet_id, from_index) is Ok,
    ensures
        ({
            let round = round_key(round_id, wallet_id);
            let next = delete_bundles_outcome(tables, round_id, wallet_id, from_index)->Ok_0.0;
            let deleted = |key: BundleKey| key.round == round && key.bundle_index >= from_index;
            &&& forall|key: BundleKey| #[trigger]
                next.bundles.contains_key(key) <==> tables.bundles.contains_key(key) && !deleted(
                    key,
                )
            &&& forall|key: BundleKey| #[trigger] next.proofs.contains_key(key) ==> !deleted(key)
            &&& forall|key: BundleKey| #[trigger]
                next.keystone_signatures.contains_key(key) ==> !deleted(key)
            &&& forall|key: WitnessKey| #[trigger]
                next.witnesses.contains_key(key) ==> !deleted(key.bundle)
            &&& forall|key: ImtKey| #[trigger]
                next.imt_proofs.contains_key(key) ==> !deleted(key.bundle)
            &&& forall|key: VoteKey| #[trigger]
                next.votes.contains_key(key) ==> !deleted(key.bundle)
            &&& forall|key: ShareKey| #[trigger]
                next.share_delegations.contains_key(key) ==> !deleted(key.vote.bundle)
        }),
{
}

} // verus!
