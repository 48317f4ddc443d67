//! Each function that changes voting state is a request, so that all that holds
//! of requests holds of it.

use vstd::prelude::*;

use super::{outcome, state_of, Change, Request};
use crate::bytes::{joined, parts_of};
use crate::storage::field::ImtProofData;
use crate::storage::notes::{identities_of, positions_blob, positions_of, secrets_of};
use crate::storage::queries::bundles::{
    delete_bundles_from, delete_bundles_outcome, insert_bundle, insert_bundle_notes,
    insert_bundle_outcome, new_bundle, store_van_position, store_van_position_outcome,
};
use crate::storage::queries::confirmations::{
    store_delegation_tx_hash, store_tx_hash_outcome,
};
use crate::storage::queries::delegation::{
    optional_parts, optional_slice, store_delegation_data, store_delegation_data_inner,
    store_delegation_data_with_pczt_fields, store_delegation_outcome,
    store_padded_note_secrets_if_absent, store_proof_fields_outcome, store_proof_result_fields,
    store_proof_result_fields_with_van_comm, store_secrets_outcome, DelegationSetup, ProofFields,
};
use crate::storage::queries::proofs::{
    store_imt_proof, store_imt_proof_outcome, store_proof, store_proof_outcome, store_tree_state,
    store_tree_state_outcome,
};
use crate::storage::queries::recovery::{
    clear_recovery_state, clear_unsigned_delegation_setup_fields, recovery_cleared,
    store_keystone_outcome, store_keystone_signature, unsigned_setup_cleared,
};
use crate::storage::queries::rounds::{
    advance_round_phase, advance_round_phase_outcome, clear_round, insert_round,
    insert_round_outcome, optional_text, update_round_phase, update_round_phase_outcome,
    without_round,
};
use crate::storage::queries::shares::{
    add_sent_servers, add_servers_outcome, mark_confirmed_outcome, mark_share_confirmed,
    record_share_delegation, record_share_outcome,
};
use crate::storage::queries::votes::{
    clear_stale_outcome, clear_stale_share_delegations_for_intent, record_submission_outcome,
    record_vote_submission, store_vote, store_vote_outcome,
};
use crate::storage::queries::witnesses::{
    replace_bundle_witnesses, replace_witnesses_outcome, store_witnesses, store_witnesses_outcome,
};
use crate::storage::rows::round_key;
use crate::storage::tables::{Tables, VotingTables};
use crate::storage::RoundPhase;
use crate::types::{
    notes_of, texts_of, witnesses_of, Fault, Modeled, Network, NoteInfo, VotingError,
    VotingRoundParams, WitnessData,
};

verus! {

/// A call did what was due: it succeeded exactly if success was due, and then
/// left the tables in the state that was due; else it said the fault that was
/// due and left the tables as they were.
pub open spec fn performed<T>(
    done: Result<T, VotingError>,
    due: Result<Tables, Fault>,
    before: Tables,
    after: Tables,
) -> bool {
    match due {
        Ok(next) => done is Ok && after == next,
        Err(fault) => done is Err && done->Err_0@ == fault && after == before,
    }
}

/// Storing a round is a request
/// on its round and does what the request says.
pub proof fn law_insert_round_is_a_request(
    tables: &mut VotingTables,
    wallet_id: &str,
    network: Network,
    params: &VotingRoundParams,
    session_json: Option<&str>,
    now: i64,
    done: Result<(), VotingError>,
)
    requires
        call_ensures(
            insert_round,
            (tables, wallet_id, network, params, session_json, now),
            done,
        ),
    ensures
        performed(
            done,
            insert_round_outcome(
                old(tables)@,
                wallet_id@,
                network,
                params.model(),
                optional_text(session_json),
                now,
            ),
            old(tables)@,
            final(tables)@,
        ),
        outcome(
            old(tables)@,
            (Request {
                round_id: params.vote_round_id@,
                wallet_id: wallet_id@,
                change: Change::InsertRound {
                    network,
                    params: params.model(),
                    session_json: optional_text(session_json),
                    now,
                },
            }),
        ) == insert_round_outcome(
            old(tables)@,
            wallet_id@,
            network,
            params.model(),
            optional_text(session_json),
            now,
        ),
{
}

/// Setting the phase of a round is a request
/// on its round and does what the request says.
pub proof fn law_update_round_phase_is_a_request(
    tables: &mut VotingTables,
    round_id: &str,
    wallet_id: &str,
    phase: RoundPhase,
    done: Result<(), VotingError>,
)
    requires
        call_ensures(
            update_round_phase,
            (tables, round_id, wallet_id, phase),
            done,
        ),
    ensures
        performed(
            done,
            update_round_phase_outcome(old(tables)@, round_id@, wallet_id@, phase),
            old(tables)@,
            final(tables)@,
        ),
        outcome(
            old(tables)@,
            (Request {
                round_id: round_id@,
                wallet_id: wallet_id@,
                change: Change::SetPhase { phase },
            }),
        ) == update_round_phase_outcome(old(tables)@, round_id@, wallet_id@, phase),
{
}

/// Advancing the phase of a round is a request
/// on its round and does what the request says.
pub proof fn law_advance_round_phase_is_a_request(
    tables: &mut VotingTables,
    round_id: &str,
    wallet_id: &str,
    phase: RoundPhase,
    done: Result<(), VotingError>,
)
    requires
        call_ensures(
            advance_round_phase,
            (tables, round_id, wallet_id, phase),
            done,
        ),
    ensures
        performed(
            done,
            advance_round_phase_outcome(old(tables)@, round_id@, wallet_id@, phase),
            old(tables)@,
            final(tables)@,
        ),
        outcome(
            old(tables)@,
            (Request {
                round_id: round_id@,
                wallet_id: wallet_id@,
                change: Change::AdvancePhase { phase },
            }),
        ) == advance_round_phase_outcome(old(tables)@, round_id@, wallet_id@, phase),
{
}

/// Clearing a round is a request
/// on its round and does what the request says.
pub proof fn law_clear_round_is_a_request(
    tables: &mut VotingTables,
    round_id: &str,
    wallet_id: &str,
    done: Result<(), VotingError>,
)
    requires
        call_ensures(
            clear_round,
            (tables, round_id, wallet_id),
            done,
        ),
    ensures
        performed(
            done,
            Ok::<Tables, Fault>(without_round(old(tables)@, round_key(round_id@, wallet_id@))),
            old(tables)@,
            final(tables)@,
        ),
        outcome(
            old(tables)@,
            (Request {
                round_id: round_id@,
                wallet_id: wallet_id@,
                change: Change::ClearRound,
            }),
        ) == Ok::<Tables, Fault>(without_round(old(tables)@, round_key(round_id@, wallet_id@))),
{
}

/// Storing a bundle by its positions is a request
/// on its round and does what the request says.
pub proof fn law_insert_bundle_is_a_request(
    tables: &mut VotingTables,
    round_id: &str,
    wallet_id: &str,
    bundle_index: u32,
    positions: &[u64],
    done: Result<(), VotingError>,
)
    requires
        call_ensures(
            insert_bundle,
            (tables, round_id, wallet_id, bundle_index, positions),
            done,
        ),
    ensures
        performed(
            done,
            insert_bundle_outcome(
                old(tables)@,
                round_id@,
                wallet_id@,
                bundle_index,
                new_bundle(positions_blob(positions@), None),
            ),
            old(tables)@,
            final(tables)@,
        ),
        outcome(
            old(tables)@,
            (Request {
                round_id: round_id@,
                wallet_id: wallet_id@,
                change: Change::InsertBundle {
                    bundle_index,
                    positions: positions_blob(positions@),
                    identities: None,
                },
            }),
        ) == insert_bundle_outcome(
            old(tables)@,
            round_id@,
            wallet_id@,
            bundle_index,
            new_bundle(positions_blob(positions@), None),
        ),
{
}

/// Storing a bundle by its notes is a request
/// on its round and does what the request says.
pub proof fn law_insert_bundle_notes_is_a_request(
    tables: &mut VotingTables,
    round_id: &str,
    wallet_id: &str,
    bundle_index: u32,
    notes: &[NoteInfo],
    done: Result<(), VotingError>,
)
    requires
        call_ensures(
            insert_bundle_notes,
            (tables, round_id, wallet_id, bundle_index, notes),
            done,
        ),
    ensures
        performed(
            done,
            insert_bundle_outcome(
                old(tables)@,
                round_id@,
                wallet_id@,
                bundle_index,
                new_bundle(
                    positions_blob(positions_of(notes_of(notes@))),
                    Some(joined(identities_of(notes_of(notes@)))),
                ),
            ),
            old(tables)@,
            final(tables)@,
        ),
        outcome(
            old(tables)@,
            (Request {
                round_id: round_id@,
                wallet_id: wallet_id@,
                change: Change::InsertBundle {
                    bundle_index,
                    positions: positions_blob(positions_of(notes_of(notes@))),
                    identities: Some(joined(identities_of(notes_of(notes@)))),
                },
            }),
        ) == insert_bundle_outcome(
            old(tables)@,
            round_id@,
            wallet_id@,
            bundle_index,
            new_bundle(
                positions_blob(positions_of(notes_of(notes@))),
                Some(joined(identities_of(notes_of(notes@)))),
            ),
        ),
{
}

/// Deleting bundles is a request
/// on its round and does what the request says.
pub proof fn law_delete_bundles_from_is_a_request(
    tables: &mut VotingTables,
    round_id: &str,
    wallet_id: &str,
    from_index: u32,
    done: Result<u64, VotingError>,
)
    requires
        call_ensures(
            delete_bundles_from,
            (tables, round_id, wallet_id, from_index),
            done,
        ),
    ensures
        performed(
            done,
            state_of(delete_bundles_outcome(old(tables)@, round_id@, wallet_id@, from_index)),
            old(tables)@,
            final(tables)@,
        ),
        done matches Ok(n) ==> (
        delete_bundles_outcome(old(tables)@, round_id@, wallet_id@, from_index) matches Ok((_, removed))
            && n == removed),
        outcome(
            old(tables)@,
            (Request {
                round_id: round_id@,
                wallet_id: wallet_id@,
                change: Change::DeleteBundles { from_index },
            }),
        ) == state_of(delete_bundles_outcome(old(tables)@, round_id@, wallet_id@, from_index)),
{
}

/// Storing a VAN leaf position is a request
/// on its round and does what the request says.
pub proof fn law_store_van_position_is_a_request(
    tables: &mut VotingTables,
    round_id: &str,
    wallet_id: &str,
    bundle_index: u32,
    position: u32,
    done: Result<(), VotingError>,
)
    requires
        call_ensures(
            store_van_position,
            (tables, round_id, wallet_id, bundle_index, position),
            done,
        ),
    ensures
        performed(
            done,
            store_van_position_outcome(
                old(tables)@,
                round_id@,
                wallet_id@,
                bundle_index,
                position,
            ),
            old(tables)@,
            final(tables)@,
        ),
        outcome(
            old(tables)@,
            (Request {
                round_id: round_id@,
                wallet_id: wallet_id@,
                change: Change::StoreVanPosition { bundle_index, position },
            }),
        ) == store_van_position_outcome(
            old(tables)@,
            round_id@,
            wallet_id@,
            bundle_index,
            position,
        ),
{
}

/// Storing padding secrets is a request
/// on its round and does what the request says.
pub proof fn law_store_padded_note_secrets_if_absent_is_a_request(
    tables: &mut VotingTables,
    round_id: &str,
    wallet_id: &str,
    bundle_index: u32,
    padded_note_secrets: &[(Vec<u8>, Vec<u8>)],
    done: Result<(), VotingError>,
)
    requires
        call_ensures(
            store_padded_note_secrets_if_absent,
            (tables, round_id, wallet_id, bundle_index, padded_note_secrets),
            done,
        ),
    ensures
        performed(
            done,
            store_secrets_outcome(
                old(tables)@,
                round_id@,
                wallet_id@,
                bundle_index,
                secrets_of(padded_note_secrets@),
            ),
            old(tables)@,
            final(tables)@,
        ),
        outcome(
            old(tables)@,
            (Request {
                round_id: round_id@,
                wallet_id: wallet_id@,
                change: Change::StoreSecrets {
                    bundle_index,
                    secrets: secrets_of(padded_note_secrets@),
                },
            }),
        ) == store_secrets_outcome(
            old(tables)@,
            round_id@,
            wallet_id@,
            bundle_index,
            secrets_of(padded_note_secrets@),
        ),
{
}

/// Storing the public inputs of a proof is a request
/// on its round and does what the request says.
pub proof fn law_store_proof_result_fields_is_a_request(
    tables: &mut VotingTables,
    round_id: &str,
    wallet_id: &str,
    bundle_index: u32,
    rk: &[u8],
    gov_nullifiers: &[Vec<u8>],
    nf_signed: &[u8],
    cmx_new: &[u8],
    done: Result<(), VotingError>,
)
    requires
        call_ensures(
            store_proof_result_fields,
            (tables, round_id, wallet_id, bundle_index, rk, gov_nullifiers, nf_signed, cmx_new),
            done,
        ),
    ensures
        performed(
            done,
            store_proof_fields_outcome(
                old(tables)@,
                round_id@,
                wallet_id@,
                bundle_index,
                (ProofFields {
                    rk: rk@,
                    gov_nullifiers: parts_of(gov_nullifiers@),
                    nf_signed: nf_signed@,
                    cmx_new: cmx_new@,
                    van_comm: None,
                }),
            ),
            old(tables)@,
            final(tables)@,
        ),
        outcome(
            old(tables)@,
            (Request {
                round_id: round_id@,
                wallet_id: wallet_id@,
                change: Change::StoreProofFields {
                    bundle_index,
                    fields: ProofFields {
                        rk: rk@,
                        gov_nullifiers: parts_of(gov_nullifiers@),
                        nf_signed: nf_signed@,
                        cmx_new: cmx_new@,
                        van_comm: None,
                    },
                },
            }),
        ) == store_proof_fields_outcome(
            old(tables)@,
            round_id@,
            wallet_id@,
            bundle_index,
            (ProofFields {
                rk: rk@,
                gov_nullifiers: parts_of(gov_nullifiers@),
                nf_signed: nf_signed@,
                cmx_new: cmx_new@,
                van_comm: None,
            }),
        ),
{
}

/// Storing the public inputs of a proof with its VAN is a request
/// on its round and does what the request says.
pub proof fn law_store_proof_result_fields_with_van_comm_is_a_request(
    tables: &mut VotingTables,
    round_id: &str,
    wallet_id: &str,
    bundle_index: u32,
    rk: &[u8],
    gov_nullifiers: &[Vec<u8>],
    nf_signed: &[u8],
    cmx_new: &[u8],
    van_comm: &[u8],
    done: Result<(), VotingError>,
)
    requires
        call_ensures(
            store_proof_result_fields_with_van_comm,
            (tables, round_id, wallet_id, bundle_index, rk, gov_nullifiers, nf_signed, cmx_new, van_comm),
            done,
        ),
    ensures
        performed(
            done,
            store_proof_fields_outcome(
                old(tables)@,
                round_id@,
                wallet_id@,
                bundle_index,
                (ProofFields {
                    rk: rk@,
                    gov_nullifiers: parts_of(gov_nullifiers@),
                    nf_signed: nf_signed@,
                    cmx_new: cmx_new@,
                    van_comm: Some(van_comm@),
                }),
            ),
            old(tables)@,
            final(tables)@,
        ),
        outcome(
            old(tables)@,
            (Request {
                round_id: round_id@,
                wallet_id: wallet_id@,
                change: Change::StoreProofFields {
                    bundle_index,
                    fields: ProofFields {
                        rk: rk@,
                        gov_nullifiers: parts_of(gov_nullifiers@),
                        nf_signed: nf_signed@,
                        cmx_new: cmx_new@,
                        van_comm: Some(van_comm@),
                    },
                },
            }),
        ) == store_proof_fields_outcome(
            old(tables)@,
            round_id@,
            wallet_id@,
            bundle_index,
            (ProofFields {
                rk: rk@,
                gov_nullifiers: parts_of(gov_nullifiers@),
                nf_signed: nf_signed@,
                cmx_new: cmx_new@,
                van_comm: Some(van_comm@),
            }),
        ),
{
}

/// Recording the transaction of a delegation is a request
/// on its round and does what the request says.
pub proof fn law_store_delegation_tx_hash_is_a_request(
    tables: &mut VotingTables,
    round_id: &str,
    wallet_id: &str,
    bundle_index: u32,
    tx_hash: &str,
    done: Result<(), VotingError>,
)
    requires
        call_ensures(
            store_delegation_tx_hash,
            (tables, round_id, wallet_id, bundle_index, tx_hash),
            done,
        ),
    ensures
        performed(
            done,
            store_tx_hash_outcome(old(tables)@, round_id@, wallet_id@, bundle_index, tx_hash@),
            old(tables)@,
            final(tables)@,
        ),
        outcome(
            old(tables)@,
            (Request {
                round_id: round_id@,
                wallet_id: wallet_id@,
                change: Change::StoreTxHash { bundle_index, tx_hash: tx_hash@ },
            }),
        ) == store_tx_hash_outcome(old(tables)@, round_id@, wallet_id@, bundle_index, tx_hash@),
{
}

/// Caching a tree state is a request
/// on its round and does what the request says.
pub proof fn law_store_tree_state_is_a_request(
    tables: &mut VotingTables,
    round_id: &str,
    wallet_id: &str,
    snapshot_height: u64,
    tree_state: &[u8],
    done: Result<(), VotingError>,
)
    requires
        call_ensures(
            store_tree_state,
            (tables, round_id, wallet_id, snapshot_height, tree_state),
            done,
        ),
    ensures
        performed(
            done,
            store_tree_state_outcome(
                old(tables)@,
                round_id@,
                wallet_id@,
                snapshot_height,
                tree_state@,
            ),
            old(tables)@,
            final(tables)@,
        ),
        outcome(
            old(tables)@,
            (Request {
                round_id: round_id@,
                wallet_id: wallet_id@,
                change: Change::StoreTreeState { snapshot_height, tree_state: tree_state@ },
            }),
        ) == store_tree_state_outcome(
            old(tables)@,
            round_id@,
            wallet_id@,
            snapshot_height,
            tree_state@,
        ),
{
}

/// Caching witnesses is a request
/// on its round and does what the request says.
pub proof fn law_store_witnesses_is_a_request(
    tables: &mut VotingTables,
    round_id: &str,
    wallet_id: &str,
    bundle_index: u32,
    witnesses: &[WitnessData],
    now: i64,
    done: Result<(), VotingError>,
)
    requires
        call_ensures(
            store_witnesses,
            (tables, round_id, wallet_id, bundle_index, witnesses, now),
            done,
        ),
    ensures
        performed(
            done,
            store_witnesses_outcome(
                old(tables)@,
                round_id@,
                wallet_id@,
                bundle_index,
                witnesses_of(witnesses@),
                now,
            ),
            old(tables)@,
            final(tables)@,
        ),
        outcome(
            old(tables)@,
            (Request {
                round_id: round_id@,
                wallet_id: wallet_id@,
                change: Change::StoreWitnesses {
                    bundle_index,
                    witnesses: witnesses_of(witnesses@),
                    now,
                },
            }),
        ) == store_witnesses_outcome(
            old(tables)@,
            round_id@,
            wallet_id@,
            bundle_index,
            witnesses_of(witnesses@),
            now,
        ),
{
}

/// Replacing witnesses is a request
/// on its round and does what the request says.
pub proof fn law_replace_bundle_witnesses_is_a_request(
    tables: &mut VotingTables,
    round_id: &str,
    wallet_id: &str,
    bundle_index: u32,
    witnesses: &[WitnessData],
    now: i64,
    done: Result<(), VotingError>,
)
    requires
        call_ensures(
            replace_bundle_witnesses,
            (tables, round_id, wallet_id, bundle_index, witnesses, now),
            done,
        ),
    ensures
        performed(
            done,
            replace_witnesses_outcome(
                old(tables)@,
                round_id@,
                wallet_id@,
                bundle_index,
                witnesses_of(witnesses@),
                now,
            ),
            old(tables)@,
            final(tables)@,
        ),
        outcome(
            old(tables)@,
            (Request {
                round_id: round_id@,
                wallet_id: wallet_id@,
                change: Change::ReplaceWitnesses {
                    bundle_index,
                    witnesses: witnesses_of(witnesses@),
                    now,
                },
            }),
        ) == replace_witnesses_outcome(
            old(tables)@,
            round_id@,
            wallet_id@,
            bundle_index,
            witnesses_of(witnesses@),
            now,
        ),
{
}

/// Caching a non-membership proof is a request
/// on its round and does what the request says.
pub proof fn law_store_imt_proof_is_a_request(
    tables: &mut VotingTables,
    round_id: &str,
    wallet_id: &str,
    bundle_index: u32,
    nullifier: &[u8],
    proof: &ImtProofData,
    now: i64,
    done: Result<(), VotingError>,
)
    requires
        call_ensures(
            store_imt_proof,
            (tables, round_id, wallet_id, bundle_index, nullifier, proof, now),
            done,
        ),
    ensures
        performed(
            done,
            store_imt_proof_outcome(
                old(tables)@,
                round_id@,
                wallet_id@,
                bundle_index,
                nullifier@,
                proof.model(),
                now,
            ),
            old(tables)@,
            final(tables)@,
        ),
        outcome(
            old(tables)@,
            (Request {
                round_id: round_id@,
                wallet_id: wallet_id@,
                change: Change::StoreImtProof {
                    bundle_index,
                    nullifier: nullifier@,
                    proof: proof.model(),
                    now,
                },
            }),
        ) == store_imt_proof_outcome(
            old(tables)@,
            round_id@,
            wallet_id@,
            bundle_index,
            nullifier@,
            proof.model(),
            now,
        ),
{
}

/// Storing a delegation proof is a request
/// on its round and does what the request says.
pub proof fn law_store_proof_is_a_request(
    tables: &mut VotingTables,
    round_id: &str,
    wallet_id: &str,
    bundle_index: u32,
    proof: &[u8],
    now: i64,
    done: Result<(), VotingError>,
)
    requires
        call_ensures(
            store_proof,
            (tables, round_id, wallet_id, bundle_index, proof, now),
            done,
        ),
    ensures
        performed(
            done,
            store_proof_outcome(old(tables)@, round_id@, wallet_id@, bundle_index, proof@, now),
            old(tables)@,
            final(tables)@,
        ),
        outcome(
            old(tables)@,
            (Request {
                round_id: round_id@,
                wallet_id: wallet_id@,
                change: Change::StoreProof { bundle_index, proof: proof@, now },
            }),
        ) == store_proof_outcome(old(tables)@, round_id@, wallet_id@, bundle_index, proof@, now),
{
}

/// Storing a vote is a request
/// on its round and does what the request says.
pub proof fn law_store_vote_is_a_request(
    tables: &mut VotingTables,
    round_id: &str,
    wallet_id: &str,
    bundle_index: u32,
    proposal_id: u32,
    choice: u32,
    commitment: &[u8],
    now: i64,
    done: Result<(), VotingError>,
)
    requires
        call_ensures(
            store_vote,
            (tables, round_id, wallet_id, bundle_index, proposal_id, choice, commitment, now),
            done,
        ),
    ensures
        performed(
            done,
            store_vote_outcome(
                old(tables)@,
                round_id@,
                wallet_id@,
                bundle_index,
                proposal_id,
                choice,
                commitment@,
                now,
            ),
            old(tables)@,
            final(tables)@,
        ),
        outcome(
            old(tables)@,
            (Request {
                round_id: round_id@,
                wallet_id: wallet_id@,
                change: Change::StoreVote {
                    bundle_index,
                    proposal_id,
                    choice,
                    commitment: commitment@,
                    now,
                },
            }),
        ) == store_vote_outcome(
            old(tables)@,
            round_id@,
            wallet_id@,
            bundle_index,
            proposal_id,
            choice,
            commitment@,
            now,
        ),
{
}

/// Recording the submission of a vote is a request
/// on its round and does what the request says.
pub proof fn law_record_vote_submission_is_a_request(
    tables: &mut VotingTables,
    round_id: &str,
    wallet_id: &str,
    bundle_index: u32,
    proposal_id: u32,
    tx_hash: &str,
    done: Result<(), VotingError>,
)
    requires
        call_ensures(
            record_vote_submission,
            (tables, round_id, wallet_id, bundle_index, proposal_id, tx_hash),
            done,
        ),
    ensures
        performed(
            done,
            record_submission_outcome(
                old(tables)@,
                round_id@,
                wallet_id@,
                bundle_index,
                proposal_id,
                tx_hash@,
            ),
            old(tables)@,
            final(tables)@,
        ),
        outcome(
            old(tables)@,
            (Request {
                round_id: round_id@,
                wallet_id: wallet_id@,
                change: Change::RecordSubmission { bundle_index, proposal_id, tx_hash: tx_hash@ },
            }),
        ) == record_submission_outcome(
            old(tables)@,
            round_id@,
            wallet_id@,
            bundle_index,
            proposal_id,
            tx_hash@,
        ),
{
}

/// Clearing stale shares is a request
/// on its round and does what the request says.
pub proof fn law_clear_stale_share_delegations_for_intent_is_a_request(
    tables: &mut VotingTables,
    round_id: &str,
    wallet_id: &str,
    proposal_id: u32,
    skipped: bool,
    choice: Option<u32>,
    done: Result<u64, VotingError>,
)
    requires
        call_ensures(
            clear_stale_share_delegations_for_intent,
            (tables, round_id, wallet_id, proposal_id, skipped, choice),
            done,
        ),
    ensures
        performed(
            done,
            state_of(
                clear_stale_outcome(
                    old(tables)@,
                    round_id@,
                    wallet_id@,
                    proposal_id,
                    skipped,
                    choice,
                ),
            ),
            old(tables)@,
            final(tables)@,
        ),
        done matches Ok(n) ==> (
        clear_stale_outcome(old(tables)@, round_id@, wallet_id@, proposal_id, skipped, choice) matches Ok((_, removed))
            && n == removed),
        outcome(
            old(tables)@,
            (Request {
                round_id: round_id@,
                wallet_id: wallet_id@,
                change: Change::ClearStaleShares { proposal_id, skipped, choice },
            }),
        ) == state_of(
            clear_stale_outcome(
                old(tables)@,
                round_id@,
                wallet_id@,
                proposal_id,
                skipped,
                choice,
            ),
        ),
{
}

/// Recording a share is a request
/// on its round and does what the request says.
pub proof fn law_record_share_delegation_is_a_request(
    tables: &mut VotingTables,
    round_id: &str,
    wallet_id: &str,
    bundle_index: u32,
    proposal_id: u32,
    share_index: u32,
    sent_to_urls: &[String],
    nullifier: &[u8],
    submit_at: u64,
    now: u64,
    done: Result<(), VotingError>,
)
    requires
        call_ensures(
            record_share_delegation,
            (tables, round_id, wallet_id, bundle_index, proposal_id, share_index, sent_to_urls, nullifier, submit_at, now),
            done,
        ),
    ensures
        performed(
            done,
            record_share_outcome(
                old(tables)@,
                round_id@,
                wallet_id@,
                bundle_index,
                proposal_id,
                share_index,
                texts_of(sent_to_urls@),
                nullifier@,
                submit_at,
                now,
            ),
            old(tables)@,
            final(tables)@,
        ),
        outcome(
            old(tables)@,
            (Request {
                round_id: round_id@,
                wallet_id: wallet_id@,
                change: Change::RecordShare {
                    bundle_index,
                    proposal_id,
                    share_index,
                    sent_to_urls: texts_of(sent_to_urls@),
                    nullifier: nullifier@,
                    submit_at,
                    now,
                },
            }),
        ) == record_share_outcome(
            old(tables)@,
            round_id@,
            wallet_id@,
            bundle_index,
            proposal_id,
            share_index,
            texts_of(sent_to_urls@),
            nullifier@,
            submit_at,
            now,
        ),
{
}

/// Marking a share as confirmed is a request
/// on its round and does what the request says.
pub proof fn law_mark_share_confirmed_is_a_request(
    tables: &mut VotingTables,
    round_id: &str,
    wallet_id: &str,
    bundle_index: u32,
    proposal_id: u32,
    share_index: u32,
    done: Result<(), VotingError>,
)
    requires
        call_ensures(
            mark_share_confirmed,
            (tables, round_id, wallet_id, bundle_index, proposal_id, share_index),
            done,
        ),
    ensures
        performed(
            done,
            mark_confirmed_outcome(
                old(tables)@,
                round_id@,
                wallet_id@,
                bundle_index,
                proposal_id,
                share_index,
            ),
            old(tables)@,
            final(tables)@,
        ),
        outcome(
            old(tables)@,
            (Request {
                round_id: round_id@,
                wallet_id: wallet_id@,
                change: Change::MarkShareConfirmed { bundle_index, proposal_id, share_index },
            }),
        ) == mark_confirmed_outcome(
            old(tables)@,
            round_id@,
            wallet_id@,
            bundle_index,
            proposal_id,
            share_index,
        ),
{
}

/// Adding servers to a share is a request
/// on its round and does what the request says.
pub proof fn law_add_sent_servers_is_a_request(
    tables: &mut VotingTables,
    round_id: &str,
    wallet_id: &str,
    bundle_index: u32,
    proposal_id: u32,
    share_index: u32,
    new_urls: &[String],
    done: Result<(), VotingError>,
)
    requires
        call_ensures(
            add_sent_servers,
            (tables, round_id, wallet_id, bundle_index, proposal_id, share_index, new_urls),
            done,
        ),
    ensures
        performed(
            done,
            add_servers_outcome(
                old(tables)@,
                round_id@,
                wallet_id@,
                bundle_index,
                proposal_id,
                share_index,
                texts_of(new_urls@),
            ),
            old(tables)@,
            final(tables)@,
        ),
        outcome(
            old(tables)@,
            (Request {
                round_id: round_id@,
                wallet_id: wallet_id@,
                change: Change::AddServers {
                    bundle_index,
                    proposal_id,
                    share_index,
                    new_urls: texts_of(new_urls@),
                },
            }),
        ) == add_servers_outcome(
            old(tables)@,
            round_id@,
            wallet_id@,
            bundle_index,
            proposal_id,
            share_index,
            texts_of(new_urls@),
        ),
{
}

/// Storing a Keystone signature is a request
/// on its round and does what the request says.
pub proof fn law_store_keystone_signature_is_a_request(
    tables: &mut VotingTables,
    round_id: &str,
    wallet_id: &str,
    bundle_index: u32,
    sig: &[u8],
    sighash: &[u8],
    rk: &[u8],
    now: u64,
    done: Result<(), VotingError>,
)
    requires
        call_ensures(
            store_keystone_signature,
            (tables, round_id, wallet_id, bundle_index, sig, sighash, rk, now),
            done,
        ),
    ensures
        performed(
            done,
            store_keystone_outcome(
                old(tables)@,
                round_id@,
                wallet_id@,
                bundle_index,
                sig@,
                sighash@,
                rk@,
                now,
            ),
            old(tables)@,
            final(tables)@,
        ),
        outcome(
            old(tables)@,
            (Request {
                round_id: round_id@,
                wallet_id: wallet_id@,
                change: Change::StoreKeystone {
                    bundle_index,
                    sig: sig@,
                    sighash: sighash@,
                    rk: rk@,
                    now,
                },
            }),
        ) == store_keystone_outcome(
            old(tables)@,
            round_id@,
            wallet_id@,
            bundle_index,
            sig@,
            sighash@,
            rk@,
            now,
        ),
{
}

/// Clearing the unsigned setup of a round is a request
/// on its round and does what the request says.
pub proof fn law_clear_unsigned_delegation_setup_fields_is_a_request(
    tables: &mut VotingTables,
    round_id: &str,
    wallet_id: &str,
    done: Result<(), VotingError>,
)
    requires
        call_ensures(
            clear_unsigned_delegation_setup_fields,
            (tables, round_id, wallet_id),
            done,
        ),
    ensures
        performed(
            done,
            Ok::<Tables, Fault>(
                unsigned_setup_cleared(old(tables)@, round_key(round_id@, wallet_id@)),
            ),
            old(tables)@,
            final(tables)@,
        ),
        outcome(
            old(tables)@,
            (Request {
                round_id: round_id@,
                wallet_id: wallet_id@,
                change: Change::ClearUnsignedSetup,
            }),
        ) == Ok::<Tables, Fault>(
            unsigned_setup_cleared(old(tables)@, round_key(round_id@, wallet_id@)),
        ),
{
}

/// Clearing what can be redone in a round is a request
/// on its round and does what the request says.
pub proof fn law_clear_recovery_state_is_a_request(
    tables: &mut VotingTables,
    round_id: &str,
    wallet_id: &str,
    done: Result<(), VotingError>,
)
    requires
        call_ensures(
            clear_recovery_state,
            (tables, round_id, wallet_id),
            done,
        ),
    ensures
        performed(
            done,
            Ok::<Tables, Fault>(
                recovery_cleared(old(tables)@, round_key(round_id@, wallet_id@)),
            ),
            old(tables)@,
            final(tables)@,
        ),
        outcome(
            old(tables)@,
            (Request {
                round_id: round_id@,
                wallet_id: wallet_id@,
                change: Change::ClearRecovery,
            }),
        ) == Ok::<Tables, Fault>(
            recovery_cleared(old(tables)@, round_key(round_id@, wallet_id@)),
        ),
{
}

/// Setting up a delegation is a request
/// on its round and does what the request says.
pub proof fn law_store_delegation_data_inner_is_a_request(
    tables: &mut VotingTables,
    round_id: &str,
    wallet_id: &str,
    bundle_index: u32,
    van_comm_rand: &[u8],
    dummy_nullifiers: &[Vec<u8>],
    rho_signed: &[u8],
    padded_cmx: &[Vec<u8>],
    nf_signed: &[u8],
    cmx_new: &[u8],
    alpha: &[u8],
    rseed_signed: &[u8],
    rseed_output: &[u8],
    gov_comm: &[u8],
    total_note_value: u64,
    address_index: u32,
    padded_note_secrets: &[(Vec<u8>, Vec<u8>)],
    pczt_sighash: &[u8],
    tx1_effects: Option<&[u8]>,
    effects_valid: Result<(), VotingError>,
    rk: Option<&[u8]>,
    gov_nullifiers: Option<&[Vec<u8>]>,
    done: Result<(), VotingError>,
)
    requires
        call_ensures(
            store_delegation_data_inner,
            (
                tables,
                round_id,
                wallet_id,
                bundle_index,
                van_comm_rand,
                dummy_nullifiers,
                rho_signed,
                padded_cmx,
                nf_signed,
                cmx_new,
                alpha,
                rseed_signed,
                rseed_output,
                gov_comm,
                total_note_value,
                address_index,
                padded_note_secrets,
                pczt_sighash,
                tx1_effects,
                effects_valid,
                rk,
                gov_nullifiers,
            ),
            done,
        ),
    ensures
        performed(
            done,
            store_delegation_outcome(
                old(tables)@,
                round_id@,
                wallet_id@,
                bundle_index,
                (DelegationSetup {
                    van_comm_rand: van_comm_rand@,
                    dummy_nullifiers: parts_of(dummy_nullifiers@),
                    rho_signed: rho_signed@,
                    padded_cmx: parts_of(padded_cmx@),
                    nf_signed: nf_signed@,
                    cmx_new: cmx_new@,
                    alpha: alpha@,
                    rseed_signed: rseed_signed@,
                    rseed_output: rseed_output@,
                    gov_comm: gov_comm@,
                    total_note_value,
                    address_index,
                    padded_note_secrets: secrets_of(padded_note_secrets@),
                    pczt_sighash: pczt_sighash@,
                    tx1_effects: optional_slice(tx1_effects),
                    rk: optional_slice(rk),
                    gov_nullifiers: optional_parts(gov_nullifiers),
                }),
                effects_valid,
            ),
            old(tables)@,
            final(tables)@,
        ),
        outcome(
            old(tables)@,
            (Request {
                round_id: round_id@,
                wallet_id: wallet_id@,
                change: Change::StoreDelegation {
                    bundle_index,
                    setup: DelegationSetup {
                        van_comm_rand: van_comm_rand@,
                        dummy_nullifiers: parts_of(dummy_nullifiers@),
                        rho_signed: rho_signed@,
                        padded_cmx: parts_of(padded_cmx@),
                        nf_signed: nf_signed@,
                        cmx_new: cmx_new@,
                        alpha: alpha@,
                        rseed_signed: rseed_signed@,
                        rseed_output: rseed_output@,
                        gov_comm: gov_comm@,
                        total_note_value,
                        address_index,
                        padded_note_secrets: secrets_of(padded_note_secrets@),
                        pczt_sighash: pczt_sighash@,
                        tx1_effects: optional_slice(tx1_effects),
                        rk: optional_slice(rk),
                        gov_nullifiers: optional_parts(gov_nullifiers),
                    },
                    effects_valid,
                },
            }),
        ) == store_delegation_outcome(
            old(tables)@,
            round_id@,
            wallet_id@,
            bundle_index,
            (DelegationSetup {
                van_comm_rand: van_comm_rand@,
                dummy_nullifiers: parts_of(dummy_nullifiers@),
                rho_signed: rho_signed@,
                padded_cmx: parts_of(padded_cmx@),
                nf_signed: nf_signed@,
                cmx_new: cmx_new@,
                alpha: alpha@,
                rseed_signed: rseed_signed@,
                rseed_output: rseed_output@,
                gov_comm: gov_comm@,
                total_note_value,
                address_index,
                padded_note_secrets: secrets_of(padded_note_secrets@),
                pczt_sighash: pczt_sighash@,
                tx1_effects: optional_slice(tx1_effects),
                rk: optional_slice(rk),
                gov_nullifiers: optional_parts(gov_nullifiers),
            }),
            effects_valid,
        ),
{
}

/// Setting up a delegation without its proof inputs is a request
/// on its round and does what the request says.
pub proof fn law_store_delegation_data_is_a_request(
    tables: &mut VotingTables,
    round_id: &str,
    wallet_id: &str,
    bundle_index: u32,
    van_comm_rand: &[u8],
    dummy_nullifiers: &[Vec<u8>],
    rho_signed: &[u8],
    padded_cmx: &[Vec<u8>],
    nf_signed: &[u8],
    cmx_new: &[u8],
    alpha: &[u8],
    rseed_signed: &[u8],
    rseed_output: &[u8],
    gov_comm: &[u8],
    total_note_value: u64,
    address_index: u32,
    padded_note_secrets: &[(Vec<u8>, Vec<u8>)],
    pczt_sighash: &[u8],
    tx1_effects: &[u8],
    effects_valid: Result<(), VotingError>,
    done: Result<(), VotingError>,
)
    requires
        call_ensures(
            store_delegation_data,
            (
                tables,
                round_id,
                wallet_id,
                bundle_index,
                van_comm_rand,
                dummy_nullifiers,
                rho_signed,
                padded_cmx,
                nf_signed,
                cmx_new,
                alpha,
                rseed_signed,
                rseed_output,
                gov_comm,
                total_note_value,
                address_index,
                padded_note_secrets,
                pczt_sighash,
                tx1_effects,
                effects_valid,
            ),
            done,
        ),
    ensures
        performed(
            done,
            store_delegation_outcome(
                old(tables)@,
                round_id@,
                wallet_id@,
                bundle_index,
                (DelegationSetup {
                    van_comm_rand: van_comm_rand@,
                    dummy_nullifiers: parts_of(dummy_nullifiers@),
                    rho_signed: rho_signed@,
                    padded_cmx: parts_of(padded_cmx@),
                    nf_signed: nf_signed@,
                    cmx_new: cmx_new@,
                    alpha: alpha@,
                    rseed_signed: rseed_signed@,
                    rseed_output: rseed_output@,
                    gov_comm: gov_comm@,
                    total_note_value,
                    address_index,
                    padded_note_secrets: secrets_of(padded_note_secrets@),
                    pczt_sighash: pczt_sighash@,
                    tx1_effects: Some(tx1_effects@),
                    rk: None,
                    gov_nullifiers: None,
                }),
                effects_valid,
            ),
            old(tables)@,
            final(tables)@,
        ),
        outcome(
            old(tables)@,
            (Request {
                round_id: round_id@,
                wallet_id: wallet_id@,
                change: Change::StoreDelegation {
                    bundle_index,
                    setup: DelegationSetup {
                        van_comm_rand: van_comm_rand@,
                        dummy_nullifiers: parts_of(dummy_nullifiers@),
                        rho_signed: rho_signed@,
                        padded_cmx: parts_of(padded_cmx@),
                        nf_signed: nf_signed@,
                        cmx_new: cmx_new@,
                        alpha: alpha@,
                        rseed_signed: rseed_signed@,
                        rseed_output: rseed_output@,
                        gov_comm: gov_comm@,
                        total_note_value,
                        address_index,
                        padded_note_secrets: secrets_of(padded_note_secrets@),
                        pczt_sighash: pczt_sighash@,
                        tx1_effects: Some(tx1_effects@),
                        rk: None,
                        gov_nullifiers: None,
                    },
                    effects_valid,
                },
            }),
        ) == store_delegation_outcome(
            old(tables)@,
            round_id@,
            wallet_id@,
            bundle_index,
            (DelegationSetup {
                van_comm_rand: van_comm_rand@,
                dummy_nullifiers: parts_of(dummy_nullifiers@),
                rho_signed: rho_signed@,
                padded_cmx: parts_of(padded_cmx@),
                nf_signed: nf_signed@,
                cmx_new: cmx_new@,
                alpha: alpha@,
                rseed_signed: rseed_signed@,
                rseed_output: rseed_output@,
                gov_comm: gov_comm@,
                total_note_value,
                address_index,
                padded_note_secrets: secrets_of(padded_note_secrets@),
                pczt_sighash: pczt_sighash@,
                tx1_effects: Some(tx1_effects@),
                rk: None,
                gov_nullifiers: None,
            }),
            effects_valid,
        ),
{
}

/// Setting up a delegation with its proof inputs is a request
/// on its round and does what the request says.
pub proof fn law_store_delegation_data_with_pczt_fields_is_a_request(
    tables: &mut VotingTables,
    round_id: &str,
    wallet_id: &str,
    bundle_index: u32,
    van_comm_rand: &[u8],
    dummy_nullifiers: &[Vec<u8>],
    rho_signed: &[u8],
    padded_cmx: &[Vec<u8>],
    nf_signed: &[u8],
    cmx_new: &[u8],
    alpha: &[u8],
    rseed_signed: &[u8],
    rseed_output: &[u8],
    gov_comm: &[u8],
    total_note_value: u64,
    address_index: u32,
    padded_note_secrets: &[(Vec<u8>, Vec<u8>)],
    pczt_sighash: &[u8],
    tx1_effects: &[u8],
    effects_valid: Result<(), VotingError>,
    rk: &[u8],
    gov_nullifiers: &[Vec<u8>],
    done: Result<(), VotingError>,
)
    requires
        call_ensures(
            store_delegation_data_with_pczt_fields,
            (
                tables,
                round_id,
                wallet_id,
                bundle_index,
                van_comm_rand,
                dummy_nullifiers,
                rho_signed,
                padded_cmx,
                nf_signed,
                cmx_new,
                alpha,
                rseed_signed,
                rseed_output,
                gov_comm,
                total_note_value,
                address_index,
                padded_note_secrets,
                pczt_sighash,
                tx1_effects,
                effects_valid,
                rk,
                gov_nullifiers,
            ),
            done,
        ),
    ensures
        performed(
            done,
            store_delegation_outcome(
                old(tables)@,
                round_id@,
                wallet_id@,
                bundle_index,
                (DelegationSetup {
                    van_comm_rand: van_comm_rand@,
                    dummy_nullifiers: parts_of(dummy_nullifiers@),
                    rho_signed: rho_signed@,
                    padded_cmx: parts_of(padded_cmx@),
                    nf_signed: nf_signed@,
                    cmx_new: cmx_new@,
                    alpha: alpha@,
                    rseed_signed: rseed_signed@,
                    rseed_output: rseed_output@,
                    gov_comm: gov_comm@,
                    total_note_value,
                    address_index,
                    padded_note_secrets: secrets_of(padded_note_secrets@),
                    pczt_sighash: pczt_sighash@,
                    tx1_effects: Some(tx1_effects@),
                    rk: Some(rk@),
                    gov_nullifiers: Some(parts_of(gov_nullifiers@)),
                }),
                effects_valid,
            ),
            old(tables)@,
            final(tables)@,
        ),
        outcome(
            old(tables)@,
            (Request {
                round_id: round_id@,
                wallet_id: wallet_id@,
                change: Change::StoreDelegation {
                    bundle_index,
                    setup: DelegationSetup {
                        van_comm_rand: van_comm_rand@,
                        dummy_nullifiers: parts_of(dummy_nullifiers@),
                        rho_signed: rho_signed@,
                        padded_cmx: parts_of(padded_cmx@),
                        nf_signed: nf_signed@,
                        cmx_new: cmx_new@,
                        alpha: alpha@,
                        rseed_signed: rseed_signed@,
                        rseed_output: rseed_output@,
                        gov_comm: gov_comm@,
                        total_note_value,
                        address_index,
                        padded_note_secrets: secrets_of(padded_note_secrets@),
                        pczt_sighash: pczt_sighash@,
                        tx1_effects: Some(tx1_effects@),
                        rk: Some(rk@),
                        gov_nullifiers: Some(parts_of(gov_nullifiers@)),
                    },
                    effects_valid,
                },
            }),
        ) == store_delegation_outcome(
            old(tables)@,
            round_id@,
            wallet_id@,
            bundle_index,
            (DelegationSetup {
                van_comm_rand: van_comm_rand@,
                dummy_nullifiers: parts_of(dummy_nullifiers@),
                rho_signed: rho_signed@,
                padded_cmx: parts_of(padded_cmx@),
                nf_signed: nf_signed@,
                cmx_new: cmx_new@,
                alpha: alpha@,
                rseed_signed: rseed_signed@,
                rseed_output: rseed_output@,
                gov_comm: gov_comm@,
                total_note_value,
                address_index,
                padded_note_secrets: secrets_of(padded_note_secrets@),
                pczt_sighash: pczt_sighash@,
                tx1_effects: Some(tx1_effects@),
                rk: Some(rk@),
                gov_nullifiers: Some(parts_of(gov_nullifiers@)),
            }),
            effects_valid,
        ),
{
}

} // verus!
