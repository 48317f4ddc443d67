//! The operations on voting state.
//!
//! Each one reads or changes [`VotingTables`](crate::storage::tables::VotingTables)
//! for one wallet. An operation that is refused changes nothing.

pub mod bundles;
pub mod confirmations;
pub mod delegation;
pub mod proofs;
pub mod recovery;
pub mod rounds;
pub mod shares;
pub mod votes;
pub mod witnesses;

pub use bundles::{
    delete_bundles_from, get_bundle_count, insert_bundle, insert_bundle_notes,
    load_bundle_note_positions, load_van_position, require_bundle_notes,
    require_capability_delegations_confirmed, store_van_position,
};
pub use confirmations::{
    get_delegation_tx_hash, load_van_tree_entries, load_zkp2_inputs, proposals_fit,
    store_delegation_tx_hash, VanTreeEntry, Zkp2DelegationData,
};
pub use delegation::{
    load_alpha, load_cmx_new, load_delegation_submission_data, load_dummy_nullifiers,
    load_nf_signed, load_padded_cmx, load_padded_note_secrets, load_padded_note_secrets_optional,
    load_pczt_sighash, load_rho_signed, load_rseed_output, load_rseed_signed, load_tx1_effects,
    load_van_comm_rand, store_delegation_data, store_delegation_data_inner,
    store_delegation_data_with_pczt_fields,
    store_padded_note_secrets_if_absent, store_proof_result_fields,
    store_proof_result_fields_with_van_comm, stored_tx1_effects, DelegationDbFields,
};
pub use proofs::{load_imt_proof, load_tree_state, store_imt_proof, store_proof, store_tree_state};
pub use recovery::{
    clear_recovery_state, clear_unsigned_delegation_setup_fields, get_keystone_signatures,
    store_keystone_signature,
};
pub use rounds::{
    advance_round_phase, clear_round, get_round_state, has_round, insert_round, list_rounds,
    load_round_network, load_round_params, load_round_params_with_network, network_from_storage,
    network_to_storage, update_round_phase,
};
pub use shares::{
    add_sent_servers, get_share_delegations, get_unconfirmed_delegations, mark_share_confirmed,
    record_share_delegation,
};
pub use votes::{
    clear_stale_share_delegations_for_intent, ensure_no_submitted_vote_conflict_for_intent,
    get_commitment_bundle, get_commitment_bundle_recovery, get_vote_tx_hash, get_votes,
    record_vote_submission, store_vote,
};
pub use witnesses::{
    has_witnesses, load_witnesses, replace_bundle_witnesses, store_witnesses, witness_count,
};
