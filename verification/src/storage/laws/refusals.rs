//! What refusals say, and in which order reasons are checked.

use vstd::prelude::*;

use crate::bytes::{entries_of, joined, le_value};
use crate::storage::field::{
    pallas_modulus, stored_entries, stored_field, stored_fields, ImtProofModel,
};
use crate::storage::migrations::{migration_outcome, Migration};
use crate::storage::notes::{
    identities_of, note_identity, positions_of, stored_positions, stored_secrets,
};
use crate::storage::queries::bundles::{
    capability_confirmed_outcome, delete_bundles_outcome, first_difference, insert_bundle_outcome,
    is_least_index, least_index, note_positions_outcome, require_notes_outcome,
    store_van_position_outcome, unconfirmed_bundles, van_position_outcome,
};
use crate::storage::queries::confirmations::{
    store_tx_hash_outcome, tx_hash_outcome, van_tree_entry, zkp2_outcome, VanTreeModel, Zkp2Model,
};
use crate::storage::queries::delegation::{
    column_outcome, optional_secrets_outcome, secrets_outcome, store_delegation_outcome,
    store_proof_fields_outcome, store_secrets_outcome, stored_words, submission_outcome,
    DelegationSetup, ProofFields, SubmissionModel,
};
use crate::storage::queries::proofs::{
    imt_proof_outcome, store_imt_proof_outcome, store_proof_outcome, store_tree_state_outcome,
    tree_state_outcome,
};
use crate::storage::queries::recovery::store_keystone_outcome;
use crate::storage::queries::rounds::{
    advance_round_phase_outcome, insert_round_outcome, round_network_outcome, round_params_outcome,
    round_state_outcome, round_summary, update_round_phase_outcome,
};
use crate::storage::queries::shares::{
    add_servers_outcome, mark_confirmed_outcome, readable_shares, record_share_outcome,
    share_readable, share_record, share_records,
};
use crate::storage::queries::votes::{
    clear_stale_outcome, commitment_bundle_outcome, conflicting_bundles, intent_conflict_outcome,
    is_least, least, record_submission_outcome, store_vote_outcome, vote_tx_hash_outcome,
};
use crate::storage::queries::witnesses::{
    ascending, replace_witnesses_outcome, store_witnesses_outcome, stored_witness,
    witness_positions,
};
use crate::storage::rows::{
    BundleColumns, BundleKey, ImtKey, IntentKey, RoundKey, ShareKey, VoteKey, WitnessColumns,
    WitnessKey,
};
use crate::storage::tables::Tables;
use crate::storage::urls::strings_of_json;
use crate::storage::{RoundPhase, RoundStateModel, RoundSummaryModel};
use crate::text::{decimal, decimal_list};
use crate::types::{
    all_or_first, fault_text, law_all_or_first, Bytes, Fault, Network, NoteModel, RoundParamsModel,
    ShareModel, Text, VotingError, WitnessModel,
};

verus! {

/// What is said of a round that is stored twice, not stored, or stored with a
/// phase or a network that cannot be read.
pub proof fn law_round_refusals(
    tables: Tables,
    round_id: Text,
    wallet_id: Text,
    network: Network,
    params: RoundParamsModel,
    session_json: Option<Text>,
    now: i64,
    phase: RoundPhase,
)
    ensures
        ({
            let key = RoundKey { round_id, wallet_id };
            let stored = tables.rounds.contains_key(key);
            let row = tables.rounds[key];
            let unread = |reason: Text|
                Fault::InvalidInput("round not found: "@ + round_id + " ("@ + reason + ")"@);
            let known = row.network == "mainnet"@ || row.network == "testnet"@ || row.network
                == "regtest"@;
            let in_range = i32::MIN <= row.phase <= i32::MAX;
            &&& stored && params.vote_round_id == round_id ==> insert_round_outcome(
                tables,
                wallet_id,
                network,
                params,
                session_json,
                now,
            ) == Err::<Tables, Fault>(
                Fault::Internal(
                    "failed to insert round: "@ + (
                    "error returned from database: (code: 1555) UNIQUE constraint failed: "@
                        + "voting_rounds.round_id, voting_rounds.wallet_id"@),
                ),
            )
            &&& !stored ==> update_round_phase_outcome(tables, round_id, wallet_id, phase) == Err::<Tables, Fault>(
                Fault::InvalidInput("round not found: "@ + round_id),
            )
            &&& !stored ==> round_state_outcome(tables, round_id, wallet_id) == Err::<RoundStateModel, Fault>(
                unread("no rows returned by a query that expected to return at least one row"@),
            )
            &&& !stored ==> advance_round_phase_outcome(tables, round_id, wallet_id, phase) == Err::<Tables, Fault>(
                unread("no rows returned by a query that expected to return at least one row"@),
            )
            &&& !stored ==> round_params_outcome(tables, round_id, wallet_id) == Err::<(RoundParamsModel, Network), Fault>(
                unread("no rows returned by a query that expected to return at least one row"@),
            )
            &&& !stored ==> round_network_outcome(tables, round_id, wallet_id) == Err::<Network, Fault>(
                unread("no rows returned by a query that expected to return at least one row"@),
            )
            &&& stored && !in_range ==> round_state_outcome(tables, round_id, wallet_id) == Err::<RoundStateModel, Fault>(
                unread(
                    "error occurred while decoding column "@ + decimal(0)
                        + ": out of range integral type conversion attempted"@,
                ),
            )
            &&& stored && in_range && !known ==> round_state_outcome(tables, round_id, wallet_id) == Err::<RoundStateModel, Fault>(
                Fault::Internal("stored round network is invalid: "@ + row.network),
            )
            &&& stored && !known ==> round_params_outcome(tables, round_id, wallet_id) == Err::<(RoundParamsModel, Network), Fault>(
                Fault::Internal("stored round network is invalid: "@ + row.network),
            )
            &&& !in_range ==> round_summary(key, row) == Err::<RoundSummaryModel, Fault>(
                Fault::Internal(
                    "failed to list rounds: "@ + ("error occurred while decoding column "@ + decimal(2)
                        + ": out of range integral type conversion attempted"@),
                ),
            )
            &&& in_range && !known ==> round_summary(key, row) == Err::<RoundSummaryModel, Fault>(
                Fault::Internal(
                    "failed to list rounds: error occurred while decoding: "@ + (
                    "internal error: "@ + ("stored round network is invalid: "@ + row.network)),
                ),
            )
            &&& stored && known && phase.place() < row.phase <= 4 ==> advance_round_phase_outcome(
                tables,
                round_id,
                wallet_id,
                phase,
            ) == Err::<Tables, Fault>(
                Fault::InvalidInput(
                    "refusing to regress round phase for "@ + round_id + ": current="@ + decimal(
                        row.phase as int,
                    ) + ", requested="@ + decimal(phase.place() as int),
                ),
            )
            &&& stored && known && 4 < row.phase <= i32::MAX && phase.place() > 0
                ==> advance_round_phase_outcome(tables, round_id, wallet_id, phase) == Err::<Tables, Fault>(
                Fault::Internal(
                    "failed to advance round phase for "@ + round_id + ": current="@ + decimal(0)
                        + ", requested="@ + decimal(phase.place() as int),
                ),
            )
        }),
{
}

/// What is said of a bundle that is stored twice, in no round, or not stored.
pub proof fn law_bundle_refusals(
    tables: Tables,
    round_id: Text,
    wallet_id: Text,
    bundle_index: u32,
    bundle: BundleColumns,
    what: Text,
    column: spec_fn(BundleColumns) -> Option<Bytes>,
    position: u32,
    secrets: Seq<(Bytes, Bytes)>,
    notes: Seq<NoteModel>,
    tx_hash: Text,
)
    ensures
        ({
            let key = BundleKey {
                round: RoundKey { round_id, wallet_id },
                bundle_index: bundle_index as i64,
            };
            let stored = tables.bundles.contains_key(key);
            let missing = Fault::InvalidInput(
                    "bundle not found: round="@ + round_id + ", bundle="@ + decimal(
                        bundle_index as int,
                    ),
                );
            let unread = |what: Text|
                Fault::InvalidInput(
                    what + " round="@ + round_id + ", bundle="@ + decimal(bundle_index as int)
                        + " ("@ + "no rows returned by a query that expected to return at least one row"@ + ")"@,
                );
            let place = "round="@ + round_id + ", wallet="@ + wallet_id + ", bundle="@ + decimal(
                bundle_index as int,
            );
            &&& stored ==> insert_bundle_outcome(tables, round_id, wallet_id, bundle_index, bundle) == Err::<Tables, Fault>(
                Fault::Internal(
                    "failed to insert bundle: "@ + (
                    "error returned from database: (code: 1555) UNIQUE constraint failed: "@
                        + "voting_bundles.round_id, voting_bundles.wallet_id, voting_bundles.bundle_index"@),
                ),
            )
            &&& !stored && !tables.rounds.contains_key(key.round) ==> insert_bundle_outcome(
                tables,
                round_id,
                wallet_id,
                bundle_index,
                bundle,
            ) == Err::<Tables, Fault>(
                Fault::Internal("failed to insert bundle: "@ + "error returned from database: (code: 787) FOREIGN KEY constraint failed"@),
            )
            &&& !stored ==> store_van_position_outcome(tables, round_id, wallet_id, bundle_index, position)
                == Err::<Tables, Fault>(
                missing,
            )
            &&& !stored ==> store_secrets_outcome(tables, round_id, wallet_id, bundle_index, secrets)
                == Err::<Tables, Fault>(
                missing,
            )
            &&& !stored ==> column_outcome(tables, what, round_id, wallet_id, bundle_index, column)
                == Err::<Bytes, Fault>(
                unread(what),
            )
            &&& !stored ==> note_positions_outcome(tables, round_id, wallet_id, bundle_index) == Err::<Seq<u64>, Fault>(
                unread("bundle not found:"@),
            )
            &&& !stored ==> require_notes_outcome(tables, round_id, wallet_id, bundle_index, notes) == Err::<(), Fault>(
                unread("bundle not found:"@),
            )
            &&& !stored ==> van_position_outcome(tables, round_id, wallet_id, bundle_index) == Err::<u32, Fault>(
                unread("no van_leaf_position for"@),
            )
            &&& stored && tables.bundles[key].van_leaf_position is None ==> van_position_outcome(
                tables,
                round_id,
                wallet_id,
                bundle_index,
            ) == Err::<u32, Fault>(
                Fault::InvalidInput(
                    "van_leaf_position not yet set for round="@ + round_id + ", bundle="@ + decimal(
                        bundle_index as int,
                    ),
                ),
            )
            &&& !stored ==> optional_secrets_outcome(tables, round_id, wallet_id, bundle_index) == Err::<Option<Seq<(Bytes, Bytes)>>, Fault>(
                unread("no padded_note_secrets for"@),
            )
            &&& stored && tables.bundles[key].padded_note_secrets is None ==> secrets_outcome(
                tables,
                round_id,
                wallet_id,
                bundle_index,
            ) == Err::<Seq<(Bytes, Bytes)>, Fault>(
                Fault::InvalidInput(
                    "no padded_note_secrets for round="@ + round_id + ", bundle="@ + decimal(
                        bundle_index as int,
                    ),
                ),
            )
            &&& !stored || !tables.rounds.contains_key(key.round) ==> zkp2_outcome(
                tables,
                round_id,
                wallet_id,
                bundle_index,
            ) == Err::<Zkp2Model, Fault>(
                unread("failed to load ZKP2 inputs for"@),
            )
            &&& !stored || !tables.proofs.contains_key(key) || tables.proofs[key].success != 1
                ==> submission_outcome(tables, round_id, wallet_id, bundle_index) == Err::<SubmissionModel, Fault>(
                unread("failed to load delegation submission data for"@),
            )
            &&& !stored ==> store_tx_hash_outcome(tables, round_id, wallet_id, bundle_index, tx_hash)
                == Err::<Tables, Fault>(
                Fault::InvalidInput("no bundle found for "@ + place),
            )
            &&& stored && (tables.bundles[key].delegation_tx_hash matches Some(other) && other != tx_hash)
                ==> store_tx_hash_outcome(tables, round_id, wallet_id, bundle_index, tx_hash)
                == Err::<Tables, Fault>(
                Fault::InvalidInput("delegation tx hash already recorded for "@ + place),
            )
            &&& !stored ==> tx_hash_outcome(tables, key) == Err::<Option<Text>, Fault>(
                Fault::Internal("failed to get delegation tx hash: "@ + "no rows returned by a query that expected to return at least one row"@),
            )
        }),
{
}

/// What is said of a setup, the first of what stands against it: invalid TX1
/// effects, a missing bundle, other padding secrets, another sighash, other TX1
/// effects.
pub proof fn law_setup_refusals(
    tables: Tables,
    round_id: Text,
    wallet_id: Text,
    bundle_index: u32,
    setup: DelegationSetup,
    effects_valid: Result<(), VotingError>,
)
    ensures
        ({
            let key = BundleKey {
                round: RoundKey { round_id, wallet_id },
                bundle_index: bundle_index as i64,
            };
            let bundle = tables.bundles[key];
            let stored = tables.bundles.contains_key(key);
            let refused = |column: Text|
                Fault::InvalidInput(
                    "refusing to overwrite "@ + column + " for round="@ + round_id + ", bundle="@
                        + decimal(bundle_index as int),
                );
            let judged = setup.tx1_effects is Some && effects_valid is Err;
            let secrets = bundle.padded_note_secrets matches Some(blob) && blob != joined(
                setup.padded_note_secrets.map_values(
                    |secret: (Bytes, Bytes)| secret.0 + secret.1,
                ),
            );
            let sighash = bundle.pczt_sighash matches Some(bytes) && bytes != setup.pczt_sighash;
            let effects = bundle.tx1_effects is Some && setup.tx1_effects is Some
                && bundle.tx1_effects != setup.tx1_effects;
            let done = store_delegation_outcome(
                tables,
                round_id,
                wallet_id,
                bundle_index,
                setup,
                effects_valid,
            );
            &&& judged ==> done == Err::<Tables, Fault>(effects_valid->Err_0@)
            &&& !judged && !stored ==> done == Err::<Tables, Fault>(
                Fault::InvalidInput(
                    "bundle not found: round="@ + round_id + ", bundle="@ + decimal(
                        bundle_index as int,
                    ),
                ),
            )
            &&& !judged && stored && secrets ==> done == Err::<Tables, Fault>(
                refused("padded_note_secrets"@),
            )
            &&& !judged && stored && !secrets && sighash ==> done == Err::<Tables, Fault>(
                refused("pczt_sighash"@),
            )
            &&& !judged && stored && !secrets && !sighash && effects ==> done == Err::<Tables, Fault>(
                refused("tx1_effects"@),
            )
        }),
{
}

/// What is said of the public inputs of a proof, the first that differs.
pub proof fn law_proof_fields_refusals(
    tables: Tables,
    round_id: Text,
    wallet_id: Text,
    bundle_index: u32,
    fields: ProofFields,
)
    ensures
        ({
            let key = BundleKey {
                round: RoundKey { round_id, wallet_id },
                bundle_index: bundle_index as i64,
            };
            let bundle = tables.bundles[key];
            let stored = tables.bundles.contains_key(key);
            let mismatch = |field: Text|
                Fault::InvalidInput(
                    "delegation proof result "@ + field + " does not match stored PCZT data"@,
                );
            let rk = bundle.rk matches Some(bytes) && bytes != fields.rk;
            let nullifiers = bundle.gov_nullifiers_blob matches Some(bytes) && bytes != joined(
                fields.gov_nullifiers,
            );
            let nf = bundle.nf_signed matches Some(bytes) && bytes != fields.nf_signed;
            let cmx = bundle.cmx_new matches Some(bytes) && bytes != fields.cmx_new;
            let van = bundle.gov_comm is Some && fields.van_comm is Some && bundle.gov_comm
                != fields.van_comm;
            let done = store_proof_fields_outcome(
                tables,
                round_id,
                wallet_id,
                bundle_index,
                fields,
            );
            &&& !stored ==> done == Err::<Tables, Fault>(
                Fault::InvalidInput(
                    "bundle not found:"@ + " round="@ + round_id + ", bundle="@ + decimal(bundle_index as int)
                        + " ("@ + "no rows returned by a query that expected to return at least one row"@ + ")"@,
                ),
            )
            &&& stored && rk ==> done == Err::<Tables, Fault>(
                mismatch("rk"@),
            )
            &&& stored && !rk && nullifiers ==> done == Err::<Tables, Fault>(
                mismatch("gov_nullifiers"@),
            )
            &&& stored && !rk && !nullifiers && nf ==> done == Err::<Tables, Fault>(
                mismatch("nf_signed"@),
            )
            &&& stored && !rk && !nullifiers && !nf && cmx ==> done == Err::<Tables, Fault>(
                mismatch("cmx_new"@),
            )
            &&& stored && !rk && !nullifiers && !nf && !cmx && van ==> done == Err::<Tables, Fault>(
                mismatch("van_comm"@),
            )
        }),
{
}

/// What is said of caches, proofs and signatures without their round or bundle, and
/// of a tree state that is not there.
pub proof fn law_cache_refusals(
    tables: Tables,
    round_id: Text,
    wallet_id: Text,
    bundle_index: u32,
    height: u64,
    bytes: Bytes,
    proof: ImtProofModel,
    witnesses: Seq<WitnessModel>,
    now: i64,
    time: u64,
)
    ensures
        ({
            let key = BundleKey {
                round: RoundKey { round_id, wallet_id },
                bundle_index: bundle_index as i64,
            };
            let no_parent = "error returned from database: (code: 787) FOREIGN KEY constraint failed"@;
            let stored = tables.bundles.contains_key(key);
            &&& !tables.rounds.contains_key(key.round) ==> store_tree_state_outcome(
                tables,
                round_id,
                wallet_id,
                height,
                bytes,
            ) == Err::<Tables, Fault>(
                Fault::Internal("failed to store tree state: "@ + no_parent),
            )
            &&& !tables.tree_states.contains_key(key.round) ==> tree_state_outcome(
                tables,
                round_id,
                wallet_id,
            ) == Err::<Bytes, Fault>(
                Fault::InvalidInput(
                    "no cached tree state for round: "@ + round_id + " ("@ + "no rows returned by a query that expected to return at least one row"@ + ")"@,
                ),
            )
            &&& !stored && !tables.imt_proofs.contains_key(ImtKey { bundle: key, nullifier: bytes })
                ==> store_imt_proof_outcome(
                tables,
                round_id,
                wallet_id,
                bundle_index,
                bytes,
                proof,
                now,
            ) == Err::<Tables, Fault>(
                Fault::Internal(
                    "failed to store IMT proof for bundle "@ + decimal(bundle_index as int) + ": "@
                        + no_parent,
                ),
            )
            &&& !stored && !tables.proofs.contains_key(key) ==> store_proof_outcome(
                tables,
                round_id,
                wallet_id,
                bundle_index,
                bytes,
                now,
            ) == Err::<Tables, Fault>(
                Fault::Internal("failed to store proof: "@ + no_parent),
            )
            &&& !stored ==> store_keystone_outcome(
                tables,
                round_id,
                wallet_id,
                bundle_index,
                bytes,
                bytes,
                bytes,
                time,
            ) == Err::<Tables, Fault>(
                Fault::Internal("failed to store keystone signature: "@ + no_parent),
            )
            &&& !stored && witnesses.len() > 0 ==> store_witnesses_outcome(
                tables,
                round_id,
                wallet_id,
                bundle_index,
                witnesses,
                now,
            ) == Err::<Tables, Fault>(
                Fault::Internal(
                    "failed to store witness for position "@ + decimal(witnesses[0].position as int)
                        + ": "@ + no_parent,
                ),
            )
        }),
{
}

/// What is said of blobs that are not whole, and of bytes that are no field
/// element.
pub proof fn law_blob_refusals(
    blob: Bytes,
    name: Text,
    count: nat,
    key: WitnessKey,
    witness: WitnessColumns,
)
    ensures
        ({
            &&& blob.len() % 8 != 0 ==> stored_positions(blob) == Err::<Seq<u64>, Fault>(
                Fault::Internal(
                    "corrupt note_positions_blob: length "@ + decimal(blob.len() as int)
                        + " is not a multiple of 8"@,
                ),
            )
            &&& blob.len() % 64 != 0 ==> stored_secrets(blob) == Err::<Seq<(Bytes, Bytes)>, Fault>(
                Fault::Internal(
                    "corrupt padded_note_secrets blob: length "@ + decimal(blob.len() as int)
                        + " is not a multiple of 64"@,
                ),
            )
            &&& blob.len() % 32 != 0 ==> stored_words(blob, name) == Err::<Seq<Bytes>, Fault>(
                Fault::Internal(
                    "corrupt "@ + name + ": length "@ + decimal(blob.len() as int)
                        + " is not a multiple of 32"@,
                ),
            )
            &&& blob.len() != 32 ==> stored_field(blob, name) == Err::<Bytes, Fault>(
                Fault::Internal(
                    name + " must be 32 bytes, got "@ + decimal(blob.len() as int),
                ),
            )
            &&& blob.len() == 32 && le_value(blob) >= pallas_modulus() ==> stored_field(blob, name)
                == Err::<Bytes, Fault>(
                Fault::Internal(name + " is not a valid Pallas field element"@),
            )
            &&& blob.len() != count * 32 ==> stored_fields(blob, count, name) == Err::<Seq<Bytes>, Fault>(
                Fault::Internal(
                    name + " must be "@ + decimal((count * 32) as int) + " bytes, got "@ + decimal(
                        blob.len() as int,
                    ),
                ),
            )
            &&& witness.auth_path.len() != 1024 ==> stored_witness(key, witness) == Err::<WitnessModel, Fault>(
                Fault::Internal(
                    "corrupt auth_path blob for position "@ + decimal(
                        (key.note_position as u64) as int,
                    ) + ": expected 1024 bytes, got "@ + decimal(witness.auth_path.len() as int),
                ),
            )
        }),
{
}

/// What is said of votes: of one that would replace a submitted one, of one without
/// a bundle, and of one that is not there.
pub proof fn law_vote_refusals(
    tables: Tables,
    round_id: Text,
    wallet_id: Text,
    bundle_index: u32,
    proposal_id: u32,
    choice: u32,
    commitment: Bytes,
    now: i64,
)
    ensures
        ({
            let key = VoteKey {
                bundle: BundleKey {
                    round: RoundKey { round_id, wallet_id },
                    bundle_index: bundle_index as i64,
                },
                proposal_id: proposal_id as i64,
            };
            let place = "round="@ + round_id + ", wallet="@ + wallet_id + ", bundle="@ + decimal(
                bundle_index as int,
            ) + ", proposal="@ + decimal(proposal_id as int);
            let stored = tables.votes.contains_key(key);
            let vote = tables.votes[key];
            let same = stored && vote.choice == choice && vote.commitment == Some(commitment);
            let done = store_vote_outcome(
                tables,
                round_id,
                wallet_id,
                bundle_index,
                proposal_id,
                choice,
                commitment,
                now,
            );
            &&& stored && !same && vote.tx_hash is Some ==> done == Err::<Tables, Fault>(
                Fault::InvalidInput("cannot replace submitted vote for "@ + place),
            )
            &&& !same && !(stored && vote.tx_hash is Some) && !tables.bundles.contains_key(key.bundle)
                ==> done == Err::<Tables, Fault>(
                Fault::Internal("failed to store vote: "@ + "error returned from database: (code: 787) FOREIGN KEY constraint failed"@),
            )
            &&& !stored ==> vote_tx_hash_outcome(tables, key) == Err::<Option<Text>, Fault>(
                Fault::Internal("failed to get vote tx hash: "@ + "no rows returned by a query that expected to return at least one row"@),
            )
            &&& !stored ==> commitment_bundle_outcome(tables, key) == Err::<Option<(Text, u64)>, Fault>(
                Fault::Internal("failed to get commitment bundle: "@ + "no rows returned by a query that expected to return at least one row"@),
            )
            &&& stored && vote.commitment_bundle_json is Some && vote.vc_tree_position is None
                ==> commitment_bundle_outcome(tables, key) == Err::<Option<(Text, u64)>, Fault>(
                Fault::Internal(
                    "commitment bundle is stored without vc_tree_position; refusing to assume position 0"@,
                ),
            )
            &&& stored && vote.commitment_bundle_json is Some && (
            vote.vc_tree_position matches Some(position) && position < 0)
                ==> commitment_bundle_outcome(tables, key) == Err::<Option<(Text, u64)>, Fault>(
                Fault::Internal(
                    "stored vc_tree_position must be non-negative, got "@ + decimal(
                        vote.vc_tree_position->Some_0 as int,
                    ),
                ),
            )
        }),
{
}

/// What is said of submissions and shares that the voter has decided against, and
/// of those that cannot be recorded.
pub proof fn law_decision_refusals(
    tables: Tables,
    round_id: Text,
    wallet_id: Text,
    bundle_index: u32,
    proposal_id: u32,
    share_index: u32,
    tx_hash: Text,
    sent_to_urls: Seq<Text>,
    nullifier: Bytes,
    submit_at: u64,
    now: u64,
)
    ensures
        ({
            let key = VoteKey {
                bundle: BundleKey {
                    round: RoundKey { round_id, wallet_id },
                    bundle_index: bundle_index as i64,
                },
                proposal_id: proposal_id as i64,
            };
            let place = "round="@ + round_id + ", wallet="@ + wallet_id + ", bundle="@ + decimal(
                bundle_index as int,
            ) + ", proposal="@ + decimal(proposal_id as int);
            let share = ShareKey { vote: key, share_index: share_index as i64 };
            let decided = IntentKey { round: key.bundle.round, proposal_id: proposal_id as i64 };
            let known = tables.ballot_intents.contains_key(decided);
            let intent = tables.ballot_intents[decided];
            let stored = tables.votes.contains_key(key);
            let vote = tables.votes[key];
            let recorded = tables.share_delegations.contains_key(share);
            let no_choice = Fault::InvalidInput(
                "ballot intent choice missing for round="@ + round_id + ", wallet="@ + wallet_id
                    + ", proposal="@ + decimal(proposal_id as int),
            );
            let agrees = !known || (intent.skipped == 0 && stored && intent.choice == Some(
                vote.choice,
            ));
            let share_refused = if !known {
                None
            } else if intent.skipped != 0 {
                Some(
                    Fault::InvalidInput(
                        "cannot record share delegation for skipped proposal "@ + place,
                    ),
                )
            } else if intent.choice is None {
                Some(no_choice)
            } else if !agrees {
                Some(
                    Fault::InvalidInput("share delegation conflicts with ballot intent for "@ + place),
                )
            } else {
                None
            };
            let submitted = record_submission_outcome(
                tables,
                round_id,
                wallet_id,
                bundle_index,
                proposal_id,
                tx_hash,
            );
            let sent = record_share_outcome(
                tables,
                round_id,
                wallet_id,
                bundle_index,
                proposal_id,
                share_index,
                sent_to_urls,
                nullifier,
                submit_at,
                now,
            );
            let marked = mark_confirmed_outcome(
                tables,
                round_id,
                wallet_id,
                bundle_index,
                proposal_id,
                share_index,
            );
            let added = add_servers_outcome(
                tables,
                round_id,
                wallet_id,
                bundle_index,
                proposal_id,
                share_index,
                sent_to_urls,
            );
            &&& !stored ==> submitted == Err::<Tables, Fault>(
                Fault::InvalidInput("no vote found for "@ + place),
            )
            &&& known && stored && intent.skipped != 0 ==> submitted == Err::<Tables, Fault>(
                Fault::InvalidInput("cannot record vote submission for skipped proposal "@ + place),
            )
            &&& known && stored && intent.skipped == 0 && intent.choice is None ==> submitted == Err::<
                Tables,
                Fault,
            >(no_choice)
            &&& known && stored && intent.skipped == 0 && intent.choice is Some && intent.choice != Some(
                vote.choice,
            ) ==> submitted == Err::<Tables, Fault>(
                Fault::InvalidInput("vote submission conflicts with ballot intent for "@ + place),
            )
            &&& agrees && stored && (vote.tx_hash matches Some(other) && other != tx_hash) ==> submitted
                == Err::<Tables, Fault>(
                Fault::InvalidInput("vote tx hash already recorded for "@ + place),
            )
            &&& share_refused matches Some(fault) ==> sent == Err::<Tables, Fault>(fault) && marked
                == Err::<Tables, Fault>(fault) && added == Err::<Tables, Fault>(fault)
            &&& agrees && recorded && tables.share_delegations[share].nullifier != nullifier ==> sent
                == Err::<Tables, Fault>(
                Fault::InvalidInput(
                    "share nullifier conflict for "@ + place + ", share="@ + decimal(
                        share_index as int,
                    ),
                ),
            )
            &&& agrees && !recorded && !tables.bundles.contains_key(key.bundle) ==> sent == Err::<Tables, Fault>(
                Fault::Internal("failed to record share delegation: "@ + "error returned from database: (code: 787) FOREIGN KEY constraint failed"@),
            )
            &&& agrees && !recorded ==> marked == Err::<Tables, Fault>(
                Fault::Internal(
                    "no share delegation found: round="@ + round_id + ", bundle="@ + decimal(
                        bundle_index as int,
                    ) + ", proposal="@ + decimal(proposal_id as int) + ", share="@ + decimal(
                        share_index as int,
                    ),
                ),
            )
            &&& agrees && !recorded ==> added == Err::<Tables, Fault>(
                Fault::Internal("failed to read sent_to_urls for update: "@ + "no rows returned by a query that expected to return at least one row"@),
            )
            &&& agrees && recorded && (strings_of_json(
                tables.share_delegations[share].sent_to_urls,
            ) matches Err(reason)) ==> added == Err::<Tables, Fault>(
                Fault::Internal(
                    "failed to deserialize sent_to_urls: "@ + strings_of_json(
                        tables.share_delegations[share].sent_to_urls,
                    )->Err_0,
                ),
            )
        }),
{
}

/// A round that waits for its delegations names the first bundle, by index,
/// that has no VAN leaf position.
pub proof fn law_waiting_round_names_first_bundle(
    tables: Tables,
    round_id: Text,
    wallet_id: Text,
    imported: BundleKey,
    first: BundleKey,
)
    requires
        tables.bundles.contains_key(imported),
        imported.round == (RoundKey { round_id, wallet_id }),
        tables.bundles[imported].note_positions_blob is None,
        tables.bundles.contains_key(first),
        first.round == (RoundKey { round_id, wallet_id }),
        tables.bundles[first].van_leaf_position is None,
        forall|key: BundleKey| #[trigger]
            tables.bundles.contains_key(key) && key.round == (RoundKey { round_id, wallet_id })
                && tables.bundles[key].van_leaf_position is None ==> first.bundle_index
                <= key.bundle_index,
    ensures
        capability_confirmed_outcome(tables, round_id, wallet_id) == Err::<(), Fault>(
            Fault::InvalidInput(
                "imported capability round "@ + round_id
                    + " cannot create votes until every delegation is confirmed; bundle "@
                    + decimal(first.bundle_index as int) + " is still unconfirmed"@,
            ),
        ),
        forall|from_index: u32| #[trigger]
            delete_bundles_outcome(tables, round_id, wallet_id, from_index) == Err::<
                (Tables, u64),
                Fault,
            >(
                Fault::InvalidInput(
                    "imported capability round "@ + round_id
                        + " cannot delete bundles independently; clear the round before importing a complete replacement capability"@,
                ),
            ),
{
    let round = RoundKey { round_id, wallet_id };
    let pending = unconfirmed_bundles(tables, round);
    assert(pending.contains(first));
    assert(is_least_index(first.bundle_index, pending));
    let named = least_index(pending);
    assert(is_least_index(named, pending));
    let other = choose|key: BundleKey| #[trigger]
        pending.contains(key) && key.bundle_index == named;
    assert(tables.bundles.contains_key(other));
}

/// A decision against a submitted vote is refused with the first bundle, by
/// index, that has submitted such a vote.
pub proof fn law_conflicting_intent_names_first_bundle(
    tables: Tables,
    round_id: Text,
    wallet_id: Text,
    proposal_id: u32,
    skipped: bool,
    choice: Option<u32>,
    first: VoteKey,
)
    requires
        ({
            let against = |key: VoteKey|
                {
                    &&& tables.votes.contains_key(key)
                    &&& key.bundle.round == (RoundKey { round_id, wallet_id })
                    &&& key.proposal_id == proposal_id
                    &&& tables.votes[key].tx_hash is Some
                    &&& skipped || (choice is Some && tables.votes[key].choice != choice->Some_0)
                };
            &&& against(first)
            &&& forall|key: VoteKey| #[trigger]
                tables.votes.contains_key(key) && against(key) ==> first.bundle.bundle_index
                    <= key.bundle.bundle_index
        }),
    ensures
        intent_conflict_outcome(tables, round_id, wallet_id, proposal_id, skipped, choice) == Err::<
            (),
            Fault,
        >(
            Fault::InvalidInput(
                "round "@ + round_id + " bundle "@ + decimal(first.bundle.bundle_index as int)
                    + " proposal "@ + decimal(proposal_id as int)
                    + " has a submitted vote that conflicts with ballot intent"@,
            ),
        ),
{
    let round = RoundKey { round_id, wallet_id };
    let bundles = conflicting_bundles(tables, round, proposal_id, skipped, choice);
    let vote_of = |index: i64|
        VoteKey {
            bundle: BundleKey { round, bundle_index: index },
            proposal_id: proposal_id as i64,
        };
    assert(first == vote_of(first.bundle.bundle_index));
    assert(bundles.contains(first.bundle.bundle_index));
    assert forall|index: i64| #[trigger] bundles.contains(index) implies first.bundle.bundle_index
        <= index by {
        assert(tables.votes.contains_key(vote_of(index)));
    }
    assert(is_least(first.bundle.bundle_index, bundles));
    assert(is_least(least(bundles), bundles));
}

/// Notes that are refused are refused for the first of these reasons: other
/// positions, identities that are not whole, another number of identities, and
/// the first identity that differs.
pub proof fn law_note_refusals(
    tables: Tables,
    round_id: Text,
    wallet_id: Text,
    bundle_index: u32,
    notes: Seq<NoteModel>,
    first: int,
)
    requires
        note_positions_outcome(tables, round_id, wallet_id, bundle_index) is Ok,
    ensures
        ({
            let key = BundleKey {
                round: RoundKey { round_id, wallet_id },
                bundle_index: bundle_index as i64,
            };
            let positions = note_positions_outcome(
                tables,
                round_id,
                wallet_id,
                bundle_index,
            )->Ok_0;
            let requested = notes.map_values(|note: NoteModel| note.position);
            let identities = tables.bundles[key].note_identity_hashes_blob;
            let blob = identities->Some_0;
            let index = "bundle_index "@ + decimal(bundle_index as int);
            let done = require_notes_outcome(tables, round_id, wallet_id, bundle_index, notes);
            &&& positions != requested ==> done == Err::<(), Fault>(
                Fault::InvalidInput(
                    index + " notes do not match persisted setup: stored positions "@
                        + decimal_list(positions) + ", requested positions "@ + decimal_list(
                        requested,
                    ),
                ),
            )
            &&& positions == requested && identities is Some && blob.len() % 32 != 0 ==> done
                == Err::<(), Fault>(
                Fault::Internal(
                    "corrupt note_identity_hashes_blob: length "@ + decimal(blob.len() as int)
                        + " is not a multiple of 32"@,
                ),
            )
            &&& positions == requested && identities is Some && blob.len() % 32 == 0 && blob.len()
                / 32 != notes.len() ==> done == Err::<(), Fault>(
                Fault::InvalidInput(
                    index + " note identity count mismatch: stored "@ + decimal(
                        (blob.len() / 32) as int,
                    ) + ", requested "@ + decimal(notes.len() as int),
                ),
            )
            &&& positions == requested && identities is Some && blob.len() == 32 * notes.len() && 0
                <= first < notes.len() && blob.subrange(32 * first, 32 * first + 32)
                != note_identity(notes[first]) && (forall|i: int|
                0 <= i < first ==> blob.subrange(32 * i, 32 * i + 32) == note_identity(
                    #[trigger] notes[i],
                )) ==> done == Err::<(), Fault>(
                Fault::InvalidInput(
                    index + " note identity mismatch at index "@ + decimal(first),
                ),
            )
        }),
{
    let key = BundleKey {
                round: RoundKey { round_id, wallet_id },
                bundle_index: bundle_index as i64,
            };
    assert(positions_of(notes) =~= notes.map_values(|note: NoteModel| note.position));
    if let Some(blob) = tables.bundles[key].note_identity_hashes_blob {
        let stored = entries_of(blob, 32);
        let hashes = identities_of(notes);
        if blob.len() == 32 * notes.len() && 0 <= first < notes.len() && blob.subrange(
            32 * first,
            32 * first + 32,
        ) != note_identity(notes[first]) && (forall|i: int|
            0 <= i < first ==> blob.subrange(32 * i, 32 * i + 32) == note_identity(
                #[trigger] notes[i],
            )) {
            assert forall|i: int| 0 <= i < first implies stored[i] == hashes[i] by {
                assert(blob.subrange(32 * i, 32 * i + 32) == note_identity(notes[i]));
                assert(hashes[i] == note_identity(notes[i]));
            }
            assert(hashes[first] == note_identity(notes[first]));
            assert(stored[first] != hashes[first]);
            lemma_first_difference(stored, hashes, 0, first);
        }
    }
}

proof fn lemma_first_difference(a: Seq<Bytes>, b: Seq<Bytes>, from: int, first: int)
    requires
        0 <= from <= first < a.len(),
        forall|i: int| from <= i < first ==> a[i] == b[i],
        a[first] != b[first],
    ensures
        first_difference(a, b, from) == first,
    decreases first - from,
{
    if from < first {
        assert(a[from] == b[from]);
        lemma_first_difference(a, b, from + 1, first);
    }
}

/// Witnesses at other positions than those of the notes are refused with both
/// lists in ascending order.
pub proof fn law_witness_refusals(
    tables: Tables,
    round_id: Text,
    wallet_id: Text,
    bundle_index: u32,
    witnesses: Seq<WitnessModel>,
    now: i64,
    expected: Seq<u64>,
    actual: Seq<u64>,
)
    requires
        note_positions_outcome(tables, round_id, wallet_id, bundle_index) is Ok,
        expected.to_multiset() == note_positions_outcome(
            tables,
            round_id,
            wallet_id,
            bundle_index,
        )->Ok_0.to_multiset(),
        forall|i: int, j: int| 0 <= i < j < expected.len() ==> expected[i] <= expected[j],
        actual.to_multiset() == witnesses.map_values(
            |witness: WitnessModel| witness.position,
        ).to_multiset(),
        forall|i: int, j: int| 0 <= i < j < actual.len() ==> actual[i] <= actual[j],
        expected != actual,
    ensures
        replace_witnesses_outcome(tables, round_id, wallet_id, bundle_index, witnesses, now)
            == Err::<Tables, Fault>(
            Fault::InvalidInput(
                "witness positions do not match bundle note positions for round="@ + round_id
                    + ", bundle="@ + decimal(bundle_index as int) + ": expected "@ + decimal_list(
                    expected,
                ) + ", got "@ + decimal_list(actual),
            ),
        ),
{
    let positions = note_positions_outcome(tables, round_id, wallet_id, bundle_index)->Ok_0;
    let requested = witness_positions(witnesses);
    assert(requested =~= witnesses.map_values(|witness: WitnessModel| witness.position));
    let le = |a: u64, b: u64| a <= b;
    assert(vstd::relations::total_ordering(le));
    positions.lemma_sort_by_ensures(le);
    requested.lemma_sort_by_ensures(le);
    assert(vstd::relations::sorted_by(expected, le));
    assert(vstd::relations::sorted_by(actual, le));
    vstd::seq_lib::lemma_sorted_unique(expected, ascending(positions), le);
    vstd::seq_lib::lemma_sorted_unique(actual, ascending(requested), le);
}

/// A confirmed bundle that cannot be listed for vote tree sync is refused for
/// the first of these reasons: its index, its position, a missing commitment,
/// and a commitment that is no field element.
pub proof fn law_van_entry_refusals(tables: Tables, key: BundleKey)
    requires
        tables.bundles[key].van_leaf_position is Some,
    ensures
        ({
            let bundle = tables.bundles[key];
            let index = 0 <= key.bundle_index <= u32::MAX;
            let position = 0 <= bundle.van_leaf_position->Some_0 <= u32::MAX;
            let shown = decimal(key.bundle_index as int);
            let submitted = exists|vote: VoteKey| #[trigger]
                tables.votes.contains_key(vote) && vote.bundle == key
                    && tables.votes[vote].tx_hash is Some;
            let entry = van_tree_entry(tables, key);
            &&& !index ==> entry == Err::<VanTreeModel, Fault>(
                Fault::Internal("stored VAN bundle index does not fit in u32"@),
            )
            &&& index && !position ==> entry == Err::<VanTreeModel, Fault>(
                Fault::Internal(
                    "stored VAN position for bundle "@ + shown + " does not fit in u32"@,
                ),
            )
            &&& index && position && !submitted && bundle.gov_comm is None ==> entry == Err::<
                VanTreeModel,
                Fault,
            >(
                Fault::Internal(
                    "confirmed delegation bundle "@ + shown + " is missing its VAN commitment"@,
                ),
            )
            &&& index && position && !submitted && bundle.gov_comm is Some && entry is Err
                ==> entry == Err::<VanTreeModel, Fault>(
                stored_field(
                    bundle.gov_comm->Some_0,
                    "bundle "@ + shown + " VAN commitment"@,
                )->Err_0,
            )
        }),
{
}

/// A cached proof that cannot be read is refused for the first part of it that
/// cannot: its root, its bounds, its leaf position, its path.
pub proof fn law_imt_proof_refusals(tables: Tables, key: ImtKey)
    requires
        tables.imt_proofs.contains_key(key),
    ensures
        ({
            let row = tables.imt_proofs[key];
            let root = stored_field(row.root, "imt_proof.root"@);
            let bounds = stored_fields(row.nf_bounds, 3, "imt_proof.nf_bounds"@);
            let leaf = 0 <= row.leaf_pos <= u32::MAX;
            let path = stored_fields(row.path, 29, "imt_proof.path"@);
            let read = imt_proof_outcome(tables, key, row.root);
            &&& root is Err ==> read == Err::<Option<ImtProofModel>, Fault>(root->Err_0)
            &&& root is Ok && bounds is Err ==> read == Err::<Option<ImtProofModel>, Fault>(
                bounds->Err_0,
            )
            &&& root is Ok && bounds is Ok && !leaf ==> read == Err::<
                Option<ImtProofModel>,
                Fault,
            >(Fault::Internal("invalid IMT proof leaf_pos "@ + decimal(row.leaf_pos as int)))
            &&& root is Ok && bounds is Ok && leaf && path is Err ==> read == Err::<
                Option<ImtProofModel>,
                Fault,
            >(path->Err_0)
        }),
{
}

/// A field element of a list that cannot be read is reported by its name and
/// its place, the first one first.
pub proof fn law_field_entry_refusals(blob: Bytes, count: nat, name: Text, first: int)
    requires
        blob.len() == count * 32,
        0 <= first < count,
        le_value(entries_of(blob, 32)[first]) >= pallas_modulus(),
        forall|i: int|
            0 <= i < first ==> le_value(#[trigger] entries_of(blob, 32)[i]) < pallas_modulus(),
    ensures
        stored_fields(blob, count, name) == Err::<Seq<Bytes>, Fault>(
            Fault::Internal(
                name + "["@ + decimal(first) + "]"@ + " is not a valid Pallas field element"@,
            ),
        ),
{
    let entries = entries_of(blob, 32);
    let items = stored_entries(entries, name);
    law_all_or_first(items);
    assert(items[first] is Err);
    match all_or_first(items) {
        Ok(values) => {
            assert(items[first] == Ok::<Bytes, Fault>(values[first]));
        },
        Err(fault) => {
            let i = choose|i: int|
                0 <= i < items.len() && (#[trigger] items[i]) == Err::<Bytes, Fault>(fault)
                    && forall|j: int| 0 <= j < i ==> (#[trigger] items[j]) is Ok;
            if i < first {
                assert(le_value(entries[i]) < pallas_modulus());
            }
            if first < i {
                assert(items[first] is Ok);
            }
        },
    }
}

/// Shares that cannot be listed are refused for the first row whose numbers do
/// not fit, and for the first list of servers only if all of them do.
pub proof fn law_share_listing_refusals(tables: Tables, key: ShareKey, keys: Seq<ShareKey>)
    ensures
        ({
            let row = tables.share_delegations[key];
            let unread = |column: int|
                Err::<(), Fault>(
                    Fault::Internal(
                        "failed to query share delegations: "@ + (
                        "error occurred while decoding column "@ + decimal(column)
                            + ": out of range integral type conversion attempted"@),
                    ),
                );
            let confirmed = i32::MIN <= row.confirmed <= i32::MAX;
            let bundle = 0 <= key.vote.bundle.bundle_index <= u32::MAX;
            let proposal = 0 <= key.vote.proposal_id <= u32::MAX;
            let share = 0 <= key.share_index <= u32::MAX;
            let read = share_readable(key, row);
            &&& !confirmed ==> read == unread(5)
            &&& confirmed && !bundle ==> read == unread(0)
            &&& confirmed && bundle && !proposal ==> read == unread(1)
            &&& confirmed && bundle && proposal && !share ==> read == unread(2)
            &&& confirmed && bundle && proposal && share && row.submit_at < 0 ==> read == unread(6)
            &&& confirmed && bundle && proposal && share && row.submit_at >= 0 && row.created_at < 0
                ==> read == unread(7)
            &&& strings_of_json(row.sent_to_urls) matches Err(reason) ==> share_record(key, row)
                == Err::<ShareModel, Fault>(
                Fault::Internal("failed to deserialize sent_to_urls: "@ + reason),
            )
            &&& all_or_first(readable_shares(keys, tables)) matches Err(fault) ==> share_records(
                keys,
                tables,
            ) == Err::<Seq<ShareModel>, Fault>(fault)
            &&& readable_shares(keys, tables).len() == keys.len()
            &&& forall|i: int|
                0 <= i < keys.len() ==> #[trigger] readable_shares(keys, tables)[i]
                    == share_readable(keys[i], tables.share_delegations[keys[i]])
        }),
{
}

/// A request to clear the shares of a proposal with a choice says that it names
/// an unknown column, and a newer schema is named with the newest known one.
pub proof fn law_other_refusals(
    tables: Tables,
    round_id: Text,
    wallet_id: Text,
    proposal_id: u32,
    choice: u32,
    version: u32,
)
    ensures
        clear_stale_outcome(tables, round_id, wallet_id, proposal_id, false, Some(choice)) == Err::<
            (Tables, u64),
            Fault,
        >(
            Fault::Internal(
                "failed to clear stale share delegations: "@ + (
                "error returned from database: (code: 1) no such column: "@ + "votes.round_id"@),
            ),
        ),
        version > 13 ==> migration_outcome(Some(version as i64)) == Err::<Migration, Fault>(
            Fault::Internal(
                "unsupported newer voting schema version: expected at most "@ + decimal(13)
                    + ", got "@ + decimal(version as int),
            ),
        ),
{
}

/// Errors are shown with their kind before their message.
pub proof fn law_errors_are_shown(message: Text)
    ensures
        fault_text(Fault::InvalidInput(message)) == "invalid input: "@ + message,
        fault_text(Fault::Internal(message)) == "internal error: "@ + message,
{
}

} // verus!
