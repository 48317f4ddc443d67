//! What each operation changes, column by column, and when it is refused.

use vstd::prelude::*;

use super::{law_other_rounds_unchanged, outcome, Request};
use crate::bytes::joined;
use crate::storage::field::ImtProofModel;
use crate::storage::queries::bundles::{
    bundles_from, delete_bundles_outcome, insert_bundle_outcome, new_bundle,
    store_van_position_outcome,
};
use crate::storage::queries::confirmations::store_tx_hash_outcome;
use crate::storage::queries::delegation::{
    store_delegation_outcome, store_proof_fields_outcome, store_secrets_outcome, DelegationSetup,
    ProofFields,
};
use crate::storage::queries::proofs::{
    store_imt_proof_outcome, store_proof_outcome, store_tree_state_outcome,
};
use crate::storage::queries::recovery::{recovery_cleared, store_keystone_outcome};
use crate::storage::queries::rounds::{
    advance_round_phase_outcome, insert_round_outcome, update_round_phase_outcome, without_round,
};
use crate::storage::queries::shares::{
    add_servers_outcome, mark_confirmed_outcome, record_share_outcome, with_new_urls,
};
use crate::storage::queries::votes::{clear_stale_outcome, proposal_shares, store_vote_outcome};
use crate::storage::rows::{
    BundleColumns, BundleKey, ImtColumns, ImtKey, IntentKey, KeystoneColumns, ProofColumns,
    RoundColumns, RoundKey, ShareColumns, ShareKey, TreeStateColumns, VoteColumns, VoteKey,
    WitnessKey,
};
use crate::storage::tables::Tables;
use crate::storage::urls::{json_of_strings, strings_of_json};
use crate::storage::RoundPhase;
use crate::types::{Bytes, Fault, Network, RoundParamsModel, Text, VotingError};

verus! {

/// A round is stored once, in its first phase, with what it was given; nothing
/// else changes.
pub proof fn law_round_is_stored_once(
    tables: Tables,
    wallet_id: Text,
    network: Network,
    params: RoundParamsModel,
    session_json: Option<Text>,
    now: i64,
)
    ensures
        ({
            let key = RoundKey { round_id: params.vote_round_id, wallet_id };
            let done = insert_round_outcome(tables, wallet_id, network, params, session_json, now);
            &&& done is Ok <==> !tables.rounds.contains_key(key)
            &&& done is Err ==> (done matches Err(Fault::Internal(_)))
            &&& done matches Ok(next) ==> {
                &&& next == (Tables { rounds: next.rounds, ..tables })
                &&& next.rounds.remove(key) == tables.rounds.remove(key)
                &&& next.rounds.contains_key(key)
                &&& next.rounds[key] == (RoundColumns {
                    network: match network {
                        Network::Mainnet => "mainnet"@,
                        Network::Testnet => "testnet"@,
                        Network::Regtest => "regtest"@,
                    },
                    snapshot_height: params.snapshot_height as i64,
                    ea_pk: params.ea_pk,
                    nc_root: params.nc_root,
                    nullifier_imt_root: params.nullifier_imt_root,
                    session_json,
                    phase: 0,
                    created_at: now,
                })
            }
        }),
{
    let key = RoundKey { round_id: params.vote_round_id, wallet_id };
    if let Ok(next) = insert_round_outcome(tables, wallet_id, network, params, session_json, now) {
        assert(next.rounds.remove(key) =~= tables.rounds.remove(key));
    }
}

/// Any phase can be set on a round that is stored; nothing else changes.
pub proof fn law_phase_is_set(
    tables: Tables,
    round_id: Text,
    wallet_id: Text,
    phase: RoundPhase,
)
    ensures
        ({
            let key = RoundKey { round_id, wallet_id };
            let place: i64 = match phase {
                RoundPhase::Initialized => 0,
                RoundPhase::HotkeyGenerated => 1,
                RoundPhase::DelegationConstructed => 2,
                RoundPhase::DelegationProved => 3,
                RoundPhase::VoteReady => 4,
            };
            let done = update_round_phase_outcome(tables, round_id, wallet_id, phase);
            &&& done is Ok <==> tables.rounds.contains_key(key)
            &&& done is Err ==> (done matches Err(Fault::InvalidInput(_)))
            &&& done matches Ok(next) ==> {
                &&& next == (Tables { rounds: next.rounds, ..tables })
                &&& next.rounds.remove(key) == tables.rounds.remove(key)
                &&& next.rounds.contains_key(key)
                &&& next.rounds[key] == (RoundColumns { phase: place, ..tables.rounds[key] })
            }
        }),
{
    let key = RoundKey { round_id, wallet_id };
    if let Ok(next) = update_round_phase_outcome(tables, round_id, wallet_id, phase) {
        assert(next.rounds.remove(key) =~= tables.rounds.remove(key));
    }
}

/// A new bundle is stored in a round that is stored, once, with its notes and
/// with nothing of a delegation; nothing else changes.
pub proof fn law_bundle_is_stored_once(
    tables: Tables,
    round_id: Text,
    wallet_id: Text,
    bundle_index: u32,
    positions: Bytes,
    identities: Option<Bytes>,
)
    ensures
        ({
            let key = BundleKey {
                round: RoundKey { round_id, wallet_id },
                bundle_index: bundle_index as i64,
            };
            let done = insert_bundle_outcome(tables, round_id, wallet_id, bundle_index, new_bundle(positions, identities));
            &&& done is Ok <==> !tables.bundles.contains_key(key) && tables.rounds.contains_key(key.round)
            &&& done is Err ==> (done matches Err(Fault::Internal(_)))
            &&& done matches Ok(next) ==> {
                &&& next == (Tables { bundles: next.bundles, ..tables })
                &&& next.bundles.remove(key) == tables.bundles.remove(key)
                &&& next.bundles.contains_key(key)
                &&& next.bundles[key] == (BundleColumns {
                    note_positions_blob: Some(positions),
                    note_identity_hashes_blob: identities,
                    van_comm_rand: None,
                    dummy_nullifiers: None,
                    rho_signed: None,
                    padded_note_data: None,
                    nf_signed: None,
                    cmx_new: None,
                    alpha: None,
                    rseed_signed: None,
                    rseed_output: None,
                    gov_comm: None,
                    total_note_value: None,
                    address_index: None,
                    rk: None,
                    gov_nullifiers_blob: None,
                    padded_note_secrets: None,
                    pczt_sighash: None,
                    tx1_effects: None,
                    van_leaf_position: None,
                    delegation_tx_hash: None,
                })
            }
        }),
{
    let key = BundleKey {
                round: RoundKey { round_id, wallet_id },
                bundle_index: bundle_index as i64,
            };
    if let Ok(next) = insert_bundle_outcome(tables, round_id, wallet_id, bundle_index, new_bundle(positions, identities)) {
        assert(next.bundles.remove(key) =~= tables.bundles.remove(key));
    }
}

/// The VAN leaf position of a stored bundle is set, and nothing else changes.
pub proof fn law_van_position_is_set(
    tables: Tables,
    round_id: Text,
    wallet_id: Text,
    bundle_index: u32,
    position: u32,
)
    ensures
        ({
            let key = BundleKey {
                round: RoundKey { round_id, wallet_id },
                bundle_index: bundle_index as i64,
            };
            let done = store_van_position_outcome(tables, round_id, wallet_id, bundle_index, position);
            &&& done is Ok <==> tables.bundles.contains_key(key)
            &&& done is Err ==> (done matches Err(Fault::InvalidInput(_)))
            &&& done matches Ok(next) ==> {
                &&& next == (Tables { bundles: next.bundles, ..tables })
                &&& next.bundles.remove(key) == tables.bundles.remove(key)
                &&& next.bundles.contains_key(key)
                &&& next.bundles[key] == (BundleColumns {
                    van_leaf_position: Some(position as i64),
                    ..tables.bundles[key]
                })
            }
        }),
{
    let key = BundleKey {
                round: RoundKey { round_id, wallet_id },
                bundle_index: bundle_index as i64,
            };
    if let Ok(next) = store_van_position_outcome(tables, round_id, wallet_id, bundle_index, position) {
        assert(next.bundles.remove(key) =~= tables.bundles.remove(key));
    }
}

/// The transaction of the delegation of a stored bundle is recorded unless
/// another one is, and nothing else changes.
pub proof fn law_delegation_tx_hash_is_set(
    tables: Tables,
    round_id: Text,
    wallet_id: Text,
    bundle_index: u32,
    tx_hash: Text,
)
    ensures
        ({
            let key = BundleKey {
                round: RoundKey { round_id, wallet_id },
                bundle_index: bundle_index as i64,
            };
            let done = store_tx_hash_outcome(tables, round_id, wallet_id, bundle_index, tx_hash);
            &&& done is Ok <==> tables.bundles.contains_key(key) && (
            tables.bundles[key].delegation_tx_hash matches Some(stored) ==> stored == tx_hash)
            &&& done is Err ==> (done matches Err(Fault::InvalidInput(_)))
            &&& done matches Ok(next) ==> {
                &&& next == (Tables { bundles: next.bundles, ..tables })
                &&& next.bundles.remove(key) == tables.bundles.remove(key)
                &&& next.bundles.contains_key(key)
                &&& next.bundles[key] == (BundleColumns {
                    delegation_tx_hash: Some(tx_hash),
                    ..tables.bundles[key]
                })
            }
        }),
{
    let key = BundleKey {
                round: RoundKey { round_id, wallet_id },
                bundle_index: bundle_index as i64,
            };
    if let Ok(next) = store_tx_hash_outcome(tables, round_id, wallet_id, bundle_index, tx_hash) {
        assert(next.bundles.remove(key) =~= tables.bundles.remove(key));
    }
}

/// Padding secrets go into a stored bundle that has none, each `rho` followed by
/// its `rseed`; those of a bundle that has some stay, and nothing else changes.
pub proof fn law_secrets_are_set_once(
    tables: Tables,
    round_id: Text,
    wallet_id: Text,
    bundle_index: u32,
    secrets: Seq<(Bytes, Bytes)>,
)
    ensures
        ({
            let key = BundleKey {
                round: RoundKey { round_id, wallet_id },
                bundle_index: bundle_index as i64,
            };
            let done = store_secrets_outcome(tables, round_id, wallet_id, bundle_index, secrets);
            &&& done is Ok <==> tables.bundles.contains_key(key)
            &&& done is Err ==> (done matches Err(Fault::InvalidInput(_)))
            &&& done matches Ok(next) ==> {
                &&& next == (Tables { bundles: next.bundles, ..tables })
                &&& next.bundles.remove(key) == tables.bundles.remove(key)
                &&& next.bundles.contains_key(key)
                &&& next.bundles[key] == (BundleColumns {
                    padded_note_secrets: match tables.bundles[key].padded_note_secrets {
                        Some(stored) => Some(stored),
                        None => Some(
                            joined(
                                secrets.map_values(|secret: (Bytes, Bytes)| secret.0 + secret.1),
                            ),
                        ),
                    },
                    ..tables.bundles[key]
                })
            }
        }),
{
    let key = BundleKey {
                round: RoundKey { round_id, wallet_id },
                bundle_index: bundle_index as i64,
            };
    if let Ok(next) = store_secrets_outcome(tables, round_id, wallet_id, bundle_index, secrets) {
        assert(next.bundles.remove(key) =~= tables.bundles.remove(key));
    }
}

/// A delegation is set up in a stored bundle whose padding secrets, sighash and
/// TX1 effects are not others, with TX1 effects that are valid if there are any.
/// The new values are stored, what was first stays first where the rule says so,
/// and nothing else changes.
pub proof fn law_delegation_is_set_up(
    tables: Tables,
    round_id: Text,
    wallet_id: Text,
    bundle_index: u32,
    setup: DelegationSetup,
    effects_valid: Result<(), VotingError>,
)
    ensures
        ({
            let key = BundleKey {
                round: RoundKey { round_id, wallet_id },
                bundle_index: bundle_index as i64,
            };
            let bundle = tables.bundles[key];
            let secrets = joined(
                setup.padded_note_secrets.map_values(
                    |secret: (Bytes, Bytes)| secret.0 + secret.1,
                ),
            );
            let done = store_delegation_outcome(tables, round_id, wallet_id, bundle_index, setup, effects_valid);
            &&& done is Ok <==> {
                &&& setup.tx1_effects is Some ==> effects_valid is Ok
                &&& tables.bundles.contains_key(key)
                &&& bundle.padded_note_secrets matches Some(stored) ==> stored == secrets
                &&& bundle.pczt_sighash matches Some(stored) ==> stored == setup.pczt_sighash
                &&& bundle.tx1_effects is Some && setup.tx1_effects is Some ==> bundle.tx1_effects
                    == setup.tx1_effects
            }
            &&& done matches Ok(next) ==> {
                &&& next == (Tables { bundles: next.bundles, ..tables })
                &&& next.bundles.remove(key) == tables.bundles.remove(key)
                &&& next.bundles.contains_key(key)
                &&& next.bundles[key] == (BundleColumns {
                    van_comm_rand: Some(setup.van_comm_rand),
                    dummy_nullifiers: Some(joined(setup.dummy_nullifiers)),
                    rho_signed: Some(setup.rho_signed),
                    padded_note_data: Some(joined(setup.padded_cmx)),
                    nf_signed: Some(setup.nf_signed),
                    cmx_new: Some(setup.cmx_new),
                    alpha: Some(setup.alpha),
                    rseed_signed: Some(setup.rseed_signed),
                    rseed_output: Some(setup.rseed_output),
                    gov_comm: Some(setup.gov_comm),
                    total_note_value: Some(setup.total_note_value as i64),
                    address_index: Some(setup.address_index as i64),
                    padded_note_secrets: Some(secrets),
                    pczt_sighash: Some(setup.pczt_sighash),
                    tx1_effects: if bundle.tx1_effects is Some {
                        bundle.tx1_effects
                    } else {
                        setup.tx1_effects
                    },
                    rk: if setup.rk is Some {
                        setup.rk
                    } else {
                        bundle.rk
                    },
                    gov_nullifiers_blob: match setup.gov_nullifiers {
                        Some(list) => Some(joined(list)),
                        None => bundle.gov_nullifiers_blob,
                    },
                    ..bundle
                })
            }
            &&& setup.tx1_effects is Some ==> (effects_valid matches Err(error) ==> done
                == Err::<Tables, Fault>(error@))
            &&& (setup.tx1_effects is None || effects_valid is Ok) && done is Err ==> (
            done matches Err(Fault::InvalidInput(_)))
        }),
{
    let key = BundleKey {
                round: RoundKey { round_id, wallet_id },
                bundle_index: bundle_index as i64,
            };
    if let Ok(next) = store_delegation_outcome(tables, round_id, wallet_id, bundle_index, setup, effects_valid) {
        assert(next.bundles.remove(key) =~= tables.bundles.remove(key));
    }
}

/// The public inputs of a proof are stored in a stored bundle that holds no others,
/// and nothing else changes.
pub proof fn law_proof_fields_are_stored(
    tables: Tables,
    round_id: Text,
    wallet_id: Text,
    bundle_index: u32,
    fields: ProofFields,
)
    ensures
        ({
            let key = BundleKey {
                round: RoundKey { round_id, wallet_id },
                bundle_index: bundle_index as i64,
            };
            let bundle = tables.bundles[key];
            let done = store_proof_fields_outcome(tables, round_id, wallet_id, bundle_index, fields);
            &&& done is Ok <==> {
                &&& tables.bundles.contains_key(key)
                &&& bundle.rk matches Some(stored) ==> stored == fields.rk
                &&& bundle.gov_nullifiers_blob matches Some(stored) ==> stored == joined(
                    fields.gov_nullifiers,
                )
                &&& bundle.nf_signed matches Some(stored) ==> stored == fields.nf_signed
                &&& bundle.cmx_new matches Some(stored) ==> stored == fields.cmx_new
                &&& bundle.gov_comm is Some && fields.van_comm is Some ==> bundle.gov_comm
                    == fields.van_comm
            }
            &&& done is Err ==> (done matches Err(Fault::InvalidInput(_)))
            &&& done matches Ok(next) ==> {
                &&& next == (Tables { bundles: next.bundles, ..tables })
                &&& next.bundles.remove(key) == tables.bundles.remove(key)
                &&& next.bundles.contains_key(key)
                &&& next.bundles[key] == (BundleColumns {
                    rk: Some(fields.rk),
                    gov_nullifiers_blob: Some(joined(fields.gov_nullifiers)),
                    nf_signed: Some(fields.nf_signed),
                    cmx_new: Some(fields.cmx_new),
                    ..bundle
                })
            }
        }),
{
    let key = BundleKey {
                round: RoundKey { round_id, wallet_id },
                bundle_index: bundle_index as i64,
            };
    if let Ok(next) = store_proof_fields_outcome(tables, round_id, wallet_id, bundle_index, fields) {
        assert(next.bundles.remove(key) =~= tables.bundles.remove(key));
    }
}

/// The tree state of a stored round is cached, and nothing else changes.
pub proof fn law_tree_state_is_cached(
    tables: Tables,
    round_id: Text,
    wallet_id: Text,
    snapshot_height: u64,
    tree_state: Bytes,
)
    ensures
        ({
            let key = RoundKey { round_id, wallet_id };
            let done = store_tree_state_outcome(tables, round_id, wallet_id, snapshot_height, tree_state);
            &&& done is Ok <==> tables.rounds.contains_key(key)
            &&& done is Err ==> (done matches Err(Fault::Internal(_)))
            &&& done matches Ok(next) ==> {
                &&& next == (Tables { tree_states: next.tree_states, ..tables })
                &&& next.tree_states.remove(key) == tables.tree_states.remove(key)
                &&& next.tree_states.contains_key(key)
                &&& next.tree_states[key] == (TreeStateColumns {
                    snapshot_height: snapshot_height as i64,
                    tree_state,
                })
            }
        }),
{
    let key = RoundKey { round_id, wallet_id };
    if let Ok(next) = store_tree_state_outcome(tables, round_id, wallet_id, snapshot_height, tree_state) {
        assert(next.tree_states.remove(key) =~= tables.tree_states.remove(key));
    }
}

/// A non-membership proof is cached for its nullifier and its bundle, field by
/// field, and nothing else changes.
pub proof fn law_imt_proof_is_cached(
    tables: Tables,
    round_id: Text,
    wallet_id: Text,
    bundle_index: u32,
    nullifier: Bytes,
    proof: ImtProofModel,
    now: i64,
)
    ensures
        ({
            let key = ImtKey {
                bundle: BundleKey {
                    round: RoundKey { round_id, wallet_id },
                    bundle_index: bundle_index as i64,
                },
                nullifier,
            };
            let done = store_imt_proof_outcome(tables, round_id, wallet_id, bundle_index, nullifier, proof, now);
            &&& done is Ok <==> tables.imt_proofs.contains_key(key) || tables.bundles.contains_key(key.bundle)
            &&& done is Err ==> (done matches Err(Fault::Internal(_)))
            &&& done matches Ok(next) ==> {
                &&& next == (Tables { imt_proofs: next.imt_proofs, ..tables })
                &&& next.imt_proofs.remove(key) == tables.imt_proofs.remove(key)
                &&& next.imt_proofs.contains_key(key)
                &&& next.imt_proofs[key] == (ImtColumns {
                    root: proof.root,
                    nf_bounds: joined(proof.nf_bounds),
                    leaf_pos: proof.leaf_pos as i64,
                    path: joined(proof.path),
                    created_at: now,
                })
            }
        }),
{
    let key = ImtKey {
                bundle: BundleKey {
                    round: RoundKey { round_id, wallet_id },
                    bundle_index: bundle_index as i64,
                },
                nullifier,
            };
    if let Ok(next) = store_imt_proof_outcome(tables, round_id, wallet_id, bundle_index, nullifier, proof, now) {
        assert(next.imt_proofs.remove(key) =~= tables.imt_proofs.remove(key));
    }
}

/// The delegation proof of a bundle is stored as a successful one, with the time
/// of the first one, and nothing else changes.
pub proof fn law_proof_is_stored(
    tables: Tables,
    round_id: Text,
    wallet_id: Text,
    bundle_index: u32,
    proof: Bytes,
    now: i64,
)
    ensures
        ({
            let key = BundleKey {
                round: RoundKey { round_id, wallet_id },
                bundle_index: bundle_index as i64,
            };
            let done = store_proof_outcome(tables, round_id, wallet_id, bundle_index, proof, now);
            &&& done is Ok <==> tables.proofs.contains_key(key) || tables.bundles.contains_key(key)
            &&& done is Err ==> (done matches Err(Fault::Internal(_)))
            &&& done matches Ok(next) ==> {
                &&& next == (Tables { proofs: next.proofs, ..tables })
                &&& next.proofs.remove(key) == tables.proofs.remove(key)
                &&& next.proofs.contains_key(key)
                &&& next.proofs[key] == (ProofColumns {
                    proof,
                    success: 1,
                    created_at: if tables.proofs.contains_key(key) {
                        tables.proofs[key].created_at
                    } else {
                        now
                    },
                })
            }
        }),
{
    let key = BundleKey {
                round: RoundKey { round_id, wallet_id },
                bundle_index: bundle_index as i64,
            };
    if let Ok(next) = store_proof_outcome(tables, round_id, wallet_id, bundle_index, proof, now) {
        assert(next.proofs.remove(key) =~= tables.proofs.remove(key));
    }
}

/// The Keystone signature of a stored bundle is stored, in place of any before,
/// and nothing else changes.
pub proof fn law_signature_is_stored(
    tables: Tables,
    round_id: Text,
    wallet_id: Text,
    bundle_index: u32,
    sig: Bytes,
    sighash: Bytes,
    rk: Bytes,
    now: u64,
)
    ensures
        ({
            let key = BundleKey {
                round: RoundKey { round_id, wallet_id },
                bundle_index: bundle_index as i64,
            };
            let done = store_keystone_outcome(tables, round_id, wallet_id, bundle_index, sig, sighash, rk, now);
            &&& done is Ok <==> tables.bundles.contains_key(key)
            &&& done is Err ==> (done matches Err(Fault::Internal(_)))
            &&& done matches Ok(next) ==> {
                &&& next == (Tables { keystone_signatures: next.keystone_signatures, ..tables })
                &&& next.keystone_signatures.remove(key) == tables.keystone_signatures.remove(key)
                &&& next.keystone_signatures.contains_key(key)
                &&& next.keystone_signatures[key] == (KeystoneColumns { sig, sighash, rk, created_at: now as i64 })
            }
        }),
{
    let key = BundleKey {
                round: RoundKey { round_id, wallet_id },
                bundle_index: bundle_index as i64,
            };
    if let Ok(next) = store_keystone_outcome(tables, round_id, wallet_id, bundle_index, sig, sighash, rk, now) {
        assert(next.keystone_signatures.remove(key) =~= tables.keystone_signatures.remove(key));
    }
}

/// A share is recorded exactly if the voter has not decided against its vote, it
/// has no other nullifier, and its bundle is stored. A new share is not
/// confirmed; a known one keeps its confirmation and its time. Nothing else
/// changes.
pub proof fn law_share_is_recorded(
    tables: Tables,
    round_id: Text,
    wallet_id: Text,
    bundle_index: u32,
    proposal_id: u32,
    share_index: u32,
    sent_to_urls: Seq<Text>,
    nullifier: Bytes,
    submit_at: u64,
    now: u64,
)
    ensures
        ({
            let key = ShareKey {
                vote: VoteKey {
                    bundle: BundleKey {
                        round: RoundKey { round_id, wallet_id },
                        bundle_index: bundle_index as i64,
                    },
                    proposal_id: proposal_id as i64,
                },
                share_index: share_index as i64,
            };
            let round = RoundKey { round_id, wallet_id };
            let decided = IntentKey { round, proposal_id: proposal_id as i64 };
            let intent = tables.ballot_intents[decided];
            let fits = tables.ballot_intents.contains_key(decided) ==> intent.skipped == 0
                && tables.votes.contains_key(key.vote) && intent.choice == Some(
                tables.votes[key.vote].choice,
            );
            let known = tables.share_delegations.contains_key(key);
            let done = record_share_outcome(
                tables,
                round_id,
                wallet_id,
                bundle_index,
                proposal_id,
                share_index,
                sent_to_urls,
                nullifier,
                submit_at,
                now,
            );
            &&& done is Ok <==> fits && if known {
                tables.share_delegations[key].nullifier == nullifier
            } else {
                tables.bundles.contains_key(key.vote.bundle)
            }
            &&& done matches Ok(next) ==> {
                &&& next == (Tables { share_delegations: next.share_delegations, ..tables })
                &&& next.share_delegations.remove(key) == tables.share_delegations.remove(key)
                &&& next.share_delegations.contains_key(key)
                &&& next.share_delegations[key] == (ShareColumns {
                    sent_to_urls: json_of_strings(sent_to_urls),
                    nullifier,
                    confirmed: if known {
                        tables.share_delegations[key].confirmed
                    } else {
                        0
                    },
                    submit_at: submit_at as i64,
                    created_at: if known {
                        tables.share_delegations[key].created_at
                    } else {
                        now as i64
                    },
                })
            }
            &&& !fits || known ==> done is Err ==> (done matches Err(Fault::InvalidInput(_)))
        }),
{
    let key = ShareKey {
                vote: VoteKey {
                    bundle: BundleKey {
                        round: RoundKey { round_id, wallet_id },
                        bundle_index: bundle_index as i64,
                    },
                    proposal_id: proposal_id as i64,
                },
                share_index: share_index as i64,
            };
    if let Ok(next) = record_share_outcome(
                tables,
                round_id,
                wallet_id,
                bundle_index,
                proposal_id,
                share_index,
                sent_to_urls,
                nullifier,
                submit_at,
                now,
            ) {
        assert(next.share_delegations.remove(key) =~= tables.share_delegations.remove(key));
    }
}

/// A share is marked as confirmed exactly if it is recorded and the voter has not
/// decided against its vote; nothing else changes.
pub proof fn law_share_is_confirmed(
    tables: Tables,
    round_id: Text,
    wallet_id: Text,
    bundle_index: u32,
    proposal_id: u32,
    share_index: u32,
)
    ensures
        ({
            let key = ShareKey {
                vote: VoteKey {
                    bundle: BundleKey {
                        round: RoundKey { round_id, wallet_id },
                        bundle_index: bundle_index as i64,
                    },
                    proposal_id: proposal_id as i64,
                },
                share_index: share_index as i64,
            };
            let round = RoundKey { round_id, wallet_id };
            let decided = IntentKey { round, proposal_id: proposal_id as i64 };
            let intent = tables.ballot_intents[decided];
            let fits = tables.ballot_intents.contains_key(decided) ==> intent.skipped == 0
                && tables.votes.contains_key(key.vote) && intent.choice == Some(
                tables.votes[key.vote].choice,
            );
            let done = mark_confirmed_outcome(tables, round_id, wallet_id, bundle_index, proposal_id, share_index);
            &&& done is Ok <==> fits && tables.share_delegations.contains_key(key)
            &&& done matches Ok(next) ==> {
                &&& next == (Tables { share_delegations: next.share_delegations, ..tables })
                &&& next.share_delegations.remove(key) == tables.share_delegations.remove(key)
                &&& next.share_delegations.contains_key(key)
                &&& next.share_delegations[key] == (ShareColumns {
                    confirmed: 1,
                    ..tables.share_delegations[key]
                })
            }
            &&& !fits ==> (done matches Err(Fault::InvalidInput(_)))
        }),
{
    let key = ShareKey {
                vote: VoteKey {
                    bundle: BundleKey {
                        round: RoundKey { round_id, wallet_id },
                        bundle_index: bundle_index as i64,
                    },
                    proposal_id: proposal_id as i64,
                },
                share_index: share_index as i64,
            };
    if let Ok(next) = mark_confirmed_outcome(tables, round_id, wallet_id, bundle_index, proposal_id, share_index) {
        assert(next.share_delegations.remove(key) =~= tables.share_delegations.remove(key));
    }
}

/// Servers are added to a share exactly if it is recorded with a list that can be
/// read and the voter has not decided against its vote. The list is that of
/// before, behind it the new servers that it does not have yet, and the share
/// is due at once; nothing else changes.
pub proof fn law_servers_are_added(
    tables: Tables,
    round_id: Text,
    wallet_id: Text,
    bundle_index: u32,
    proposal_id: u32,
    share_index: u32,
    new_urls: Seq<Text>,
)
    ensures
        ({
            let key = ShareKey {
                vote: VoteKey {
                    bundle: BundleKey {
                        round: RoundKey { round_id, wallet_id },
                        bundle_index: bundle_index as i64,
                    },
                    proposal_id: proposal_id as i64,
                },
                share_index: share_index as i64,
            };
            let round = RoundKey { round_id, wallet_id };
            let decided = IntentKey { round, proposal_id: proposal_id as i64 };
            let intent = tables.ballot_intents[decided];
            let fits = tables.ballot_intents.contains_key(decided) ==> intent.skipped == 0
                && tables.votes.contains_key(key.vote) && intent.choice == Some(
                tables.votes[key.vote].choice,
            );
            let done = add_servers_outcome(
                tables,
                round_id,
                wallet_id,
                bundle_index,
                proposal_id,
                share_index,
                new_urls,
            );
            &&& done is Ok <==> fits && tables.share_delegations.contains_key(key) && strings_of_json(
                tables.share_delegations[key].sent_to_urls,
            ) is Ok
            &&& done matches Ok(next) ==> {
                &&& next == (Tables { share_delegations: next.share_delegations, ..tables })
                &&& next.share_delegations.remove(key) == tables.share_delegations.remove(key)
                &&& next.share_delegations.contains_key(key)
                &&& next.share_delegations[key] == (ShareColumns {
                    sent_to_urls: json_of_strings(
                        with_new_urls(
                            strings_of_json(tables.share_delegations[key].sent_to_urls)->Ok_0,
                            new_urls,
                        ),
                    ),
                    submit_at: 0,
                    ..tables.share_delegations[key]
                })
            }
            &&& !fits ==> (done matches Err(Fault::InvalidInput(_)))
        }),
{
    let key = ShareKey {
                vote: VoteKey {
                    bundle: BundleKey {
                        round: RoundKey { round_id, wallet_id },
                        bundle_index: bundle_index as i64,
                    },
                    proposal_id: proposal_id as i64,
                },
                share_index: share_index as i64,
            };
    if let Ok(next) = add_servers_outcome(
                tables,
                round_id,
                wallet_id,
                bundle_index,
                proposal_id,
                share_index,
                new_urls,
            ) {
        assert(next.share_delegations.remove(key) =~= tables.share_delegations.remove(key));
    }
}

/// A vote is stored exactly if its bundle is stored and no other vote has been
/// submitted in its place. It has its choice and its commitment and is not
/// submitted or confirmed, the same vote stays as it is, and shares of another
/// vote that it replaces go. Nothing else changes.
pub proof fn law_vote_is_stored(
    tables: Tables,
    round_id: Text,
    wallet_id: Text,
    bundle_index: u32,
    proposal_id: u32,
    choice: u32,
    commitment: Bytes,
    now: i64,
)
    ensures
        ({
            let key = VoteKey {
                bundle: BundleKey {
                    round: RoundKey { round_id, wallet_id },
                    bundle_index: bundle_index as i64,
                },
                proposal_id: proposal_id as i64,
            };
            let known = tables.votes.contains_key(key);
            let vote = tables.votes[key];
            let same = known && vote.choice == choice && vote.commitment == Some(commitment);
            let done = store_vote_outcome(
                tables,
                round_id,
                wallet_id,
                bundle_index,
                proposal_id,
                choice,
                commitment,
                now,
            );
            &&& done is Ok <==> same || (tables.bundles.contains_key(key.bundle) && (known
                ==> vote.tx_hash is None))
            &&& known && vote.tx_hash is Some && done is Err ==> (
            done matches Err(Fault::InvalidInput(_)))
            &&& !(known && vote.tx_hash is Some) && done is Err ==> (
            done matches Err(Fault::Internal(_)))
            &&& same ==> done == Ok::<Tables, Fault>(tables)
            &&& !same ==> (done matches Ok(next) ==> {
                &&& next == (Tables {
                    votes: next.votes,
                    share_delegations: next.share_delegations,
                    ..tables
                })
                &&& next.votes.remove(key) == tables.votes.remove(key)
                &&& next.votes.contains_key(key)
                &&& next.votes[key] == (VoteColumns {
                    choice: choice as i64,
                    commitment: Some(commitment),
                    tx_hash: None,
                    commitment_bundle_json: None,
                    vc_tree_position: None,
                    created_at: now,
                })
                &&& forall|share: ShareKey| #[trigger]
                    next.share_delegations.contains_key(share)
                        <==> tables.share_delegations.contains_key(share) && !(known && share.vote
                        == key)
                &&& forall|share: ShareKey| #[trigger]
                    next.share_delegations.contains_key(share) ==> next.share_delegations[share]
                        == tables.share_delegations[share]
            })
        }),
{
    let key = VoteKey {
                bundle: BundleKey {
                    round: RoundKey { round_id, wallet_id },
                    bundle_index: bundle_index as i64,
                },
                proposal_id: proposal_id as i64,
            };
    if let Ok(next) = store_vote_outcome(
        tables,
        round_id,
        wallet_id,
        bundle_index,
        proposal_id,
        choice,
        commitment,
        now,
    ) {
        assert(next.votes.remove(key) =~= tables.votes.remove(key));
    }
}

/// A round moves to a later phase, or stays in the phase it is in if its network
/// can be read. A stored number above the last phase is read as the first one.
/// All other requests are refused, and nothing else changes.
pub proof fn law_phase_advances(
    tables: Tables,
    round_id: Text,
    wallet_id: Text,
    phase: RoundPhase,
)
    ensures
        ({
            let key = RoundKey { round_id, wallet_id };
            let row = tables.rounds[key];
            let readable = row.network == "mainnet"@ || row.network == "testnet"@ || row.network
                == "regtest"@;
            let place: i64 = match phase {
                RoundPhase::Initialized => 0,
                RoundPhase::HotkeyGenerated => 1,
                RoundPhase::DelegationConstructed => 2,
                RoundPhase::DelegationProved => 3,
                RoundPhase::VoteReady => 4,
            };
            let done = advance_round_phase_outcome(tables, round_id, wallet_id, phase);
            &&& done is Ok <==> tables.rounds.contains_key(key) && (row.phase < place || (readable
                && (row.phase == place || (place == 0 && 4 < row.phase <= i32::MAX))))
            &&& !tables.rounds.contains_key(key) ==> (done matches Err(Fault::InvalidInput(_)))
            &&& tables.rounds.contains_key(key) && readable && place < row.phase <= 4 ==> (
            done matches Err(Fault::InvalidInput(_)))
            &&& done matches Ok(next) ==> if row.phase < place {
                &&& next == (Tables { rounds: next.rounds, ..tables })
                &&& next.rounds.remove(key) == tables.rounds.remove(key)
                &&& next.rounds.contains_key(key)
                &&& next.rounds[key] == (RoundColumns { phase: place, ..row })
            } else {
                next == tables
            }
        }),
{
    let key = RoundKey { round_id, wallet_id };
    if let Ok(next) = advance_round_phase_outcome(tables, round_id, wallet_id, phase) {
        assert(next.rounds.remove(key) =~= tables.rounds.remove(key));
    }
}

/// Clearing a round takes the rows of the round from every table, and leaves
/// all others as they are.
pub proof fn law_round_is_cleared(tables: Tables, round: RoundKey)
    ensures
        ({
            let next = without_round(tables, round);
            let gone = |key: RoundKey| key == round;
            &&& forall|key: RoundKey| #[trigger]
                next.rounds.contains_key(key) <==> tables.rounds.contains_key(key) && !gone(key)
            &&& forall|key: RoundKey| #[trigger]
                next.rounds.contains_key(key) ==> next.rounds[key] == tables.rounds[key]
            &&& forall|key: RoundKey| #[trigger]
                next.tree_states.contains_key(key) <==> tables.tree_states.contains_key(key) && !gone(key)
            &&& forall|key: RoundKey| #[trigger]
                next.tree_states.contains_key(key) ==> next.tree_states[key] == tables.tree_states[key]
            &&& forall|key: IntentKey| #[trigger]
                next.ballot_intents.contains_key(key) <==> tables.ballot_intents.contains_key(key) && !gone(key.round)
            &&& forall|key: IntentKey| #[trigger]
                next.ballot_intents.contains_key(key) ==> next.ballot_intents[key] == tables.ballot_intents[key]
            &&& forall|key: BundleKey| #[trigger]
                next.bundles.contains_key(key) <==> tables.bundles.contains_key(key) && !gone(key.round)
            &&& forall|key: BundleKey| #[trigger]
                next.bundles.contains_key(key) ==> next.bundles[key] == tables.bundles[key]
            &&& forall|key: BundleKey| #[trigger]
                next.proofs.contains_key(key) <==> tables.proofs.contains_key(key) && !gone(key.round)
            &&& forall|key: BundleKey| #[trigger]
                next.proofs.contains_key(key) ==> next.proofs[key] == tables.proofs[key]
            &&& forall|key: BundleKey| #[trigger]
                next.keystone_signatures.contains_key(key) <==> tables.keystone_signatures.contains_key(key) && !gone(key.round)
            &&& forall|key: BundleKey| #[trigger]
                next.keystone_signatures.contains_key(key) ==> next.keystone_signatures[key] == tables.keystone_signatures[key]
            &&& forall|key: WitnessKey| #[trigger]
                next.witnesses.contains_key(key) <==> tables.witnesses.contains_key(key) && !gone(key.bundle.round)
            &&& forall|key: WitnessKey| #[trigger]
                next.witnesses.contains_key(key) ==> next.witnesses[key] == tables.witnesses[key]
            &&& forall|key: ImtKey| #[trigger]
                next.imt_proofs.contains_key(key) <==> tables.imt_proofs.contains_key(key) && !gone(key.bundle.round)
            &&& forall|key: ImtKey| #[trigger]
                next.imt_proofs.contains_key(key) ==> next.imt_proofs[key] == tables.imt_proofs[key]
            &&& forall|key: VoteKey| #[trigger]
                next.votes.contains_key(key) <==> tables.votes.contains_key(key) && !gone(key.bundle.round)
            &&& forall|key: VoteKey| #[trigger]
                next.votes.contains_key(key) ==> next.votes[key] == tables.votes[key]
            &&& forall|key: ShareKey| #[trigger]
                next.share_delegations.contains_key(key) <==> tables.share_delegations.contains_key(key) && !gone(key.vote.bundle.round)
            &&& forall|key: ShareKey| #[trigger]
                next.share_delegations.contains_key(key) ==> next.share_delegations[key] == tables.share_delegations[key]
        }),
{
}

/// Bundles can be deleted from an index on exactly if the round has no bundle
/// without note positions. Those from the index on go, with all that belongs to
/// them, and are counted; all other rows stay as they are.
pub proof fn law_bundles_are_deleted(
    tables: Tables,
    round_id: Text,
    wallet_id: Text,
    from_index: u32,
)
    ensures
        ({
            let round = RoundKey { round_id, wallet_id };
            let gone = |key: BundleKey| key.round == round && key.bundle_index >= from_index;
            let done = delete_bundles_outcome(tables, round_id, wallet_id, from_index);
            &&& done is Ok <==> forall|key: BundleKey| #[trigger]
                tables.bundles.contains_key(key) && key.round == round
                    ==> tables.bundles[key].note_positions_blob is Some
            &&& done is Err ==> (done matches Err(Fault::InvalidInput(_)))
            &&& done matches Ok((next, count)) ==> {
                &&& count == tables.bundles.dom().filter(gone).len() as u64
                &&& next.rounds == tables.rounds
                &&& next.tree_states == tables.tree_states
                &&& next.ballot_intents == tables.ballot_intents
                &&& forall|key: BundleKey| #[trigger]
                    next.bundles.contains_key(key) <==> tables.bundles.contains_key(key) && !gone(key)
                &&& forall|key: BundleKey| #[trigger]
                    next.bundles.contains_key(key) ==> next.bundles[key] == tables.bundles[key]
                &&& forall|key: BundleKey| #[trigger]
                    next.proofs.contains_key(key) <==> tables.proofs.contains_key(key) && !gone(key)
                &&& forall|key: BundleKey| #[trigger]
                    next.proofs.contains_key(key) ==> next.proofs[key] == tables.proofs[key]
                &&& forall|key: BundleKey| #[trigger]
                    next.keystone_signatures.contains_key(key) <==> tables.keystone_signatures.contains_key(key) && !gone(key)
                &&& forall|key: BundleKey| #[trigger]
                    next.keystone_signatures.contains_key(key) ==> next.keystone_signatures[key] == tables.keystone_signatures[key]
                &&& forall|key: WitnessKey| #[trigger]
                    next.witnesses.contains_key(key) <==> tables.witnesses.contains_key(key) && !gone(key.bundle)
                &&& forall|key: WitnessKey| #[trigger]
                    next.witnesses.contains_key(key) ==> next.witnesses[key] == tables.witnesses[key]
                &&& forall|key: ImtKey| #[trigger]
                    next.imt_proofs.contains_key(key) <==> tables.imt_proofs.contains_key(key) && !gone(key.bundle)
                &&& forall|key: ImtKey| #[trigger]
                    next.imt_proofs.contains_key(key) ==> next.imt_proofs[key] == tables.imt_proofs[key]
                &&& forall|key: VoteKey| #[trigger]
                    next.votes.contains_key(key) <==> tables.votes.contains_key(key) && !gone(key.bundle)
                &&& forall|key: VoteKey| #[trigger]
                    next.votes.contains_key(key) ==> next.votes[key] == tables.votes[key]
                &&& forall|key: ShareKey| #[trigger]
                    next.share_delegations.contains_key(key) <==> tables.share_delegations.contains_key(key) && !gone(key.vote.bundle)
                &&& forall|key: ShareKey| #[trigger]
                    next.share_delegations.contains_key(key) ==> next.share_delegations[key] == tables.share_delegations[key]
            }
        }),
{
    let round = RoundKey { round_id, wallet_id };
    let gone = |key: BundleKey| key.round == round && key.bundle_index >= from_index;
    assert(bundles_from(tables, round, from_index as int) =~= tables.bundles.dom().filter(gone));
}

/// Clearing the shares of a skipped proposal takes exactly the shares of the
/// proposal in the round and counts them; without a skip no share goes.
pub proof fn law_skipped_shares_are_cleared(
    tables: Tables,
    round_id: Text,
    wallet_id: Text,
    proposal_id: u32,
    skipped: bool,
    choice: Option<u32>,
)
    ensures
        ({
            let round = RoundKey { round_id, wallet_id };
            let gone = |key: ShareKey|
                key.vote.bundle.round == round && key.vote.proposal_id == proposal_id;
            let done = clear_stale_outcome(
                tables,
                round_id,
                wallet_id,
                proposal_id,
                skipped,
                choice,
            );
            &&& done is Ok <==> skipped || choice is None
            &&& done is Err ==> (done matches Err(Fault::Internal(_)))
            &&& done matches Ok((next, count)) ==> {
                &&& next == (Tables { share_delegations: next.share_delegations, ..tables })
                &&& !skipped ==> next == tables && count == 0
                &&& skipped ==> {
                    &&& count == tables.share_delegations.dom().filter(gone).len() as u64
                    &&& forall|key: ShareKey| #[trigger]
                        next.share_delegations.contains_key(key)
                            <==> tables.share_delegations.contains_key(key) && !gone(key)
                    &&& forall|key: ShareKey| #[trigger]
                        next.share_delegations.contains_key(key) ==> next.share_delegations[key]
                            == tables.share_delegations[key]
                }
            }
        }),
{
    let round = RoundKey { round_id, wallet_id };
    let gone = |key: ShareKey|
        key.vote.bundle.round == round && key.vote.proposal_id == proposal_id;
    assert(proposal_shares(tables, round, proposal_id) =~= tables.share_delegations.dom().filter(
        gone,
    ));
}

/// Clearing what can be redone in a round takes its shares and its Keystone
/// signatures, the transactions of its local delegations that have not landed,
/// and the transactions and commitment bundles of its votes without a position.
/// All else stays as it is.
pub proof fn law_recovery_is_cleared(tables: Tables, round: RoundKey)
    ensures
        ({
            let next = recovery_cleared(tables, round);
            &&& next == (Tables {
                share_delegations: next.share_delegations,
                keystone_signatures: next.keystone_signatures,
                bundles: next.bundles,
                votes: next.votes,
                ..tables
            })
            &&& forall|key: ShareKey| #[trigger]
                next.share_delegations.contains_key(key)
                    <==> tables.share_delegations.contains_key(key) && key.vote.bundle.round
                    != round
            &&& forall|key: ShareKey| #[trigger]
                next.share_delegations.contains_key(key) ==> next.share_delegations[key]
                    == tables.share_delegations[key]
            &&& forall|key: BundleKey| #[trigger]
                next.keystone_signatures.contains_key(key)
                    <==> tables.keystone_signatures.contains_key(key) && key.round != round
            &&& forall|key: BundleKey| #[trigger]
                next.keystone_signatures.contains_key(key) ==> next.keystone_signatures[key]
                    == tables.keystone_signatures[key]
            &&& forall|key: BundleKey| #[trigger]
                next.bundles.contains_key(key) <==> tables.bundles.contains_key(key)
            &&& forall|key: BundleKey| #[trigger]
                next.bundles.contains_key(key) ==> next.bundles[key] == (BundleColumns {
                    delegation_tx_hash: if key.round == round
                        && tables.bundles[key].note_positions_blob is Some
                        && tables.bundles[key].van_leaf_position is None {
                        None
                    } else {
                        tables.bundles[key].delegation_tx_hash
                    },
                    ..tables.bundles[key]
                })
            &&& forall|key: VoteKey| #[trigger]
                next.votes.contains_key(key) <==> tables.votes.contains_key(key)
            &&& forall|key: VoteKey| #[trigger]
                next.votes.contains_key(key) ==> {
                    let vote = tables.votes[key];
                    let redone = key.bundle.round == round && vote.vc_tree_position is None;
                    next.votes[key] == (VoteColumns {
                        tx_hash: if redone {
                            None
                        } else {
                            vote.tx_hash
                        },
                        commitment_bundle_json: if redone {
                            None
                        } else {
                            vote.commitment_bundle_json
                        },
                        ..vote
                    })
                }
        }),
{
}

/// An operation on a round leaves each row of each other round as it is, in
/// every table.
pub proof fn law_rows_of_other_rounds_stay(tables: Tables, request: Request)
    requires
        outcome(tables, request) is Ok,
    ensures
        ({
            let next = outcome(tables, request)->Ok_0;
            let round = RoundKey { round_id: request.round_id, wallet_id: request.wallet_id };
            &&& forall|key: RoundKey| key != round ==> ((#[trigger] next.rounds.contains_key(key))
                == tables.rounds.contains_key(key)) && (tables.rounds.contains_key(key)
                ==> next.rounds[key] == tables.rounds[key])
            &&& forall|key: RoundKey| key != round ==> ((#[trigger] next.tree_states.contains_key(key))
                == tables.tree_states.contains_key(key)) && (tables.tree_states.contains_key(key)
                ==> next.tree_states[key] == tables.tree_states[key])
            &&& forall|key: IntentKey| key.round != round ==> ((#[trigger] next.ballot_intents.contains_key(key))
                == tables.ballot_intents.contains_key(key)) && (tables.ballot_intents.contains_key(key)
                ==> next.ballot_intents[key] == tables.ballot_intents[key])
            &&& forall|key: BundleKey| key.round != round ==> ((#[trigger] next.bundles.contains_key(key))
                == tables.bundles.contains_key(key)) && (tables.bundles.contains_key(key)
                ==> next.bundles[key] == tables.bundles[key])
            &&& forall|key: BundleKey| key.round != round ==> ((#[trigger] next.proofs.contains_key(key))
                == tables.proofs.contains_key(key)) && (tables.proofs.contains_key(key)
                ==> next.proofs[key] == tables.proofs[key])
            &&& forall|key: BundleKey| key.round != round ==> ((#[trigger] next.keystone_signatures.contains_key(key))
                == tables.keystone_signatures.contains_key(key)) && (tables.keystone_signatures.contains_key(key)
                ==> next.keystone_signatures[key] == tables.keystone_signatures[key])
            &&& forall|key: WitnessKey| key.bundle.round != round ==> ((#[trigger] next.witnesses.contains_key(key))
                == tables.witnesses.contains_key(key)) && (tables.witnesses.contains_key(key)
                ==> next.witnesses[key] == tables.witnesses[key])
            &&& forall|key: ImtKey| key.bundle.round != round ==> ((#[trigger] next.imt_proofs.contains_key(key))
                == tables.imt_proofs.contains_key(key)) && (tables.imt_proofs.contains_key(key)
                ==> next.imt_proofs[key] == tables.imt_proofs[key])
            &&& forall|key: VoteKey| key.bundle.round != round ==> ((#[trigger] next.votes.contains_key(key))
                == tables.votes.contains_key(key)) && (tables.votes.contains_key(key)
                ==> next.votes[key] == tables.votes[key])
            &&& forall|key: ShareKey| key.vote.bundle.round != round ==> ((#[trigger] next.share_delegations.contains_key(key))
                == tables.share_delegations.contains_key(key)) && (tables.share_delegations.contains_key(key)
                ==> next.share_delegations[key] == tables.share_delegations[key])
        }),
{
    law_other_rounds_unchanged(tables, request);
    let next = outcome(tables, request)->Ok_0;
    let round = request.round();
    let before = without_round(tables, round);
    let after = without_round(next, round);
    assert forall|key: RoundKey| key != round implies ((#[trigger] next.rounds.contains_key(key))
        == tables.rounds.contains_key(key)) && (tables.rounds.contains_key(key) ==> next.rounds[key]
        == tables.rounds[key]) by {
        assert(after.rounds.contains_key(key) == next.rounds.contains_key(key));
        assert(before.rounds.contains_key(key) == tables.rounds.contains_key(key));
        if tables.rounds.contains_key(key) {
            assert(after.rounds[key] == next.rounds[key]);
            assert(before.rounds[key] == tables.rounds[key]);
        }
    }
    assert forall|key: RoundKey| key != round implies ((#[trigger] next.tree_states.contains_key(key))
        == tables.tree_states.contains_key(key)) && (tables.tree_states.contains_key(key) ==> next.tree_states[key]
        == tables.tree_states[key]) by {
        assert(after.tree_states.contains_key(key) == next.tree_states.contains_key(key));
        assert(before.tree_states.contains_key(key) == tables.tree_states.contains_key(key));
        if tables.tree_states.contains_key(key) {
            assert(after.tree_states[key] == next.tree_states[key]);
            assert(before.tree_states[key] == tables.tree_states[key]);
        }
    }
    assert forall|key: IntentKey| key.round != round implies ((#[trigger] next.ballot_intents.contains_key(key))
        == tables.ballot_intents.contains_key(key)) && (tables.ballot_intents.contains_key(key) ==> next.ballot_intents[key]
        == tables.ballot_intents[key]) by {
        assert(after.ballot_intents.contains_key(key) == next.ballot_intents.contains_key(key));
        assert(before.ballot_intents.contains_key(key) == tables.ballot_intents.contains_key(key));
        if tables.ballot_intents.contains_key(key) {
            assert(after.ballot_intents[key] == next.ballot_intents[key]);
            assert(before.ballot_intents[key] == tables.ballot_intents[key]);
        }
    }
    assert forall|key: BundleKey| key.round != round implies ((#[trigger] next.bundles.contains_key(key))
        == tables.bundles.contains_key(key)) && (tables.bundles.contains_key(key) ==> next.bundles[key]
        == tables.bundles[key]) by {
        assert(after.bundles.contains_key(key) == next.bundles.contains_key(key));
        assert(before.bundles.contains_key(key) == tables.bundles.contains_key(key));
        if tables.bundles.contains_key(key) {
            assert(after.bundles[key] == next.bundles[key]);
            assert(before.bundles[key] == tables.bundles[key]);
        }
    }
    assert forall|key: BundleKey| key.round != round implies ((#[trigger] next.proofs.contains_key(key))
        == tables.proofs.contains_key(key)) && (tables.proofs.contains_key(key) ==> next.proofs[key]
        == tables.proofs[key]) by {
        assert(after.proofs.contains_key(key) == next.proofs.contains_key(key));
        assert(before.proofs.contains_key(key) == tables.proofs.contains_key(key));
        if tables.proofs.contains_key(key) {
            assert(after.proofs[key] == next.proofs[key]);
            assert(before.proofs[key] == tables.proofs[key]);
        }
    }
    assert forall|key: BundleKey| key.round != round implies ((#[trigger] next.keystone_signatures.contains_key(key))
        == tables.keystone_signatures.contains_key(key)) && (tables.keystone_signatures.contains_key(key) ==> next.keystone_signatures[key]
        == tables.keystone_signatures[key]) by {
        assert(after.keystone_signatures.contains_key(key) == next.keystone_signatures.contains_key(key));
        assert(before.keystone_signatures.contains_key(key) == tables.keystone_signatures.contains_key(key));
        if tables.keystone_signatures.contains_key(key) {
            assert(after.keystone_signatures[key] == next.keystone_signatures[key]);
            assert(before.keystone_signatures[key] == tables.keystone_signatures[key]);
        }
    }
    assert forall|key: WitnessKey| key.bundle.round != round implies ((#[trigger] next.witnesses.contains_key(key))
        == tables.witnesses.contains_key(key)) && (tables.witnesses.contains_key(key) ==> next.witnesses[key]
        == tables.witnesses[key]) by {
        assert(after.witnesses.contains_key(key) == next.witnesses.contains_key(key));
        assert(before.witnesses.contains_key(key) == tables.witnesses.contains_key(key));
        if tables.witnesses.contains_key(key) {
            assert(after.witnesses[key] == next.witnesses[key]);
            assert(before.witnesses[key] == tables.witnesses[key]);
        }
    }
    assert forall|key: ImtKey| key.bundle.round != round implies ((#[trigger] next.imt_proofs.contains_key(key))
        == tables.imt_proofs.contains_key(key)) && (tables.imt_proofs.contains_key(key) ==> next.imt_proofs[key]
        == tables.imt_proofs[key]) by {
        assert(after.imt_proofs.contains_key(key) == next.imt_proofs.contains_key(key));
        assert(before.imt_proofs.contains_key(key) == tables.imt_proofs.contains_key(key));
        if tables.imt_proofs.contains_key(key) {
            assert(after.imt_proofs[key] == next.imt_proofs[key]);
            assert(before.imt_proofs[key] == tables.imt_proofs[key]);
        }
    }
    assert forall|key: VoteKey| key.bundle.round != round implies ((#[trigger] next.votes.contains_key(key))
        == tables.votes.contains_key(key)) && (tables.votes.contains_key(key) ==> next.votes[key]
        == tables.votes[key]) by {
        assert(after.votes.contains_key(key) == next.votes.contains_key(key));
        assert(before.votes.contains_key(key) == tables.votes.contains_key(key));
        if tables.votes.contains_key(key) {
            assert(after.votes[key] == next.votes[key]);
            assert(before.votes[key] == tables.votes[key]);
        }
    }
    assert forall|key: ShareKey| key.vote.bundle.round != round implies ((#[trigger] next.share_delegations.contains_key(key))
        == tables.share_delegations.contains_key(key)) && (tables.share_delegations.contains_key(key) ==> next.share_delegations[key]
        == tables.share_delegations[key]) by {
        assert(after.share_delegations.contains_key(key) == next.share_delegations.contains_key(key));
        assert(before.share_delegations.contains_key(key) == tables.share_delegations.contains_key(key));
        if tables.share_delegations.contains_key(key) {
            assert(after.share_delegations[key] == next.share_delegations[key]);
            assert(before.share_delegations[key] == tables.share_delegations[key]);
        }
    }
}

} // verus!
