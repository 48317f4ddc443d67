//! What each reader answers, by the columns that are stored.

use vstd::prelude::*;

use crate::bytes::{entries_of, le_value};
use crate::storage::field::{
    pallas_modulus, stored_entries, stored_field, stored_fields, ImtProofModel,
};
use crate::storage::notes::{identities_of, positions_of, stored_positions, stored_secrets};
use crate::storage::queries::bundles::{
    bundles_of, capability_confirmed_outcome, note_positions_outcome, require_notes_outcome,
    unconfirmed_bundles, van_position_outcome,
};
use crate::storage::queries::confirmations::{
    submitted_proposals_fit, tx_hash_outcome, zkp2_outcome,
};
use crate::storage::queries::delegation::{
    column_outcome, optional_secrets_outcome, secrets_outcome, stored_words, submission_outcome,
    words_outcome,
};
use crate::storage::queries::proofs::{imt_key, imt_proof_outcome, tree_state_outcome};
use crate::storage::queries::recovery::{lists_signatures, signature_record};
use crate::storage::queries::rounds::{
    lists_rounds, round_network_outcome, round_params_outcome, round_state_outcome,
    round_summaries, round_summary,
};
use crate::storage::queries::shares::{
    listed_shares, lists_shares, readable_shares, share_fits_intent, share_readable, share_record,
    share_records,
};
use crate::storage::queries::votes::{
    commitment_bundle_outcome, intent_of, lists_votes, recovery_outcome, submission_fits_intent,
    vote_record, vote_tx_hash_outcome,
};
use crate::storage::queries::witnesses::{
    lists_witnesses, stored_witness, stored_witnesses, witness_keys,
};
use crate::storage::rows::{
    BundleColumns, BundleKey, ImtKey, IntentKey, KeystoneColumns, RoundKey, ShareColumns, ShareKey,
    VoteColumns, VoteKey, WitnessColumns, WitnessKey,
};
use crate::storage::tables::Tables;
use crate::storage::urls::strings_of_json;
use crate::storage::{RoundPhase, RoundSummaryModel};
use crate::types::{
    all_or_first, law_all_or_first, Bytes, Fault, KeystoneModel, Network, NoteModel, ShareModel,
    Text, VoteRecord, WitnessModel,
};

verus! {

/// The state of a round is read exactly if the round is stored with a phase
/// that fits 32 bits and a network that is known, and says what is stored. A
/// number that is no phase is read as the first one.
pub proof fn law_round_state_by_columns(tables: Tables, round_id: Text, wallet_id: Text)
    ensures
        ({
            let key = RoundKey { round_id, wallet_id };
            let row = tables.rounds[key];
            let known = |name: Text|
                name == "mainnet"@ || name == "testnet"@ || name == "regtest"@;
            let named = |name: Text|
                if name == "mainnet"@ {
                    Network::Mainnet
                } else if name == "testnet"@ {
                    Network::Testnet
                } else {
                    Network::Regtest
                };
            let at = |phase: i64|
                if phase == 1 {
                    RoundPhase::HotkeyGenerated
                } else if phase == 2 {
                    RoundPhase::DelegationConstructed
                } else if phase == 3 {
                    RoundPhase::DelegationProved
                } else if phase == 4 {
                    RoundPhase::VoteReady
                } else {
                    RoundPhase::Initialized
                };
            let read = round_state_outcome(tables, round_id, wallet_id);
            &&& read is Ok <==> tables.rounds.contains_key(key) && i32::MIN <= row.phase <= i32::MAX
                && known(row.network)
            &&& !tables.rounds.contains_key(key) ==> (read matches Err(Fault::InvalidInput(_)))
            &&& read matches Ok(state) ==> {
                &&& state.round_id == round_id
                &&& state.phase == at(row.phase)
                &&& state.network == named(row.network)
                &&& state.snapshot_height == row.snapshot_height as u64
                &&& state.hotkey_address is None
                &&& state.delegated_weight is None
            }
        }),
{
}

/// The parameters and the network of a round are read exactly if it is stored
/// with a known network, and are what is stored.
pub proof fn law_round_params_by_columns(tables: Tables, round_id: Text, wallet_id: Text)
    ensures
        ({
            let key = RoundKey { round_id, wallet_id };
            let row = tables.rounds[key];
            let known = |name: Text|
                name == "mainnet"@ || name == "testnet"@ || name == "regtest"@;
            let named = |name: Text|
                if name == "mainnet"@ {
                    Network::Mainnet
                } else if name == "testnet"@ {
                    Network::Testnet
                } else {
                    Network::Regtest
                };
            let read = round_params_outcome(tables, round_id, wallet_id);
            let network = round_network_outcome(tables, round_id, wallet_id);
            &&& read is Ok <==> tables.rounds.contains_key(key) && known(row.network)
            &&& network is Ok <==> read is Ok
            &&& network matches Ok(found) ==> found == named(row.network)
            &&& !tables.rounds.contains_key(key) ==> (read matches Err(Fault::InvalidInput(_)))
            &&& tables.rounds.contains_key(key) && read is Err ==> (
            read matches Err(Fault::Internal(_)))
            &&& read matches Ok((params, found)) ==> {
                &&& found == named(row.network)
                &&& params.vote_round_id == round_id
                &&& params.snapshot_height == row.snapshot_height as u64
                &&& params.ea_pk == row.ea_pk
                &&& params.nc_root == row.nc_root
                &&& params.nullifier_imt_root == row.nullifier_imt_root
            }
        }),
{
}

/// The rounds of a wallet are listed each once, the latest first, all of them
/// and no others; each is listed as it is stored, or the list fails.
pub proof fn law_rounds_are_listed(tables: Tables, wallet_id: Text, keys: Seq<RoundKey>)
    requires
        lists_rounds(keys, tables, wallet_id),
    ensures
        keys.no_duplicates(),
        forall|key: RoundKey| #[trigger]
            keys.contains(key) <==> tables.rounds.contains_key(key) && key.wallet_id == wallet_id,
        forall|i: int, j: int|
            0 <= i < j < keys.len() ==> tables.rounds[#[trigger] keys[i]].created_at
                >= tables.rounds[#[trigger] keys[j]].created_at,
        ({
            let known = |name: Text|
                name == "mainnet"@ || name == "testnet"@ || name == "regtest"@;
            let named = |name: Text|
                if name == "mainnet"@ {
                    Network::Mainnet
                } else if name == "testnet"@ {
                    Network::Testnet
                } else {
                    Network::Regtest
                };
            let at = |phase: i64|
                if phase == 1 {
                    RoundPhase::HotkeyGenerated
                } else if phase == 2 {
                    RoundPhase::DelegationConstructed
                } else if phase == 3 {
                    RoundPhase::DelegationProved
                } else if phase == 4 {
                    RoundPhase::VoteReady
                } else {
                    RoundPhase::Initialized
                };
            let listed = all_or_first(round_summaries(keys, tables));
            &&& listed is Ok <==> forall|key: RoundKey| #[trigger]
                keys.contains(key) ==> i32::MIN <= tables.rounds[key].phase <= i32::MAX && known(
                    tables.rounds[key].network,
                )
            &&& listed is Err ==> (listed matches Err(Fault::Internal(_)))
            &&& listed matches Ok(summaries) ==> summaries.len() == keys.len() && forall|i: int|
                0 <= i < keys.len() ==> #[trigger] summaries[i] == (RoundSummaryModel {
                    round_id: keys[i].round_id,
                    wallet_id,
                    phase: at(tables.rounds[keys[i]].phase),
                    network: named(tables.rounds[keys[i]].network),
                    snapshot_height: tables.rounds[keys[i]].snapshot_height as u64,
                    created_at: tables.rounds[keys[i]].created_at as u64,
                })
        }),
{
    let items = round_summaries(keys, tables);
    law_all_or_first(items);
    assert forall|key: RoundKey| #[trigger]
        keys.contains(key) <==> tables.rounds.contains_key(key) && key.wallet_id == wallet_id by {
        assert(keys.to_set().contains(key) == keys.contains(key));
    }
    match all_or_first(items) {
        Ok(summaries) => {
            assert forall|key: RoundKey| #[trigger] keys.contains(key) implies round_summary(
                key,
                tables.rounds[key],
            ) is Ok by {
                let i = choose|i: int| 0 <= i < keys.len() && keys[i] == key;
                assert(items[i] is Ok);
            }
            assert forall|i: int| 0 <= i < keys.len() implies round_summary(
                keys[i],
                tables.rounds[keys[i]],
            ) == Ok::<RoundSummaryModel, Fault>(#[trigger] summaries[i]) && keys[i].wallet_id
                == wallet_id by {
                assert(keys.contains(keys[i]));
                assert(items[i] == Ok::<RoundSummaryModel, Fault>(summaries[i]));
            }
        },
        Err(fault) => {
            let i = choose|i: int|
                0 <= i < items.len() && (#[trigger] items[i]) == Err::<RoundSummaryModel, Fault>(
                    fault,
                );
            assert(keys.contains(keys[i]));
            assert(round_summary(keys[i], tables.rounds[keys[i]]) is Err);
        },
    }
}

/// The bundles that are counted, and those that hold an imported round back, are
/// those of the round, with or without a VAN leaf position.
pub proof fn law_bundles_of_a_round(tables: Tables, round: RoundKey, key: BundleKey)
    ensures
        bundles_of(tables, round).contains(key) <==> tables.bundles.contains_key(key) && key.round
            == round,
        unconfirmed_bundles(tables, round).contains(key) <==> tables.bundles.contains_key(key)
            && key.round == round && tables.bundles[key].van_leaf_position is None,
{
}

/// A round takes votes exactly if each of its bundles has note positions, or
/// each of them has a VAN leaf position.
pub proof fn law_imported_round_waits(tables: Tables, round_id: Text, wallet_id: Text)
    ensures
        ({
            let round = RoundKey { round_id, wallet_id };
            let read = capability_confirmed_outcome(tables, round_id, wallet_id);
            &&& read is Ok <==> {
                ||| forall|key: BundleKey| #[trigger]
                    tables.bundles.contains_key(key) && key.round == round
                        ==> tables.bundles[key].note_positions_blob is Some
                ||| forall|key: BundleKey| #[trigger]
                    tables.bundles.contains_key(key) && key.round == round
                        ==> tables.bundles[key].van_leaf_position is Some
            }
            &&& read is Err ==> (read matches Err(Fault::InvalidInput(_)))
        }),
{
    let round = RoundKey { round_id, wallet_id };
    let pending = unconfirmed_bundles(tables, round);
    if pending == Set::<BundleKey>::empty() {
        assert forall|key: BundleKey| #[trigger]
            tables.bundles.contains_key(key) && key.round
                == round implies tables.bundles[key].van_leaf_position is Some by {
            assert(!pending.contains(key));
        }
    } else {
        assert(exists|key: BundleKey| pending.contains(key)) by {
            if forall|key: BundleKey| !pending.contains(key) {
                assert(pending =~= Set::<BundleKey>::empty());
            }
        }
        let key = choose|key: BundleKey| pending.contains(key);
        assert(tables.bundles.contains_key(key));
    }
}

/// The note positions of a stored bundle are the numbers of eight bytes in its
/// blob; an empty column has none.
pub proof fn law_note_positions_by_columns(
    tables: Tables,
    round_id: Text,
    wallet_id: Text,
    bundle_index: u32,
)
    ensures
        ({
            let key = BundleKey {
                round: RoundKey { round_id, wallet_id },
                bundle_index: bundle_index as i64,
            };
            let blob = match tables.bundles[key].note_positions_blob {
                Some(bytes) => bytes,
                None => Seq::empty(),
            };
            let read = note_positions_outcome(tables, round_id, wallet_id, bundle_index);
            &&& read is Ok <==> tables.bundles.contains_key(key) && blob.len() % 8 == 0
            &&& !tables.bundles.contains_key(key) ==> (read matches Err(Fault::InvalidInput(_)))
            &&& tables.bundles.contains_key(key) && read is Err ==> (
            read matches Err(Fault::Internal(_)))
            &&& read matches Ok(positions) ==> positions.len() == blob.len() / 8 && forall|i: int|
                0 <= i < positions.len() ==> #[trigger] positions[i] == le_value(
                    blob.subrange(8 * i, 8 * i + 8),
                ) as u64
        }),
{
}

/// The notes of a stored bundle are accepted exactly if their positions are
/// those of the bundle, in their order, and their identities, if the bundle has
/// any, are those of the notes, one behind the other.
pub proof fn law_required_notes_by_columns(
    tables: Tables,
    round_id: Text,
    wallet_id: Text,
    bundle_index: u32,
    notes: Seq<NoteModel>,
)
    ensures
        ({
            let key = BundleKey {
                round: RoundKey { round_id, wallet_id },
                bundle_index: bundle_index as i64,
            };
            let read = note_positions_outcome(tables, round_id, wallet_id, bundle_index);
            let identities = tables.bundles[key].note_identity_hashes_blob;
            let required = require_notes_outcome(tables, round_id, wallet_id, bundle_index, notes);
            &&& required is Ok <==> {
                &&& read matches Ok(positions)
                &&& positions.len() == notes.len()
                &&& forall|i: int|
                    0 <= i < notes.len() ==> positions[i] == (#[trigger] notes[i]).position
                &&& identities matches Some(blob) ==> blob.len() == 32 * notes.len() && forall|
                    i: int,
                |
                    0 <= i < notes.len() ==> blob.subrange(32 * i, 32 * i + 32)
                        == crate::storage::notes::note_identity(#[trigger] notes[i])
            }
            &&& read matches Err(fault) ==> required == Err::<(), Fault>(fault)
            &&& read is Ok && required is Err && (identities matches Some(blob) ==> blob.len() % 32
                == 0) ==> (required matches Err(Fault::InvalidInput(_)))
        }),
{
    let key = BundleKey {
                round: RoundKey { round_id, wallet_id },
                bundle_index: bundle_index as i64,
            };
    let required = require_notes_outcome(tables, round_id, wallet_id, bundle_index, notes);
    if let Ok(positions) = note_positions_outcome(tables, round_id, wallet_id, bundle_index) {
        let wanted = positions_of(notes);
        let hashes = identities_of(notes);
        let same_positions = positions.len() == notes.len() && forall|i: int|
            0 <= i < notes.len() ==> positions[i] == (#[trigger] notes[i]).position;
        if same_positions {
            assert(positions =~= wanted);
        }
        if positions == wanted {
            assert forall|i: int| 0 <= i < notes.len() implies positions[i] == (
            #[trigger] notes[i]).position by {
                assert(wanted[i] == notes[i].position);
            }
        }
        if let Some(blob) = tables.bundles[key].note_identity_hashes_blob {
            let stored = entries_of(blob, 32);
            if blob.len() == 32 * notes.len() && forall|i: int|
                0 <= i < notes.len() ==> blob.subrange(32 * i, 32 * i + 32)
                    == crate::storage::notes::note_identity(#[trigger] notes[i]) {
                assert forall|i: int| 0 <= i < stored.len() implies stored[i] == hashes[i] by {
                    assert(hashes[i] == crate::storage::notes::note_identity(notes[i]));
                    assert(i * 32 == 32 * i && (i + 1) * 32 == 32 * i + 32);
                }
                assert(stored =~= hashes);
            }
            if blob.len() % 32 == 0 && stored == hashes {
                assert forall|i: int| 0 <= i < notes.len() implies blob.subrange(
                    32 * i,
                    32 * i + 32,
                ) == crate::storage::notes::note_identity(#[trigger] notes[i]) by {
                    assert(stored[i] == hashes[i]);
                    assert(i * 32 == 32 * i && (i + 1) * 32 == 32 * i + 32);
                }
            }
        }
    }
}

/// The VAN leaf position of a stored bundle is read as soon as there is one.
pub proof fn law_van_position_by_columns(
    tables: Tables,
    round_id: Text,
    wallet_id: Text,
    bundle_index: u32,
)
    ensures
        ({
            let key = BundleKey {
                round: RoundKey { round_id, wallet_id },
                bundle_index: bundle_index as i64,
            };
            let read = van_position_outcome(tables, round_id, wallet_id, bundle_index);
            let stored = tables.bundles[key].van_leaf_position;
            &&& read is Ok <==> tables.bundles.contains_key(key) && stored is Some
            &&& read is Err ==> (read matches Err(Fault::InvalidInput(_)))
            &&& read matches Ok(position) ==> position == stored->Some_0 as u32
        }),
{
}

/// What the proof of a vote needs is read exactly if the bundle and its round
/// are stored, and is what they hold; empty columns are read as empty or zero.
pub proof fn law_zkp2_inputs_by_columns(
    tables: Tables,
    round_id: Text,
    wallet_id: Text,
    bundle_index: u32,
)
    ensures
        ({
            let key = BundleKey {
                round: RoundKey { round_id, wallet_id },
                bundle_index: bundle_index as i64,
            };
            let bundle = tables.bundles[key];
            let read = zkp2_outcome(tables, round_id, wallet_id, bundle_index);
            &&& read is Ok <==> tables.bundles.contains_key(key) && tables.rounds.contains_key(
                key.round,
            )
            &&& read is Err ==> (read matches Err(Fault::InvalidInput(_)))
            &&& read matches Ok(inputs) ==> {
                &&& bundle.van_comm_rand matches Some(bytes) ==> inputs.gov_comm_rand == bytes
                &&& bundle.van_comm_rand is None ==> inputs.gov_comm_rand.len() == 0
                &&& bundle.total_note_value matches Some(n) ==> inputs.total_note_value == n as u64
                &&& bundle.total_note_value is None ==> inputs.total_note_value == 0
                &&& bundle.address_index matches Some(n) ==> inputs.address_index == n as u32
                &&& bundle.address_index is None ==> inputs.address_index == 0
                &&& inputs.ea_pk == tables.rounds[key.round].ea_pk
                &&& inputs.voting_round_id == round_id
            }
        }),
{
}

/// Inputs can be asked for exactly if no submitted vote of the bundle is on a
/// proposal outside the range of bits.
pub proof fn law_submitted_proposals_fit(tables: Tables, bundle: BundleKey)
    ensures
        submitted_proposals_fit(tables, bundle) <==> !exists|key: VoteKey| #[trigger]
            tables.votes.contains_key(key) && key.bundle == bundle
                && tables.votes[key].tx_hash is Some && (key.proposal_id < 0 || key.proposal_id
                > 63),
{
    if submitted_proposals_fit(tables, bundle) {
        assert(!exists|key: VoteKey| #[trigger]
            tables.votes.contains_key(key) && key.bundle == bundle
                && tables.votes[key].tx_hash is Some && (key.proposal_id < 0 || key.proposal_id
                > 63)) by {
            if exists|key: VoteKey| #[trigger]
                tables.votes.contains_key(key) && key.bundle == bundle
                    && tables.votes[key].tx_hash is Some && (key.proposal_id < 0 || key.proposal_id
                    > 63) {
                let key = choose|key: VoteKey| #[trigger]
                    tables.votes.contains_key(key) && key.bundle == bundle
                        && tables.votes[key].tx_hash is Some && (key.proposal_id < 0
                        || key.proposal_id > 63);
                assert(0 <= key.proposal_id < 64);
            }
        }
    }
}

/// The transactions of delegations and votes are read as they are stored.
pub proof fn law_tx_hashes_by_columns(tables: Tables, bundle: BundleKey, vote: VoteKey)
    ensures
        tx_hash_outcome(tables, bundle) is Ok <==> tables.bundles.contains_key(bundle),
        tx_hash_outcome(tables, bundle) matches Ok(found) ==> found
            == tables.bundles[bundle].delegation_tx_hash,
        tx_hash_outcome(tables, bundle) is Err ==> (
        tx_hash_outcome(tables, bundle) matches Err(Fault::Internal(_))),
        vote_tx_hash_outcome(tables, vote) is Ok <==> tables.votes.contains_key(vote),
        vote_tx_hash_outcome(tables, vote) matches Ok(found) ==> found
            == tables.votes[vote].tx_hash,
        vote_tx_hash_outcome(tables, vote) is Err ==> (
        vote_tx_hash_outcome(tables, vote) matches Err(Fault::Internal(_))),
{
}

/// A column of a stored bundle is read as it is stored, and an empty one as an
/// empty byte string.
pub proof fn law_columns_are_read(
    tables: Tables,
    what: Text,
    round_id: Text,
    wallet_id: Text,
    bundle_index: u32,
    column: spec_fn(BundleColumns) -> Option<Bytes>,
)
    ensures
        ({
            let key = BundleKey {
                round: RoundKey { round_id, wallet_id },
                bundle_index: bundle_index as i64,
            };
            let read = column_outcome(tables, what, round_id, wallet_id, bundle_index, column);
            let stored = column(tables.bundles[key]);
            &&& read is Ok <==> tables.bundles.contains_key(key)
            &&& read is Err ==> (read matches Err(Fault::InvalidInput(_)))
            &&& read matches Ok(bytes) ==> {
                &&& stored matches Some(value) ==> bytes == value
                &&& stored is None ==> bytes.len() == 0
            }
        }),
{
}

/// A blob of hashes is read exactly if it is made of whole ones, as its pieces
/// of 32 bytes in their order.
pub proof fn law_words_are_read(blob: Bytes, name: Text, fault: Fault)
    ensures
        words_outcome(Err(fault), name) == Err::<Seq<Bytes>, Fault>(fault),
        words_outcome(Ok(blob), name) == stored_words(blob, name),
        stored_words(blob, name) is Ok <==> blob.len() % 32 == 0,
        stored_words(blob, name) is Err ==> (
        stored_words(blob, name) matches Err(Fault::Internal(_))),
        stored_words(blob, name) matches Ok(words) ==> words.len() == blob.len() / 32 && forall|
            i: int,
        |
            0 <= i < words.len() ==> #[trigger] words[i] == blob.subrange(32 * i, 32 * i + 32),
{
}

/// Padding secrets are read from a stored bundle that has some, as pairs of 32
/// bytes each; a bundle without any has none, which is an error only where some
/// are needed.
pub proof fn law_secrets_by_columns(
    tables: Tables,
    round_id: Text,
    wallet_id: Text,
    bundle_index: u32,
)
    ensures
        ({
            let key = BundleKey {
                round: RoundKey { round_id, wallet_id },
                bundle_index: bundle_index as i64,
            };
            let stored = tables.bundles[key].padded_note_secrets;
            let read = optional_secrets_outcome(tables, round_id, wallet_id, bundle_index);
            let needed = secrets_outcome(tables, round_id, wallet_id, bundle_index);
            &&& read is Ok <==> tables.bundles.contains_key(key) && (stored matches Some(blob)
                ==> blob.len() % 64 == 0)
            &&& !tables.bundles.contains_key(key) ==> (read matches Err(Fault::InvalidInput(_)))
            &&& tables.bundles.contains_key(key) && read is Err ==> (
            read matches Err(Fault::Internal(_)))
            &&& read matches Err(fault) ==> needed == Err::<Seq<(Bytes, Bytes)>, Fault>(fault)
            &&& read matches Ok(found) ==> {
                &&& found is Some <==> stored is Some
                &&& found is None ==> (needed matches Err(Fault::InvalidInput(_)))
                &&& found matches Some(secrets) ==> {
                    &&& needed == Ok::<Seq<(Bytes, Bytes)>, Fault>(secrets)
                    &&& secrets.len() == stored->Some_0.len() / 64
                    &&& forall|i: int|
                        0 <= i < secrets.len() ==> (#[trigger] secrets[i]) == (
                            stored->Some_0.subrange(64 * i, 64 * i + 32),
                            stored->Some_0.subrange(64 * i + 32, 64 * i + 64),
                        )
                }
            }
        }),
{
    let key = BundleKey {
                round: RoundKey { round_id, wallet_id },
                bundle_index: bundle_index as i64,
            };
    if let Some(blob) = tables.bundles[key].padded_note_secrets {
        if let Ok(secrets) = stored_secrets(blob) {
            let entries = entries_of(blob, 64);
            assert forall|i: int| 0 <= i < secrets.len() implies (#[trigger] secrets[i]) == (
                blob.subrange(64 * i, 64 * i + 32),
                blob.subrange(64 * i + 32, 64 * i + 64),
            ) by {
                assert(entries[i] == blob.subrange(i * 64, (i + 1) * 64));
                assert(entries[i].subrange(0, 32) =~= blob.subrange(64 * i, 64 * i + 32));
                assert(entries[i].subrange(32, 64) =~= blob.subrange(64 * i + 32, 64 * i + 64));
            }
        }
    }
}

/// The cached tree state of a round is read as it is stored.
pub proof fn law_tree_state_by_columns(tables: Tables, round_id: Text, wallet_id: Text)
    ensures
        ({
            let key = RoundKey { round_id, wallet_id };
            let read = tree_state_outcome(tables, round_id, wallet_id);
            &&& read is Ok <==> tables.tree_states.contains_key(key)
            &&& read is Err ==> (read matches Err(Fault::InvalidInput(_)))
            &&& read matches Ok(bytes) ==> bytes == tables.tree_states[key].tree_state
        }),
{
}

/// What is submitted for a delegation is read exactly if the bundle is stored,
/// has a successful proof and whole governance nullifiers, and is what is
/// stored; empty columns are read as empty.
pub proof fn law_submission_by_columns(
    tables: Tables,
    round_id: Text,
    wallet_id: Text,
    bundle_index: u32,
)
    ensures
        ({
            let key = BundleKey {
                round: RoundKey { round_id, wallet_id },
                bundle_index: bundle_index as i64,
            };
            let bundle = tables.bundles[key];
            let bytes = |column: Option<Bytes>|
                match column {
                    Some(bytes) => bytes,
                    None => Seq::empty(),
                };
            let nullifiers = bytes(bundle.gov_nullifiers_blob);
            let proven = tables.bundles.contains_key(key) && tables.proofs.contains_key(key)
                && tables.proofs[key].success == 1;
            let read = submission_outcome(tables, round_id, wallet_id, bundle_index);
            &&& read is Ok <==> proven && nullifiers.len() % 32 == 0
            &&& !proven ==> (read matches Err(Fault::InvalidInput(_)))
            &&& proven && read is Err ==> (read matches Err(Fault::Internal(_)))
            &&& read matches Ok(fields) ==> {
                &&& fields.proof == tables.proofs[key].proof
                &&& fields.rk == bytes(bundle.rk)
                &&& fields.nf_signed == bytes(bundle.nf_signed)
                &&& fields.cmx_new == bytes(bundle.cmx_new)
                &&& fields.gov_comm == bytes(bundle.gov_comm)
                &&& fields.alpha == bytes(bundle.alpha)
                &&& fields.tx1_effects == bytes(bundle.tx1_effects)
                &&& fields.vote_round_id == round_id
                &&& fields.gov_nullifiers.len() == nullifiers.len() / 32
                &&& forall|i: int|
                    0 <= i < fields.gov_nullifiers.len() ==> #[trigger] fields.gov_nullifiers[i]
                        == nullifiers.subrange(32 * i, 32 * i + 32)
            }
        }),
{
}

/// A field element is read exactly from the 32 bytes of a number below the
/// modulus, as these bytes.
pub proof fn law_field_is_read(bytes: Bytes, name: Text)
    ensures
        stored_field(bytes, name) is Ok <==> bytes.len() == 32 && le_value(bytes)
            < pallas_modulus(),
        stored_field(bytes, name) matches Ok(element) ==> element == bytes,
        stored_field(bytes, name) is Err ==> (
        stored_field(bytes, name) matches Err(Fault::Internal(_))),
{
}

/// Field elements are read exactly from a blob of as many encodings, one behind
/// the other, each below the modulus.
pub proof fn law_fields_are_read(blob: Bytes, count: nat, name: Text)
    ensures
        ({
            let read = stored_fields(blob, count, name);
            &&& read is Ok <==> blob.len() == 32 * count && forall|i: int|
                0 <= i < count ==> le_value(#[trigger] entries_of(blob, 32)[i]) < pallas_modulus()
            &&& read is Err ==> (read matches Err(Fault::Internal(_)))
            &&& read matches Ok(elements) ==> elements.len() == count && forall|i: int|
                0 <= i < count ==> #[trigger] elements[i] == blob.subrange(32 * i, 32 * i + 32)
        }),
{
    if blob.len() == count * 32 {
        let entries = entries_of(blob, 32);
        let items = stored_entries(entries, name);
        law_all_or_first(items);
        assert forall|i: int| 0 <= i < count implies (#[trigger] items[i] is Ok <==> le_value(
            entries[i],
        ) < pallas_modulus()) && (items[i] is Err ==> items[i] matches Err(Fault::Internal(_))) by {
            assert(entries[i].len() == 32);
        }
        match all_or_first(items) {
            Ok(elements) => {
                assert forall|i: int| 0 <= i < count implies #[trigger] elements[i]
                    == blob.subrange(32 * i, 32 * i + 32) by {
                    assert(items[i] == Ok::<Bytes, Fault>(elements[i]));
                    assert(entries[i] == blob.subrange(i * 32, (i + 1) * 32));
                }
                assert forall|i: int| 0 <= i < count implies le_value(#[trigger] entries[i])
                    < pallas_modulus() by {
                    assert(items[i] is Ok);
                }
            },
            Err(fault) => {
                let i = choose|i: int|
                    0 <= i < items.len() && (#[trigger] items[i]) == Err::<Bytes, Fault>(fault);
                assert(items[i] is Err);
                assert(le_value(entries[i]) >= pallas_modulus());
            },
        }
    }
}

/// A cached non-membership proof is handed out exactly for the root that it is
/// stored with, and exactly if all of it can be read: then it is what is
/// stored, field by field.
pub proof fn law_imt_proof_by_columns(
    tables: Tables,
    round_id: Text,
    wallet_id: Text,
    bundle_index: u32,
    nullifier: Bytes,
    expected_root: Bytes,
)
    ensures
        ({
            let key = ImtKey {
                bundle: BundleKey {
                    round: RoundKey { round_id, wallet_id },
                    bundle_index: bundle_index as i64,
                },
                nullifier,
            };
            let row = tables.imt_proofs[key];
            let cached = tables.imt_proofs.contains_key(key) && row.root == expected_root;
            let bounds = stored_fields(row.nf_bounds, 3, "imt_proof.nf_bounds"@);
            let path = stored_fields(row.path, 29, "imt_proof.path"@);
            let read = imt_proof_outcome(
                tables,
                imt_key(round_id, wallet_id, bundle_index, nullifier),
                expected_root,
            );
            &&& !cached <==> read == Ok::<Option<ImtProofModel>, Fault>(None)
            &&& cached ==> (read is Ok <==> {
                &&& row.root.len() == 32 && le_value(row.root) < pallas_modulus()
                &&& bounds is Ok
                &&& 0 <= row.leaf_pos <= u32::MAX
                &&& path is Ok
            })
            &&& read is Err ==> (read matches Err(Fault::Internal(_)))
            &&& read matches Ok(found) ==> {
                &&& found matches Some(proof) ==> {
                    &&& proof.root == row.root
                    &&& proof.nf_bounds == bounds->Ok_0
                    &&& proof.leaf_pos == row.leaf_pos
                    &&& proof.path == path->Ok_0
                }
            }
        }),
{
    let key = imt_key(round_id, wallet_id, bundle_index, nullifier);
    let row = tables.imt_proofs[key];
    law_fields_are_read(row.nf_bounds, 3, "imt_proof.nf_bounds"@);
    law_fields_are_read(row.path, 29, "imt_proof.path"@);
}

/// The witnesses of a bundle are listed each once, by stored position, all of
/// them and no others.
pub proof fn law_witnesses_are_listed(
    tables: Tables,
    bundle: BundleKey,
    keys: Seq<WitnessKey>,
    key: WitnessKey,
)
    requires
        lists_witnesses(keys, tables, bundle),
    ensures
        keys.no_duplicates(),
        keys.contains(key) <==> tables.witnesses.contains_key(key) && key.bundle == bundle,
        witness_keys(tables, bundle).contains(key) <==> tables.witnesses.contains_key(key)
            && key.bundle == bundle,
        forall|i: int, j: int|
            0 <= i < j < keys.len() ==> (#[trigger] keys[i]).note_position < (
            #[trigger] keys[j]).note_position,
{
    assert(keys.to_set().contains(key) == keys.contains(key));
    assert forall|i: int, j: int| 0 <= i < j < keys.len() implies (#[trigger] keys[i]).note_position
        < (#[trigger] keys[j]).note_position by {
        assert(keys.to_set().contains(keys[i]) && keys.to_set().contains(keys[j]));
        assert(keys[i] != keys[j]);
    }
}

/// A witness is read exactly if its path is 1024 bytes, as 32 hashes; the rest
/// is as it is stored. A list of witnesses is read if each of them is.
pub proof fn law_witness_by_columns(
    tables: Tables,
    keys: Seq<WitnessKey>,
    key: WitnessKey,
    row: WitnessColumns,
)
    ensures
        stored_witness(key, row) is Ok <==> row.auth_path.len() == 1024,
        stored_witness(key, row) is Err ==> (
        stored_witness(key, row) matches Err(Fault::Internal(_))),
        stored_witness(key, row) matches Ok(witness) ==> {
            &&& witness.note_commitment == row.note_commitment
            &&& witness.position == key.note_position as u64
            &&& witness.root == row.root
            &&& witness.auth_path.len() == 32
            &&& forall|i: int|
                0 <= i < 32 ==> #[trigger] witness.auth_path[i] == row.auth_path.subrange(
                    32 * i,
                    32 * i + 32,
                )
        },
        match all_or_first(stored_witnesses(keys, tables)) {
            Ok(witnesses) => witnesses.len() == keys.len() && forall|i: int|
                0 <= i < keys.len() ==> stored_witness(
                    #[trigger] keys[i],
                    tables.witnesses[keys[i]],
                ) == Ok::<WitnessModel, Fault>(witnesses[i]),
            Err(fault) => exists|i: int|
                0 <= i < keys.len() && stored_witness(
                    #[trigger] keys[i],
                    tables.witnesses[keys[i]],
                ) == Err::<WitnessModel, Fault>(fault),
        },
{
    let items = stored_witnesses(keys, tables);
    law_all_or_first(items);
    match all_or_first(items) {
        Ok(witnesses) => {
            assert forall|i: int| 0 <= i < keys.len() implies stored_witness(
                #[trigger] keys[i],
                tables.witnesses[keys[i]],
            ) == Ok::<WitnessModel, Fault>(witnesses[i]) by {
                assert(items[i] == Ok::<WitnessModel, Fault>(witnesses[i]));
            }
        },
        Err(fault) => {
            let i = choose|i: int|
                0 <= i < items.len() && (#[trigger] items[i]) == Err::<WitnessModel, Fault>(fault);
            assert(stored_witness(keys[i], tables.witnesses[keys[i]]) == items[i]);
        },
    }
}

/// The votes of a round are listed each once, by bundle and proposal, all of
/// them and no others, each as it is stored.
pub proof fn law_votes_are_listed(
    tables: Tables,
    round: RoundKey,
    keys: Seq<VoteKey>,
    key: VoteKey,
    vote: VoteColumns,
)
    requires
        lists_votes(keys, tables, round),
    ensures
        keys.no_duplicates(),
        keys.contains(key) <==> tables.votes.contains_key(key) && key.bundle.round == round,
        forall|i: int, j: int|
            0 <= i < j < keys.len() ==> (#[trigger] keys[i]).bundle.bundle_index < (
            #[trigger] keys[j]).bundle.bundle_index || (keys[i].bundle.bundle_index
                == keys[j].bundle.bundle_index && keys[i].proposal_id < keys[j].proposal_id),
        vote_record(key, vote) == (VoteRecord {
            proposal_id: key.proposal_id as u32,
            bundle_index: key.bundle.bundle_index as u32,
            choice: vote.choice as u32,
        }),
{
    assert(keys.to_set().contains(key) == keys.contains(key));
    assert forall|i: int, j: int| 0 <= i < j < keys.len() implies (
    #[trigger] keys[i]).bundle.bundle_index < (#[trigger] keys[j]).bundle.bundle_index || (
    keys[i].bundle.bundle_index == keys[j].bundle.bundle_index && keys[i].proposal_id
        < keys[j].proposal_id) by {
        assert(keys.to_set().contains(keys[i]) && keys.to_set().contains(keys[j]));
        assert(keys[i] != keys[j]);
    }
}

/// The Keystone signatures of a round are listed each once, by bundle, all of
/// them and no others, each as it is stored.
pub proof fn law_signatures_are_listed(
    tables: Tables,
    round: RoundKey,
    keys: Seq<BundleKey>,
    key: BundleKey,
    signature: KeystoneColumns,
)
    requires
        lists_signatures(keys, tables, round),
    ensures
        keys.no_duplicates(),
        keys.contains(key) <==> tables.keystone_signatures.contains_key(key) && key.round == round,
        forall|i: int, j: int|
            0 <= i < j < keys.len() ==> (#[trigger] keys[i]).bundle_index < (
            #[trigger] keys[j]).bundle_index,
        signature_record(key, signature) == (KeystoneModel {
            bundle_index: key.bundle_index as u32,
            sig: signature.sig,
            sighash: signature.sighash,
            rk: signature.rk,
        }),
{
    assert(keys.to_set().contains(key) == keys.contains(key));
    assert forall|i: int, j: int| 0 <= i < j < keys.len() implies (#[trigger] keys[i]).bundle_index
        < (#[trigger] keys[j]).bundle_index by {
        assert(keys.to_set().contains(keys[i]) && keys.to_set().contains(keys[j]));
        assert(keys[i] != keys[j]);
    }
}

/// The shares of a round are listed each once, by proposal, share and bundle,
/// all of them and no others; where only unconfirmed ones are asked for, those
/// whose mark is zero.
pub proof fn law_shares_are_listed(
    tables: Tables,
    round: RoundKey,
    unconfirmed_only: bool,
    keys: Seq<ShareKey>,
    key: ShareKey,
)
    requires
        lists_shares(keys, tables, round, unconfirmed_only),
    ensures
        keys.no_duplicates(),
        keys.contains(key) <==> {
            &&& tables.share_delegations.contains_key(key)
            &&& key.vote.bundle.round == round
            &&& unconfirmed_only ==> tables.share_delegations[key].confirmed == 0
        },
        forall|i: int, j: int|
            0 <= i < j < keys.len() ==> {
                let a = #[trigger] keys[i];
                let b = #[trigger] keys[j];
                ||| a.vote.proposal_id < b.vote.proposal_id
                ||| a.vote.proposal_id == b.vote.proposal_id && a.share_index < b.share_index
                ||| a.vote.proposal_id == b.vote.proposal_id && a.share_index == b.share_index
                    && a.vote.bundle.bundle_index < b.vote.bundle.bundle_index
            },
{
    assert(keys.to_set().contains(key) == keys.contains(key));
    assert forall|i: int, j: int| 0 <= i < j < keys.len() implies ({
        let a = #[trigger] keys[i];
        let b = #[trigger] keys[j];
        ||| a.vote.proposal_id < b.vote.proposal_id
        ||| a.vote.proposal_id == b.vote.proposal_id && a.share_index < b.share_index
        ||| a.vote.proposal_id == b.vote.proposal_id && a.share_index == b.share_index
            && a.vote.bundle.bundle_index < b.vote.bundle.bundle_index
    }) by {
        assert(keys.to_set().contains(keys[i]) && keys.to_set().contains(keys[j]));
        assert(keys[i] != keys[j]);
    }
}

/// Shares are listed exactly if the numbers of each of them fit and its list of
/// servers can be read; each is then listed as it is stored.
pub proof fn law_shares_by_columns(tables: Tables, keys: Seq<ShareKey>)
    ensures
        ({
            let fits = |n: i64| 0 <= n <= u32::MAX;
            let read = |key: ShareKey|
                {
                    let row = tables.share_delegations[key];
                    &&& i32::MIN <= row.confirmed <= i32::MAX
                    &&& fits(key.vote.bundle.bundle_index)
                    &&& fits(key.vote.proposal_id)
                    &&& fits(key.share_index)
                    &&& row.submit_at >= 0
                    &&& row.created_at >= 0
                    &&& strings_of_json(row.sent_to_urls) is Ok
                };
            let listed = share_records(keys, tables);
            &&& listed is Ok <==> forall|i: int| 0 <= i < keys.len() ==> read(#[trigger] keys[i])
            &&& listed is Err ==> (listed matches Err(Fault::Internal(_)))
            &&& listed matches Ok(records) ==> records.len() == keys.len() && forall|i: int|
                0 <= i < keys.len() ==> {
                    let key = keys[i];
                    let row = tables.share_delegations[key];
                    let record = #[trigger] records[i];
                    &&& record.round_id == key.vote.bundle.round.round_id
                    &&& record.bundle_index == key.vote.bundle.bundle_index
                    &&& record.proposal_id == key.vote.proposal_id
                    &&& record.share_index == key.share_index
                    &&& record.sent_to_urls == strings_of_json(row.sent_to_urls)->Ok_0
                    &&& record.nullifier == row.nullifier
                    &&& record.confirmed <==> row.confirmed != 0
                    &&& record.submit_at == row.submit_at
                    &&& record.created_at == row.created_at
                }
        }),
{
    let readable = readable_shares(keys, tables);
    let items = listed_shares(keys, tables);
    law_all_or_first(readable);
    law_all_or_first(items);
    assert forall|i: int| 0 <= i < keys.len() implies #[trigger] readable[i] == share_readable(
        keys[i],
        tables.share_delegations[keys[i]],
    ) && items[i] == share_record(keys[i], tables.share_delegations[keys[i]]) by {
    }
    match share_records(keys, tables) {
        Ok(records) => {
            assert forall|i: int| 0 <= i < keys.len() implies share_readable(
                #[trigger] keys[i],
                tables.share_delegations[keys[i]],
            ) is Ok && share_record(keys[i], tables.share_delegations[keys[i]]) == Ok::<
                ShareModel,
                Fault,
            >(records[i]) by {
                assert(readable[i] is Ok);
                assert(items[i] == Ok::<ShareModel, Fault>(records[i]));
            }
        },
        Err(fault) => {
            if all_or_first(readable) is Err {
                let i = choose|i: int| 0 <= i < readable.len() && (#[trigger] readable[i]) is Err;
                assert(readable[i] == share_readable(
                    keys[i],
                    tables.share_delegations[keys[i]],
                ));
            } else {
                let i = choose|i: int| 0 <= i < items.len() && (#[trigger] items[i]) is Err;
                assert(items[i] == share_record(keys[i], tables.share_delegations[keys[i]]));
            }
        },
    }
}

/// A share may be handled exactly if nothing is stored of a decision on its
/// proposal, or the proposal is not skipped and the decided choice is that of
/// the stored vote; a stored vote may be submitted on the same terms.
pub proof fn law_decisions_by_columns(
    tables: Tables,
    round_id: Text,
    wallet_id: Text,
    bundle_index: u32,
    proposal_id: u32,
)
    ensures
        ({
            let round = RoundKey { round_id, wallet_id };
            let decided = IntentKey { round, proposal_id: proposal_id as i64 };
            let vote = VoteKey {
                bundle: BundleKey {
                    round: RoundKey { round_id, wallet_id },
                    bundle_index: bundle_index as i64,
                },
                proposal_id: proposal_id as i64,
            };
            let known = tables.ballot_intents.contains_key(decided);
            let intent = tables.ballot_intents[decided];
            let agrees = intent.skipped == 0 && tables.votes.contains_key(vote) && intent.choice
                == Some(tables.votes[vote].choice);
            let share = share_fits_intent(tables, round_id, wallet_id, bundle_index, proposal_id);
            let submission = submission_fits_intent(
                tables,
                round_id,
                wallet_id,
                bundle_index,
                proposal_id,
            );
            &&& intent_of(tables, round, proposal_id) == if known {
                Some(intent)
            } else {
                None
            }
            &&& share is Ok <==> !known || agrees
            &&& share is Err ==> (share matches Err(Fault::InvalidInput(_)))
            &&& submission is Ok <==> !known || agrees || !tables.votes.contains_key(vote)
            &&& submission is Err ==> (submission matches Err(Fault::InvalidInput(_)))
        }),
{
}

/// A commitment bundle is read from a stored vote with its position, which must
/// be there and not negative; a vote without a bundle has none. For recovery
/// both are read as they are stored.
pub proof fn law_commitment_bundle_by_columns(tables: Tables, key: VoteKey)
    ensures
        ({
            let vote = tables.votes[key];
            let stored = tables.votes.contains_key(key);
            let read = commitment_bundle_outcome(tables, key);
            &&& read is Ok <==> stored && (vote.commitment_bundle_json is Some ==> (
            vote.vc_tree_position matches Some(position) && position >= 0))
            &&& read is Err ==> (read matches Err(Fault::Internal(_)))
            &&& read matches Ok(found) ==> {
                &&& found is Some <==> vote.commitment_bundle_json is Some
                &&& found matches Some((json, position)) ==> Some(json)
                    == vote.commitment_bundle_json && vote.vc_tree_position == Some(position as i64)
            }
            &&& recovery_outcome(tables, key) is Some <==> stored
            &&& recovery_outcome(tables, key) matches Some((json, position)) ==> json
                == vote.commitment_bundle_json && position == vote.vc_tree_position
        }),
{
}

} // verus!
